//! The server's challenge: 13 bytes that a player signs, good for one authentication.

use vstd::prelude::*;
use vstd::utf8::encode_utf8;

use crate::clock::{now_utc, read_from_clock};
use crate::crypto::random_nonce;
use crate::error::{outcome, AuthError, ErrorKind};
use crate::hex::{
    decoded, decoding_ignores_case, decoding_undoes_encoding, hex_decode, hex_encode, hex_text,
    readable_in_pairs,
};
use crate::text::same_ignoring_case;

verus! {

/// The first byte of a challenge.
pub const CHALLENGE_PREFIX: u8 = 0x6a;

/// The last bytes of a challenge.
pub const CHALLENGE_SUFFIX: [u8; 4] = [0xF9, 0xBE, 0xB4, 0xD9];

/// The bytes of a challenge: the prefix, eight random bytes, the suffix.
pub open spec fn challenge_bytes(nonce: Seq<u8>) -> Seq<u8> {
    seq![CHALLENGE_PREFIX] + nonce + CHALLENGE_SUFFIX@
}

/// The bytes are those of a challenge: 13, with the prefix first and the suffix last.
pub open spec fn is_challenge(bytes: Seq<u8>) -> bool {
    &&& bytes.len() == 13
    &&& bytes[0] == CHALLENGE_PREFIX
    &&& bytes.subrange(9, 13) == CHALLENGE_SUFFIX@
}

/// The bytes of a challenge given as hex text, or what is wrong with it.
pub open spec fn parsed_challenge(hex: Seq<char>) -> Result<Seq<u8>, ErrorKind> {
    match decoded(hex) {
        Err(kind) => Err(kind),
        Ok(bytes) => if bytes.len() != 13 {
            Err(ErrorKind::ChallengeLength)
        } else if bytes[0] != CHALLENGE_PREFIX {
            Err(ErrorKind::ChallengePrefix)
        } else if bytes.subrange(9, 13) != CHALLENGE_SUFFIX@ {
            Err(ErrorKind::ChallengeSuffix)
        } else {
            Ok(bytes)
        },
    }
}

/// Reads a challenge from its hex text. A text that cannot be read in pairs without cutting a
/// character in two is left out.
pub fn parse_challenge(hex: &str) -> (result: Result<Vec<u8>, AuthError>)
    requires
        readable_in_pairs(hex@),
    ensures
        outcome(result) == parsed_challenge(hex@),
{
    let bytes: Vec<u8> = match hex_decode(hex) {
        Ok(bytes) => bytes,
        Err(error) => {
            return Err(error);
        },
    };
    if bytes.len() != 13 {
        return Err(AuthError::ChallengeLength);
    }
    if bytes[0] != CHALLENGE_PREFIX {
        return Err(AuthError::ChallengePrefix);
    }
    let mut i: usize = 0;
    while i < 4
        invariant
            i <= 4,
            bytes@.len() == 13,
            decoded(hex@) == Ok::<Seq<u8>, ErrorKind>(bytes@),
            bytes@[0] == CHALLENGE_PREFIX,
            forall|j: int| 0 <= j < i ==> bytes@[9 + j] == #[trigger] CHALLENGE_SUFFIX@[j],
        decreases 4 - i,
    {
        if bytes[9 + i] != CHALLENGE_SUFFIX[i] {
            assert(bytes@.subrange(9, 13)[i as int] != CHALLENGE_SUFFIX@[i as int]);
            return Err(AuthError::ChallengeSuffix);
        }
        i = i + 1;
    }
    assert(bytes@.subrange(9, 13) =~= CHALLENGE_SUFFIX@);
    Ok(bytes)
}

/// The challenge that the server issued last.
#[derive(Debug)]
pub struct ChallengeFile {
    /// The challenge as hex text.
    pub challenge: String,
    /// When it was issued, in seconds since the Unix epoch.
    pub issued_at_utc: u64,
    /// Whether it was accepted already.
    pub used: bool,
}

/// What a [`ChallengeFile`] holds.
pub struct ChallengeFileView {
    pub challenge: Seq<char>,
    pub issued_at_utc: u64,
    pub used: bool,
}

impl View for ChallengeFile {
    type V = ChallengeFileView;

    open spec fn view(&self) -> ChallengeFileView {
        ChallengeFileView {
            challenge: self.challenge@,
            issued_at_utc: self.issued_at_utc,
            used: self.used,
        }
    }
}

/// What stands for the challenge where none was issued.
pub open spec fn no_challenge() -> ChallengeFileView {
    ChallengeFileView { challenge: Seq::empty(), issued_at_utc: 0, used: false }
}

impl Default for ChallengeFile {
    /// What stands for the challenge where none was issued.
    fn default() -> (file: Self)
        ensures
            file@ == no_challenge(),
    {
        ChallengeFile { challenge: String::new(), issued_at_utc: 0, used: false }
    }
}

/// A challenge of a nonce, fresh at a time.
pub open spec fn issued(nonce: Seq<u8>, now: u64) -> ChallengeFileView {
    ChallengeFileView {
        challenge: hex_text(challenge_bytes(nonce)),
        issued_at_utc: now,
        used: false,
    }
}

/// Makes a challenge of a nonce.
pub fn issue_challenge(nonce: &[u8; 8], now: u64) -> (file: ChallengeFile)
    ensures
        file@ == issued(nonce@, now),
{
    let mut bytes: Vec<u8> = Vec::new();
    bytes.push(CHALLENGE_PREFIX);
    let mut i: usize = 0;
    while i < 8
        invariant
            i <= 8,
            bytes@ == seq![CHALLENGE_PREFIX] + nonce@.take(i as int),
        decreases 8 - i,
    {
        bytes.push(nonce[i]);
        assert(bytes@ =~= seq![CHALLENGE_PREFIX] + nonce@.take(i + 1));
        i = i + 1;
    }
    let ghost head = bytes@;
    assert(head =~= seq![CHALLENGE_PREFIX] + nonce@);
    let mut j: usize = 0;
    while j < 4
        invariant
            j <= 4,
            bytes@ == head + CHALLENGE_SUFFIX@.take(j as int),
        decreases 4 - j,
    {
        bytes.push(CHALLENGE_SUFFIX[j]);
        assert(bytes@ =~= head + CHALLENGE_SUFFIX@.take(j + 1));
        j = j + 1;
    }
    assert(bytes@ =~= challenge_bytes(nonce@));
    ChallengeFile { challenge: hex_encode(bytes.as_slice()), issued_at_utc: now, used: false }
}

/// Bytes, or a failure, are what the random source of the operating system gave when it was asked
/// for a nonce.
pub closed spec fn drawn_at_random(result: Result<[u8; 8], rand::Error>) -> bool {
    call_ensures(random_nonce, (), result)
}

/// Makes a fresh challenge of eight bytes from the random source of the operating system, at the
/// time of the system clock. Which bytes and which time cannot be said.
pub fn create_challenge() -> (result: Result<ChallengeFile, AuthError>)
    ensures
        match result {
            Ok(file) => exists|nonce: [u8; 8], now: u64|
                {
                    &&& drawn_at_random(Ok(nonce))
                    &&& read_from_clock(now)
                    &&& file@ == #[trigger] issued(nonce@, now)
                },
            Err(error) => error matches AuthError::RandomSource(cause) && drawn_at_random(
                Err(cause),
            ),
        },
{
    match random_nonce() {
        Ok(nonce) => {
            let now: u64 = now_utc();
            Ok(issue_challenge(&nonce, now))
        },
        Err(error) => Err(AuthError::RandomSource(error)),
    }
}

/// The challenge on file after a challenge was accepted against it, or why it is not accepted.
pub open spec fn consumed(file: ChallengeFileView, challenge_hex: Seq<char>) -> Result<
    ChallengeFileView,
    ErrorKind,
> {
    if !same_ignoring_case(file.challenge, challenge_hex) {
        Err(ErrorKind::StaleChallenge)
    } else if file.used {
        Err(ErrorKind::ChallengeUsed)
    } else {
        Ok(ChallengeFileView { used: true, ..file })
    }
}

/// Accepts a challenge against the one on file and marks that one used.
pub fn consume_challenge(file: ChallengeFile, challenge_hex: &str) -> (result: Result<
    ChallengeFile,
    AuthError,
>)
    ensures
        outcome(result) == consumed(file@, challenge_hex@),
{
    if !file.challenge.as_str().eq_ignore_ascii_case(challenge_hex) {
        return Err(AuthError::StaleChallenge);
    }
    if file.used {
        return Err(AuthError::ChallengeUsed);
    }
    Ok(ChallengeFile { challenge: file.challenge, issued_at_utc: file.issued_at_utc, used: true })
}

/// A challenge that was issued is one that parses, to the prefix, the nonce and the suffix.
pub proof fn issued_challenge_parses(nonce: Seq<u8>, now: u64)
    requires
        nonce.len() == 8,
    ensures
        readable_in_pairs(issued(nonce, now).challenge),
        parsed_challenge(issued(nonce, now).challenge) == Ok::<Seq<u8>, ErrorKind>(
            challenge_bytes(nonce),
        ),
{
    decoding_undoes_encoding(challenge_bytes(nonce));
    assert(challenge_bytes(nonce).subrange(9, 13) =~= CHALLENGE_SUFFIX@);
}

/// A text parses as a challenge if and only if it is hex of a prefix, eight bytes and a suffix.
pub proof fn parsed_challenge_has_the_format(hex: Seq<char>)
    ensures
        parsed_challenge(hex) is Ok <==> exists|nonce: Seq<u8>|
            nonce.len() == 8 && decoded(hex) == Ok::<Seq<u8>, ErrorKind>(
                #[trigger] challenge_bytes(nonce),
            ),
        parsed_challenge(hex) is Ok ==> parsed_challenge(hex) == decoded(hex),
{
    if parsed_challenge(hex) is Ok {
        let bytes = decoded(hex)->Ok_0;
        let nonce = bytes.subrange(1, 9);
        assert(bytes =~= challenge_bytes(nonce)) by {
            assert forall|i: int| 9 <= i < 13 implies bytes[i] == CHALLENGE_SUFFIX@[i - 9] by {
                assert(bytes.subrange(9, 13)[i - 9] == bytes[i]);
            }
        }
    }
    if exists|nonce: Seq<u8>|
        nonce.len() == 8 && decoded(hex) == Ok::<Seq<u8>, ErrorKind>(
            #[trigger] challenge_bytes(nonce),
        ) {
        let nonce = choose|nonce: Seq<u8>|
            nonce.len() == 8 && decoded(hex) == Ok::<Seq<u8>, ErrorKind>(
                #[trigger] challenge_bytes(nonce),
            );
        assert(challenge_bytes(nonce).subrange(9, 13) =~= CHALLENGE_SUFFIX@);
    }
}

/// Challenges of different nonces are different, whatever the case of their text: once another
/// challenge is on file, the one before it is refused.
pub proof fn new_challenge_displaces_the_old(old_nonce: Seq<u8>, new_nonce: Seq<u8>, now: u64)
    requires
        old_nonce.len() == 8,
        new_nonce.len() == 8,
        old_nonce != new_nonce,
    ensures
        forall|hex: Seq<char>|
            same_ignoring_case(hex, hex_text(challenge_bytes(old_nonce))) ==> (
            #[trigger] consumed(issued(new_nonce, now), hex)) == Err::<
                ChallengeFileView,
                ErrorKind,
            >(ErrorKind::StaleChallenge),
{
    let before = hex_text(challenge_bytes(old_nonce));
    let after = hex_text(challenge_bytes(new_nonce));
    assert(!same_ignoring_case(after, before)) by {
        if same_ignoring_case(after, before) {
            decoding_ignores_case(after, before);
            decoding_undoes_encoding(challenge_bytes(old_nonce));
            decoding_undoes_encoding(challenge_bytes(new_nonce));
            assert(old_nonce =~= challenge_bytes(old_nonce).subrange(1, 9));
            assert(new_nonce =~= challenge_bytes(new_nonce).subrange(1, 9));
        }
    }
}

/// A challenge is good once: where it was accepted, what is then on file refuses it, and refuses
/// every other.
pub proof fn challenge_is_single_use(
    file: ChallengeFileView,
    challenge_hex: Seq<char>,
    again: Seq<char>,
)
    requires
        consumed(file, challenge_hex) is Ok,
    ensures
        consumed(consumed(file, challenge_hex)->Ok_0, challenge_hex) == Err::<
            ChallengeFileView,
            ErrorKind,
        >(ErrorKind::ChallengeUsed),
        consumed(consumed(file, challenge_hex)->Ok_0, again) is Err,
{
}

/// Where no challenge was issued, none is accepted.
pub proof fn nothing_is_accepted_before_a_challenge(challenge_hex: Seq<char>)
    requires
        parsed_challenge(challenge_hex) is Ok,
    ensures
        consumed(no_challenge(), challenge_hex) == Err::<ChallengeFileView, ErrorKind>(
            ErrorKind::StaleChallenge,
        ),
{
    if same_ignoring_case(no_challenge().challenge, challenge_hex) {
        decoding_ignores_case(no_challenge().challenge, challenge_hex);
        assert(encode_utf8(Seq::<char>::empty()).len() == 0);
    }
}

/// The bytes of a challenge, one by one: 0x6a, the eight bytes of the nonce, and 0xF9BEB4D9.
pub proof fn challenge_is_prefix_nonce_suffix(nonce: Seq<u8>)
    requires
        nonce.len() == 8,
    ensures
        challenge_bytes(nonce).len() == 13,
        challenge_bytes(nonce)[0] == 0x6a,
        forall|i: int| 0 <= i < 8 ==> challenge_bytes(nonce)[1 + i] == #[trigger] nonce[i],
        challenge_bytes(nonce)[9] == 0xF9,
        challenge_bytes(nonce)[10] == 0xBE,
        challenge_bytes(nonce)[11] == 0xB4,
        challenge_bytes(nonce)[12] == 0xD9,
{
}

/// A text parses as a challenge exactly if it is hex of 13 bytes, of which the first is 0x6a and the
/// last four are 0xF9BEB4D9; it parses to those bytes. Otherwise the first thing wrong is named:
/// the hex, the length, the first byte, the last four.
pub proof fn only_thirteen_framed_bytes_parse(hex: Seq<char>)
    ensures
        match decoded(hex) {
            Err(kind) => parsed_challenge(hex) == Err::<Seq<u8>, ErrorKind>(kind),
            Ok(bytes) => {
                let framed = bytes[9] == 0xF9 && bytes[10] == 0xBE && bytes[11] == 0xB4
                    && bytes[12] == 0xD9;
                &&& bytes.len() != 13 ==> parsed_challenge(hex) == Err::<Seq<u8>, ErrorKind>(
                    ErrorKind::ChallengeLength,
                )
                &&& bytes.len() == 13 && bytes[0] != 0x6a ==> parsed_challenge(hex) == Err::<
                    Seq<u8>,
                    ErrorKind,
                >(ErrorKind::ChallengePrefix)
                &&& bytes.len() == 13 && bytes[0] == 0x6a && !framed ==> parsed_challenge(hex)
                    == Err::<Seq<u8>, ErrorKind>(ErrorKind::ChallengeSuffix)
                &&& bytes.len() == 13 && bytes[0] == 0x6a && framed ==> parsed_challenge(hex)
                    == Ok::<Seq<u8>, ErrorKind>(bytes)
            },
        },
{
    if decoded(hex) is Ok {
        let bytes = decoded(hex)->Ok_0;
        if bytes.len() == 13 {
            let tail = bytes.subrange(9, 13);
            assert(tail[0] == bytes[9] && tail[1] == bytes[10] && tail[2] == bytes[11] && tail[3]
                == bytes[12]);
            assert(CHALLENGE_SUFFIX@[0] == 0xF9 && CHALLENGE_SUFFIX@[1] == 0xBE
                && CHALLENGE_SUFFIX@[2] == 0xB4 && CHALLENGE_SUFFIX@[3] == 0xD9);
            if bytes[9] == 0xF9 && bytes[10] == 0xBE && bytes[11] == 0xB4 && bytes[12] == 0xD9 {
                assert(tail =~= CHALLENGE_SUFFIX@);
            }
        }
    }
}

/// What a server issues holds the nonce between the prefix and the suffix, and the time, and is not
/// used. Reading the challenge back gives the nonce.
pub proof fn issued_challenge_holds_the_nonce(nonce: Seq<u8>, now: u64)
    requires
        nonce.len() == 8,
    ensures
        parsed_challenge(issued(nonce, now).challenge) matches Ok(bytes) && bytes.len() == 13
            && bytes.subrange(1, 9) == nonce,
        issued(nonce, now).issued_at_utc == now,
        !issued(nonce, now).used,
{
    issued_challenge_parses(nonce, now);
    assert(challenge_bytes(nonce).subrange(1, 9) =~= nonce);
}

/// A challenge is accepted exactly if it is the one on file, whatever its case, and that one was not
/// used; what is then on file differs in nothing but that it is used.
pub proof fn only_the_unused_challenge_on_file_is_accepted(
    file: ChallengeFileView,
    challenge_hex: Seq<char>,
)
    ensures
        consumed(file, challenge_hex) is Ok <==> same_ignoring_case(file.challenge, challenge_hex)
            && !file.used,
        consumed(file, challenge_hex) matches Ok(after) ==> after.used && after.challenge
            == file.challenge && after.issued_at_utc == file.issued_at_utc,
        consumed(file, challenge_hex) matches Err(kind) ==> kind == if same_ignoring_case(
            file.challenge,
            challenge_hex,
        ) {
            ErrorKind::ChallengeUsed
        } else {
            ErrorKind::StaleChallenge
        },
{
}

/// A challenge file is seen by its fields as they are.
pub proof fn challenge_file_is_seen_as_it_is(file: ChallengeFile)
    ensures
        file@.challenge == file.challenge@,
        file@.issued_at_utc == file.issued_at_utc,
        file@.used == file.used,
{
}

/// A nonce is drawn at random exactly if it is what the random source gave, as it gave it.
pub(crate) proof fn nonce_is_what_the_source_gave(result: Result<[u8; 8], rand::Error>)
    ensures
        drawn_at_random(result) <==> call_ensures(random_nonce, (), result),
{
}

} // verus!
