//! The player's side: signing a challenge with a key of the wallet.

use vstd::prelude::*;

use crate::challenge::{
    is_challenge, only_thirteen_framed_bytes_parse, parse_challenge, parsed_challenge,
};
use crate::crypto::{ed25519_public_key, ed25519_signature, ed25519_verifies, sign};
use crate::error::{outcome, view_option, AuthError, ErrorKind};
use crate::hex::{
    decoded, decoding_ignores_case, decoding_undoes_encoding, hex_decode, hex_encode, hex_text,
    readable_in_pairs, reads_in_pairs, what_is_read_can_be_read,
};
use crate::keys::{derive_keypair, derived_key, DerivedKey, DerivedKeyView};
use crate::server::{proof_stands, AuthRequestView};
use crate::text::{decimal, decimal_text, headed, same_ignoring_case, texts};
use crate::wallet::{
    address_to_sign_with, chosen_address_is_of_the_wallet, key_anywhere_in_the_wallet_signs,
    requested_index_signs_with_its_own_key, select_signing_address, WalletAddress,
    WalletAddressView, WalletFile, WalletView,
};

verus! {

/// What is ready to be signed: the address of the wallet, the bytes of the challenge, and the key
/// derived for the address.
pub struct SigningSession {
    pub selected: WalletAddress,
    pub challenge: Vec<u8>,
    pub key: DerivedKey,
}

/// What a [`SigningSession`] holds.
pub struct SigningSessionView {
    pub selected: WalletAddressView,
    pub challenge: Seq<u8>,
    pub key: DerivedKeyView,
}

impl View for SigningSession {
    type V = SigningSessionView;

    open spec fn view(&self) -> SigningSessionView {
        SigningSessionView {
            selected: self.selected@,
            challenge: self.challenge@,
            key: self.key@,
        }
    }
}

impl SigningSessionView {
    /// The challenge is one.
    pub open spec fn well_formed(self) -> bool {
        is_challenge(self.challenge)
    }
}

/// What is ready to be signed for a public key and a challenge, or why nothing is.
pub open spec fn session_for(
    public_key_hex: Seq<char>,
    challenge_hex: Seq<char>,
    wallet: WalletView,
    address_index: Option<u32>,
) -> Result<SigningSessionView, ErrorKind> {
    match address_to_sign_with(wallet.addresses, public_key_hex, address_index) {
        Err(kind) => Err(kind),
        Ok(selected) => match parsed_challenge(challenge_hex) {
            Err(kind) => Err(kind),
            Ok(challenge) => match derived_key(
                wallet.seed_phrase,
                wallet.bip39_passphrase,
                selected.index,
            ) {
                Err(kind) => Err(kind),
                Ok(key) => Ok(SigningSessionView { selected, challenge, key }),
            },
        },
    }
}

/// Chooses the address, reads the challenge and derives the key. A challenge that is read, and
/// cannot be in pairs without cutting a character in two, is left out.
pub fn prepare_signing(
    public_key_hex: &str,
    challenge_hex: &str,
    wallet: &WalletFile,
    address_index: Option<u32>,
) -> (result: Result<SigningSession, AuthError>)
    requires
        address_to_sign_with(wallet@.addresses, public_key_hex@, address_index) is Ok
            ==> readable_in_pairs(challenge_hex@),
    ensures
        outcome(result) == session_for(public_key_hex@, challenge_hex@, wallet@, address_index),
        result matches Ok(session) ==> session@.well_formed() && session@.key.genuine(),
{
    let selected: WalletAddress = match select_signing_address(
        wallet,
        public_key_hex,
        address_index,
    ) {
        Ok(selected) => selected,
        Err(error) => {
            return Err(error);
        },
    };
    let challenge: Vec<u8> = match parse_challenge(challenge_hex) {
        Ok(challenge) => challenge,
        Err(error) => {
            return Err(error);
        },
    };
    match derive_keypair(
        wallet.seed_phrase.as_str(),
        wallet.bip39_passphrase.as_str(),
        selected.index,
    ) {
        Ok(key) => Ok(SigningSession { selected, challenge, key }),
        Err(error) => Err(error),
    }
}

/// The wallet's own word on an address agrees with the key derived for it, or where it does not:
/// the public keys, then the addresses, whatever their case.
pub open spec fn confirmed(selected: WalletAddressView, key: DerivedKeyView) -> Result<
    (),
    ErrorKind,
> {
    match decoded(selected.public_key_hex) {
        Err(kind) => Err(kind),
        Ok(listed) => if key.public_key != listed {
            Err(ErrorKind::DerivedKeyMismatch(selected.index))
        } else if !same_ignoring_case(key.address, selected.address) {
            Err(ErrorKind::DerivedAddressMismatch(selected.index))
        } else {
            Ok(())
        },
    }
}

/// Checks the wallet's own word on an address against the key derived for it. A public key that
/// cannot be read in pairs without cutting a character in two is left out.
pub fn confirm_derived_key(selected: &WalletAddress, key: &DerivedKey) -> (result: Result<
    (),
    AuthError,
>)
    requires
        readable_in_pairs(selected.public_key_hex@),
    ensures
        outcome(result) == confirmed(selected@, key@),
{
    let listed: Vec<u8> = match hex_decode(selected.public_key_hex.as_str()) {
        Ok(listed) => listed,
        Err(error) => {
            return Err(error);
        },
    };
    if listed.len() != 32 {
        return Err(AuthError::DerivedKeyMismatch(selected.index));
    }
    let mut i: usize = 0;
    while i < 32
        invariant
            i <= 32,
            listed@.len() == 32,
            decoded(selected@.public_key_hex) == Ok::<Seq<u8>, ErrorKind>(listed@),
            forall|j: int| 0 <= j < i ==> (#[trigger] key.public_key@[j]) == listed@[j],
        decreases 32 - i,
    {
        if key.public_key[i] != listed[i] {
            assert(key.public_key@[i as int] != listed@[i as int]);
            return Err(AuthError::DerivedKeyMismatch(selected.index));
        }
        i = i + 1;
    }
    assert(key.public_key@ =~= listed@);
    if !key.address.as_str().eq_ignore_ascii_case(selected.address.as_str()) {
        return Err(AuthError::DerivedAddressMismatch(selected.index));
    }
    Ok(())
}

/// A signed challenge, as the player hands it to the server.
#[derive(Debug)]
pub struct SignedChallenge {
    /// The public key as the wallet has it.
    pub public_key: String,
    pub address_index: u32,
    pub address: String,
    /// The signature as hex text.
    pub signature: String,
    /// The challenge as hex text.
    pub challenge: String,
}

/// What a [`SignedChallenge`] holds.
pub struct SignedChallengeView {
    pub public_key: Seq<char>,
    pub address_index: u32,
    pub address: Seq<char>,
    pub signature: Seq<char>,
    pub challenge: Seq<char>,
}

impl View for SignedChallenge {
    type V = SignedChallengeView;

    open spec fn view(&self) -> SignedChallengeView {
        SignedChallengeView {
            public_key: self.public_key@,
            address_index: self.address_index,
            address: self.address@,
            signature: self.signature@,
            challenge: self.challenge@,
        }
    }
}

/// What a player presents to the server of a signed challenge.
pub open spec fn request_of(signed: SignedChallengeView) -> AuthRequestView {
    AuthRequestView {
        public_key: signed.public_key,
        challenge: signed.challenge,
        signature: signed.signature,
    }
}

/// A signed challenge is proof, at the server, that the player holds the key of the address.
pub open spec fn convinces(signed: SignedChallengeView) -> bool {
    proof_stands(request_of(signed), signed.address)
}

/// The challenge signed with the key, if the wallet's own word agrees with the key. The bytes of
/// the challenge are signed as they are.
pub open spec fn signed(session: SigningSessionView) -> Result<SignedChallengeView, ErrorKind> {
    match confirmed(session.selected, session.key) {
        Err(kind) => Err(kind),
        Ok(_) => Ok(
            SignedChallengeView {
                public_key: session.selected.public_key_hex,
                address_index: session.selected.index,
                address: session.selected.address,
                signature: hex_text(
                    ed25519_signature(session.key.signing_key, session.challenge),
                ),
                challenge: hex_text(session.challenge),
            },
        ),
    }
}

/// Where the key is genuine and the signature verifies under it, what is signed convinces.
proof fn lemma_signed_convinces(session: SigningSessionView, signature: Seq<u8>)
    requires
        session.well_formed(),
        signature.len() == 64,
        signature == ed25519_signature(session.key.signing_key, session.challenge),
        ed25519_verifies(
            ed25519_public_key(session.key.signing_key),
            session.challenge,
            signature,
        ),
        session.key.public_key.len() == 32,
    ensures
        session.key.genuine() ==> (signed(session) matches Ok(signed) ==> convinces(signed)),
{
    decoding_undoes_encoding(session.challenge);
    decoding_undoes_encoding(signature);
}

/// Signs the challenge, if the wallet's own word agrees with the key. A public key that cannot be
/// read in pairs without cutting a character in two is left out.
pub fn sign_challenge(session: &SigningSession) -> (result: Result<SignedChallenge, AuthError>)
    requires
        session@.well_formed(),
        readable_in_pairs(session.selected.public_key_hex@),
    ensures
        outcome(result) == signed(session@),
        result matches Ok(signed) ==> signed@.signature.len() == 128,
        session@.key.genuine() ==> (result matches Ok(signed) ==> convinces(signed@)),
{
    if let Err(error) = confirm_derived_key(&session.selected, &session.key) {
        return Err(error);
    }
    let signature: [u8; 64] = sign(&session.key.signing_key, session.challenge.as_slice());
    proof {
        lemma_signed_convinces(session@, signature@);
    }
    Ok(
        SignedChallenge {
            public_key: session.selected.public_key_hex.clone(),
            address_index: session.selected.index,
            address: session.selected.address.clone(),
            signature: hex_encode(&signature),
            challenge: hex_encode(session.challenge.as_slice()),
        },
    )
}

/// What comes of asking to sign a challenge for a public key: nothing, where a hex text that has
/// to be read cannot be in pairs without cutting a character in two; else the signed challenge or
/// the reason why there is none.
pub open spec fn validation(
    public_key_hex: Seq<char>,
    challenge_hex: Seq<char>,
    wallet: WalletView,
    address_index: Option<u32>,
) -> Option<Result<SignedChallengeView, ErrorKind>> {
    match address_to_sign_with(wallet.addresses, public_key_hex, address_index) {
        Err(kind) => Some(Err(kind)),
        Ok(selected) => if !readable_in_pairs(challenge_hex) {
            None
        } else {
            match session_for(public_key_hex, challenge_hex, wallet, address_index) {
                Err(kind) => Some(Err(kind)),
                Ok(session) => if !readable_in_pairs(selected.public_key_hex) {
                    None
                } else {
                    Some(signed(session))
                },
            }
        },
    }
}

/// A validation by its views.
pub open spec fn validation_view(
    result: Option<Result<SignedChallenge, AuthError>>,
) -> Option<Result<SignedChallengeView, ErrorKind>> {
    match result {
        Some(answer) => Some(outcome(answer)),
        None => None,
    }
}

/// Signs a challenge with the private key of a public key of the wallet. There is no result where
/// a hex text that has to be read cannot be in pairs without cutting a character in two.
pub fn validate_client(
    public_key_hex: &str,
    challenge_hex: &str,
    wallet: &WalletFile,
    address_index: Option<u32>,
) -> (result: Option<Result<SignedChallenge, AuthError>>)
    ensures
        validation_view(result) == validation(
            public_key_hex@,
            challenge_hex@,
            wallet@,
            address_index,
        ),
        result matches Some(Ok(signed)) ==> convinces(signed@) && signed@.signature.len() == 128,
{
    if let Err(error) = select_signing_address(wallet, public_key_hex, address_index) {
        return Some(Err(error));
    }
    if !reads_in_pairs(challenge_hex) {
        return None;
    }
    match prepare_signing(public_key_hex, challenge_hex, wallet, address_index) {
        Err(error) => Some(Err(error)),
        Ok(session) => if !reads_in_pairs(session.selected.public_key_hex.as_str()) {
            None
        } else {
            Some(sign_challenge(&session))
        },
    }
}

/// What a signed challenge is reported as.
pub open spec fn signing_report(signed: SignedChallengeView) -> Seq<Seq<char>> {
    seq![
        "public_key="@ + signed.public_key,
        "address_index="@ + decimal(signed.address_index as nat),
        "address="@ + signed.address,
        "signature="@ + signed.signature,
        "challenge="@ + signed.challenge,
    ]
}

/// The lines that report a signed challenge.
pub fn signing_lines(signed: &SignedChallenge) -> (lines: Vec<String>)
    ensures
        texts(lines@) == signing_report(signed@),
{
    let lines: Vec<String> = vec![
        headed("public_key=", signed.public_key.as_str()),
        headed("address_index=", decimal_text(signed.address_index).as_str()),
        headed("address=", signed.address.as_str()),
        headed("signature=", signed.signature.as_str()),
        headed("challenge=", signed.challenge.as_str()),
    ];
    assert(texts(lines@) =~= signing_report(signed@));
    lines
}

/// What is signed is the challenge that was asked for, by an address of the wallet that has the
/// public key that was asked for, with the private key that matches it.
pub proof fn signed_is_what_was_asked_for(
    public_key_hex: Seq<char>,
    challenge_hex: Seq<char>,
    wallet: WalletView,
    address_index: Option<u32>,
)
    requires
        validation(public_key_hex, challenge_hex, wallet, address_index) matches Some(Ok(_)),
    ensures
        ({
            let signed = validation(public_key_hex, challenge_hex, wallet, address_index)->0->Ok_0;
            &&& parsed_challenge(challenge_hex) is Ok
            &&& decoded(signed.challenge) == decoded(challenge_hex)
            &&& same_ignoring_case(signed.public_key, public_key_hex)
            &&& address_index is Some ==> address_index == Some(signed.address_index)
            &&& derived_key(
                wallet.seed_phrase,
                wallet.bip39_passphrase,
                signed.address_index,
            ) matches Ok(key) && decoded(public_key_hex) == Ok::<Seq<u8>, ErrorKind>(
                key.public_key,
            ) && signed.signature == hex_text(
                ed25519_signature(key.signing_key, parsed_challenge(challenge_hex)->Ok_0),
            )
            &&& exists|k: int|
                {
                    &&& 0 <= k < wallet.addresses.len()
                    &&& (#[trigger] wallet.addresses[k]).public_key_hex == signed.public_key
                    &&& wallet.addresses[k].address == signed.address
                    &&& wallet.addresses[k].index == signed.address_index
                }
        }),
{
    let session = session_for(public_key_hex, challenge_hex, wallet, address_index)->Ok_0;
    decoding_undoes_encoding(session.challenge);
    chosen_address_is_of_the_wallet(wallet.addresses, public_key_hex, address_index);
    decoding_ignores_case(session.selected.public_key_hex, public_key_hex);
}

/// The holder of a key can sign: where the first address with the public key, or the one at the
/// index asked for, is what the seed phrase gives at its index, every challenge that parses is
/// signed with its private key, whatever stands elsewhere in the wallet.
pub proof fn holder_of_a_key_can_sign(
    public_key_hex: Seq<char>,
    challenge_hex: Seq<char>,
    wallet: WalletView,
    address_index: Option<u32>,
    k: int,
    challenge: Seq<u8>,
    key: DerivedKeyView,
)
    requires
        0 <= k < wallet.addresses.len(),
        same_ignoring_case(wallet.addresses[k].public_key_hex, public_key_hex),
        match address_index {
            Some(index) => wallet.addresses[k].index == index && forall|j: int|
                0 <= j < k ==> (#[trigger] wallet.addresses[j]).index != index,
            None => forall|j: int|
                0 <= j < k ==> !same_ignoring_case(
                    (#[trigger] wallet.addresses[j]).public_key_hex,
                    public_key_hex,
                ),
        },
        parsed_challenge(challenge_hex) == Ok::<Seq<u8>, ErrorKind>(challenge),
        derived_key(wallet.seed_phrase, wallet.bip39_passphrase, wallet.addresses[k].index) == Ok::<
            DerivedKeyView,
            ErrorKind,
        >(key),
        decoded(wallet.addresses[k].public_key_hex) == Ok::<Seq<u8>, ErrorKind>(key.public_key),
        same_ignoring_case(key.address, wallet.addresses[k].address),
    ensures
        validation(public_key_hex, challenge_hex, wallet, address_index) matches Some(Ok(signed))
            && {
            &&& signed.public_key == wallet.addresses[k].public_key_hex
            &&& signed.address_index == wallet.addresses[k].index
            &&& signed.address == wallet.addresses[k].address
            &&& signed.signature == hex_text(ed25519_signature(key.signing_key, challenge))
            &&& signed.challenge == hex_text(challenge)
        },
{
    lemma_choice(wallet.addresses, public_key_hex, address_index, k);
    only_thirteen_framed_bytes_parse(challenge_hex);
    what_is_read_can_be_read(challenge_hex);
    what_is_read_can_be_read(wallet.addresses[k].public_key_hex);
}

/// The address that is first with the index, or else first with the key, is chosen.
proof fn lemma_choice(
    addresses: Seq<WalletAddressView>,
    public_key_hex: Seq<char>,
    address_index: Option<u32>,
    k: int,
)
    requires
        0 <= k < addresses.len(),
        same_ignoring_case(addresses[k].public_key_hex, public_key_hex),
        match address_index {
            Some(index) => addresses[k].index == index && forall|j: int|
                0 <= j < k ==> (#[trigger] addresses[j]).index != index,
            None => forall|j: int|
                0 <= j < k ==> !same_ignoring_case(
                    (#[trigger] addresses[j]).public_key_hex,
                    public_key_hex,
                ),
        },
    ensures
        address_to_sign_with(addresses, public_key_hex, address_index) == Ok::<
            WalletAddressView,
            ErrorKind,
        >(addresses[k]),
{
    match address_index {
        Some(index) => requested_index_signs_with_its_own_key(
            addresses,
            public_key_hex,
            index,
            k,
        ),
        None => key_anywhere_in_the_wallet_signs(addresses, public_key_hex, k),
    }
}

/// A wallet whose own word disagrees with its seed phrase signs nothing: not where the public key it
/// lists, read whole, is another than the derived one, and not where the address is.
pub proof fn wallet_that_disagrees_signs_nothing(
    selected: WalletAddressView,
    key: DerivedKeyView,
    challenge: Seq<u8>,
)
    ensures
        ({
            let result = signed(SigningSessionView { selected, challenge, key });
            match decoded(selected.public_key_hex) {
                Err(kind) => result == Err::<SignedChallengeView, ErrorKind>(kind),
                Ok(listed) => {
                    &&& listed != key.public_key ==> result == Err::<
                        SignedChallengeView,
                        ErrorKind,
                    >(ErrorKind::DerivedKeyMismatch(selected.index))
                    &&& listed == key.public_key && !same_ignoring_case(
                        key.address,
                        selected.address,
                    ) ==> result == Err::<SignedChallengeView, ErrorKind>(
                        ErrorKind::DerivedAddressMismatch(selected.index),
                    )
                    &&& listed == key.public_key && same_ignoring_case(
                        key.address,
                        selected.address,
                    ) ==> result is Ok
                },
            }
        }),
{
}

/// Signing that fails names the first thing that does: the choice of the address, the challenge, the
/// derivation. There is no result only where the challenge, or the listed key of the chosen
/// address, cannot be read.
pub proof fn signing_fails_for_its_reason(
    public_key_hex: Seq<char>,
    challenge_hex: Seq<char>,
    wallet: WalletView,
    address_index: Option<u32>,
)
    ensures
        ({
            let result = validation(public_key_hex, challenge_hex, wallet, address_index);
            let choice = address_to_sign_with(wallet.addresses, public_key_hex, address_index);
            let parsed = parsed_challenge(challenge_hex);
            let derived = derived_key(
                wallet.seed_phrase,
                wallet.bip39_passphrase,
                choice->Ok_0.index,
            );
            let fails = |kind: ErrorKind| Some(Err::<SignedChallengeView, ErrorKind>(kind));
            &&& choice matches Err(kind) ==> result == fails(kind)
            &&& choice is Ok && readable_in_pairs(challenge_hex) ==> {
                &&& parsed matches Err(kind) ==> result == fails(kind)
                &&& parsed is Ok ==> (derived matches Err(kind) ==> result == fails(kind))
                &&& parsed is Ok && derived is Ok && readable_in_pairs(
                    choice->Ok_0.public_key_hex,
                ) ==> result == Some(
                    signed(
                        SigningSessionView {
                            selected: choice->Ok_0,
                            challenge: parsed->Ok_0,
                            key: derived->Ok_0,
                        },
                    ),
                )
            }
            &&& result is None <==> choice is Ok && (!readable_in_pairs(challenge_hex) || parsed
                is Ok && derived is Ok && !readable_in_pairs(choice->Ok_0.public_key_hex))
        }),
{
}

/// A signed challenge is reported in five lines, each with the whole of what it names.
pub proof fn signing_report_says_what_was_signed(signed: SignedChallengeView)
    ensures
        signing_report(signed).len() == 5,
        signing_report(signed)[0] == "public_key="@ + signed.public_key,
        signing_report(signed)[1] == "address_index="@ + decimal(signed.address_index as nat),
        signing_report(signed)[2] == "address="@ + signed.address,
        signing_report(signed)[3] == "signature="@ + signed.signature,
        signing_report(signed)[4] == "challenge="@ + signed.challenge,
{
}

/// A session and a signed challenge are seen as they are.
pub proof fn signing_is_seen_as_it_is(session: SigningSession, signed: SignedChallenge)
    ensures
        session@.selected.index == session.selected.index,
        session@.selected.address == session.selected.address@,
        session@.selected.public_key_hex == session.selected.public_key_hex@,
        session@.challenge == session.challenge@,
        session@.key.signing_key == session.key.signing_key@,
        session@.key.public_key == session.key.public_key@,
        session@.key.address == session.key.address@,
        signed@.public_key == signed.public_key@,
        signed@.address_index == signed.address_index,
        signed@.address == signed.address@,
        signed@.signature == signed.signature@,
        signed@.challenge == signed.challenge@,
{
}

} // verus!
