//! Keys and addresses.
//!
//! A key is derived from a wallet's seed phrase in these steps: the BIP39 seed of the phrase and
//! its passphrase; the BIP32 master key; the hardened child at the address index; the child's
//! extended private key as text; the first 32 bytes of that text, which are the Ed25519 secret
//! key; the public key; the SHA3-256 digest of the public key in hex, which is the address.

use vstd::prelude::*;
use vstd::string::StringSliceAdditionalSpecFns;
use vstd::utf8::encode_utf8;

use crate::crypto::{
    bip32_child, bip32_master, bip39_seed, child_key, ed25519_is_public_key, ed25519_public_key,
    hardened_child_number, master_key, public_key_of, seed_of_phrase, sha3_256, sha3_256_digest,
    HARDENED,
};
use crate::error::{outcome, AuthError, ErrorKind};
use crate::hex::{decoded, decoding_undoes_encoding, hex_encode, hex_text};

verus! {

/// The Lineage address of a public key.
pub open spec fn address_of(public_key: Seq<u8>) -> Seq<char> {
    hex_text(sha3_256_digest(public_key))
}

/// The Lineage address of a public key: the hex text of its SHA3-256 digest.
pub fn address_from_public_key(public_key: &[u8; 32]) -> (address: String)
    ensures
        address@ == address_of(public_key@),
        address@.len() == 64,
{
    let digest: [u8; 32] = sha3_256(public_key);
    hex_encode(&digest)
}

/// A key of a wallet.
pub struct DerivedKey {
    pub address: String,
    pub public_key: [u8; 32],
    /// The secret key to sign with.
    pub signing_key: [u8; 32],
}

/// What a [`DerivedKey`] holds.
pub struct DerivedKeyView {
    pub address: Seq<char>,
    pub public_key: Seq<u8>,
    pub signing_key: Seq<u8>,
}

impl View for DerivedKey {
    type V = DerivedKeyView;

    open spec fn view(&self) -> DerivedKeyView {
        DerivedKeyView {
            address: self.address@,
            public_key: self.public_key@,
            signing_key: self.signing_key@,
        }
    }
}

impl DerivedKeyView {
    /// The public key is a public key, the one of the secret key, and the address is its own.
    pub open spec fn genuine(self) -> bool {
        &&& ed25519_is_public_key(self.public_key)
        &&& self.public_key == ed25519_public_key(self.signing_key)
        &&& self.address == address_of(self.public_key)
    }
}

/// The first 32 of some bytes.
pub fn first_32_bytes(bytes: &[u8]) -> (array: [u8; 32])
    requires
        bytes@.len() >= 32,
    ensures
        array@ == bytes@.take(32),
{
    let mut array: [u8; 32] = [0u8; 32];
    let mut i: usize = 0;
    while i < 32
        invariant
            i <= 32,
            bytes@.len() >= 32,
            forall|j: int| 0 <= j < i ==> array@[j] == bytes@[j],
        decreases 32 - i,
    {
        array[i] = bytes[i];
        i = i + 1;
    }
    assert(array@ =~= bytes@.take(32));
    array
}

/// The secret key that the text of an extended private key gives: its first 32 bytes.
pub open spec fn secret_of_xpriv(xpriv: Seq<char>) -> Result<Seq<u8>, ErrorKind> {
    let bytes = encode_utf8(xpriv);
    if bytes.len() < 32 {
        Err(ErrorKind::ShortXpriv)
    } else {
        Ok(bytes.take(32))
    }
}

/// Takes the secret key out of the text of an extended private key.
pub fn secret_from_xpriv(xpriv: &str) -> (result: Result<[u8; 32], AuthError>)
    ensures
        outcome(result) == secret_of_xpriv(xpriv@),
{
    let bytes = xpriv.as_bytes();
    if bytes.len() < 32 {
        Err(AuthError::ShortXpriv)
    } else {
        Ok(first_32_bytes(bytes))
    }
}

/// The key of a secret key.
pub open spec fn key_of_secret(secret: Seq<u8>) -> DerivedKeyView {
    DerivedKeyView {
        address: address_of(ed25519_public_key(secret)),
        public_key: ed25519_public_key(secret),
        signing_key: secret,
    }
}

/// The key of the text of an extended private key.
pub open spec fn key_of_xpriv(xpriv: Seq<char>) -> Result<DerivedKeyView, ErrorKind> {
    match secret_of_xpriv(xpriv) {
        Err(kind) => Err(kind),
        Ok(secret) => Ok(key_of_secret(secret)),
    }
}

/// The key of a wallet at an address index.
pub open spec fn derived_key(
    seed_phrase: Seq<char>,
    passphrase: Seq<char>,
    index: u32,
) -> Result<DerivedKeyView, ErrorKind> {
    match bip39_seed(seed_phrase, passphrase) {
        None => Err(ErrorKind::SeedPhrase),
        Some(seed) => match bip32_master(seed) {
            None => Err(ErrorKind::MasterKey),
            Some(master) => if index >= HARDENED {
                Err(ErrorKind::ChildNumber)
            } else {
                match bip32_child(master, (index + HARDENED) as u32) {
                    None => Err(ErrorKind::ChildKey),
                    Some(xpriv) => key_of_xpriv(xpriv),
                }
            },
        },
    }
}

/// The key of the text of an extended private key.
pub fn key_from_xpriv(xpriv: &str) -> (result: Result<DerivedKey, AuthError>)
    ensures
        outcome(result) == key_of_xpriv(xpriv@),
        result matches Ok(key) ==> key@.genuine(),
{
    match secret_from_xpriv(xpriv) {
        Err(error) => Err(error),
        Ok(signing_key) => {
            let public_key: [u8; 32] = public_key_of(&signing_key);
            let address = address_from_public_key(&public_key);
            Ok(DerivedKey { address, public_key, signing_key })
        },
    }
}

/// Derives the key of a wallet at an address index.
pub fn derive_keypair(seed_phrase: &str, passphrase: &str, index: u32) -> (result: Result<
    DerivedKey,
    AuthError,
>)
    ensures
        outcome(result) == derived_key(seed_phrase@, passphrase@, index),
        result matches Ok(key) ==> key@.genuine(),
        bip39_seed(seed_phrase@, passphrase@) matches Some(seed) ==> (bip32_master(seed) matches Some(
            master,
        ) ==> (bip32_child(master, (index + 0x8000_0000) as u32) matches Some(xpriv) ==> (index
            < 0x8000_0000 && encode_utf8(xpriv).len() >= 32 ==> (result matches Ok(key) && {
            &&& key.signing_key@ == encode_utf8(xpriv).take(32)
            &&& key.public_key@ == ed25519_public_key(key.signing_key@)
            &&& key.address@ == hex_text(sha3_256_digest(key.public_key@))
        })))),
{
    let seed: [u8; 64] = match seed_of_phrase(seed_phrase, passphrase) {
        Ok(seed) => seed,
        Err(error) => {
            return Err(AuthError::SeedPhrase(error));
        },
    };
    let master: [u8; 78] = match master_key(&seed) {
        Ok(master) => master,
        Err(error) => {
            return Err(AuthError::MasterKey(error));
        },
    };
    let number: u32 = match hardened_child_number(index) {
        Ok(number) => number,
        Err(error) => {
            return Err(AuthError::ChildNumber(error));
        },
    };
    match child_key(&master, number) {
        Ok(xpriv) => key_from_xpriv(xpriv.as_str()),
        Err(error) => Err(AuthError::ChildKey(error)),
    }
}

/// The derived key is that of the whole phrase, the whole passphrase and the index: where the seed
/// of the phrase under the passphrase has a master key, and that has a hardened child at the index,
/// the secret key is the first 32 bytes of the child's text, the public key is that of the secret
/// key, and the address reads as the digest of the public key.
pub proof fn derived_key_is_that_of_the_seed_and_index(
    seed_phrase: Seq<char>,
    passphrase: Seq<char>,
    index: u32,
    seed: Seq<u8>,
    master: Seq<u8>,
    xpriv: Seq<char>,
)
    requires
        bip39_seed(seed_phrase, passphrase) == Some(seed),
        bip32_master(seed) == Some(master),
        index < 0x8000_0000,
        bip32_child(master, (index + 0x8000_0000) as u32) == Some(xpriv),
        encode_utf8(xpriv).len() >= 32,
    ensures
        derived_key(seed_phrase, passphrase, index) matches Ok(key) && {
            &&& key.signing_key == encode_utf8(xpriv).take(32)
            &&& key.public_key == ed25519_public_key(encode_utf8(xpriv).take(32))
            &&& key.address == hex_text(sha3_256_digest(key.public_key))
            &&& decoded(key.address) == Ok::<Seq<u8>, ErrorKind>(sha3_256_digest(key.public_key))
        },
{
    decoding_undoes_encoding(sha3_256_digest(ed25519_public_key(encode_utf8(xpriv).take(32))));
}

/// Deriving a key fails exactly where a step fails, and names the first that does: the seed, the
/// master key, the index, the child, the length of the child's text.
pub proof fn derivation_fails_for_its_reason(
    seed_phrase: Seq<char>,
    passphrase: Seq<char>,
    index: u32,
)
    ensures
        ({
            let result = derived_key(seed_phrase, passphrase, index);
            let seed = bip39_seed(seed_phrase, passphrase);
            let master = bip32_master(seed->0);
            let child = bip32_child(master->0, (index + 0x8000_0000) as u32);
            &&& seed is None ==> result == Err::<DerivedKeyView, ErrorKind>(ErrorKind::SeedPhrase)
            &&& seed is Some && master is None ==> result == Err::<DerivedKeyView, ErrorKind>(
                ErrorKind::MasterKey,
            )
            &&& seed is Some && master is Some && index >= 0x8000_0000 ==> result == Err::<
                DerivedKeyView,
                ErrorKind,
            >(ErrorKind::ChildNumber)
            &&& seed is Some && master is Some && index < 0x8000_0000 && child is None ==> result
                == Err::<DerivedKeyView, ErrorKind>(ErrorKind::ChildKey)
            &&& seed is Some && master is Some && index < 0x8000_0000 && child is Some
                && encode_utf8(child->0).len() < 32 ==> result == Err::<DerivedKeyView, ErrorKind>(
                ErrorKind::ShortXpriv,
            )
        }),
{
}

/// An address reads as the digest of its public key, all of it.
pub proof fn address_reads_as_the_digest(public_key: Seq<u8>)
    ensures
        decoded(address_of(public_key)) == Ok::<Seq<u8>, ErrorKind>(sha3_256_digest(public_key)),
        address_of(public_key) == hex_text(sha3_256_digest(public_key)),
{
    decoding_undoes_encoding(sha3_256_digest(public_key));
}

/// The key of the text of an extended private key is that of its first 32 bytes.
pub proof fn key_of_an_xpriv_is_that_of_its_first_bytes(xpriv: Seq<char>)
    ensures
        encode_utf8(xpriv).len() >= 32 ==> (key_of_xpriv(xpriv) matches Ok(key) && {
            &&& key.signing_key == encode_utf8(xpriv).take(32)
            &&& key.public_key == ed25519_public_key(key.signing_key)
            &&& key.address == hex_text(sha3_256_digest(key.public_key))
        }),
        encode_utf8(xpriv).len() < 32 ==> key_of_xpriv(xpriv) == Err::<DerivedKeyView, ErrorKind>(
            ErrorKind::ShortXpriv,
        ),
        match key_of_xpriv(xpriv) {
            Ok(key) => secret_of_xpriv(xpriv) == Ok::<Seq<u8>, ErrorKind>(key.signing_key),
            Err(kind) => secret_of_xpriv(xpriv) == Err::<Seq<u8>, ErrorKind>(kind),
        },
{
}

/// A key is seen by its address and its bytes as they are, and is genuine exactly if the public key
/// is one, the one of the secret key, with the address that is its digest in hex.
pub proof fn derived_key_is_seen_as_it_is(key: DerivedKey)
    ensures
        key@.address == key.address@,
        key@.public_key == key.public_key@,
        key@.signing_key == key.signing_key@,
        key@.genuine() <==> {
            &&& ed25519_is_public_key(key.public_key@)
            &&& key.public_key@ == ed25519_public_key(key.signing_key@)
            &&& key.address@ == hex_text(sha3_256_digest(key.public_key@))
        },
{
}

} // verus!
