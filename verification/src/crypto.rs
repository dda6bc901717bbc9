//! The cryptography of the outside crates, on plain bytes and texts.
//!
//! Nothing here is proved: each function hands its arguments to an outside crate, and its
//! contract says what that crate is trusted to do. A result that takes pages to state is given a
//! name, a function of the arguments alone.

use ed25519_dalek::{Signer, Verifier};
use rand::RngCore;
use sha3::Digest;
use vstd::prelude::*;

verus! {

/// The 64-byte seed of an English BIP39 phrase under a passphrase, where the phrase is one.
pub uninterp spec fn bip39_seed(phrase: Seq<char>, passphrase: Seq<char>) -> Option<Seq<u8>>;

/// `bip39::Mnemonic::parse_in_normalized` reads a phrase in English and fails on one with a bad
/// number of words, an unknown word or a bad checksum; `Mnemonic::to_seed`, which cannot fail,
/// turns what was read and a passphrase into a seed. Trusted: both depend on their arguments
/// alone.
#[verifier::external_body]
pub(crate) fn seed_of_phrase(phrase: &str, passphrase: &str) -> (result: Result<
    [u8; 64],
    bip39::Error,
>)
    ensures
        match result {
            Ok(seed) => bip39_seed(phrase@, passphrase@) == Some(seed@),
            Err(_) => bip39_seed(phrase@, passphrase@) is None,
        },
{
    let mnemonic = bip39::Mnemonic::parse_in_normalized(bip39::Language::English, phrase)?;
    Ok(mnemonic.to_seed(passphrase))
}

/// The BIP32 master key of a seed on the Bitcoin main network, in its binary form.
pub uninterp spec fn bip32_master(seed: Seq<u8>) -> Option<Seq<u8>>;

/// `bitcoin::bip32::Xpriv::new_master` derives the master key of a seed, and fails where the
/// seed's hash is no secret key; `Xpriv::encode` writes a key in its binary form. Trusted: both
/// depend on their arguments alone.
#[verifier::external_body]
pub(crate) fn master_key(seed: &[u8]) -> (result: Result<[u8; 78], bitcoin::bip32::Error>)
    ensures
        match result {
            Ok(key) => bip32_master(seed@) == Some(key@),
            Err(_) => bip32_master(seed@) is None,
        },
{
    let master = bitcoin::bip32::Xpriv::new_master(bitcoin::Network::Bitcoin, seed)?;
    Ok(master.encode())
}

/// The first child number of a hardened key.
pub const HARDENED: u32 = 0x8000_0000;

/// `bitcoin::bip32::ChildNumber::from_hardened_idx` accepts an index whose highest bit is clear;
/// the number of that child is the index with the highest bit set.
#[verifier::external_body]
pub(crate) fn hardened_child_number(index: u32) -> (result: Result<u32, bitcoin::bip32::Error>)
    ensures
        match result {
            Ok(number) => index < HARDENED && number == index + HARDENED,
            Err(_) => index >= HARDENED,
        },
{
    bitcoin::bip32::ChildNumber::from_hardened_idx(index).map(u32::from)
}

/// The text of the child of an extended private key under a child number.
pub uninterp spec fn bip32_child(parent: Seq<u8>, number: u32) -> Option<Seq<char>>;

/// `bitcoin::bip32::Xpriv::derive_priv` derives the child of a key, given here in the binary form
/// that `Xpriv::decode` reads; `Xpriv::to_string` writes the child as text. Trusted: all three
/// depend on their arguments alone, and a failure of either of the first two is a failure here.
/// Left unsaid: `derive_priv` aborts where the child's hash is no secret key or cancels its
/// parent, which its source calls statistically impossible and gives no way to test.
#[verifier::external_body]
pub(crate) fn child_key(parent: &[u8], number: u32) -> (result: Result<
    String,
    bitcoin::bip32::Error,
>)
    ensures
        match result {
            Ok(text) => bip32_child(parent@, number) == Some(text@),
            Err(_) => bip32_child(parent@, number) is None,
        },
{
    let parent = bitcoin::bip32::Xpriv::decode(parent)?;
    let path = [bitcoin::bip32::ChildNumber::from(number)];
    let child = parent.derive_priv(&bitcoin::secp256k1::Secp256k1::new(), &path)?;
    Ok(child.to_string())
}

/// The SHA3-256 digest of bytes.
pub uninterp spec fn sha3_256_digest(data: Seq<u8>) -> Seq<u8>;

/// `sha3::Sha3_256`, fed with the bytes and finalized. Trusted: the digest depends on the bytes
/// alone.
#[verifier::external_body]
pub(crate) fn sha3_256(data: &[u8]) -> (digest: [u8; 32])
    ensures
        digest@ == sha3_256_digest(data@),
{
    let mut hasher = sha3::Sha3_256::new();
    hasher.update(data);
    hasher.finalize().into()
}

/// The Ed25519 public key of a secret key.
pub uninterp spec fn ed25519_public_key(secret: Seq<u8>) -> Seq<u8>;

/// The bytes are those of an Ed25519 public key.
pub uninterp spec fn ed25519_is_public_key(bytes: Seq<u8>) -> bool;

/// The Ed25519 signature of a message under a secret key.
pub uninterp spec fn ed25519_signature(secret: Seq<u8>, message: Seq<u8>) -> Seq<u8>;

/// A signature is one of the message under the public key.
pub uninterp spec fn ed25519_verifies(
    public_key: Seq<u8>,
    message: Seq<u8>,
    signature: Seq<u8>,
) -> bool;

/// `ed25519_dalek::SigningKey::from_bytes` and `SigningKey::verifying_key`, with the key by its
/// bytes. Trusted: the public key depends on the secret key alone, and is a public key: it is the
/// compressed form of a point of the curve.
#[verifier::external_body]
pub(crate) fn public_key_of(secret: &[u8; 32]) -> (public_key: [u8; 32])
    ensures
        public_key@ == ed25519_public_key(secret@),
        ed25519_is_public_key(public_key@),
{
    ed25519_dalek::SigningKey::from_bytes(secret).verifying_key().to_bytes()
}

/// `SigningKey::sign` of `ed25519_dalek`, with the signature by its bytes. Trusted: the signature
/// depends on the secret key and the message alone, and it verifies under the public key of the
/// secret key.
#[verifier::external_body]
pub(crate) fn sign(secret: &[u8; 32], message: &[u8]) -> (signature: [u8; 64])
    ensures
        signature@ == ed25519_signature(secret@, message@),
        ed25519_verifies(ed25519_public_key(secret@), message@, signature@),
{
    ed25519_dalek::SigningKey::from_bytes(secret).sign(message).to_bytes()
}

/// `ed25519_dalek::Signature::from_slice` takes any 64 bytes for a signature and nothing else;
/// the signature's own bytes are those.
#[verifier::external_body]
pub(crate) fn signature_of(bytes: &[u8]) -> (result: Result<
    [u8; 64],
    ed25519_dalek::SignatureError,
>)
    ensures
        match result {
            Ok(signature) => signature@ == bytes@,
            Err(_) => bytes@.len() != 64,
        },
{
    ed25519_dalek::Signature::from_slice(bytes).map(|signature| signature.to_bytes())
}

/// `ed25519_dalek::VerifyingKey::from_bytes` fails on 32 bytes that are no point of the curve,
/// and otherwise keeps them. Trusted: which bytes those are depends on the bytes alone.
#[verifier::external_body]
pub(crate) fn verifying_key_of(bytes: &[u8; 32]) -> (result: Result<
    [u8; 32],
    ed25519_dalek::SignatureError,
>)
    ensures
        match result {
            Ok(key) => ed25519_is_public_key(bytes@) && key@ == bytes@,
            Err(_) => !ed25519_is_public_key(bytes@),
        },
{
    ed25519_dalek::VerifyingKey::from_bytes(bytes).map(|key| key.to_bytes())
}

/// `VerifyingKey::verify` of `ed25519_dalek`, on a key and a signature by their bytes. Trusted:
/// the answer depends on the three arguments alone. Bytes that are no public key verify nothing.
#[verifier::external_body]
pub(crate) fn verify(public_key: &[u8; 32], message: &[u8], signature: &[u8; 64]) -> (result:
    Result<(), ed25519_dalek::SignatureError>)
    ensures
        result is Ok == ed25519_verifies(public_key@, message@, signature@),
{
    let key = ed25519_dalek::VerifyingKey::from_bytes(public_key)?;
    key.verify(message, &ed25519_dalek::Signature::from_bytes(signature))
}

/// `rand::rngs::OsRng` fills eight bytes from the random source of the operating system, or fails
/// where that source does. Nothing is promised of the bytes.
#[verifier::external_body]
pub(crate) fn random_nonce() -> (result: Result<[u8; 8], rand::Error>) {
    let mut nonce = [0u8; 8];
    rand::rngs::OsRng.try_fill_bytes(&mut nonce)?;
    Ok(nonce)
}

} // verus!
