use std::num::NonZeroU32;

use chain_react::clock::{now_utc, unix_seconds};
use chain_react::config::{
    default_challenge, default_mempool, default_registry, MempoolConfig, ServerConfig,
    DEFAULT_GAME_CONFIG, DEFAULT_WALLET, TOKEN_FRACTION,
};
use chain_react::error::AuthError;
use chain_react::registry::RegisteredUser;
use chain_react::storage::value_or_default;
use chain_react::text::{decimal_text, digit, headed, trim_end_slashes};

#[test]
fn settings_that_say_nothing_have_defaults() {
    assert_eq!(default_mempool(), "https://mempool.lineage.to");
    assert_eq!(default_registry(), "registry.json");
    assert_eq!(default_challenge(), "challenge.json");
    assert_eq!(MempoolConfig::default().url, "https://mempool.lineage.to");
    assert_eq!(ServerConfig::default().registry_file, "registry.json");
    assert_eq!(ServerConfig::default().challenge_file, "challenge.json");
    assert_eq!(DEFAULT_GAME_CONFIG, "Game.toml");
    assert_eq!(DEFAULT_WALLET, "wallet.json");
    assert_eq!(TOKEN_FRACTION, 72_072_000);
}

#[test]
fn a_missing_file_stands_for_the_default() {
    let registry: Vec<RegisteredUser> = value_or_default(None);
    assert!(registry.is_empty());
    assert_eq!(value_or_default(Some(7u64)), 7);
}

#[test]
fn seconds_are_counted_from_the_epoch() {
    assert_eq!(unix_seconds(Some(12)), 12);
    assert_eq!(unix_seconds(None), 0);
    let before = now_utc();
    let after = now_utc();
    // Between September 2020 and the year 5138.
    assert!(1_600_000_000 < before && after < 100_000_000_000);
}

#[test]
fn numbers_are_written_in_decimal() {
    for n in [0, 9, 10, 99, 100, 101, 65535, 1_000_000, u32::MAX] {
        assert_eq!(decimal_text(n), format!("{}", n));
    }
    for d in 0..16 {
        assert_eq!(digit(d), format!("{:x}", d));
    }
}

#[test]
fn slashes_at_the_end_are_dropped() {
    assert_eq!(trim_end_slashes("a//b//"), "a//b");
    assert_eq!(trim_end_slashes("///"), "");
    assert_eq!(trim_end_slashes(""), "");
    assert_eq!(trim_end_slashes("é/"), "é");
    assert_eq!(headed("a=", "b"), "a=b");
}

fn words(error: AuthError) -> String {
    error.message().unwrap()
}

#[test]
fn errors_are_reported_in_words() {
    assert_eq!(words(AuthError::OddHexLength), "hex string must have even length");
    assert_eq!(words(AuthError::InvalidHex), "invalid hex");
    assert_eq!(words(AuthError::ChallengeLength), "challenge must be exactly 13 bytes");
    assert_eq!(words(AuthError::ChallengePrefix), "challenge must start with 0x6a");
    assert_eq!(words(AuthError::ChallengeSuffix), "challenge must end with 0xF9BEB4D9");
    assert_eq!(
        words(AuthError::NoAddresses),
        "wallet contains no addresses; create an address with Tiny Wallet first"
    );
    assert_eq!(
        words(AuthError::OldWalletFormat),
        "wallet.json contains no addresses; this chain_react version expects the new Tiny Wallet \
         format"
    );
    assert_eq!(words(AuthError::UnknownIndex(12)), "wallet does not contain address index 12");
    assert_eq!(
        words(AuthError::UnregisteredIndex(0)),
        "wallet does not contain registered address index 0"
    );
    assert_eq!(
        words(AuthError::KeyNotAtIndex(3)),
        "public key does not belong to wallet address index 3"
    );
    assert_eq!(
        words(AuthError::KeyNotInWallet),
        "public key does not belong to any address in the local wallet"
    );
    assert_eq!(words(AuthError::ShortXpriv), "unexpectedly short xpriv string");
    assert_eq!(
        words(AuthError::DerivedKeyMismatch(8)),
        "derived public key does not match wallet.json for address index 8"
    );
    assert_eq!(
        words(AuthError::DerivedAddressMismatch(8)),
        "derived address does not match wallet.json for address index 8"
    );
    assert_eq!(words(AuthError::PublicKeyLength), "public key must be 32 bytes");
    assert_eq!(words(AuthError::KeyNotRegistered), "public key is not registered");
    assert_eq!(
        words(AuthError::AddressMismatch),
        "registered public key does not match registered address"
    );
    assert_eq!(
        words(AuthError::ItemNotOwned),
        "authentication failed: required item is not currently owned by this address"
    );
    assert_eq!(
        words(AuthError::StaleChallenge),
        "challenge is not the current server challenge"
    );
    assert_eq!(words(AuthError::ChallengeUsed), "challenge has already been used");
}

#[test]
fn outside_errors_have_a_heading_or_speak_for_themselves() {
    let bip32 = || bitcoin::bip32::Error::InvalidChildNumber(1);
    let signature = || ed25519_dalek::SignatureError::new();
    assert_eq!(words(AuthError::MasterKey(bip32())), "failed to construct BIP32 master key");
    assert_eq!(words(AuthError::ChildKey(bip32())), "failed to derive Lineage child key");
    assert_eq!(words(AuthError::Signature(signature())), "invalid Ed25519 signature");
    assert_eq!(words(AuthError::PublicKey(signature())), "invalid Ed25519 public key");
    assert_eq!(words(AuthError::SignatureRejected(signature())), "signature verification failed");
    let json = serde_json::from_str::<u64>("x").unwrap_err();
    assert_eq!(words(AuthError::InvalidReply(json)), "invalid Lineage JSON");
    assert!(AuthError::ChildNumber(bip32()).message().is_none());
    let phrase = bip39::Mnemonic::parse_in_normalized(bip39::Language::English, "").unwrap_err();
    assert!(AuthError::SeedPhrase(phrase).message().is_none());
    let source = rand::Error::from(NonZeroU32::new(1).unwrap());
    assert!(AuthError::RandomSource(source).message().is_none());
}
