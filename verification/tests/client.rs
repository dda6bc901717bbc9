use chain_react::client::{
    confirm_derived_key, prepare_signing, sign_challenge, signing_lines, validate_client,
    SignedChallenge,
};
use chain_react::error::AuthError;
use chain_react::keys::derive_keypair;
use chain_react::wallet::{WalletAddress, WalletFile};

const PHRASE: &str = "abandon abandon abandon abandon abandon abandon abandon abandon abandon \
                      abandon abandon about";
const CHALLENGE: &str = "6a0102030405060708f9beb4d9";
const KEY_0: &str = "33b16d49e843a274fab37cccea70ac8cdced4a4b17d4c6a6297ab49faac48e66";
const ADDRESS_0: &str = "00f3e86263dfe18817e3176ce668230510fae34dc698cbf2b199f4b2fbf23ad5";
const SIGNATURE_0: &str = "b3d2f36b8d1976b05e0ed4aeef70b92d6b7b8c56a6b50b63bd0ef29a8488e0449db62e8ca117d2ef7425e3fb45433fdf9927ebd8ce4a5a40c7fc389e967e3b0f";
const KEY_1: &str = "236b02ad7959337caf1d2bbdde89e037a47d67c2d6cfd49d8259ba1ffa95f580";
const ADDRESS_1: &str = "8fc0ec86241812b4d38e102691d8010d2f5e991eaf77ec7a045ff37987d126f5";
const SIGNATURE_1: &str = "f533bb6ed0f41aeff8b7e43038bc35c87781c6aeabeb1463c44a9d17ceda4394eb2e880add34580475806e43db999f945619589b8edff51e73da1cf10186c60e";

fn entry(index: u32, address: &str, public_key_hex: &str) -> WalletAddress {
    WalletAddress {
        index,
        address: address.to_string(),
        public_key_hex: public_key_hex.to_string(),
    }
}

fn wallet(addresses: Vec<WalletAddress>) -> WalletFile {
    WalletFile {
        network: "mainnet".to_string(),
        seed_phrase: PHRASE.to_string(),
        bip39_passphrase: "".to_string(),
        addresses,
    }
}

fn both() -> WalletFile {
    wallet(vec![entry(0, ADDRESS_0, KEY_0), entry(1, ADDRESS_1, KEY_1)])
}

fn validated(
    key: &str,
    challenge: &str,
    wallet: &WalletFile,
    index: Option<u32>,
) -> Result<SignedChallenge, AuthError> {
    validate_client(key, challenge, wallet, index).unwrap()
}

#[test]
fn a_challenge_is_signed_with_the_key_asked_for() {
    let signed = validated(KEY_0, CHALLENGE, &both(), None).unwrap();
    assert_eq!(signed.public_key, KEY_0);
    assert_eq!(signed.address_index, 0);
    assert_eq!(signed.address, ADDRESS_0);
    assert_eq!(signed.signature, SIGNATURE_0);
    assert_eq!(signed.challenge, CHALLENGE);

    let other = validated(&KEY_1.to_uppercase(), CHALLENGE, &both(), Some(1)).unwrap();
    assert_eq!(other.public_key, KEY_1);
    assert_eq!(other.address_index, 1);
    assert_eq!(other.signature, SIGNATURE_1);
}

#[test]
fn the_case_of_a_challenge_makes_no_difference() {
    let signed = validated(KEY_0, &CHALLENGE.to_uppercase(), &both(), None).unwrap();
    assert_eq!(signed.signature, SIGNATURE_0);
    assert_eq!(signed.challenge, CHALLENGE);
}

#[test]
fn a_signed_challenge_is_reported() {
    let signed = validated(KEY_1, CHALLENGE, &both(), None).unwrap();
    assert_eq!(
        signing_lines(&signed),
        vec![
            format!("public_key={}", KEY_1),
            "address_index=1".to_string(),
            format!("address={}", ADDRESS_1),
            format!("signature={}", SIGNATURE_1),
            format!("challenge={}", CHALLENGE),
        ]
    );
}

#[test]
fn refusals_come_in_their_order() {
    let empty_phrase = WalletFile { seed_phrase: "".to_string(), ..both() };
    assert!(matches!(
        validated("00", "zz", &empty_phrase, Some(2)),
        Err(AuthError::UnregisteredIndex(2))
    ));
    assert!(matches!(
        validated("00", "zz", &empty_phrase, Some(1)),
        Err(AuthError::KeyNotAtIndex(1))
    ));
    assert!(matches!(validated("00", "zz", &empty_phrase, None), Err(AuthError::KeyNotInWallet)));
    assert!(matches!(validated(KEY_0, "zz", &empty_phrase, None), Err(AuthError::InvalidHex)));
    assert!(matches!(
        validated(KEY_0, "00", &empty_phrase, None),
        Err(AuthError::ChallengeLength)
    ));
    assert!(matches!(
        validated(KEY_0, CHALLENGE, &empty_phrase, None),
        Err(AuthError::SeedPhrase(_))
    ));
    let far = wallet(vec![entry(u32::MAX, ADDRESS_0, KEY_0)]);
    assert!(matches!(validated(KEY_0, CHALLENGE, &far, None), Err(AuthError::ChildNumber(_))));
}

#[test]
fn a_wallet_that_lists_a_wrong_key_signs_nothing() {
    let swapped = wallet(vec![entry(0, ADDRESS_0, KEY_1)]);
    assert!(matches!(
        validated(KEY_1, CHALLENGE, &swapped, None),
        Err(AuthError::DerivedKeyMismatch(0))
    ));
    let garbled = wallet(vec![entry(0, ADDRESS_0, "xyz0")]);
    assert!(matches!(validated("xyz0", CHALLENGE, &garbled, None), Err(AuthError::InvalidHex)));
}

#[test]
fn a_wallet_that_lists_a_wrong_address_signs_nothing() {
    let swapped = wallet(vec![entry(0, ADDRESS_1, KEY_0)]);
    assert!(matches!(
        validated(KEY_0, CHALLENGE, &swapped, None),
        Err(AuthError::DerivedAddressMismatch(0))
    ));
    let upper = wallet(vec![entry(0, &ADDRESS_0.to_uppercase(), KEY_0)]);
    assert!(validated(KEY_0, CHALLENGE, &upper, None).is_ok());
}

#[test]
fn a_key_that_is_not_32_bytes_long_signs_nothing() {
    let long = format!("{}00", KEY_0);
    for listed in ["", &KEY_0[..8], &KEY_0[..62], &long] {
        let odd = wallet(vec![entry(0, ADDRESS_0, listed)]);
        assert!(matches!(
            validated(listed, CHALLENGE, &odd, None),
            Err(AuthError::DerivedKeyMismatch(0))
        ));
    }
}

#[test]
fn a_text_that_cuts_a_character_gives_no_result() {
    assert!(validate_client(KEY_0, "aéa", &both(), None).is_none());
    let cut = wallet(vec![entry(0, ADDRESS_0, "aéa")]);
    assert!(validate_client("aéa", CHALLENGE, &cut, None).is_none());
    // The wallet's key is read last.
    assert!(matches!(
        validate_client("aéa", "zz", &cut, None),
        Some(Err(AuthError::InvalidHex))
    ));
    // The challenge is not read where the key is not in the wallet.
    assert!(matches!(
        validate_client("00", "aéa", &both(), None),
        Some(Err(AuthError::KeyNotInWallet))
    ));
}

#[test]
fn signing_goes_by_its_parts() {
    let session = prepare_signing(KEY_1, CHALLENGE, &both(), None).unwrap();
    assert_eq!(session.selected.index, 1);
    assert_eq!(session.challenge.len(), 13);
    assert_eq!(session.key.address, ADDRESS_1);
    assert!(confirm_derived_key(&session.selected, &session.key).is_ok());
    assert_eq!(sign_challenge(&session).unwrap().signature, SIGNATURE_1);
    let other = derive_keypair(PHRASE, "", 0).unwrap();
    assert!(matches!(
        confirm_derived_key(&session.selected, &other),
        Err(AuthError::DerivedKeyMismatch(1))
    ));
}
