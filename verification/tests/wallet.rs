use chain_react::error::AuthError;
use chain_react::wallet::{
    check_wallet, select_signing_address, select_wallet_address, WalletAddress, WalletFile,
};

fn entry(index: u32, address: &str, public_key_hex: &str) -> WalletAddress {
    WalletAddress {
        index,
        address: address.to_string(),
        public_key_hex: public_key_hex.to_string(),
    }
}

fn wallet(addresses: Vec<WalletAddress>) -> WalletFile {
    WalletFile {
        network: "mainnet".to_string(),
        seed_phrase: "phrase".to_string(),
        bip39_passphrase: "passphrase".to_string(),
        addresses,
    }
}

fn three() -> WalletFile {
    wallet(vec![entry(3, "c", "cc"), entry(7, "g", "aa"), entry(0, "z", "ee")])
}

#[test]
fn a_wallet_without_addresses_is_not_accepted() {
    assert!(matches!(check_wallet(wallet(vec![])), Err(AuthError::OldWalletFormat)));
    let accepted = check_wallet(three()).unwrap();
    assert_eq!(accepted.network, "mainnet");
    assert_eq!(accepted.seed_phrase, "phrase");
    assert_eq!(accepted.bip39_passphrase, "passphrase");
    assert_eq!(accepted.addresses.len(), 3);
}

#[test]
fn the_newest_address_is_registered_by_default() {
    let selected = select_wallet_address(&three(), None).unwrap();
    assert_eq!(selected.index, 7);
    assert_eq!(selected.address, "g");
    assert_eq!(selected.public_key_hex, "aa");
}

#[test]
fn of_several_newest_addresses_the_last_is_registered() {
    let twice = wallet(vec![entry(5, "a", "aa"), entry(5, "b", "bb"), entry(1, "c", "cc")]);
    assert_eq!(select_wallet_address(&twice, None).unwrap().address, "b");
}

#[test]
fn the_address_asked_for_is_registered() {
    assert_eq!(select_wallet_address(&three(), Some(0)).unwrap().address, "z");
    let twice = wallet(vec![entry(5, "a", "aa"), entry(5, "b", "bb")]);
    assert_eq!(select_wallet_address(&twice, Some(5)).unwrap().address, "a");
    assert!(matches!(select_wallet_address(&three(), Some(4)), Err(AuthError::UnknownIndex(4))));
}

#[test]
fn nothing_is_registered_from_an_empty_wallet() {
    assert!(matches!(select_wallet_address(&wallet(vec![]), None), Err(AuthError::NoAddresses)));
    assert!(matches!(
        select_wallet_address(&wallet(vec![]), Some(1)),
        Err(AuthError::NoAddresses)
    ));
}

#[test]
fn the_address_to_sign_with_has_the_key() {
    assert_eq!(select_signing_address(&three(), "AA", None).unwrap().address, "g");
    assert_eq!(select_signing_address(&three(), "ee", Some(0)).unwrap().address, "z");
    let twice = wallet(vec![entry(1, "a", "aa"), entry(2, "b", "AA")]);
    assert_eq!(select_signing_address(&twice, "aA", None).unwrap().address, "a");
    assert_eq!(select_signing_address(&twice, "aA", Some(2)).unwrap().address, "b");
}

#[test]
fn a_key_that_is_not_there_signs_nothing() {
    assert!(matches!(
        select_signing_address(&three(), "dd", None),
        Err(AuthError::KeyNotInWallet)
    ));
    assert!(matches!(
        select_signing_address(&three(), "aa", Some(0)),
        Err(AuthError::KeyNotAtIndex(0))
    ));
    assert!(matches!(
        select_signing_address(&three(), "aa", Some(9)),
        Err(AuthError::UnregisteredIndex(9))
    ));
    assert!(matches!(
        select_signing_address(&wallet(vec![]), "aa", None),
        Err(AuthError::KeyNotInWallet)
    ));
}
