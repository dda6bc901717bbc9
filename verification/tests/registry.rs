use chain_react::registry::{
    find_user, record_registration, register, registration_lines, RegisteredUser,
};
use chain_react::wallet::WalletAddress;

fn entry(index: u32, address: &str, public_key_hex: &str) -> WalletAddress {
    WalletAddress {
        index,
        address: address.to_string(),
        public_key_hex: public_key_hex.to_string(),
    }
}

fn user(address: &str, public_key: &str) -> RegisteredUser {
    RegisteredUser {
        address: address.to_string(),
        public_key: public_key.to_string(),
        address_index: None,
        registered_at_utc: 1,
    }
}

#[test]
fn a_new_player_comes_last() {
    let mut registry = vec![user("a1", "01")];
    record_registration(&mut registry, &entry(4, "b2", "02"), 77);
    assert_eq!(registry.len(), 2);
    assert_eq!(registry[0].address, "a1");
    assert_eq!(registry[0].public_key, "01");
    assert_eq!(registry[0].address_index, None);
    assert_eq!(registry[0].registered_at_utc, 1);
    assert_eq!(registry[1].address, "b2");
    assert_eq!(registry[1].public_key, "02");
    assert_eq!(registry[1].address_index, Some(4));
    assert_eq!(registry[1].registered_at_utc, 77);
}

#[test]
fn a_known_address_is_replaced_in_place() {
    let mut registry = vec![user("a1", "01"), user("b2", "02"), user("B2", "03")];
    record_registration(&mut registry, &entry(9, "B2", "ff"), 88);
    assert_eq!(registry.len(), 3);
    // The address keeps the case that it was registered in first.
    assert_eq!(registry[1].address, "b2");
    assert_eq!(registry[1].public_key, "ff");
    assert_eq!(registry[1].address_index, Some(9));
    assert_eq!(registry[1].registered_at_utc, 88);
    assert_eq!(registry[0].public_key, "01");
    assert_eq!(registry[2].public_key, "03");
}

#[test]
fn registering_twice_adds_one_player() {
    let mut registry = Vec::new();
    record_registration(&mut registry, &entry(1, "aa", "01"), 10);
    record_registration(&mut registry, &entry(1, "AA", "01"), 20);
    assert_eq!(registry.len(), 1);
    assert_eq!(registry[0].address, "aa");
    assert_eq!(registry[0].registered_at_utc, 20);
}

#[test]
fn registering_takes_the_time_of_the_clock() {
    let mut registry = Vec::new();
    register(&mut registry, &entry(1, "aa", "01"));
    assert_eq!(registry.len(), 1);
    assert_eq!(registry[0].address, "aa");
    assert!(registry[0].registered_at_utc > 1_600_000_000);
}

#[test]
fn players_are_found_by_key() {
    let registry = vec![user("a", "0a"), user("b", "0B"), user("c", "0b")];
    assert_eq!(find_user(&registry, "0A"), 0);
    assert_eq!(find_user(&registry, "0b"), 1);
    assert_eq!(find_user(&registry, "0c"), 3);
    assert_eq!(find_user(&Vec::new(), "0c"), 0);
}

#[test]
fn a_registered_player_is_found() {
    let mut registry = vec![user("a", "0a")];
    record_registration(&mut registry, &entry(2, "b", "0b"), 5);
    let k = find_user(&registry, "0B");
    assert_eq!(registry[k].address, "b");
}

#[test]
fn a_registration_is_reported() {
    assert_eq!(
        registration_lines(&entry(4294967295, "a1", "02")),
        vec![
            "registered user.".to_string(),
            "Address index: 4294967295".to_string(),
            "Address: a1".to_string(),
            "Public key: 02".to_string(),
        ]
    );
}

#[test]
fn a_copy_of_a_player_is_the_same() {
    let copy = user("a", "0a").clone();
    assert_eq!(copy.address, "a");
    assert_eq!(copy.public_key, "0a");
    assert_eq!(copy.address_index, None);
    assert_eq!(copy.registered_at_utc, 1);
}
