use chain_react::error::AuthError;
use chain_react::hex::hex_encode;
use chain_react::keys::{
    address_from_public_key, derive_keypair, first_32_bytes, key_from_xpriv, secret_from_xpriv,
};

const PHRASE: &str = "abandon abandon abandon abandon abandon abandon abandon abandon abandon \
                      abandon abandon about";

#[test]
fn an_address_is_the_digest_of_the_public_key() {
    assert_eq!(
        address_from_public_key(&[0; 32]),
        "9e6291970cb44dd94008c79bcaf9d86f18b4b49ba5b2a04781db7199ed3b9e4e"
    );
    let mut counting = [0u8; 32];
    for (i, b) in counting.iter_mut().enumerate() {
        *b = i as u8;
    }
    assert_eq!(
        address_from_public_key(&counting),
        "050a48733bd5c2756ba95c5828cc83ee16fabcd3c086885b7744f84a0f9e0d94"
    );
}

#[test]
fn the_secret_key_is_the_first_32_bytes_of_the_xpriv() {
    let xpriv = "xprv9ukW2Usuz4v7Yd2EC4vNXaMckdsEdgBA9n7M";
    assert_eq!(&secret_from_xpriv(xpriv).unwrap(), b"xprv9ukW2Usuz4v7Yd2EC4vNXaMckdsE");
    assert!(secret_from_xpriv("0123456789abcdef0123456789abcdef").is_ok());
    assert!(matches!(
        secret_from_xpriv("0123456789abcdef0123456789abcde"),
        Err(AuthError::ShortXpriv)
    ));
    assert!(matches!(key_from_xpriv("short"), Err(AuthError::ShortXpriv)));
    let bytes: Vec<u8> = (0..40).collect();
    assert_eq!(first_32_bytes(&bytes).to_vec(), bytes[..32].to_vec());
}

#[test]
fn keys_are_derived_at_their_index() {
    let first = derive_keypair(PHRASE, "", 0).unwrap();
    assert_eq!(&first.signing_key, b"xprv9ukW2Usuz4v7Yd2EC4vNXaMckdsE");
    assert_eq!(
        hex_encode(&first.public_key),
        "33b16d49e843a274fab37cccea70ac8cdced4a4b17d4c6a6297ab49faac48e66"
    );
    assert_eq!(first.address, "00f3e86263dfe18817e3176ce668230510fae34dc698cbf2b199f4b2fbf23ad5");

    let second = derive_keypair(PHRASE, "", 1).unwrap();
    assert_eq!(
        hex_encode(&second.public_key),
        "236b02ad7959337caf1d2bbdde89e037a47d67c2d6cfd49d8259ba1ffa95f580"
    );
    assert_eq!(second.address, "8fc0ec86241812b4d38e102691d8010d2f5e991eaf77ec7a045ff37987d126f5");

    let last = derive_keypair(PHRASE, "", 0x7fff_ffff).unwrap();
    assert_eq!(last.address, "efda96aa6cc6b6976fc2ed2619a2d984bb46f24a3d04259fe13e65c01fc5eb3a");
}

#[test]
fn the_passphrase_counts() {
    let key = derive_keypair(PHRASE, "TREZOR", 7).unwrap();
    assert_eq!(&key.signing_key[..], &b"xprv9vEG8CuLwbNkohkdvoGCqtKnP5uCYN8nThta"[..32]);
    assert_eq!(
        hex_encode(&key.public_key),
        "e09a6f69ae39f2ee18e8be1303be4e66659bcc64533d5dfd85c9b9149401eed7"
    );
    assert_eq!(key.address, "d22a8abf125891338606feffa9c90c7d63cdd63aac18d135b77a21d3a0a176e0");
}

#[test]
fn the_key_of_an_xpriv_is_the_derived_one() {
    let key = key_from_xpriv("xprv9ukW2Usuz4v7Yd2EC4vNXaMckdsEdgBA9n7M").unwrap();
    let derived = derive_keypair(PHRASE, "", 0).unwrap();
    assert_eq!(key.address, derived.address);
    assert_eq!(key.public_key, derived.public_key);
    assert_eq!(key.signing_key, derived.signing_key);
}

#[test]
fn a_bad_phrase_is_refused() {
    assert!(matches!(derive_keypair("", "", 0), Err(AuthError::SeedPhrase(_))));
    assert!(matches!(derive_keypair("abandon", "", 0), Err(AuthError::SeedPhrase(_))));
    let unknown = PHRASE.replace("about", "chainreact");
    assert!(matches!(derive_keypair(&unknown, "", 0), Err(AuthError::SeedPhrase(_))));
    let checksum = PHRASE.replace("about", "abandon");
    assert!(matches!(derive_keypair(&checksum, "", 0), Err(AuthError::SeedPhrase(_))));
}

#[test]
fn an_index_beyond_the_hardened_ones_is_refused() {
    assert!(matches!(derive_keypair(PHRASE, "", 0x8000_0000), Err(AuthError::ChildNumber(_))));
    assert!(matches!(derive_keypair(PHRASE, "", u32::MAX), Err(AuthError::ChildNumber(_))));
    // The phrase is read first.
    assert!(matches!(derive_keypair("", "", u32::MAX), Err(AuthError::SeedPhrase(_))));
}
