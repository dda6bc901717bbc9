use chain_react::error::AuthError;
use chain_react::hex::{hex_decode, hex_encode, reads_in_pairs};

#[test]
fn bytes_are_written_in_lower_case() {
    assert_eq!(hex_encode(&[]), "");
    assert_eq!(hex_encode(&[0x00, 0x0f, 0xa0, 0xff]), "000fa0ff");
}

#[test]
fn every_byte_comes_back() {
    let bytes: Vec<u8> = (0..=255).collect();
    let text = hex_encode(&bytes);
    assert_eq!(text.len(), 512);
    assert!(reads_in_pairs(&text));
    assert_eq!(hex_decode(&text).unwrap(), bytes);
    assert_eq!(hex_decode(&text.to_uppercase()).unwrap(), bytes);
}

#[test]
fn writing_what_was_read_lowers_the_case() {
    let bytes = hex_decode("F9BeB4d9").unwrap();
    assert_eq!(bytes, vec![0xF9, 0xBE, 0xB4, 0xD9]);
    assert_eq!(hex_encode(&bytes), "f9beb4d9");
}

#[test]
fn odd_length_is_refused_first() {
    assert!(matches!(hex_decode("abc"), Err(AuthError::OddHexLength)));
    assert!(matches!(hex_decode("zzz"), Err(AuthError::OddHexLength)));
    assert!(hex_decode("").unwrap().is_empty());
}

#[test]
fn what_is_no_hex_is_refused() {
    assert!(matches!(hex_decode("zz"), Err(AuthError::InvalidHex)));
    assert!(matches!(hex_decode("0x"), Err(AuthError::InvalidHex)));
    assert!(matches!(hex_decode("00 1"), Err(AuthError::InvalidHex)));
    assert!(matches!(hex_decode("-1"), Err(AuthError::InvalidHex)));
}

#[test]
fn pairs_are_read_as_the_standard_library_reads_them() {
    for high in 0u8..128 {
        for low in 0u8..128 {
            let pair: String = [high as char, low as char].iter().collect();
            match (hex_decode(&pair), u8::from_str_radix(&pair, 16)) {
                (Ok(bytes), Ok(value)) => assert_eq!(bytes, vec![value]),
                (Err(AuthError::InvalidHex), Err(_)) => {}
                _ => panic!("{:?}", pair),
            }
        }
    }
}

#[test]
fn a_plus_sign_may_stand_for_the_first_digit() {
    assert_eq!(hex_decode("+a0b").unwrap(), vec![0x0a, 0x0b]);
    assert_eq!(hex_encode(&[0x0a]), "0a");
    assert!(matches!(hex_decode("++"), Err(AuthError::InvalidHex)));
    assert!(matches!(hex_decode("a+"), Err(AuthError::InvalidHex)));
}

#[test]
fn a_character_may_not_be_cut_in_two() {
    // Two bytes that are one character.
    assert!(reads_in_pairs("é"));
    assert!(matches!(hex_decode("é"), Err(AuthError::InvalidHex)));
    // A character that starts in the middle of a pair, and ends in the next.
    assert!(!reads_in_pairs("aéa"));
    // A character of four bytes.
    assert!(!reads_in_pairs("😀"));
    // What comes after the first pair that is no number is not read.
    assert!(reads_in_pairs("zzaéa"));
    assert!(matches!(hex_decode("zzaéa"), Err(AuthError::InvalidHex)));
    // Nothing is read where the length is odd.
    assert!(reads_in_pairs("aé"));
    assert!(matches!(hex_decode("aé"), Err(AuthError::OddHexLength)));
    // Characters after good pairs.
    assert!(reads_in_pairs("00é"));
    assert!(!reads_in_pairs("00aéa"));
}
