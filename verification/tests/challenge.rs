use chain_react::challenge::{
    consume_challenge, create_challenge, issue_challenge, parse_challenge, ChallengeFile,
    CHALLENGE_PREFIX, CHALLENGE_SUFFIX,
};
use chain_react::error::AuthError;

const NONCE: [u8; 8] = [1, 2, 3, 4, 5, 6, 7, 8];
const CHALLENGE: &str = "6a0102030405060708f9beb4d9";

#[test]
fn a_challenge_is_prefix_nonce_suffix() {
    let file = issue_challenge(&NONCE, 1_700_000_000);
    assert_eq!(file.challenge, CHALLENGE);
    assert_eq!(file.issued_at_utc, 1_700_000_000);
    assert!(!file.used);
    assert_eq!(CHALLENGE_PREFIX, 0x6a);
    assert_eq!(CHALLENGE_SUFFIX, [0xF9, 0xBE, 0xB4, 0xD9]);
}

#[test]
fn an_issued_challenge_parses() {
    let bytes = parse_challenge(CHALLENGE).unwrap();
    assert_eq!(bytes, vec![0x6a, 1, 2, 3, 4, 5, 6, 7, 8, 0xF9, 0xBE, 0xB4, 0xD9]);
    assert_eq!(parse_challenge(&CHALLENGE.to_uppercase()).unwrap(), bytes);
}

#[test]
fn what_is_no_challenge_is_refused() {
    assert!(matches!(parse_challenge("6a0"), Err(AuthError::OddHexLength)));
    assert!(matches!(parse_challenge("6g"), Err(AuthError::InvalidHex)));
    assert!(matches!(parse_challenge(""), Err(AuthError::ChallengeLength)));
    assert!(matches!(
        parse_challenge("6a010203040506070809f9beb4d9"),
        Err(AuthError::ChallengeLength)
    ));
    assert!(matches!(
        parse_challenge("6b0102030405060708f9beb4d9"),
        Err(AuthError::ChallengePrefix)
    ));
    assert!(matches!(
        parse_challenge("6a0102030405060708f9beb4d8"),
        Err(AuthError::ChallengeSuffix)
    ));
    assert!(matches!(
        parse_challenge("6a0102030405060708f8beb4d9"),
        Err(AuthError::ChallengeSuffix)
    ));
    // The length comes before the prefix, and the prefix before the suffix.
    assert!(matches!(parse_challenge("00"), Err(AuthError::ChallengeLength)));
    assert!(matches!(
        parse_challenge("00010203040506070800000000"),
        Err(AuthError::ChallengePrefix)
    ));
}

#[test]
fn fresh_challenges_parse_and_differ() {
    let first = create_challenge().unwrap();
    let second = create_challenge().unwrap();
    for file in [&first, &second] {
        assert_eq!(file.challenge.len(), 26);
        assert!(parse_challenge(&file.challenge).is_ok());
        assert!(!file.used);
        // Some time after September 2020.
        assert!(file.issued_at_utc > 1_600_000_000);
    }
    assert_ne!(first.challenge, second.challenge);
}

#[test]
fn a_challenge_is_good_once() {
    let file = issue_challenge(&NONCE, 5);
    let used = consume_challenge(file, &CHALLENGE.to_uppercase()).unwrap();
    assert_eq!(used.challenge, CHALLENGE);
    assert_eq!(used.issued_at_utc, 5);
    assert!(used.used);
    assert!(matches!(consume_challenge(used, CHALLENGE), Err(AuthError::ChallengeUsed)));
}

#[test]
fn another_challenge_is_stale() {
    let file = issue_challenge(&[9; 8], 5);
    assert!(matches!(consume_challenge(file, CHALLENGE), Err(AuthError::StaleChallenge)));
    // Stale comes before used.
    let used = ChallengeFile { used: true, ..issue_challenge(&[9; 8], 5) };
    assert!(matches!(consume_challenge(used, CHALLENGE), Err(AuthError::StaleChallenge)));
}

#[test]
fn nothing_is_accepted_where_nothing_was_issued() {
    let none = ChallengeFile::default();
    assert_eq!(none.challenge, "");
    assert_eq!(none.issued_at_utc, 0);
    assert!(!none.used);
    assert!(matches!(consume_challenge(none, CHALLENGE), Err(AuthError::StaleChallenge)));
}
