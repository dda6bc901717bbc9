use chain_react::challenge::{issue_challenge, ChallengeFile};
use chain_react::client::validate_client;
use chain_react::config::{GameConfig, MempoolConfig, ServerConfig};
use chain_react::error::AuthError;
use chain_react::ownership::BalanceReply;
use chain_react::registry::{record_registration, RegisteredUser};
use chain_react::server::{
    authenticate, confirm_holder, find_holder, read_request, request_reads, AuthAction, AuthEvent,
    AuthRequest, AuthState,
};
use chain_react::wallet::{select_wallet_address, WalletAddress, WalletFile};

const PHRASE: &str = "abandon abandon abandon abandon abandon abandon abandon abandon abandon \
                      abandon abandon about";
const ITEM: &str = "ge862a974002715c4f45859a5bd6b489";
const NONCE: [u8; 8] = [1, 2, 3, 4, 5, 6, 7, 8];
const CHALLENGE: &str = "6a0102030405060708f9beb4d9";
const KEY: &str = "33b16d49e843a274fab37cccea70ac8cdced4a4b17d4c6a6297ab49faac48e66";
const ADDRESS: &str = "00f3e86263dfe18817e3176ce668230510fae34dc698cbf2b199f4b2fbf23ad5";
const SIGNATURE: &str = "b3d2f36b8d1976b05e0ed4aeef70b92d6b7b8c56a6b50b63bd0ef29a8488e0449db62e8ca117d2ef7425e3fb45433fdf9927ebd8ce4a5a40c7fc389e967e3b0f";
const OTHER_KEY: &str = "236b02ad7959337caf1d2bbdde89e037a47d67c2d6cfd49d8259ba1ffa95f580";
const OTHER_SIGNATURE: &str = "f533bb6ed0f41aeff8b7e43038bc35c87781c6aeabeb1463c44a9d17ceda4394eb2e880add34580475806e43db999f945619589b8edff51e73da1cf10186c60e";

fn config(use_blockchain_auth: u8) -> GameConfig {
    GameConfig {
        use_blockchain_auth,
        required_item: ITEM.to_string(),
        mempool: MempoolConfig { url: "https://mempool.example/".to_string() },
        server: ServerConfig {
            registry_file: "reg.json".to_string(),
            challenge_file: "chal.json".to_string(),
        },
    }
}

fn request(public_key: &str, challenge: &str, signature: &str) -> AuthRequest {
    AuthRequest {
        public_key: public_key.to_string(),
        challenge: challenge.to_string(),
        signature: signature.to_string(),
    }
}

fn user(address: &str, public_key: &str) -> RegisteredUser {
    RegisteredUser {
        address: address.to_string(),
        public_key: public_key.to_string(),
        address_index: Some(0),
        registered_at_utc: 1,
    }
}

fn reply(address: &str, amount: u64) -> BalanceReply {
    BalanceReply {
        status: 200,
        status_line: "200 OK".to_string(),
        text: format!(
            r#"{{"balance":{{"address_list":{{"{}":[{{"value":{{"Item":{{"genesis_hash":"{}","amount":{}}}}}}}]}}}}}}"#,
            address, ITEM, amount
        ),
    }
}

/// The actions of an authentication up to the last, and the last.
fn run(
    config: &GameConfig,
    request: &AuthRequest,
    registry: &Vec<RegisteredUser>,
    reply: &BalanceReply,
    file: &ChallengeFile,
) -> (Vec<String>, Result<Vec<String>, AuthError>, Option<ChallengeFile>) {
    let mut log = Vec::new();
    let mut saved = None;
    let mut state = AuthState::Opening;
    let mut event = AuthEvent::Opened;
    assert!(config.use_blockchain_auth == 0 || request_reads(request));
    loop {
        let (next, action) = authenticate(config, request, state, event);
        state = next;
        event = match action {
            AuthAction::LoadRegistry(path) => {
                log.push(format!("load {}", path));
                AuthEvent::Registry(registry.clone())
            }
            AuthAction::QueryBalance(query) => {
                log.push(format!("ask {} {:?}", query.url, query.addresses));
                AuthEvent::Balance(BalanceReply {
                    status: reply.status,
                    status_line: reply.status_line.clone(),
                    text: reply.text.clone(),
                })
            }
            AuthAction::LoadChallenge(path) => {
                log.push(format!("load {}", path));
                AuthEvent::Challenge(ChallengeFile {
                    challenge: file.challenge.clone(),
                    issued_at_utc: file.issued_at_utc,
                    used: file.used,
                })
            }
            AuthAction::SaveChallenge(path, file) => {
                log.push(format!("save {}", path));
                saved = Some(file);
                AuthEvent::Saved
            }
            AuthAction::Accept(lines) => {
                assert!(matches!(state, AuthState::Closed));
                return (log, Ok(lines), saved);
            }
            AuthAction::Refuse(error) => {
                assert!(matches!(state, AuthState::Closed));
                return (log, Err(error), saved);
            }
        };
    }
}

fn refused(
    request: &AuthRequest,
    registry: &Vec<RegisteredUser>,
    reply: &BalanceReply,
    file: &ChallengeFile,
) -> AuthError {
    let (_, result, saved) = run(&config(1), request, registry, reply, file);
    assert!(saved.is_none());
    result.unwrap_err()
}

#[test]
fn an_owner_is_let_in() {
    let (log, result, saved) = run(
        &config(1),
        &request(KEY, CHALLENGE, SIGNATURE),
        &vec![user(ADDRESS, KEY)],
        &reply(ADDRESS, 1),
        &issue_challenge(&NONCE, 9),
    );
    assert_eq!(
        log,
        vec![
            "load reg.json".to_string(),
            format!("ask https://mempool.example/v1/balances/query [{:?}]", ADDRESS),
            "load chal.json".to_string(),
            "save chal.json".to_string(),
        ]
    );
    assert_eq!(
        result.unwrap(),
        vec!["authenticated user.".to_string(), format!("Address: {}", ADDRESS)]
    );
    let saved = saved.unwrap();
    assert_eq!(saved.challenge, CHALLENGE);
    assert_eq!(saved.issued_at_utc, 9);
    assert!(saved.used);
}

#[test]
fn case_makes_no_difference_but_to_the_balance_service() {
    let registered = ADDRESS.to_uppercase();
    let (_, result, saved) = run(
        &config(255),
        &request(&KEY.to_uppercase(), &CHALLENGE.to_uppercase(), &SIGNATURE.to_uppercase()),
        &vec![user(&registered, KEY)],
        &reply(&registered, 1),
        &issue_challenge(&NONCE, 9),
    );
    assert_eq!(result.unwrap()[1], format!("Address: {}", registered));
    assert!(saved.unwrap().used);
    assert!(matches!(
        refused(
            &request(KEY, CHALLENGE, SIGNATURE),
            &vec![user(&registered, KEY)],
            &reply(ADDRESS, 1),
            &issue_challenge(&NONCE, 9),
        ),
        AuthError::ItemNotOwned
    ));
}

#[test]
fn a_development_server_lets_everybody_in() {
    let (log, result, saved) = run(
        &config(0),
        &request("aéa", "no", "none"),
        &vec![],
        &reply("x", 0),
        &ChallengeFile::default(),
    );
    assert!(log.is_empty());
    assert_eq!(result.unwrap(), vec!["authenticated user.".to_string()]);
    assert!(saved.is_none());
}

#[test]
fn transferring_the_item_away_locks_out() {
    let registry = vec![user(ADDRESS, KEY)];
    let proof = request(KEY, CHALLENGE, SIGNATURE);
    let file = issue_challenge(&NONCE, 9);
    let (_, result, _) = run(&config(1), &proof, &registry, &reply(ADDRESS, 1), &file);
    assert!(result.is_ok());
    assert!(matches!(
        refused(&proof, &registry, &reply(ADDRESS, 0), &file),
        AuthError::ItemNotOwned
    ));
    assert!(matches!(
        refused(&proof, &registry, &reply("elsewhere", 1), &file),
        AuthError::ItemNotOwned
    ));
}

#[test]
fn a_challenge_lets_in_once() {
    let registry = vec![user(ADDRESS, KEY)];
    let proof = request(KEY, CHALLENGE, SIGNATURE);
    let (_, _, saved) =
        run(&config(1), &proof, &registry, &reply(ADDRESS, 1), &issue_challenge(&NONCE, 9));
    let saved = saved.unwrap();
    let again = refused(&proof, &registry, &reply(ADDRESS, 1), &saved);
    assert!(matches!(again, AuthError::ChallengeUsed));
    assert_eq!(again.message().unwrap(), "challenge has already been used");
}

#[test]
fn an_older_challenge_is_void() {
    let error = refused(
        &request(KEY, CHALLENGE, SIGNATURE),
        &vec![user(ADDRESS, KEY)],
        &reply(ADDRESS, 1),
        &issue_challenge(&[8; 8], 10),
    );
    assert!(matches!(error, AuthError::StaleChallenge));
    let error = refused(
        &request(KEY, CHALLENGE, SIGNATURE),
        &vec![user(ADDRESS, KEY)],
        &reply(ADDRESS, 1),
        &ChallengeFile::default(),
    );
    assert!(matches!(error, AuthError::StaleChallenge));
}

#[test]
fn refusals_at_the_door_come_in_their_order() {
    let read = |key: &str, challenge: &str, signature: &str| {
        read_request(&request(key, challenge, signature)).unwrap_err()
    };
    assert!(matches!(read("z", "zz", "z"), AuthError::InvalidHex));
    assert!(matches!(read("z", "00", "z"), AuthError::ChallengeLength));
    assert!(matches!(read("z", CHALLENGE, "0"), AuthError::OddHexLength));
    assert!(matches!(read("z", CHALLENGE, "zz"), AuthError::InvalidHex));
    assert!(matches!(read("z", CHALLENGE, "00"), AuthError::Signature(_)));
    assert!(matches!(read("z", CHALLENGE, SIGNATURE), AuthError::OddHexLength));
    assert!(matches!(read("00", CHALLENGE, SIGNATURE), AuthError::PublicKeyLength));
    assert!(matches!(
        read(&format!("{}00", KEY), CHALLENGE, SIGNATURE),
        AuthError::PublicKeyLength
    ));
    // No point of the curve has this second coordinate.
    let no_point = format!("02{}", "00".repeat(31));
    assert!(matches!(read(&no_point, CHALLENGE, SIGNATURE), AuthError::PublicKey(_)));
    let presented = read_request(&request(KEY, CHALLENGE, SIGNATURE)).unwrap();
    assert_eq!(presented.challenge.len(), 13);
    assert_eq!(presented.signature[0], 0xb3);
    assert_eq!(presented.public_key[0], 0x33);
}

#[test]
fn an_unregistered_key_is_refused_before_its_signature() {
    let file = issue_challenge(&NONCE, 9);
    assert!(matches!(
        refused(
            &request(KEY, CHALLENGE, OTHER_SIGNATURE),
            &vec![user(ADDRESS, OTHER_KEY)],
            &reply(ADDRESS, 1),
            &file
        ),
        AuthError::KeyNotRegistered
    ));
    assert!(matches!(
        refused(
            &request(KEY, CHALLENGE, OTHER_SIGNATURE),
            &vec![user(ADDRESS, KEY)],
            &reply(ADDRESS, 1),
            &file
        ),
        AuthError::SignatureRejected(_)
    ));
}

#[test]
fn a_signature_of_another_challenge_is_refused() {
    assert!(matches!(
        refused(
            &request(KEY, "6a0000000000000000f9beb4d9", SIGNATURE),
            &vec![user(ADDRESS, KEY)],
            &reply(ADDRESS, 1),
            &issue_challenge(&[0; 8], 9)
        ),
        AuthError::SignatureRejected(_)
    ));
}

#[test]
fn a_key_registered_for_another_address_is_refused() {
    let file = issue_challenge(&NONCE, 9);
    let proof = request(KEY, CHALLENGE, SIGNATURE);
    let registry = vec![user("somebody", KEY), user(ADDRESS, KEY)];
    assert!(matches!(
        refused(&proof, &registry, &reply("somebody", 1), &file),
        AuthError::AddressMismatch
    ));
    let presented = read_request(&proof).unwrap();
    assert!(matches!(find_holder(&registry, KEY, &presented), Err(AuthError::AddressMismatch)));
    assert_eq!(find_holder(&vec![user(ADDRESS, KEY)], KEY, &presented).unwrap(), ADDRESS);
}

#[test]
fn a_holder_is_confirmed_by_verdict_and_address() {
    let known = user("AbC", "00");
    assert_eq!(confirm_holder(&known, Ok(()), "aBc").unwrap(), "AbC");
    assert!(matches!(
        confirm_holder(&known, Ok(()), "abd"),
        Err(AuthError::AddressMismatch)
    ));
    let verdict = Err(ed25519_dalek::SignatureError::new());
    assert!(matches!(
        confirm_holder(&known, verdict, "abd"),
        Err(AuthError::SignatureRejected(_))
    ));
}

#[test]
fn a_failing_balance_service_lets_nobody_in() {
    let file = issue_challenge(&NONCE, 9);
    let proof = request(KEY, CHALLENGE, SIGNATURE);
    let registry = vec![user(ADDRESS, KEY)];
    let down = BalanceReply { status: 502, ..reply(ADDRESS, 1) };
    assert!(matches!(refused(&proof, &registry, &down, &file), AuthError::ApiStatus { .. }));
    let garbled = BalanceReply { text: "<html>".to_string(), ..reply(ADDRESS, 1) };
    assert!(matches!(refused(&proof, &registry, &garbled, &file), AuthError::InvalidReply(_)));
}

#[test]
fn a_request_that_cuts_a_character_is_told_apart() {
    assert!(request_reads(&request(KEY, CHALLENGE, SIGNATURE)));
    assert!(!request_reads(&request(KEY, "aéa", SIGNATURE)));
    assert!(!request_reads(&request(KEY, CHALLENGE, "aéa")));
    assert!(!request_reads(&request("aéa", CHALLENGE, SIGNATURE)));
    // What is not reached is not read.
    assert!(request_reads(&request("aéa", "00", "aéa")));
    assert!(request_reads(&request("aéa", CHALLENGE, "00")));
    assert!(request_reads(&request("aéa", CHALLENGE, "zz")));
}

#[test]
fn the_whole_way_from_wallet_to_game() {
    let wallet = WalletFile {
        network: "mainnet".to_string(),
        seed_phrase: PHRASE.to_string(),
        bip39_passphrase: "".to_string(),
        addresses: vec![WalletAddress {
            index: 0,
            address: ADDRESS.to_string(),
            public_key_hex: KEY.to_string(),
        }],
    };
    let selected = select_wallet_address(&wallet, None).unwrap();
    let mut registry = Vec::new();
    record_registration(&mut registry, &selected, 3);
    let file = issue_challenge(&[0xab; 8], 4);
    let signed = validate_client(KEY, &file.challenge, &wallet, None).unwrap().unwrap();
    let proof = request(&signed.public_key, &signed.challenge, &signed.signature);
    let (_, result, saved) = run(&config(1), &proof, &registry, &reply(ADDRESS, 2), &file);
    assert_eq!(result.unwrap()[0], "authenticated user.");
    assert!(saved.unwrap().used);
}
