//! The server's side: deciding whether a player is let in.
//!
//! An authentication alternates decisions, made here, with work on files and on the network, done
//! by the caller. Each call of [`authenticate`] takes the state that the authentication is in and
//! what the work brought, and gives the next state and the work to do.

use vstd::prelude::*;
use vstd::utf8::is_ascii_chars;

use crate::challenge::{
    challenge_bytes, consume_challenge, consumed, issued, issued_challenge_parses,
    new_challenge_displaces_the_old, parse_challenge, parsed_challenge, ChallengeFile,
    ChallengeFileView,
};
use crate::client::{
    convinces, request_of, signed_is_what_was_asked_for, validation, SignedChallengeView,
};
use crate::config::{GameConfig, GameConfigView};
use crate::crypto::{
    ed25519_is_public_key, ed25519_verifies, sha3_256_digest, signature_of, verify,
    verifying_key_of,
};
use crate::error::{outcome, AuthError, ErrorKind};
use crate::hex::{
    decoded, hex_decode, hex_text, readable_in_pairs, reads_in_pairs, what_is_read_can_be_read,
};
use crate::json::{json_tree, JsonTree};
use crate::keys::{address_from_public_key, address_of, first_32_bytes};
use crate::ownership::{
    balance_query, ownership, owns_item, query_for, shows_item, BalanceQuery, BalanceQueryView,
    BalanceReply, BalanceReplyView,
};
use crate::registry::{
    find_user, first_player_of_a_key_is_found, has_public_key, registered,
    registered_player_is_found_by_key, users, RegisteredUser, RegisteredUserView,
};
use crate::search::{first, first_position, first_position_is_first};
use crate::text::{headed, same_ignoring_case, texts};
use crate::wallet::{WalletAddressView, WalletView};

verus! {

/// What a player presents, as hex texts.
#[derive(Debug)]
pub struct AuthRequest {
    pub public_key: String,
    pub challenge: String,
    pub signature: String,
}

/// What an [`AuthRequest`] holds.
pub struct AuthRequestView {
    pub public_key: Seq<char>,
    pub challenge: Seq<char>,
    pub signature: Seq<char>,
}

impl View for AuthRequest {
    type V = AuthRequestView;

    open spec fn view(&self) -> AuthRequestView {
        AuthRequestView {
            public_key: self.public_key@,
            challenge: self.challenge@,
            signature: self.signature@,
        }
    }
}

/// What a player presented, read.
#[derive(Debug)]
pub struct Presented {
    pub challenge: Vec<u8>,
    pub signature: [u8; 64],
    pub public_key: [u8; 32],
}

/// What a [`Presented`] holds.
pub struct PresentedView {
    pub challenge: Seq<u8>,
    pub signature: Seq<u8>,
    pub public_key: Seq<u8>,
}

impl View for Presented {
    type V = PresentedView;

    open spec fn view(&self) -> PresentedView {
        PresentedView {
            challenge: self.challenge@,
            signature: self.signature@,
            public_key: self.public_key@,
        }
    }
}

/// What a request presents, or the first thing wrong with it.
pub open spec fn presented(request: AuthRequestView) -> Result<PresentedView, ErrorKind> {
    match parsed_challenge(request.challenge) {
        Err(kind) => Err(kind),
        Ok(challenge) => match decoded(request.signature) {
            Err(kind) => Err(kind),
            Ok(signature) => if signature.len() != 64 {
                Err(ErrorKind::Signature)
            } else {
                match decoded(request.public_key) {
                    Err(kind) => Err(kind),
                    Ok(public_key) => if public_key.len() != 32 {
                        Err(ErrorKind::PublicKeyLength)
                    } else if !ed25519_is_public_key(public_key) {
                        Err(ErrorKind::PublicKey)
                    } else {
                        Ok(PresentedView { challenge, signature, public_key })
                    },
                }
            },
        },
    }
}

/// A request proves that the player holds the key of an address: it can be read, its signature is
/// one of the challenge under its public key, and the address is the one of that key.
pub open spec fn proof_stands(request: AuthRequestView, address: Seq<char>) -> bool {
    presented(request) matches Ok(p) && ed25519_verifies(p.public_key, p.challenge, p.signature)
        && same_ignoring_case(address_of(p.public_key), address)
}

/// Each hex text of a request that has to be read, and is reached, can be read in pairs without
/// cutting a character in two.
pub open spec fn readable(request: AuthRequestView) -> bool {
    &&& readable_in_pairs(request.challenge)
    &&& parsed_challenge(request.challenge) is Ok ==> readable_in_pairs(request.signature)
    &&& parsed_challenge(request.challenge) is Ok && (decoded(request.signature) matches Ok(
        signature,
    ) && signature.len() == 64) ==> readable_in_pairs(request.public_key)
}

/// Whether each hex text of a request that has to be read can be, in pairs without cutting a
/// character in two.
pub fn request_reads(request: &AuthRequest) -> (yes: bool)
    ensures
        yes == readable(request@),
{
    if !reads_in_pairs(request.challenge.as_str()) {
        return false;
    }
    if parse_challenge(request.challenge.as_str()).is_err() {
        return true;
    }
    if !reads_in_pairs(request.signature.as_str()) {
        return false;
    }
    match hex_decode(request.signature.as_str()) {
        Err(_) => true,
        Ok(signature) => signature.len() != 64 || reads_in_pairs(request.public_key.as_str()),
    }
}

/// Reads a request.
pub fn read_request(request: &AuthRequest) -> (result: Result<Presented, AuthError>)
    requires
        readable(request@),
    ensures
        outcome(result) == presented(request@),
{
    let challenge: Vec<u8> = match parse_challenge(request.challenge.as_str()) {
        Ok(challenge) => challenge,
        Err(error) => {
            return Err(error);
        },
    };
    let signature_bytes: Vec<u8> = match hex_decode(request.signature.as_str()) {
        Ok(bytes) => bytes,
        Err(error) => {
            return Err(error);
        },
    };
    let signature: [u8; 64] = match signature_of(signature_bytes.as_slice()) {
        Ok(signature) => signature,
        Err(error) => {
            return Err(AuthError::Signature(error));
        },
    };
    let public_bytes: Vec<u8> = match hex_decode(request.public_key.as_str()) {
        Ok(bytes) => bytes,
        Err(error) => {
            return Err(error);
        },
    };
    if public_bytes.len() != 32 {
        return Err(AuthError::PublicKeyLength);
    }
    let bytes: [u8; 32] = first_32_bytes(public_bytes.as_slice());
    assert(bytes@ =~= public_bytes@);
    match verifying_key_of(&bytes) {
        Ok(public_key) => Ok(Presented { challenge, signature, public_key }),
        Err(error) => Err(AuthError::PublicKey(error)),
    }
}

/// The address of a registered player who presents a signature and a key of the derived address,
/// or what is wrong.
pub open spec fn holder_confirmed(
    user: RegisteredUserView,
    verified: bool,
    derived_address: Seq<char>,
) -> Result<Seq<char>, ErrorKind> {
    if !verified {
        Err(ErrorKind::SignatureRejected)
    } else if !same_ignoring_case(derived_address, user.address) {
        Err(ErrorKind::AddressMismatch)
    } else {
        Ok(user.address)
    }
}

/// Confirms a registered player by the verdict on the signature and the address of the key.
pub fn confirm_holder(
    user: &RegisteredUser,
    verdict: Result<(), ed25519_dalek::SignatureError>,
    derived_address: &str,
) -> (result: Result<String, AuthError>)
    ensures
        outcome(result) == holder_confirmed(user@, verdict is Ok, derived_address@),
{
    if let Err(error) = verdict {
        return Err(AuthError::SignatureRejected(error));
    }
    if !derived_address.eq_ignore_ascii_case(user.address.as_str()) {
        return Err(AuthError::AddressMismatch);
    }
    Ok(user.address.clone())
}

/// The registered address of the holder of what was presented: the public key is in the registry,
/// the signature is one of the challenge under it, and the registered address is its own.
pub open spec fn holder(
    registry: Seq<RegisteredUserView>,
    public_key_hex: Seq<char>,
    p: PresentedView,
) -> Result<Seq<char>, ErrorKind> {
    match first(registry, has_public_key(public_key_hex)) {
        None => Err(ErrorKind::KeyNotRegistered),
        Some(user) => holder_confirmed(
            user,
            ed25519_verifies(p.public_key, p.challenge, p.signature),
            address_of(p.public_key),
        ),
    }
}

/// Finds the registered address of the holder of what was presented.
pub fn find_holder(
    registry: &Vec<RegisteredUser>,
    public_key_hex: &str,
    p: &Presented,
) -> (result: Result<String, AuthError>)
    ensures
        outcome(result) == holder(users(registry@), public_key_hex@, p@),
{
    let k: usize = find_user(registry, public_key_hex);
    if k == registry.len() {
        return Err(AuthError::KeyNotRegistered);
    }
    let verdict = verify(&p.public_key, p.challenge.as_slice(), &p.signature);
    let derived_address = address_from_public_key(&p.public_key);
    confirm_holder(&registry[k], verdict, derived_address.as_str())
}

/// The state of an authentication: what it waits for, and what is known by then.
#[derive(Debug)]
pub enum AuthState {
    /// Nothing has been done.
    Opening,
    /// The registry is being loaded.
    AwaitingRegistry(Presented),
    /// The balance of the address is being asked for.
    AwaitingBalance(String),
    /// The challenge on file is being loaded, for the address.
    AwaitingChallenge(String),
    /// The challenge is being saved as used, for the address.
    AwaitingSave(String),
    /// The player was let in or refused.
    Closed,
}

/// What an [`AuthState`] holds.
pub enum AuthStateView {
    Opening,
    AwaitingRegistry(PresentedView),
    AwaitingBalance(Seq<char>),
    AwaitingChallenge(Seq<char>),
    AwaitingSave(Seq<char>),
    Closed,
}

impl View for AuthState {
    type V = AuthStateView;

    open spec fn view(&self) -> AuthStateView {
        match *self {
            AuthState::Opening => AuthStateView::Opening,
            AuthState::AwaitingRegistry(p) => AuthStateView::AwaitingRegistry(p@),
            AuthState::AwaitingBalance(address) => AuthStateView::AwaitingBalance(address@),
            AuthState::AwaitingChallenge(address) => AuthStateView::AwaitingChallenge(address@),
            AuthState::AwaitingSave(address) => AuthStateView::AwaitingSave(address@),
            AuthState::Closed => AuthStateView::Closed,
        }
    }
}

/// What the work brought.
#[derive(Debug)]
pub enum AuthEvent {
    /// The request has come in.
    Opened,
    /// The registry was loaded.
    Registry(Vec<RegisteredUser>),
    /// The balance service answered.
    Balance(BalanceReply),
    /// The challenge on file was loaded.
    Challenge(ChallengeFile),
    /// The challenge was saved.
    Saved,
}

/// What an [`AuthEvent`] holds.
pub enum AuthEventView {
    Opened,
    Registry(Seq<RegisteredUserView>),
    Balance(BalanceReplyView),
    Challenge(ChallengeFileView),
    Saved,
}

impl View for AuthEvent {
    type V = AuthEventView;

    open spec fn view(&self) -> AuthEventView {
        match *self {
            AuthEvent::Opened => AuthEventView::Opened,
            AuthEvent::Registry(registry) => AuthEventView::Registry(users(registry@)),
            AuthEvent::Balance(reply) => AuthEventView::Balance(reply@),
            AuthEvent::Challenge(file) => AuthEventView::Challenge(file@),
            AuthEvent::Saved => AuthEventView::Saved,
        }
    }
}

/// The work to do.
#[derive(Debug)]
pub enum AuthAction {
    /// Load the registry from a file.
    LoadRegistry(String),
    /// Ask the balance service.
    QueryBalance(BalanceQuery),
    /// Load the challenge from a file.
    LoadChallenge(String),
    /// Save the challenge to a file.
    SaveChallenge(String, ChallengeFile),
    /// Let the player in, and report it in these lines.
    Accept(Vec<String>),
    /// Refuse the player.
    Refuse(AuthError),
}

/// What an [`AuthAction`] holds.
pub enum AuthActionView {
    LoadRegistry(Seq<char>),
    QueryBalance(BalanceQueryView),
    LoadChallenge(Seq<char>),
    SaveChallenge(Seq<char>, ChallengeFileView),
    Accept(Seq<Seq<char>>),
    Refuse(ErrorKind),
}

impl View for AuthAction {
    type V = AuthActionView;

    open spec fn view(&self) -> AuthActionView {
        match *self {
            AuthAction::LoadRegistry(path) => AuthActionView::LoadRegistry(path@),
            AuthAction::QueryBalance(query) => AuthActionView::QueryBalance(query@),
            AuthAction::LoadChallenge(path) => AuthActionView::LoadChallenge(path@),
            AuthAction::SaveChallenge(path, file) => AuthActionView::SaveChallenge(path@, file@),
            AuthAction::Accept(lines) => AuthActionView::Accept(texts(lines@)),
            AuthAction::Refuse(error) => AuthActionView::Refuse(error@),
        }
    }
}

/// A state waits for an event of this sort.
pub open spec fn awaits(state: AuthStateView, event: AuthEventView) -> bool {
    match state {
        AuthStateView::Opening => event is Opened,
        AuthStateView::AwaitingRegistry(_) => event is Registry,
        AuthStateView::AwaitingBalance(_) => event is Balance,
        AuthStateView::AwaitingChallenge(_) => event is Challenge,
        AuthStateView::AwaitingSave(_) => event is Saved,
        AuthStateView::Closed => false,
    }
}

/// A decision that closes an authentication.
pub open spec fn refused(kind: ErrorKind) -> (AuthStateView, AuthActionView) {
    (AuthStateView::Closed, AuthActionView::Refuse(kind))
}

/// The first decision: a server without blockchain authentication lets everybody in; any other
/// reads the request and goes on to the registry.
pub open spec fn opening(config: GameConfigView, request: AuthRequestView) -> (
    AuthStateView,
    AuthActionView,
) {
    if config.use_blockchain_auth == 0 {
        (AuthStateView::Closed, AuthActionView::Accept(seq!["authenticated user."@]))
    } else {
        match presented(request) {
            Err(kind) => refused(kind),
            Ok(p) => (
                AuthStateView::AwaitingRegistry(p),
                AuthActionView::LoadRegistry(config.registry_file),
            ),
        }
    }
}

/// The decision on the registry: the holder's balance is asked for.
pub open spec fn on_registry(
    config: GameConfigView,
    request: AuthRequestView,
    p: PresentedView,
    registry: Seq<RegisteredUserView>,
) -> (AuthStateView, AuthActionView) {
    match holder(registry, request.public_key, p) {
        Err(kind) => refused(kind),
        Ok(address) => (
            AuthStateView::AwaitingBalance(address),
            AuthActionView::QueryBalance(query_for(config.mempool_url, address)),
        ),
    }
}

/// The decision on the balance: the holder has to own the required item now.
pub open spec fn on_balance(
    config: GameConfigView,
    address: Seq<char>,
    reply: BalanceReplyView,
) -> (AuthStateView, AuthActionView) {
    match ownership(reply, address, config.required_item) {
        Err(kind) => refused(kind),
        Ok(owned) => if owned {
            (
                AuthStateView::AwaitingChallenge(address),
                AuthActionView::LoadChallenge(config.challenge_file),
            )
        } else {
            refused(ErrorKind::ItemNotOwned)
        },
    }
}

/// The decision on the challenge: it has to be the one on file and unused, and is then saved as
/// used.
pub open spec fn on_challenge(
    config: GameConfigView,
    request: AuthRequestView,
    address: Seq<char>,
    file: ChallengeFileView,
) -> (AuthStateView, AuthActionView) {
    match consumed(file, request.challenge) {
        Err(kind) => refused(kind),
        Ok(used) => (
            AuthStateView::AwaitingSave(address),
            AuthActionView::SaveChallenge(config.challenge_file, used),
        ),
    }
}

/// The last decision: the player is let in.
pub open spec fn on_saved(address: Seq<char>) -> (AuthStateView, AuthActionView) {
    (
        AuthStateView::Closed,
        AuthActionView::Accept(seq!["authenticated user."@, "Address: "@ + address]),
    )
}

/// The next state of an authentication, and the work to do. Of an event that the state does not
/// wait for, nothing is said.
pub open spec fn auth_step(
    config: GameConfigView,
    request: AuthRequestView,
    state: AuthStateView,
    event: AuthEventView,
) -> (AuthStateView, AuthActionView) {
    match (state, event) {
        (AuthStateView::Opening, AuthEventView::Opened) => opening(config, request),
        (AuthStateView::AwaitingRegistry(p), AuthEventView::Registry(registry)) => on_registry(
            config,
            request,
            p,
            registry,
        ),
        (AuthStateView::AwaitingBalance(address), AuthEventView::Balance(reply)) => on_balance(
            config,
            address,
            reply,
        ),
        (AuthStateView::AwaitingChallenge(address), AuthEventView::Challenge(file)) =>
            on_challenge(config, request, address, file),
        (AuthStateView::AwaitingSave(address), AuthEventView::Saved) => on_saved(address),
        _ => arbitrary(),
    }
}

/// Closes an authentication with a refusal.
fn refuse(error: AuthError) -> (step: (AuthState, AuthAction))
    ensures
        (step.0@, step.1@) == refused(error@),
{
    (AuthState::Closed, AuthAction::Refuse(error))
}

/// Makes the next decision of an authentication. The event has to be one that the state waits
/// for. A request that has to be read, and cannot be without cutting a character in two, is left
/// out.
pub fn authenticate(
    config: &GameConfig,
    request: &AuthRequest,
    state: AuthState,
    event: AuthEvent,
) -> (step: (AuthState, AuthAction))
    requires
        awaits(state@, event@),
        state is Opening && config.use_blockchain_auth != 0 ==> readable(request@),
    ensures
        (step.0@, step.1@) == auth_step(config@, request@, state@, event@),
{
    match (state, event) {
        (AuthState::Opening, AuthEvent::Opened) => {
            if config.use_blockchain_auth == 0 {
                let lines: Vec<String> = vec!["authenticated user.".to_owned()];
                assert(texts(lines@) =~= seq!["authenticated user."@]);
                return (AuthState::Closed, AuthAction::Accept(lines));
            }
            match read_request(request) {
                Err(error) => refuse(error),
                Ok(p) => (
                    AuthState::AwaitingRegistry(p),
                    AuthAction::LoadRegistry(config.server.registry_file.clone()),
                ),
            }
        },
        (AuthState::AwaitingRegistry(p), AuthEvent::Registry(registry)) => {
            match find_holder(&registry, request.public_key.as_str(), &p) {
                Err(error) => refuse(error),
                Ok(address) => {
                    let query = balance_query(config.mempool.url.as_str(), address.as_str());
                    (AuthState::AwaitingBalance(address), AuthAction::QueryBalance(query))
                },
            }
        },
        (AuthState::AwaitingBalance(address), AuthEvent::Balance(reply)) => {
            match owns_item(&reply, address.as_str(), config.required_item.as_str()) {
                Err(error) => refuse(error),
                Ok(owned) => if owned {
                    (
                        AuthState::AwaitingChallenge(address),
                        AuthAction::LoadChallenge(config.server.challenge_file.clone()),
                    )
                } else {
                    refuse(AuthError::ItemNotOwned)
                },
            }
        },
        (AuthState::AwaitingChallenge(address), AuthEvent::Challenge(file)) => {
            match consume_challenge(file, request.challenge.as_str()) {
                Err(error) => refuse(error),
                Ok(used) => (
                    AuthState::AwaitingSave(address),
                    AuthAction::SaveChallenge(config.server.challenge_file.clone(), used),
                ),
            }
        },
        (AuthState::AwaitingSave(address), AuthEvent::Saved) => {
            let lines: Vec<String> = vec![
                "authenticated user.".to_owned(),
                headed("Address: ", address.as_str()),
            ];
            assert(texts(lines@) =~= seq!["authenticated user."@, "Address: "@ + address@]);
            (AuthState::Closed, AuthAction::Accept(lines))
        },
        (_, _) => {
            assert(false);
            refuse(AuthError::ItemNotOwned)
        },
    }
}

/// What an authentication meets outside: the registry, the answer of the balance service and the
/// challenge on file.
pub struct Surroundings {
    pub registry: Seq<RegisteredUserView>,
    pub reply: BalanceReplyView,
    pub file: ChallengeFileView,
}

impl Surroundings {
    /// What the work of an action brings; nothing, where the action closes the authentication.
    pub open spec fn brings(self, action: AuthActionView) -> Option<AuthEventView> {
        match action {
            AuthActionView::LoadRegistry(_) => Some(AuthEventView::Registry(self.registry)),
            AuthActionView::QueryBalance(_) => Some(AuthEventView::Balance(self.reply)),
            AuthActionView::LoadChallenge(_) => Some(AuthEventView::Challenge(self.file)),
            AuthActionView::SaveChallenge(_, _) => Some(AuthEventView::Saved),
            AuthActionView::Accept(_) => None,
            AuthActionView::Refuse(_) => None,
        }
    }
}

/// How many decisions are left to make, at most.
pub open spec fn decisions_left(state: AuthStateView) -> nat {
    match state {
        AuthStateView::Opening => 5,
        AuthStateView::AwaitingRegistry(_) => 4,
        AuthStateView::AwaitingBalance(_) => 3,
        AuthStateView::AwaitingChallenge(_) => 2,
        AuthStateView::AwaitingSave(_) => 1,
        AuthStateView::Closed => 0,
    }
}

/// The actions of an authentication from a state and an event on, in their order.
pub open spec fn actions_from(
    config: GameConfigView,
    request: AuthRequestView,
    around: Surroundings,
    state: AuthStateView,
    event: AuthEventView,
) -> Seq<AuthActionView>
    decreases decisions_left(state),
    when awaits(state, event)
{
    let (next, action) = auth_step(config, request, state, event);
    match around.brings(action) {
        None => seq![action],
        Some(brought) => seq![action] + actions_from(config, request, around, next, brought),
    }
}

/// The actions of a whole authentication.
pub open spec fn authentication(
    config: GameConfigView,
    request: AuthRequestView,
    around: Surroundings,
) -> Seq<AuthActionView> {
    actions_from(config, request, around, AuthStateView::Opening, AuthEventView::Opened)
}

/// An answer of the balance service shows that the address owns the item.
pub open spec fn owned_by(reply: BalanceReplyView, address: Seq<char>, item: Seq<char>) -> bool {
    &&& 200 <= reply.status < 300
    &&& json_tree(reply.text) matches Some(answer) && shows_item(answer, address, item)
}

/// The player of the registry whom a request speaks for.
pub open spec fn claimant(
    request: AuthRequestView,
    registry: Seq<RegisteredUserView>,
) -> Option<RegisteredUserView> {
    first(registry, has_public_key(request.public_key))
}

/// A player is to be let in: the public key is registered, the request proves that the player
/// holds the key of the registered address, that address owns the required item now, and the
/// challenge is the one on file and was not used before.
pub open spec fn entitled(
    config: GameConfigView,
    request: AuthRequestView,
    around: Surroundings,
) -> bool {
    &&& claimant(request, around.registry) matches Some(user) && proof_stands(
        request,
        user.address,
    ) && owned_by(around.reply, user.address, config.required_item)
    &&& same_ignoring_case(around.file.challenge, request.challenge)
    &&& !around.file.used
}

/// The actions of an authentication that lets a player in.
pub open spec fn letting_in(
    config: GameConfigView,
    request: AuthRequestView,
    around: Surroundings,
) -> Seq<AuthActionView> {
    let address = claimant(request, around.registry)->0.address;
    seq![
        AuthActionView::LoadRegistry(config.registry_file),
        AuthActionView::QueryBalance(query_for(config.mempool_url, address)),
        AuthActionView::LoadChallenge(config.challenge_file),
        AuthActionView::SaveChallenge(
            config.challenge_file,
            ChallengeFileView { used: true, ..around.file },
        ),
        AuthActionView::Accept(seq!["authenticated user."@, "Address: "@ + address]),
    ]
}

/// The actions are those of an authentication that refuses the player: a refusal comes last, and
/// before it nothing is saved and nobody is let in.
pub open spec fn refuses(actions: Seq<AuthActionView>) -> bool {
    &&& actions.len() > 0
    &&& actions.last() is Refuse
    &&& forall|i: int|
        0 <= i < actions.len() ==> !((#[trigger] actions[i]) is SaveChallenge) && !(
        actions[i] is Accept)
}

/// An action asks for the very thing that the next state waits for, and an action that asks for
/// nothing closes the authentication. Each decision leaves fewer to make.
pub proof fn action_asks_for_what_is_awaited(
    config: GameConfigView,
    request: AuthRequestView,
    around: Surroundings,
    state: AuthStateView,
    event: AuthEventView,
)
    requires
        awaits(state, event),
    ensures
        ({
            let (next, action) = auth_step(config, request, state, event);
            &&& match around.brings(action) {
                Some(brought) => awaits(next, brought),
                None => next is Closed,
            }
            &&& decisions_left(next) < decisions_left(state)
        }),
{
}

/// A server that asks for proof lets a player in exactly if the player is entitled to it. It then
/// asks for the balance of the registered address, and marks the challenge used. Any other player
/// is refused, and the challenge stays as it is.
pub proof fn let_in_exactly_if_entitled(
    config: GameConfigView,
    request: AuthRequestView,
    around: Surroundings,
)
    requires
        config.use_blockchain_auth != 0,
    ensures
        entitled(config, request, around) ==> authentication(config, request, around)
            == letting_in(config, request, around),
        !entitled(config, request, around) ==> refuses(authentication(config, request, around)),
{
    reveal_with_fuel(actions_from, 6);
    if entitled(config, request, around) {
        assert(authentication(config, request, around) =~= letting_in(config, request, around));
    }
}

/// A server that asks for no proof lets everybody in, and does nothing else.
pub proof fn development_server_lets_everybody_in(
    config: GameConfigView,
    request: AuthRequestView,
    around: Surroundings,
)
    requires
        config.use_blockchain_auth == 0,
    ensures
        authentication(config, request, around) == seq![
            AuthActionView::Accept(seq!["authenticated user."@]),
        ],
{
}

/// A player who was let in is refused, for that reason, as soon as the balance service shows that
/// the item was transferred away, even with the same challenge still unused.
pub proof fn transferring_the_item_away_locks_out(
    config: GameConfigView,
    request: AuthRequestView,
    around: Surroundings,
    reply: BalanceReplyView,
)
    requires
        config.use_blockchain_auth != 0,
        entitled(config, request, around),
        200 <= reply.status < 300,
        json_tree(reply.text) matches Some(answer) && !shows_item(
            answer,
            claimant(request, around.registry)->0.address,
            config.required_item,
        ),
    ensures
        ({
            let actions = authentication(config, request, Surroundings { reply, ..around });
            &&& refuses(actions)
            &&& actions.last() == AuthActionView::Refuse(ErrorKind::ItemNotOwned)
        }),
{
    reveal_with_fuel(actions_from, 6);
}

/// A challenge lets in once: where a player was let in, what was saved then refuses every request,
/// whatever else has changed.
pub proof fn challenge_lets_in_once(
    config: GameConfigView,
    request: AuthRequestView,
    around: Surroundings,
    again: AuthRequestView,
    later: Surroundings,
)
    requires
        config.use_blockchain_auth != 0,
        authentication(config, request, around).contains(
            AuthActionView::SaveChallenge(config.challenge_file, later.file),
        ),
    ensures
        refuses(authentication(config, again, later)),
{
    let_in_exactly_if_entitled(config, request, around);
    let_in_exactly_if_entitled(config, again, later);
}

/// The same request, sent again right after it was let in, is refused as a replay.
pub proof fn replay_is_refused(
    config: GameConfigView,
    request: AuthRequestView,
    around: Surroundings,
)
    requires
        config.use_blockchain_auth != 0,
        entitled(config, request, around),
    ensures
        ({
            let file = ChallengeFileView { used: true, ..around.file };
            let actions = authentication(config, request, Surroundings { file, ..around });
            &&& refuses(actions)
            &&& actions.last() == AuthActionView::Refuse(ErrorKind::ChallengeUsed)
        }),
{
    reveal_with_fuel(actions_from, 6);
}

/// Issuing a challenge voids the one before: a request with that one is refused.
pub proof fn issuing_a_challenge_voids_the_one_before(
    config: GameConfigView,
    request: AuthRequestView,
    around: Surroundings,
    old_nonce: Seq<u8>,
    new_nonce: Seq<u8>,
    now: u64,
)
    requires
        config.use_blockchain_auth != 0,
        old_nonce.len() == 8,
        new_nonce.len() == 8,
        old_nonce != new_nonce,
        same_ignoring_case(request.challenge, hex_text(challenge_bytes(old_nonce))),
        around.file == issued(new_nonce, now),
    ensures
        refuses(authentication(config, request, around)),
{
    new_challenge_displaces_the_old(old_nonce, new_nonce, now);
    assert(consumed(issued(new_nonce, now), request.challenge) is Err);
    let_in_exactly_if_entitled(config, request, around);
}

/// A request that presents something can be read.
pub proof fn what_presents_something_is_readable(request: AuthRequestView)
    requires
        presented(request) is Ok,
    ensures
        readable(request),
{
}

/// The whole way: a player registers an address of the wallet, the server issues a challenge, the
/// player signs it with the key of that address, and is let in if the address owns the item. The
/// public key is taken to be registered for no other address, where the server would look first.
pub proof fn registered_owner_is_let_in(
    config: GameConfigView,
    registry: Seq<RegisteredUserView>,
    selected: WalletAddressView,
    registered_at: u64,
    nonce: Seq<u8>,
    issued_at: u64,
    wallet: WalletView,
    address_index: Option<u32>,
    signed: SignedChallengeView,
    reply: BalanceReplyView,
)
    requires
        config.use_blockchain_auth != 0,
        nonce.len() == 8,
        validation(
            selected.public_key_hex,
            issued(nonce, issued_at).challenge,
            wallet,
            address_index,
        ) == Some(Ok::<SignedChallengeView, ErrorKind>(signed)),
        convinces(signed),
        same_ignoring_case(signed.address, selected.address),
        forall|j: int|
            0 <= j < registry.len() && !same_ignoring_case(
                registry[j].address,
                selected.address,
            ) ==> !same_ignoring_case(
                (#[trigger] registry[j]).public_key,
                selected.public_key_hex,
            ),
        ({
            let user = claimant(
                request_of(signed),
                registered(registry, selected, registered_at),
            )->0;
            owned_by(reply, user.address, config.required_item)
        }),
    ensures
        ({
            let around = Surroundings {
                registry: registered(registry, selected, registered_at),
                reply,
                file: issued(nonce, issued_at),
            };
            &&& readable(request_of(signed))
            &&& authentication(config, request_of(signed), around) == letting_in(
                config,
                request_of(signed),
                around,
            )
        }),
{
    let after = registered(registry, selected, registered_at);
    let around = Surroundings { registry: after, reply, file: issued(nonce, issued_at) };
    issued_challenge_parses(nonce, issued_at);
    signed_is_what_was_asked_for(
        selected.public_key_hex,
        issued(nonce, issued_at).challenge,
        wallet,
        address_index,
    );
    assert(has_public_key(signed.public_key) =~= has_public_key(selected.public_key_hex));
    registered_player_is_found_by_key(registry, selected, registered_at);
    what_presents_something_is_readable(request_of(signed));
    let_in_exactly_if_entitled(config, request_of(signed), around);
}

/// A request presents a challenge, a signature and a public key exactly if its three texts read as
/// these: a challenge, 64 bytes, and the 32 bytes of a public key. Otherwise the first thing wrong
/// is named.
pub proof fn request_presents_what_its_texts_read_as(request: AuthRequestView)
    ensures
        ({
            let challenge = parsed_challenge(request.challenge);
            let signature = decoded(request.signature);
            let key = decoded(request.public_key);
            let fails = |kind: ErrorKind| Err::<PresentedView, ErrorKind>(kind);
            let result = presented(request);
            &&& challenge matches Err(kind) ==> result == fails(kind)
            &&& challenge is Ok ==> (signature matches Err(kind) ==> result == fails(kind))
            &&& challenge is Ok && signature is Ok ==> {
                &&& signature->Ok_0.len() != 64 ==> result == fails(ErrorKind::Signature)
                &&& signature->Ok_0.len() == 64 ==> {
                    &&& key matches Err(kind) ==> result == fails(kind)
                    &&& key matches Ok(bytes) ==> {
                        &&& bytes.len() != 32 ==> result == fails(ErrorKind::PublicKeyLength)
                        &&& bytes.len() == 32 && !ed25519_is_public_key(bytes) ==> result == fails(
                            ErrorKind::PublicKey,
                        )
                        &&& bytes.len() == 32 && ed25519_is_public_key(bytes) ==> (result matches Ok(
                            p,
                        ) && p.challenge == challenge->Ok_0 && p.signature == signature->Ok_0
                            && p.public_key == bytes)
                    }
                }
            }
        }),
{
}

/// A request can be read if each of its texts can, so in particular if it is all ASCII. It cannot if
/// its challenge cannot; nor, where the challenge is one, if its signature cannot; nor, where the
/// signature is 64 bytes too, if its public key cannot.
pub proof fn request_can_be_read_if_its_texts_can(request: AuthRequestView)
    ensures
        readable_in_pairs(request.challenge) && readable_in_pairs(request.signature)
            && readable_in_pairs(request.public_key) ==> readable(request),
        is_ascii_chars(request.challenge) && is_ascii_chars(request.signature) && is_ascii_chars(
            request.public_key,
        ) ==> readable(request),
        !readable_in_pairs(request.challenge) ==> !readable(request),
        parsed_challenge(request.challenge) is Ok && !readable_in_pairs(request.signature)
            ==> !readable(request),
        parsed_challenge(request.challenge) is Ok && (decoded(request.signature) matches Ok(
            signature,
        ) && signature.len() == 64) && !readable_in_pairs(request.public_key) ==> !readable(
            request,
        ),
        readable_in_pairs(request.challenge) && parsed_challenge(request.challenge) is Err
            ==> readable(request),
{
    what_is_read_can_be_read(request.challenge);
    what_is_read_can_be_read(request.signature);
    what_is_read_can_be_read(request.public_key);
}

/// An owner is let in, by these actions and no others: the public key of the request is that of a
/// player, the first in the registry that has it, wherever that player stands; the request's
/// signature is one of its challenge under the key; the digest of the key is the player's address;
/// an answer of success shows the required item there; and the challenge is the one on file, which
/// was not used.
pub proof fn owner_is_let_in(
    config: GameConfigView,
    request: AuthRequestView,
    around: Surroundings,
    k: int,
    challenge: Seq<u8>,
    signature: Seq<u8>,
    public_key: Seq<u8>,
    answer: JsonTree,
)
    requires
        config.use_blockchain_auth != 0,
        parsed_challenge(request.challenge) == Ok::<Seq<u8>, ErrorKind>(challenge),
        decoded(request.signature) == Ok::<Seq<u8>, ErrorKind>(signature),
        signature.len() == 64,
        decoded(request.public_key) == Ok::<Seq<u8>, ErrorKind>(public_key),
        public_key.len() == 32,
        ed25519_is_public_key(public_key),
        0 <= k < around.registry.len(),
        same_ignoring_case(around.registry[k].public_key, request.public_key),
        forall|j: int|
            0 <= j < k ==> !same_ignoring_case(
                (#[trigger] around.registry[j]).public_key,
                request.public_key,
            ),
        ed25519_verifies(public_key, challenge, signature),
        same_ignoring_case(hex_text(sha3_256_digest(public_key)), around.registry[k].address),
        200 <= around.reply.status < 300,
        json_tree(around.reply.text) == Some(answer),
        shows_item(answer, around.registry[k].address, config.required_item),
        same_ignoring_case(around.file.challenge, request.challenge),
        !around.file.used,
    ensures
        ({
            let address = around.registry[k].address;
            let actions = authentication(config, request, around);
            &&& actions.len() == 5
            &&& actions[0] == AuthActionView::LoadRegistry(config.registry_file)
            &&& actions[1] == AuthActionView::QueryBalance(query_for(config.mempool_url, address))
            &&& actions[2] == AuthActionView::LoadChallenge(config.challenge_file)
            &&& actions[3] matches AuthActionView::SaveChallenge(path, saved) && path
                == config.challenge_file && saved.used && saved.challenge == around.file.challenge
                && saved.issued_at_utc == around.file.issued_at_utc
            &&& actions[4] == AuthActionView::Accept(
                seq!["authenticated user."@, "Address: "@ + address],
            )
        }),
{
    first_player_of_a_key_is_found(around.registry, request.public_key, k);
    let_in_exactly_if_entitled(config, request, around);
}

/// Nobody else is let in: where a server that asks for proof lets a player in, or marks a challenge
/// used, all that makes an owner holds.
pub proof fn only_an_owner_is_let_in(
    config: GameConfigView,
    request: AuthRequestView,
    around: Surroundings,
    i: int,
)
    requires
        config.use_blockchain_auth != 0,
        0 <= i < authentication(config, request, around).len(),
        authentication(config, request, around)[i] is Accept || authentication(
            config,
            request,
            around,
        )[i] is SaveChallenge,
    ensures
        ({
            let challenge = parsed_challenge(request.challenge);
            let signature = decoded(request.signature);
            let key = decoded(request.public_key);
            &&& challenge is Ok && signature is Ok && key is Ok
            &&& signature->Ok_0.len() == 64
            &&& key->Ok_0.len() == 32
            &&& ed25519_is_public_key(key->Ok_0)
            &&& ed25519_verifies(key->Ok_0, challenge->Ok_0, signature->Ok_0)
            &&& exists|k: int|
                {
                    &&& 0 <= k < around.registry.len()
                    &&& same_ignoring_case(
                        (#[trigger] around.registry[k]).public_key,
                        request.public_key,
                    )
                    &&& same_ignoring_case(
                        hex_text(sha3_256_digest(key->Ok_0)),
                        around.registry[k].address,
                    )
                    &&& 200 <= around.reply.status < 300
                    &&& json_tree(around.reply.text) matches Some(answer) && shows_item(
                        answer,
                        around.registry[k].address,
                        config.required_item,
                    )
                }
            &&& same_ignoring_case(around.file.challenge, request.challenge)
            &&& !around.file.used
        }),
{
    let_in_exactly_if_entitled(config, request, around);
    assert(entitled(config, request, around));
    first_position_is_first(around.registry, has_public_key(request.public_key));
    let k = first_position(around.registry, has_public_key(request.public_key));
    assert(same_ignoring_case(around.registry[k].public_key, request.public_key));
}

/// A request that presents nothing, or a public key that no player has, is refused for that.
pub proof fn stranger_is_refused(
    config: GameConfigView,
    request: AuthRequestView,
    around: Surroundings,
)
    requires
        config.use_blockchain_auth != 0,
    ensures
        presented(request) matches Err(kind) ==> authentication(config, request, around) == seq![
            AuthActionView::Refuse(kind),
        ],
        presented(request) is Ok && (forall|j: int|
            0 <= j < around.registry.len() ==> !same_ignoring_case(
                (#[trigger] around.registry[j]).public_key,
                request.public_key,
            )) ==> authentication(config, request, around) == seq![
            AuthActionView::LoadRegistry(config.registry_file),
            AuthActionView::Refuse(ErrorKind::KeyNotRegistered),
        ],
{
    reveal_with_fuel(actions_from, 6);
    if presented(request) is Ok && (forall|j: int|
        0 <= j < around.registry.len() ==> !same_ignoring_case(
            (#[trigger] around.registry[j]).public_key,
            request.public_key,
        )) {
        first_player_of_a_key_is_found(
            around.registry,
            request.public_key,
            around.registry.len() as int,
        );
        assert(authentication(config, request, around) =~= seq![
            AuthActionView::LoadRegistry(config.registry_file),
            AuthActionView::Refuse(ErrorKind::KeyNotRegistered),
        ]);
    }
}

/// A player of the registry who is refused is told the first thing that is wrong: the signature, the
/// address, the answer of the balance service, the item, the challenge.
pub proof fn player_is_refused_for_the_first_reason(
    config: GameConfigView,
    request: AuthRequestView,
    around: Surroundings,
    k: int,
    p: PresentedView,
)
    requires
        config.use_blockchain_auth != 0,
        presented(request) == Ok::<PresentedView, ErrorKind>(p),
        0 <= k < around.registry.len(),
        same_ignoring_case(around.registry[k].public_key, request.public_key),
        forall|j: int|
            0 <= j < k ==> !same_ignoring_case(
                (#[trigger] around.registry[j]).public_key,
                request.public_key,
            ),
    ensures
        ({
            let last = authentication(config, request, around).last();
            let address = around.registry[k].address;
            let reply = around.reply;
            let signed = ed25519_verifies(p.public_key, p.challenge, p.signature);
            let own = same_ignoring_case(hex_text(sha3_256_digest(p.public_key)), address);
            let answered = 200 <= reply.status && reply.status < 300;
            let tree = json_tree(reply.text);
            let owned = shows_item(tree->0, address, config.required_item);
            let current = same_ignoring_case(around.file.challenge, request.challenge);
            let refuse = |kind: ErrorKind| AuthActionView::Refuse(kind);
            &&& !signed ==> last == refuse(ErrorKind::SignatureRejected)
            &&& signed && !own ==> last == refuse(ErrorKind::AddressMismatch)
            &&& signed && own && !answered ==> last == refuse(
                ErrorKind::ApiStatus(reply.status_line, reply.text),
            )
            &&& signed && own && answered && tree is None ==> last == refuse(
                ErrorKind::InvalidReply,
            )
            &&& signed && own && answered && tree is Some && !owned ==> last == refuse(
                ErrorKind::ItemNotOwned,
            )
            &&& signed && own && answered && tree is Some && owned && !current ==> last == refuse(
                ErrorKind::StaleChallenge,
            )
            &&& signed && own && answered && tree is Some && owned && current && around.file.used
                ==> last == refuse(ErrorKind::ChallengeUsed)
        }),
{
    reveal_with_fuel(actions_from, 6);
    first_player_of_a_key_is_found(around.registry, request.public_key, k);
}

/// The holder of what was presented is the first player with the public key, if the signature
/// verifies and the digest of the key is the player's address.
pub proof fn holder_is_the_first_player_with_the_key(
    registry: Seq<RegisteredUserView>,
    public_key_hex: Seq<char>,
    p: PresentedView,
    k: int,
)
    requires
        0 <= k <= registry.len(),
        k < registry.len() ==> same_ignoring_case(registry[k].public_key, public_key_hex),
        forall|j: int|
            0 <= j < k ==> !same_ignoring_case((#[trigger] registry[j]).public_key, public_key_hex),
    ensures
        k == registry.len() ==> holder(registry, public_key_hex, p) == Err::<Seq<char>, ErrorKind>(
            ErrorKind::KeyNotRegistered,
        ),
        k < registry.len() ==> {
            let signed = ed25519_verifies(p.public_key, p.challenge, p.signature);
            let own = same_ignoring_case(
                hex_text(sha3_256_digest(p.public_key)),
                registry[k].address,
            );
            &&& signed && own ==> holder(registry, public_key_hex, p) == Ok::<Seq<char>, ErrorKind>(
                registry[k].address,
            )
            &&& !signed ==> holder(registry, public_key_hex, p) == Err::<Seq<char>, ErrorKind>(
                ErrorKind::SignatureRejected,
            )
            &&& signed && !own ==> holder(registry, public_key_hex, p) == Err::<
                Seq<char>,
                ErrorKind,
            >(ErrorKind::AddressMismatch)
        },
{
    first_player_of_a_key_is_found(registry, public_key_hex, k);
}

/// Requests and what they present are seen as they are.
pub proof fn requests_are_seen_as_they_are(request: AuthRequest, p: Presented)
    ensures
        request@.public_key == request.public_key@,
        request@.challenge == request.challenge@,
        request@.signature == request.signature@,
        p@.challenge == p.challenge@,
        p@.signature == p.signature@,
        p@.public_key == p.public_key@,
{
}

/// States, events and actions are seen as they are.
pub proof fn steps_are_seen_as_they_are(state: AuthState, event: AuthEvent, action: AuthAction)
    ensures
        state@ == match state {
            AuthState::Opening => AuthStateView::Opening,
            AuthState::AwaitingRegistry(p) => AuthStateView::AwaitingRegistry(p@),
            AuthState::AwaitingBalance(address) => AuthStateView::AwaitingBalance(address@),
            AuthState::AwaitingChallenge(address) => AuthStateView::AwaitingChallenge(address@),
            AuthState::AwaitingSave(address) => AuthStateView::AwaitingSave(address@),
            AuthState::Closed => AuthStateView::Closed,
        },
        event@ == match event {
            AuthEvent::Opened => AuthEventView::Opened,
            AuthEvent::Registry(registry) => AuthEventView::Registry(users(registry@)),
            AuthEvent::Balance(reply) => AuthEventView::Balance(reply@),
            AuthEvent::Challenge(file) => AuthEventView::Challenge(file@),
            AuthEvent::Saved => AuthEventView::Saved,
        },
        action@ == match action {
            AuthAction::LoadRegistry(path) => AuthActionView::LoadRegistry(path@),
            AuthAction::QueryBalance(query) => AuthActionView::QueryBalance(query@),
            AuthAction::LoadChallenge(path) => AuthActionView::LoadChallenge(path@),
            AuthAction::SaveChallenge(path, file) => AuthActionView::SaveChallenge(path@, file@),
            AuthAction::Accept(lines) => AuthActionView::Accept(texts(lines@)),
            AuthAction::Refuse(error) => AuthActionView::Refuse(error@),
        },
{
}

} // verus!
