//! The server's settings.

use vstd::prelude::*;

verus! {

/// Where balances are asked for.
pub const DEFAULT_MEMPOOL: &'static str = "https://mempool.lineage.to";

/// The file of the server's settings.
pub const DEFAULT_GAME_CONFIG: &'static str = "Game.toml";

/// The file of the player's wallet.
pub const DEFAULT_WALLET: &'static str = "wallet.json";

/// The file of the server's registry.
pub const DEFAULT_REGISTRY: &'static str = "registry.json";

/// The file of the server's challenge.
pub const DEFAULT_CHALLENGE: &'static str = "challenge.json";

/// The smallest units in one token. Amounts are counted in these, so that no accounting is done
/// in fractions.
pub const TOKEN_FRACTION: u64 = 72_072_000;

/// The server's settings.
#[derive(Debug)]
pub struct GameConfig {
    /// 0 lets everybody in, for local development; anything else asks for proof.
    pub use_blockchain_auth: u8,
    /// The genesis hash of the item that lets a player in.
    pub required_item: String,
    pub mempool: MempoolConfig,
    pub server: ServerConfig,
}

/// Where balances are asked for.
#[derive(Debug)]
pub struct MempoolConfig {
    pub url: String,
}

/// The server's files.
#[derive(Debug)]
pub struct ServerConfig {
    pub registry_file: String,
    pub challenge_file: String,
}

/// What a [`GameConfig`] holds.
pub struct GameConfigView {
    pub use_blockchain_auth: u8,
    pub required_item: Seq<char>,
    pub mempool_url: Seq<char>,
    pub registry_file: Seq<char>,
    pub challenge_file: Seq<char>,
}

impl View for GameConfig {
    type V = GameConfigView;

    open spec fn view(&self) -> GameConfigView {
        GameConfigView {
            use_blockchain_auth: self.use_blockchain_auth,
            required_item: self.required_item@,
            mempool_url: self.mempool.url@,
            registry_file: self.server.registry_file@,
            challenge_file: self.server.challenge_file@,
        }
    }
}

/// The balance service of settings that name none.
pub fn default_mempool() -> (url: String)
    ensures
        url@ == "https://mempool.lineage.to"@,
{
    DEFAULT_MEMPOOL.to_owned()
}

/// The registry file of settings that name none.
pub fn default_registry() -> (path: String)
    ensures
        path@ == "registry.json"@,
{
    DEFAULT_REGISTRY.to_owned()
}

/// The challenge file of settings that name none.
pub fn default_challenge() -> (path: String)
    ensures
        path@ == "challenge.json"@,
{
    DEFAULT_CHALLENGE.to_owned()
}

impl Default for MempoolConfig {
    /// What holds where the settings say nothing of the balance service.
    fn default() -> (config: Self)
        ensures
            config.url@ == "https://mempool.lineage.to"@,
    {
        MempoolConfig { url: default_mempool() }
    }
}

impl Default for ServerConfig {
    /// What holds where the settings say nothing of the server's files.
    fn default() -> (config: Self)
        ensures
            config.registry_file@ == "registry.json"@,
            config.challenge_file@ == "challenge.json"@,
    {
        ServerConfig { registry_file: default_registry(), challenge_file: default_challenge() }
    }
}

/// Settings are seen as they are.
pub proof fn settings_are_seen_as_they_are(config: GameConfig)
    ensures
        config@.use_blockchain_auth == config.use_blockchain_auth,
        config@.required_item == config.required_item@,
        config@.mempool_url == config.mempool.url@,
        config@.registry_file == config.server.registry_file@,
        config@.challenge_file == config.server.challenge_file@,
{
}

} // verus!
