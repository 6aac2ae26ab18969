use vstd::prelude::*;

verus! {

/// Settings read once at startup.
#[derive(Debug, Clone)]
pub struct BotConfig {
    pub discord_token: String,
    pub discord_user: u64,
    pub spotify_username: String,
    pub spotify_password: String,
    pub cache_dir: String,
}

} // verus!
