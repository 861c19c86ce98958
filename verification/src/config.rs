//! Client configuration: the server endpoint, token location, UI
//! preferences and network tuning, with their defaults. Reading the
//! configuration file (and the environment override for the server
//! URL) is the host's job; it fills these records.

use vstd::prelude::*;

verus! {

#[derive(Debug, Clone)]
pub struct ServerConfig {
    pub url: String,
}

#[derive(Debug, Clone)]
pub struct AuthConfig {
    pub token_path: String,
}

#[derive(Debug, Clone)]
pub struct UiConfig {
    pub show_timestamps: bool,
    pub message_limit: usize,
    pub multiline_mode: bool,
}

#[derive(Debug, Clone)]
pub struct NetworkConfig {
    pub reconnect_attempts: usize,
    pub ping_interval: u64,
}

#[derive(Debug, Clone)]
pub struct Config {
    pub server: ServerConfig,
    pub auth: AuthConfig,
    pub ui: UiConfig,
    pub network: NetworkConfig,
}

/// The default server endpoint (the host may override it from its
/// environment).
pub fn default_server_url() -> (r: String)
    ensures
        r@ == "wss://eurus.sreus.tech/ws"@,
{
    "wss://eurus.sreus.tech/ws".to_owned()
}

pub fn default_token_path() -> (r: String)
    ensures
        r@ == "~/.config/eurus/token"@,
{
    "~/.config/eurus/token".to_owned()
}

pub fn default_true() -> (r: bool)
    ensures
        r,
{
    true
}

pub fn default_false() -> (r: bool)
    ensures
        !r,
{
    false
}

pub fn default_message_limit() -> (r: usize)
    ensures
        r == 1000,
{
    1000
}

pub fn default_reconnect_attempts() -> (r: usize)
    ensures
        r == 10,
{
    10
}

pub fn default_ping_interval() -> (r: u64)
    ensures
        r == 30,
{
    30
}

impl Default for Config {
    /// The configuration used when no file overrides it.
    fn default() -> (r: Self)
        ensures
            r.server.url@ == "wss://eurus.sreus.tech/ws"@,
            r.auth.token_path@ == "~/.config/eurus/token"@,
            r.ui.show_timestamps,
            r.ui.message_limit == 1000,
            !r.ui.multiline_mode,
            r.network.reconnect_attempts == 10,
            r.network.ping_interval == 30,
    {
        Config {
            server: ServerConfig { url: default_server_url() },
            auth: AuthConfig { token_path: default_token_path() },
            ui: UiConfig {
                show_timestamps: true,
                message_limit: 1000,
                multiline_mode: false,
            },
            network: NetworkConfig { reconnect_attempts: 10, ping_interval: 30 },
        }
    }
}

} // verus!
