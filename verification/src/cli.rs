//! The command line of the client, as plain values.
use vstd::prelude::*;

verus! {

/// The parsed command line.
#[derive(Debug)]
pub struct Cli {
    /// Path to config file (default: ~/.rs-rok/settings.json)
    pub config_path: Option<String>,
    /// Log level: trace, debug, info, warn, error
    pub log_level: String,
    pub command: Command,
}

/// The subcommands.
#[derive(Debug)]
pub enum Command {
    /// Expose a local HTTP service
    Http { port: u16, name: Option<String>, host: String },
    /// Expose a local HTTPS service (TLS terminated at edge)
    Https { port: u16, name: Option<String>, host: String },
    /// Manage configuration
    Config { action: ConfigAction },
    /// Deploy the Cloudflare Worker to your account
    Deploy { account_id: Option<String>, api_token: Option<String>, name: String },
    /// Expose a local TCP service (e.g. SSH, database)
    Tcp { port: u16, name: Option<String>, host: String },
    /// Connect to a remote TCP tunnel
    Connect { slug: String, token: String, port: u16, host: String },
}

/// The subcommands of `config`.
#[derive(Debug)]
pub enum ConfigAction {
    /// Store an authentication token
    AddToken { token: String },
    /// Print current configuration
    Show,
    /// Set the worker endpoint URL
    SetEndpoint { url: String },
    /// Store Cloudflare credentials for deploy
    SetCfCredentials { account_id: String, api_token: String },
}

} // verus!
