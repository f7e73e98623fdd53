//! Process configuration.
//!
//! The configuration is read once at startup, from the environment, by the
//! surrounding program; this module only holds the values. Keeping the
//! construction explicit — plain values in, a `Config` out — makes every
//! component that takes a `Config` testable with arbitrary keys.

use vstd::prelude::*;

verus! {

/// The process-wide configuration values. The field names use
/// SCREAMING_SNAKE_CASE to match the environment variables they come from.
#[allow(non_snake_case)]
pub struct Config {
    /// The URL of the database to connect to.
    pub DATABASE_URL: String,
    /// The log level to use for the application.
    pub RUST_LOG: String,
    /// The port to listen on for HTTP requests.
    pub SERVER_PORT: u16,
    /// The path of the folder holding the static files to serve.
    pub ASSETS_FOLDER: String,
    /// Key material for password credentials; never logged or serialized.
    pub PASSWORD_KEY: String,
    /// Key material for token signatures; never logged or serialized.
    pub TOKEN_KEY: String,
    /// Lifetime of an issued token, in seconds.
    pub TOKEN_DURATION_IN_SECONDS: u32,
}

/// Assemble the configuration from its seven values, exactly as given.
pub fn config(
    database_url: String,
    rust_log: String,
    server_port: u16,
    assets_folder: String,
    password_key: String,
    token_key: String,
    token_duration_in_seconds: u32,
) -> (c: Config)
    ensures
        c.DATABASE_URL == database_url,
        c.RUST_LOG == rust_log,
        c.SERVER_PORT == server_port,
        c.ASSETS_FOLDER == assets_folder,
        c.PASSWORD_KEY == password_key,
        c.TOKEN_KEY == token_key,
        c.TOKEN_DURATION_IN_SECONDS == token_duration_in_seconds,
{
    Config {
        DATABASE_URL: database_url,
        RUST_LOG: rust_log,
        SERVER_PORT: server_port,
        ASSETS_FOLDER: assets_folder,
        PASSWORD_KEY: password_key,
        TOKEN_KEY: token_key,
        TOKEN_DURATION_IN_SECONDS: token_duration_in_seconds,
    }
}

} // verus!
