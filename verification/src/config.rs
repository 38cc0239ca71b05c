//! Account configuration: credentials and server address.

use vstd::prelude::*;

verus! {

/// Credentials of the mail account.
#[derive(Debug)]
pub struct EmailConfig {
    pub username: String,
    pub password: String,
}

/// Address of the IMAP server.
#[derive(Debug)]
pub struct ImapConfig {
    pub server: String,
    pub port: u16,
}

/// The whole account configuration: credentials plus server address.
#[derive(Debug)]
pub struct Config {
    pub email: EmailConfig,
    pub imap: ImapConfig,
}

/// The ways loading a configuration can fail.
#[derive(Debug)]
pub enum ConfigError {
    /// The configuration source could not be read at all.
    MissingFile,
    /// The content does not have the expected shape.
    MalformedConfig,
}

} // verus!
