//! The library's error type.
use vstd::prelude::*;

verus! {

/// Everything that can go wrong in the library.
///
/// Failures of file and JSON handling happen where the files are read and
/// parsed; they reach the library as messages in `Io` and `Json`.
#[derive(Debug, Clone)]
pub enum SecretHubError {
    VaultAlreadyExists,
    VaultNotInitialized,
    LoginRequired,
    InvalidPassword,
    SecretNotFound(String),
    UnsupportedAuthMode,
    InvalidTotpSecret,
    Io(String),
    Json(String),
    Crypto,
    Time,
    ConfigDirUnavailable,
    InvalidEnvLine(usize),
    InvalidEnvKey(String),
    InvalidEnvValue,
}

/// The result type of the library's fallible operations.
pub type HubResult<T> = core::result::Result<T, SecretHubError>;

} // verus!
