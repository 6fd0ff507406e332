//! Core library of a local-first secret manager: `.env` parsing and
//! rendering, TOTP code generation, vault encryption and the vault's
//! lock/unlock lifecycle.
#![allow(unused_imports)]

pub mod crypto;
pub mod envfile;
pub mod error;
pub mod interface;
pub mod model;
pub mod paths;
pub mod store;
pub mod text;
pub mod totp;
pub mod vault;

pub use error::{HubResult, SecretHubError};
pub use model::{
    ApiKeyEntry, AuthMode, EnvProfile, EnvSecretRefKind, EnvValue, EnvVariable, PasswordEntry,
    SecretEntry, SecretKind, Timestamp, TokenEntry, TotpEntry, VaultData,
};
pub use vault::{NewSecret, SecretHub, VaultStatus};
