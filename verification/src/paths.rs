//! Where the vault's files live.
use vstd::prelude::*;

verus! {

/// Where the vault's files live.
#[derive(Debug, Clone)]
pub struct HubPaths {
    pub config_dir: String,
    pub vault_file: String,
    pub key_file: String,
    pub session_file: String,
}

} // verus!
