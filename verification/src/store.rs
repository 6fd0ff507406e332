//! What the vault keeps on disk, and the library's side of reading and
//! writing it.
//!
//! The files are read by the caller and handed over as a `VaultFiles`
//! snapshot; what should be written or removed comes back as a list of
//! `FileEffect`s, to be carried out in order.
use vstd::prelude::*;
use crate::crypto::{
    base64_encode, decode_key, decode_key_spec, decrypt_bytes, decrypt_spec, encode_key,
    fits_cipher, random_nonce, seal_with_nonce, sealed_with, seals, EncryptedPayload,
};
use crate::error::{HubResult, SecretHubError};
use crate::model::{clock_if, clock_time, AuthMode, Timestamp};
pub use crate::paths::HubPaths;
use crate::text::{chars_string, str_chars, trim, trim_chars};

verus! {

/// The vault file: how the vault key is wrapped, and the encrypted data.
#[derive(Debug, Clone)]
pub struct VaultFile {
    pub version: u32,
    pub auth: AuthMode,
    pub wrapped_key: EncryptedPayload,
    pub data: EncryptedPayload,
}

/// A login session: the vault key in base64 and when it expires.
#[derive(Debug, Clone)]
pub struct SessionFile {
    pub expires_at: Timestamp,
    pub vault_key: String,
}

/// A file as it was found: missing, present but unreadable, or read.
#[derive(Debug, Clone)]
pub enum Stored<T> {
    Absent,
    Broken(SecretHubError),
    Present(T),
}

/// The vault's files as they were found: the vault file, the text of the key
/// file (or the error reading it), and the session file.
#[derive(Debug)]
pub struct VaultFiles {
    pub vault: Stored<VaultFile>,
    pub key_file: HubResult<String>,
    pub session: Stored<SessionFile>,
}

/// A change to the files: write the vault file, write the key file's text,
/// remove the key file if it exists, write the session file, or remove the
/// session file if it exists.
#[derive(Debug, Clone)]
pub enum FileEffect {
    WriteVault(VaultFile),
    WriteKeyFile(String),
    DeleteKeyFile,
    WriteSession(SessionFile),
    ClearSession,
}

// ---------------------------------------------------------------------------
// Copies
// ---------------------------------------------------------------------------

/// A copy of `s`.
pub fn copy_string(s: &String) -> (r: String)
    ensures
        r == *s,
{
    s.clone()
}

impl SecretHubError {
    /// A copy of the error.
    pub fn duplicate(&self) -> (r: Self)
        ensures
            r == *self,
    {
        match self {
            SecretHubError::VaultAlreadyExists => SecretHubError::VaultAlreadyExists,
            SecretHubError::VaultNotInitialized => SecretHubError::VaultNotInitialized,
            SecretHubError::LoginRequired => SecretHubError::LoginRequired,
            SecretHubError::InvalidPassword => SecretHubError::InvalidPassword,
            SecretHubError::SecretNotFound(s) => SecretHubError::SecretNotFound(copy_string(s)),
            SecretHubError::UnsupportedAuthMode => SecretHubError::UnsupportedAuthMode,
            SecretHubError::InvalidTotpSecret => SecretHubError::InvalidTotpSecret,
            SecretHubError::Io(s) => SecretHubError::Io(copy_string(s)),
            SecretHubError::Json(s) => SecretHubError::Json(copy_string(s)),
            SecretHubError::Crypto => SecretHubError::Crypto,
            SecretHubError::Time => SecretHubError::Time,
            SecretHubError::ConfigDirUnavailable => SecretHubError::ConfigDirUnavailable,
            SecretHubError::InvalidEnvLine(n) => SecretHubError::InvalidEnvLine(*n),
            SecretHubError::InvalidEnvKey(s) => SecretHubError::InvalidEnvKey(copy_string(s)),
            SecretHubError::InvalidEnvValue => SecretHubError::InvalidEnvValue,
        }
    }
}

impl EncryptedPayload {
    /// A copy of the payload.
    pub fn duplicate(&self) -> (r: Self)
        ensures
            r == *self,
    {
        EncryptedPayload {
            version: self.version,
            nonce: copy_string(&self.nonce),
            ciphertext: copy_string(&self.ciphertext),
        }
    }
}

impl AuthMode {
    /// A copy of the mode.
    pub fn duplicate(&self) -> (r: Self)
        ensures
            r == *self,
    {
        match self {
            AuthMode::NoPassword { key_file } => AuthMode::NoPassword {
                key_file: copy_string(key_file),
            },
            AuthMode::Password { salt } => AuthMode::Password { salt: copy_string(salt) },
        }
    }
}

impl VaultFile {
    /// A copy of the vault file.
    pub fn duplicate(&self) -> (r: Self)
        ensures
            r == *self,
    {
        VaultFile {
            version: self.version,
            auth: self.auth.duplicate(),
            wrapped_key: self.wrapped_key.duplicate(),
            data: self.data.duplicate(),
        }
    }
}

// ---------------------------------------------------------------------------
// Specification
// ---------------------------------------------------------------------------

/// Whether `a` is at or before `b`.
pub open spec fn time_le(a: Timestamp, b: Timestamp) -> bool {
    a.secs < b.secs || (a.secs == b.secs && a.nanos <= b.nanos)
}

/// The vault file, or why there is none.
pub open spec fn vault_file_spec(vault: Stored<VaultFile>) -> Result<VaultFile, SecretHubError> {
    match vault {
        Stored::Absent => Err(SecretHubError::VaultNotInitialized),
        Stored::Broken(e) => Err(e),
        Stored::Present(v) => Ok(v),
    }
}

/// The wrapping key that the key file holds.
pub open spec fn key_file_spec(key_file: HubResult<String>) -> Result<Seq<u8>, SecretHubError> {
    match key_file {
        Err(e) => Err(e),
        Ok(text) => decode_key_spec(trim(text@)),
    }
}

/// Whether the session file is present and expired at `now`.
pub open spec fn session_expired(session: Stored<SessionFile>, now: Timestamp) -> bool {
    session matches Stored::Present(s) && time_le(s.expires_at, now)
}

/// The vault key of a session that has not expired at `now`, `None` when
/// there is none, or the error reading it.
pub open spec fn session_spec(session: Stored<SessionFile>, now: Timestamp) -> Result<
    Option<Seq<u8>>,
    SecretHubError,
> {
    match session {
        Stored::Absent => Ok(None),
        Stored::Broken(e) => Err(e),
        Stored::Present(s) => if time_le(s.expires_at, now) {
            Ok(None)
        } else {
            match decode_key_spec(s.vault_key@) {
                Ok(k) => Ok(Some(k)),
                Err(e) => Err(e),
            }
        },
    }
}

/// Whether `s` is a session that holds `key` and expires at `expires_at`.
pub open spec fn session_holds(s: SessionFile, key: Seq<u8>, expires_at: Timestamp) -> bool {
    s.expires_at == expires_at && decode_key_spec(s.vault_key@) == Ok::<_, SecretHubError>(key)
}

/// Whether `s` is the session that saving `key` until `expires_at` writes:
/// it holds the key, in base64.
pub open spec fn session_written(s: SessionFile, key: Seq<u8>, expires_at: Timestamp) -> bool {
    session_holds(s, key, expires_at) && s.vault_key@ == base64_encode(key)
}

// ---------------------------------------------------------------------------
// Reading and writing
// ---------------------------------------------------------------------------

/// The vault file: `VaultNotInitialized` when it does not exist, or the error
/// that reading it gave.
pub fn read_vault_file(vault: &Stored<VaultFile>) -> (r: HubResult<VaultFile>)
    ensures
        match (r, vault_file_spec(*vault)) {
            (Ok(v), Ok(s)) => v == s,
            (Err(e), Err(s)) => e == s,
            _ => false,
        },
{
    match vault {
        Stored::Absent => Err(SecretHubError::VaultNotInitialized),
        Stored::Broken(e) => Err(e.duplicate()),
        Stored::Present(v) => Ok(v.duplicate()),
    }
}

/// Writes the vault file.
pub fn write_vault_file(vault: VaultFile, effects: &mut Vec<FileEffect>)
    ensures
        final(effects)@ == old(effects)@.push(FileEffect::WriteVault(vault)),
{
    effects.push(FileEffect::WriteVault(vault));
}

/// Writes `key` in base64 to the key file.
pub fn write_key_file(key: &[u8; 32], effects: &mut Vec<FileEffect>)
    ensures
        final(effects)@.len() == old(effects)@.len() + 1,
        final(effects)@.take(old(effects)@.len() as int) == old(effects)@,
        final(effects)@.last() matches FileEffect::WriteKeyFile(text) && key_file_spec(
            Ok(text),
        ) == Ok::<_, SecretHubError>(key@) && text@ == base64_encode(key@) && trim(text@)
            == text@,
{
    let text = encode_key(key);
    effects.push(FileEffect::WriteKeyFile(text));
    assert(effects@.take(old(effects)@.len() as int) =~= old(effects)@);
}

/// The key that the key file holds: its text, trimmed, in base64.
pub fn read_key_file(key_file: &HubResult<String>) -> (r: HubResult<[u8; 32]>)
    ensures
        match (r, key_file_spec(*key_file)) {
            (Ok(k), Ok(s)) => k@ == s,
            (Err(e), Err(s)) => e == s,
            _ => false,
        },
{
    match key_file {
        Err(e) => Err(e.duplicate()),
        Ok(text) => {
            let chars = str_chars(text.as_str());
            let trimmed = chars_string(&trim_chars(&chars));
            decode_key(trimmed.as_str())
        },
    }
}

/// Removes the key file if it exists.
pub fn delete_key_file(effects: &mut Vec<FileEffect>)
    ensures
        final(effects)@ == old(effects)@.push(FileEffect::DeleteKeyFile),
{
    effects.push(FileEffect::DeleteKeyFile);
}

/// Writes a session that holds `vault_key` until `expires_at`.
pub fn save_session(vault_key: &[u8; 32], expires_at: Timestamp, effects: &mut Vec<FileEffect>)
    ensures
        final(effects)@.len() == old(effects)@.len() + 1,
        final(effects)@.take(old(effects)@.len() as int) == old(effects)@,
        final(effects)@.last() matches FileEffect::WriteSession(s) && session_written(
            s,
            vault_key@,
            expires_at,
        ),
{
    let session = SessionFile { expires_at, vault_key: encode_key(vault_key) };
    effects.push(FileEffect::WriteSession(session));
    assert(effects@.take(old(effects)@.len() as int) =~= old(effects)@);
}

/// Removes the session file if it exists.
pub fn clear_session(effects: &mut Vec<FileEffect>)
    ensures
        final(effects)@ == old(effects)@.push(FileEffect::ClearSession),
{
    effects.push(FileEffect::ClearSession);
}

/// The vault key of the session at `now`: `None` when there is no session or
/// it has expired (an expired session is removed), the key when it holds a
/// valid one, `Crypto` when its key is not a base64 key, or the error that
/// reading it gave.
pub fn load_session_at(
    session: &Stored<SessionFile>,
    now: Timestamp,
    effects: &mut Vec<FileEffect>,
) -> (r: HubResult<Option<[u8; 32]>>)
    ensures
        match (r, session_spec(*session, now)) {
            (Ok(Some(k)), Ok(Some(s))) => k@ == s,
            (Ok(None), Ok(None)) => true,
            (Err(e), Err(s)) => e == s,
            _ => false,
        },
        final(effects)@ == if session_expired(*session, now) {
            old(effects)@.push(FileEffect::ClearSession)
        } else {
            old(effects)@
        },
{
    match session {
        Stored::Absent => Ok(None),
        Stored::Broken(e) => Err(e.duplicate()),
        Stored::Present(s) => {
            if s.expires_at.at_or_before(&now) {
                clear_session(effects);
                return Ok(None);
            }
            match decode_key(s.vault_key.as_str()) {
                Ok(k) => Ok(Some(k)),
                Err(e) => Err(e),
            }
        },
    }
}

/// The vault key of the session now (see `load_session_at`). The clock is
/// read only when there is a session file; `Time`, with no effect, when it
/// cannot be read then.
pub fn load_session(session: &Stored<SessionFile>, effects: &mut Vec<FileEffect>) -> (r: HubResult<
    Option<[u8; 32]>,
>)
    ensures
        (r == Err::<Option<[u8; 32]>, _>(SecretHubError::Time) && session is Present
            && final(effects)@ == old(effects)@) || exists|now: Timestamp|
            #![trigger session_spec(*session, now)]
            clock_time(now) && match (r, session_spec(*session, now)) {
                (Ok(Some(k)), Ok(Some(s))) => k@ == s,
                (Ok(None), Ok(None)) => true,
                (Err(e), Err(s)) => e == s,
                _ => false,
            } && final(effects)@ == if session_expired(*session, now) {
                old(effects)@.push(FileEffect::ClearSession)
            } else {
                old(effects)@
            },
{
    let now = match clock_if(matches!(session, Stored::Present(_))) {
        Some(now) => now,
        None => return Err(SecretHubError::Time),
    };
    let r = load_session_at(session, now, effects);
    assert(session_spec(*session, now) == session_spec(*session, now));
    r
}

/// Seals the JSON text of the vault data under the vault key with `nonce`,
/// then wipes the text. Fails with `Crypto` exactly when the text is too
/// long for the cipher.
pub fn seal_vault_data(vault_key: &[u8; 32], nonce: &[u8; 24], json: Vec<u8>) -> (r: HubResult<
    EncryptedPayload,
>)
    requires
        json@.len() <= usize::MAX / 2 - 16,
    ensures
        match r {
            Ok(p) => fits_cipher(json@.len()) && sealed_with(p, vault_key@, nonce@, json@)
                && seals(p, vault_key@, json@) && decrypt_spec(
                vault_key@,
                p.nonce@,
                p.ciphertext@,
            ) == Ok::<_, SecretHubError>(json@),
            Err(e) => !fits_cipher(json@.len()) && e is Crypto,
        },
{
    let mut json = json;
    let ghost text = json@;
    let sealed = seal_with_nonce(vault_key, nonce, json.as_slice());
    crate::crypto::wipe_bytes(&mut json);
    if let Ok(p) = &sealed {
        assert(base64_encode(nonce@) == p.nonce@);
        assert(seals(*p, vault_key@, text));
    }
    sealed
}

/// Encrypts the JSON text of the vault data under the vault key with a
/// fresh random nonce (see `seal_vault_data`), then wipes the text.
pub fn encrypt_vault_data(vault_key: &[u8; 32], json: Vec<u8>) -> (r: HubResult<EncryptedPayload>)
    requires
        json@.len() <= usize::MAX / 2 - 16,
    ensures
        match r {
            Ok(p) => fits_cipher(json@.len()) && seals(p, vault_key@, json@) && decrypt_spec(
                vault_key@,
                p.nonce@,
                p.ciphertext@,
            ) == Ok::<_, SecretHubError>(json@),
            Err(e) => e is Crypto,
        },
{
    let mut json = json;
    let nonce = match random_nonce() {
        Ok(n) => n,
        Err(e) => {
            crate::crypto::wipe_bytes(&mut json);
            return Err(e);
        },
    };
    seal_vault_data(vault_key, &nonce, json)
}

/// Decrypts the vault data's JSON text with the vault key.
pub fn decrypt_vault_data(vault_key: &[u8; 32], payload: &EncryptedPayload) -> (r: HubResult<
    Vec<u8>,
>)
    ensures
        match (r, decrypt_spec(vault_key@, payload.nonce@, payload.ciphertext@)) {
            (Ok(p), Ok(s)) => p@ == s,
            (Err(e), Err(s)) => e == s,
            _ => false,
        },
{
    decrypt_bytes(vault_key, payload)
}

} // verus!
