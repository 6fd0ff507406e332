//! The vault's lock/unlock lifecycle and its entries.
//!
//! The vault key encrypts the vault data. In no-password mode a random key,
//! kept in the key file, wraps it; in password mode a key derived with
//! Argon2id from the login password and the stored salt wraps it, and a
//! successful login keeps the vault key in a session file until it expires.
use vstd::prelude::*;
use crate::crypto::{
    base64_encode, decode_key_spec, decrypt_bytes, decrypt_spec, derive_fits, derive_key,
    derive_key_spec, fits_cipher, random_key, random_nonce, random_salt, seal_with_nonce,
    sealed_with,
};
use crate::error::{HubResult, SecretHubError};
use crate::model::{
    clock_if, clock_time, entry_copy, kind_label, random_v4_id, utc_now, EnvProfile, EnvVariable, MAX_CLOCK_SECS, uuid_string, uuid_text, ApiKeyEntry, AuthMode,
    PasswordEntry, SecretEntry, SecretKind, Timestamp, TokenEntry, TotpEntry, VaultData,
};
use crate::text::{chars_eq, str_chars};
use crate::totp::{
    generate_code, generate_code_at, hotp_spec, normalize_secret, normalize_spec, time_step,
    totp_key, valid_totp_params,
};
use crate::store::{
    clear_session, copy_string, delete_key_file, key_file_spec, load_session_at, read_key_file,
    read_vault_file, save_session, seal_vault_data, session_expired, session_holds, session_spec, session_written, time_le,
    vault_file_spec, write_key_file, write_vault_file, FileEffect, HubPaths, Stored, VaultFile,
    VaultFiles,
};

verus! {

/// The vault service, bound to the paths of its files.
#[derive(Debug, Clone)]
pub struct SecretHub {
    paths: HubPaths,
}

/// Whether the vault exists, how it is locked, whether it is unlocked now,
/// and where it lives.
#[derive(Debug, Clone)]
pub struct VaultStatus {
    pub initialized: bool,
    pub auth_mode: Option<&'static str>,
    pub logged_in: bool,
    pub vault_file: String,
}

/// A secret to add, with its name, tags and notes.
#[derive(Debug, Clone)]
pub enum NewSecret {
    Totp {
        name: String,
        issuer: Option<String>,
        account: Option<String>,
        secret: String,
        digits: u32,
        period: u64,
        tags: Vec<String>,
        notes: Option<String>,
    },
    ApiKey {
        name: String,
        provider: Option<String>,
        key: String,
        scopes: Vec<String>,
        tags: Vec<String>,
        notes: Option<String>,
    },
    Password {
        name: String,
        username: Option<String>,
        password: String,
        url: Option<String>,
        tags: Vec<String>,
        notes: Option<String>,
    },
    Token {
        name: String,
        service: Option<String>,
        token: String,
        tags: Vec<String>,
        notes: Option<String>,
    },
    Env {
        project: String,
        profile: String,
        variables: Vec<EnvVariable>,
        tags: Vec<String>,
        notes: Option<String>,
    },
}

/// Whether `e` is the entry made from `s`: the same name, tags, notes and
/// content (a TOTP secret normalized, no expiry for API keys and tokens; an
/// `.env` profile named after its project), created and updated at one clock
/// time, with the id of a version 4 UUID made of random bytes.
pub open spec fn entry_from(e: SecretEntry, s: NewSecret) -> bool {
    &&& clock_time(e.created_at)
    &&& e.updated_at == e.created_at
    &&& random_v4_id(e.id)
    &&& match s {
        NewSecret::Totp { name, issuer, account, secret, digits, period, tags, notes } => {
            &&& e.name == name
            &&& e.tags == tags
            &&& e.notes == notes
            &&& e.kind matches SecretKind::Totp(t)
            &&& t.issuer == issuer
            &&& t.account == account
            &&& t.secret@ == normalize_spec(secret@)
            &&& t.digits == digits
            &&& t.period == period
        },
        NewSecret::ApiKey { name, provider, key, scopes, tags, notes } => {
            &&& e.name == name
            &&& e.tags == tags
            &&& e.notes == notes
            &&& e.kind == SecretKind::ApiKey(
                ApiKeyEntry { provider, key, scopes, expires_at: None },
            )
        },
        NewSecret::Password { name, username, password, url, tags, notes } => {
            &&& e.name == name
            &&& e.tags == tags
            &&& e.notes == notes
            &&& e.kind == SecretKind::Password(PasswordEntry { username, password, url })
        },
        NewSecret::Token { name, service, token, tags, notes } => {
            &&& e.name == name
            &&& e.tags == tags
            &&& e.notes == notes
            &&& e.kind == SecretKind::Token(TokenEntry { service, token, expires_at: None })
        },
        NewSecret::Env { project, profile, variables, tags, notes } => {
            &&& e.name == project
            &&& e.tags == tags
            &&& e.notes == notes
            &&& e.kind == SecretKind::Env(EnvProfile { project, profile, variables })
        },
    }
}

/// Whether `e` is named `name` or has `name` as the text of its id.
pub open spec fn entry_named(e: SecretEntry, name: Seq<char>) -> bool {
    e.name@ == name || uuid_text(e.id) == name
}

/// The first index at or after `i` of an entry named `name`.
pub open spec fn find_entry_from(entries: Seq<SecretEntry>, name: Seq<char>, i: int) -> Option<int>
    decreases entries.len() - i,
{
    if i < 0 || i >= entries.len() {
        None
    } else if entry_named(entries[i], name) {
        Some(i)
    } else {
        find_entry_from(entries, name, i + 1)
    }
}

/// The entries whose kind has the label `kind`, or all when `kind` is `None`,
/// in order.
pub open spec fn list_spec(entries: Seq<SecretEntry>, kind: Option<Seq<char>>) -> Seq<SecretEntry>
    decreases entries.len(),
{
    if entries.len() == 0 {
        seq![]
    } else {
        let rest = list_spec(entries.drop_first(), kind);
        if kind is None || kind_label(entries[0].kind) == kind->0 {
            seq![entries[0]] + rest
        } else {
            rest
        }
    }
}

proof fn lemma_find_entry_from(entries: Seq<SecretEntry>, name: Seq<char>, i: int)
    requires
        0 <= i,
    ensures
        match find_entry_from(entries, name, i) {
            Some(j) => i <= j < entries.len() && entry_named(entries[j], name) && forall|k: int|
                i <= k < j ==> !entry_named(#[trigger] entries[k], name),
            None => forall|k: int| i <= k < entries.len() ==> !entry_named(#[trigger] entries[k], name),
        },
    decreases entries.len() - i,
{
    if i < entries.len() && !entry_named(entries[i], name) {
        lemma_find_entry_from(entries, name, i + 1);
    }
}

// ---------------------------------------------------------------------------
// Specification
// ---------------------------------------------------------------------------

/// A key of exactly 32 bytes, or `Crypto`.
pub open spec fn fixed_key_spec(r: Result<Seq<u8>, SecretHubError>) -> Result<Seq<u8>, SecretHubError> {
    match r {
        Err(e) => Err(e),
        Ok(b) => if b.len() == 32 {
            Ok(b)
        } else {
            Err(SecretHubError::Crypto)
        },
    }
}

/// The vault key that unwrapping `vf`'s wrapped key with `wrapping_key` gives.
pub open spec fn unwrap_spec(vf: VaultFile, wrapping_key: Seq<u8>) -> Result<Seq<u8>, SecretHubError> {
    fixed_key_spec(decrypt_spec(wrapping_key, vf.wrapped_key.nonce@, vf.wrapped_key.ciphertext@))
}

/// The vault key that the files give at `now` without asking for a password:
/// through the key file in no-password mode, through a session that has not
/// expired in password mode.
pub open spec fn unlock_spec(files: VaultFiles, now: Timestamp) -> Result<Seq<u8>, SecretHubError> {
    match vault_file_spec(files.vault) {
        Err(e) => Err(e),
        Ok(vf) => match vf.auth {
            AuthMode::NoPassword { .. } => match key_file_spec(files.key_file) {
                Err(e) => Err(e),
                Ok(wk) => unwrap_spec(vf, wk),
            },
            AuthMode::Password { .. } => match session_spec(files.session, now) {
                Err(e) => Err(e),
                Ok(None) => Err(SecretHubError::LoginRequired),
                Ok(Some(k)) => Ok(k),
            },
        },
    }
}

/// Whether unlocking at `now` removes an expired session.
pub open spec fn unlock_clears(files: VaultFiles, now: Timestamp) -> bool {
    &&& vault_file_spec(files.vault) matches Ok(vf)
    &&& vf.auth is Password
    &&& session_expired(files.session, now)
}

/// The effects after unlocking at `now`.
pub open spec fn after_unlock(files: VaultFiles, now: Timestamp, before: Seq<FileEffect>) -> Seq<
    FileEffect,
> {
    if unlock_clears(files, now) {
        before.push(FileEffect::ClearSession)
    } else {
        before
    }
}

/// The vault key that logging in with `password` gives.
pub open spec fn login_spec(files: VaultFiles, password: Seq<char>) -> Result<Seq<u8>, SecretHubError> {
    match vault_file_spec(files.vault) {
        Err(e) => Err(e),
        Ok(vf) => match vf.auth {
            AuthMode::NoPassword { .. } => Err(SecretHubError::UnsupportedAuthMode),
            AuthMode::Password { salt } => match derive_key_spec(password, salt@) {
                Err(e) => Err(e),
                Ok(wk) => unwrap_spec(vf, wk),
            },
        },
    }
}

/// `now` plus `minutes` minutes.
pub open spec fn after_minutes(now: Timestamp, minutes: i64) -> Timestamp {
    Timestamp { secs: (now.secs + minutes * 60) as i64, nanos: now.nanos }
}

/// Whether a session of `minutes` minutes from `now` ends within chrono's
/// range of times; one that does not is refused with `Time`.
pub open spec fn expiry_fits(now: Timestamp, minutes: i64) -> bool {
    now.secs + minutes * 60 <= MAX_CLOCK_SECS
}

/// The session length that logging in uses: at least one minute.
pub open spec fn login_minutes(minutes: i64) -> i64 {
    if minutes > 1 {
        minutes
    } else {
        1
    }
}

/// Whether `vf` is in password mode and `password` unwraps its key to `key`.
pub open spec fn password_unlocks(vf: VaultFile, password: Seq<char>, key: Seq<u8>) -> bool {
    &&& vf.auth matches AuthMode::Password { salt }
    &&& derive_key_spec(password, salt@) matches Ok(wk)
    &&& unwrap_spec(vf, wk) == Ok::<_, SecretHubError>(key)
}

/// Whether `vf` is in no-password mode and the key-file text `text` unwraps
/// its key to `key`.
pub open spec fn key_file_unlocks(vf: VaultFile, text: Seq<char>, key: Seq<u8>) -> bool {
    &&& vf.auth is NoPassword
    &&& decode_key_spec(crate::text::trim(text)) matches Ok(wk)
    &&& text == base64_encode(wk)
    &&& unwrap_spec(vf, wk) == Ok::<_, SecretHubError>(key)
}

/// Whether `vf` is `old_vf` switched to password mode with `salt`, its vault
/// key `key` sealed under `wrapping_key` with `nonce`.
pub open spec fn password_rewrap(
    old_vf: VaultFile,
    vf: VaultFile,
    salt: Seq<char>,
    wrapping_key: Seq<u8>,
    nonce: Seq<u8>,
    key: Seq<u8>,
) -> bool {
    &&& vf.version == old_vf.version
    &&& vf.data == old_vf.data
    &&& vf.auth matches AuthMode::Password { salt: s } && s@ == salt
    &&& sealed_with(vf.wrapped_key, wrapping_key, nonce, key)
}

/// Whether `vf` is `old_vf` switched to no-password mode with the key file at
/// `key_file`, its vault key `key` sealed under `wrapping_key` with `nonce`.
pub open spec fn key_file_rewrap(
    old_vf: VaultFile,
    vf: VaultFile,
    key_file: String,
    wrapping_key: Seq<u8>,
    nonce: Seq<u8>,
    key: Seq<u8>,
) -> bool {
    &&& vf.version == old_vf.version
    &&& vf.data == old_vf.data
    &&& vf.auth == (AuthMode::NoPassword { key_file })
    &&& sealed_with(vf.wrapped_key, wrapping_key, nonce, key)
}

/// Whether `vf` is a new version 1 vault file whose data is `json` sealed
/// under `key` with `data_nonce`, and whose vault key is sealed under
/// `wrapping_key` with `wrap_nonce`.
pub open spec fn new_vault_file(
    vf: VaultFile,
    key: Seq<u8>,
    data_nonce: Seq<u8>,
    json: Seq<u8>,
    wrapping_key: Seq<u8>,
    wrap_nonce: Seq<u8>,
) -> bool {
    &&& vf.version == 1
    &&& sealed_with(vf.data, key, data_nonce, json)
    &&& sealed_with(vf.wrapped_key, wrapping_key, wrap_nonce, key)
}

/// The vault files with the session file removed, as `logout` leaves them.
pub open spec fn session_cleared(files: VaultFiles) -> VaultFiles {
    VaultFiles { vault: files.vault, key_file: files.key_file, session: Stored::Absent }
}

/// Whether `vf`'s data opens with `key` to `json`.
pub open spec fn data_holds(vf: VaultFile, key: Seq<u8>, json: Seq<u8>) -> bool {
    decrypt_spec(key, vf.data.nonce@, vf.data.ciphertext@) == Ok::<_, SecretHubError>(json)
}

/// The view of an optional string.
pub open spec fn str_option_view(s: Option<&str>) -> Option<Seq<char>> {
    match s {
        Some(t) => Some(t@),
        None => None,
    }
}

/// The label of an authentication mode.
pub open spec fn auth_label(auth: AuthMode) -> Seq<char> {
    match auth {
        AuthMode::NoPassword { .. } => seq!['n', 'o', '-', 'p', 'a', 's', 's', 'w', 'o', 'r', 'd'],
        AuthMode::Password { .. } => seq!['p', 'a', 's', 's', 'w', 'o', 'r', 'd'],
    }
}


/// The effects of creating a vault, after `before`: in password mode the
/// vault file (and a session when `minutes > 0`), else the key file and then
/// the vault file. The vault file is of version 1; its data opens with a
/// fresh 32-byte vault key to `json`, which the password (or the key file)
/// unwraps and the session holds.
pub open spec fn init_effects(
    paths: HubPaths,
    password: Option<Seq<char>>,
    minutes: i64,
    json: Seq<u8>,
    now: Timestamp,
    before: Seq<FileEffect>,
    after: Seq<FileEffect>,
) -> bool {
    match password {
        Some(pw) => {
            &&& after.len() == before.len() + if minutes > 0 {
                2int
            } else {
                1int
            }
            &&& after.take(before.len() as int) == before
            &&& after[before.len() as int] matches FileEffect::WriteVault(vf)
            &&& vf.version == 1
            &&& exists|key: Seq<u8>|
                #![trigger data_holds(vf, key, json)]
                {
                    &&& data_holds(vf, key, json)
                    &&& key.len() == 32
                    &&& password_unlocks(vf, pw, key)
                    &&& minutes > 0 ==> (after.last() matches FileEffect::WriteSession(s)
                        && session_written(s, key, after_minutes(now, minutes)))
                }
        },
        None => {
            &&& after.len() == before.len() + 2
            &&& after.take(before.len() as int) == before
            &&& after[before.len() as int] matches FileEffect::WriteKeyFile(text)
            &&& after[before.len() as int + 1] matches FileEffect::WriteVault(vf)
            &&& vf.version == 1
            &&& vf.auth == (AuthMode::NoPassword { key_file: paths.key_file })
            &&& exists|key: Seq<u8>|
                #![trigger data_holds(vf, key, json)]
                {
                    &&& data_holds(vf, key, json)
                    &&& key.len() == 32
                    &&& key_file_unlocks(vf, text@, key)
                }
        },
    }
}

/// What creating a vault gives: `VaultAlreadyExists` with no effect when the
/// vault file exists; else either the effects of `init_effects`, or `Crypto`
/// (the random source or the hash failed, or the data is too long for the
/// cipher) after at most the key file was written, or `Time` after the vault
/// file was written when the session would end past chrono's range.
pub open spec fn init_outcome(
    paths: HubPaths,
    files: VaultFiles,
    password: Option<Seq<char>>,
    minutes: i64,
    json: Seq<u8>,
    now: Timestamp,
    r: HubResult<()>,
    before: Seq<FileEffect>,
    after: Seq<FileEffect>,
) -> bool {
    if !(files.vault is Absent) {
        r == Err::<(), _>(SecretHubError::VaultAlreadyExists) && after == before
    } else {
        match r {
            Ok(()) => init_effects(paths, password, minutes, json, now, before, after) && (
            password is Some && minutes > 0 ==> expiry_fits(now, minutes)),
            Err(e) => (e is Crypto && after.take(before.len() as int) == before && after.len()
                <= before.len() + 1) || (e is Time && password is Some && minutes > 0
                && !expiry_fits(now, minutes) && init_effects(
                paths,
                password,
                0,
                json,
                now,
                before,
                after,
            )),
        }
    }
}

/// What logging in gives: the key of `login_spec` kept in a new session
/// that expires `max(minutes, 1)` minutes after `now`, or the error with no
/// effect; `Time` with no effect when that session would end past chrono's
/// range.
pub open spec fn login_outcome(
    files: VaultFiles,
    password: Seq<char>,
    minutes: i64,
    now: Timestamp,
    r: HubResult<()>,
    before: Seq<FileEffect>,
    after: Seq<FileEffect>,
) -> bool {
    match (r, login_spec(files, password)) {
        (Ok(()), Ok(k)) => {
            &&& expiry_fits(now, login_minutes(minutes))
            &&& after.len() == before.len() + 1
            &&& after.take(before.len() as int) == before
            &&& after.last() matches FileEffect::WriteSession(s)
            &&& session_written(s, k, after_minutes(now, login_minutes(minutes)))
        },
        (Err(e), Ok(_)) => e is Time && !expiry_fits(now, login_minutes(minutes)) && after
            == before,
        (Err(e), Err(s)) => e == s && after == before,
        _ => false,
    }
}

/// What switching to password mode gives: when the vault unlocks at `now`
/// with key `k`, the vault file rewritten in password mode so that
/// `password` unwraps `k`, with the same version and data; then the key file
/// removed; then, when `minutes > 0`, a session holding `k`. Otherwise the
/// error of unlocking, or `Crypto`, or `Time` after the vault file was
/// rewritten and the key file removed when the session would end past
/// chrono's range.
pub open spec fn set_password_outcome(
    files: VaultFiles,
    password: Seq<char>,
    minutes: i64,
    now: Timestamp,
    r: HubResult<()>,
    before: Seq<FileEffect>,
    after: Seq<FileEffect>,
) -> bool {
    let mid = after_unlock(files, now, before);
    match (r, unlock_spec(files, now)) {
        (Ok(()), Ok(k)) => {
            &&& vault_file_spec(files.vault) matches Ok(old_vf)
            &&& after.len() == mid.len() + if minutes > 0 {
                3int
            } else {
                2int
            }
            &&& after.take(mid.len() as int) == mid
            &&& after[mid.len() as int] matches FileEffect::WriteVault(vf)
            &&& after[mid.len() as int + 1] == FileEffect::DeleteKeyFile
            &&& vf.version == old_vf.version
            &&& vf.data == old_vf.data
            &&& password_unlocks(vf, password, k)
            &&& minutes > 0 ==> (after.last() matches FileEffect::WriteSession(s) && session_written(
                s,
                k,
                after_minutes(now, minutes),
            ) && expiry_fits(now, minutes))
        },
        (Err(e), Err(s)) => e == s && after == mid,
        (Err(e), Ok(k)) => (e is Crypto && after.take(mid.len() as int) == mid && after.len()
            == mid.len()) || (e is Time && minutes > 0 && !expiry_fits(now, minutes) && {
            &&& vault_file_spec(files.vault) matches Ok(old_vf)
            &&& after.len() == mid.len() + 2
            &&& after.take(mid.len() as int) == mid
            &&& after[mid.len() as int] matches FileEffect::WriteVault(vf)
            &&& after[mid.len() as int + 1] == FileEffect::DeleteKeyFile
            &&& vf.version == old_vf.version
            &&& vf.data == old_vf.data
            &&& password_unlocks(vf, password, k)
        }),
        _ => false,
    }
}

/// What switching to no-password mode gives: when the vault unlocks at `now`
/// with key `k`, a new key file, then the vault file rewritten in
/// no-password mode so that the key file unwraps `k`, with the same version
/// and data, then the session removed. Otherwise the error of unlocking, or
/// `Crypto` after at most the key file was written.
pub open spec fn remove_password_outcome(
    paths: HubPaths,
    files: VaultFiles,
    now: Timestamp,
    r: HubResult<()>,
    before: Seq<FileEffect>,
    after: Seq<FileEffect>,
) -> bool {
    let mid = after_unlock(files, now, before);
    match (r, unlock_spec(files, now)) {
        (Ok(()), Ok(k)) => {
            &&& vault_file_spec(files.vault) matches Ok(old_vf)
            &&& after.len() == mid.len() + 3
            &&& after.take(mid.len() as int) == mid
            &&& after[mid.len() as int] matches FileEffect::WriteKeyFile(text)
            &&& after[mid.len() as int + 1] matches FileEffect::WriteVault(vf)
            &&& after[mid.len() as int + 2] == FileEffect::ClearSession
            &&& vf.version == old_vf.version
            &&& vf.data == old_vf.data
            &&& vf.auth == (AuthMode::NoPassword { key_file: paths.key_file })
            &&& key_file_unlocks(vf, text@, k)
        },
        (Err(e), Err(s)) => e == s && after == mid,
        (Err(e), Ok(_)) => e is Crypto && after.take(mid.len() as int) == mid && after.len()
            <= mid.len() + 1,
        _ => false,
    }
}

// ---------------------------------------------------------------------------
// Keys
// ---------------------------------------------------------------------------

/// The 32-byte key held in `key`, which is then overwritten with zeros;
/// `Crypto` when `key` is not 32 bytes long.
pub fn fixed_key(key: Vec<u8>) -> (r: HubResult<[u8; 32]>)
    ensures
        match r {
            Ok(k) => key@.len() == 32 && k@ == key@,
            Err(e) => key@.len() != 32 && e is Crypto,
        },
{
    let mut key = key;
    if key.len() != 32 {
        return Err(SecretHubError::Crypto);
    }
    let mut fixed = [0u8; 32];
    let mut i: usize = 0;
    let ghost bytes = key@;
    while i < 32
        invariant
            i <= 32,
            key@.len() == 32,
            fixed@.len() == 32,
            forall|j: int| 0 <= j < i ==> fixed@[j] == bytes[j],
            forall|j: int| i <= j < 32 ==> key@[j] == bytes[j],
        decreases 32 - i,
    {
        fixed[i] = key[i];
        key.set(i, 0);
        i = i + 1;
    }
    assert(fixed@ =~= bytes);
    Ok(fixed)
}

/// Whether unlocking reads the clock: only a password-mode vault with a
/// session file needs the time, to tell whether the session has expired.
pub open spec fn unlock_needs_clock(files: VaultFiles) -> bool {
    &&& files.vault matches Stored::Present(vf)
    &&& vf.auth is Password
    &&& files.session is Present
}

/// The end of a session of `minutes` minutes from `now`, or `None` when it
/// falls past chrono's range of times.
pub fn session_expiry(now: Timestamp, minutes: i64) -> (r: Option<Timestamp>)
    requires
        clock_time(now),
        minutes >= 1,
    ensures
        match r {
            Some(t) => expiry_fits(now, minutes) && t == after_minutes(now, minutes),
            None => !expiry_fits(now, minutes),
        },
{
    let room: i64 = (MAX_CLOCK_SECS - now.secs) / 60;
    if minutes > room {
        proof {
            let x: int = MAX_CLOCK_SECS - now.secs;
            assert(minutes * 60 > x) by (nonlinear_arith)
                requires
                    x >= 0,
                    room == x / 60,
                    minutes > room,
            ;
        }
        return None;
    }
    proof {
        let x: int = MAX_CLOCK_SECS - now.secs;
        assert(minutes * 60 <= x) by (nonlinear_arith)
            requires
                x >= 0,
                room == x / 60,
                minutes <= room,
        ;
    }
    Some(Timestamp { secs: now.secs + minutes * 60, nanos: now.nanos })
}

impl SecretHub {
    /// The paths of the vault's files.
    pub closed spec fn paths(&self) -> HubPaths {
        self.paths
    }

    /// A service for the files at `paths`.
    pub fn new(paths: HubPaths) -> (r: Self)
        ensures
            r.paths() == paths,
    {
        SecretHub { paths }
    }

    /// The vault file and its key, without asking for a password (see
    /// `unlock_spec`); an expired session is removed on the way.
    pub fn load_unlocked_at(
        &self,
        files: &VaultFiles,
        now: Timestamp,
        effects: &mut Vec<FileEffect>,
    ) -> (r: HubResult<(VaultFile, [u8; 32])>)
        ensures
            match (r, unlock_spec(*files, now)) {
                (Ok((vf, k)), Ok(s)) => vault_file_spec(files.vault) == Ok::<_, SecretHubError>(vf)
                    && k@ == s,
                (Err(e), Err(s)) => e == s,
                _ => false,
            },
            final(effects)@ == after_unlock(*files, now, old(effects)@),
    {
        let vault_file = read_vault_file(&files.vault)?;
        let vault_key = match &vault_file.auth {
            AuthMode::NoPassword { .. } => {
                let wrapping_key = read_key_file(&files.key_file)?;
                let key = decrypt_bytes(&wrapping_key, &vault_file.wrapped_key)?;
                fixed_key(key)?
            },
            AuthMode::Password { .. } => match load_session_at(&files.session, now, effects)? {
                Some(k) => k,
                None => return Err(SecretHubError::LoginRequired),
            },
        };
        Ok((vault_file, vault_key))
    }

    /// The vault file and its key now (see `load_unlocked_at`). The clock is read only when unlocking needs it (see
    /// `unlock_needs_clock`); `Time`, with no effect, when it cannot be read
    /// then.
    pub fn load_unlocked(&self, files: &VaultFiles, effects: &mut Vec<FileEffect>) -> (r: HubResult<
        (VaultFile, [u8; 32]),
    >)
        ensures
            (r == Err::<(VaultFile, [u8; 32]), _>(SecretHubError::Time) && unlock_needs_clock(*files) && final(effects)@ == old(
                effects,
            )@) || exists|now: Timestamp|
                #![trigger unlock_spec(*files, now)]
                clock_time(now) && match (r, unlock_spec(*files, now)) {
                    (Ok((vf, k)), Ok(s)) => vault_file_spec(files.vault) == Ok::<
                        _,
                        SecretHubError,
                    >(vf) && k@ == s,
                    (Err(e), Err(s)) => e == s,
                    _ => false,
                } && final(effects)@ == after_unlock(*files, now, old(effects)@),
    {
        let now = match clock_if(Self::needs_clock(files)) {
            Some(now) => now,
            None => return Err(SecretHubError::Time),
        };
        let r = self.load_unlocked_at(files, now, effects);
        assert(unlock_spec(*files, now) == unlock_spec(*files, now));
        r
    }

    /// Whether unlocking `files` reads the clock (see `unlock_needs_clock`).
    fn needs_clock(files: &VaultFiles) -> (r: bool)
        ensures
            r == unlock_needs_clock(*files),
    {
        match &files.vault {
            Stored::Present(vf) => matches!(vf.auth, AuthMode::Password { .. }) && matches!(
                files.session,
                Stored::Present(_)
            ),
            _ => false,
        }
    }

    /// The vault key, without asking for a password (see `unlock_spec`).
    pub fn unlock_without_prompt(
        &self,
        files: &VaultFiles,
        now: Timestamp,
        effects: &mut Vec<FileEffect>,
    ) -> (r: HubResult<[u8; 32]>)
        ensures
            match (r, unlock_spec(*files, now)) {
                (Ok(k), Ok(s)) => k@ == s,
                (Err(e), Err(s)) => e == s,
                _ => false,
            },
            final(effects)@ == after_unlock(*files, now, old(effects)@),
    {
        let vault_file = read_vault_file(&files.vault)?;
        match &vault_file.auth {
            AuthMode::NoPassword { .. } => {
                let wrapping_key = read_key_file(&files.key_file)?;
                fixed_key(decrypt_bytes(&wrapping_key, &vault_file.wrapped_key)?)
            },
            AuthMode::Password { .. } => match load_session_at(&files.session, now, effects)? {
                Some(k) => Ok(k),
                None => Err(SecretHubError::LoginRequired),
            },
        }
    }

    /// The vault's status at `now`: whether the vault file exists, its mode,
    /// whether it unlocks without a password prompt, and the vault file's
    /// path. An unreadable vault file gives its error.
    pub fn status_at(&self, files: &VaultFiles, now: Timestamp, effects: &mut Vec<FileEffect>) -> (r:
        HubResult<VaultStatus>)
        ensures
            match files.vault {
                Stored::Absent => r matches Ok(s) && !s.initialized && s.auth_mode is None
                    && !s.logged_in && s.vault_file@ == self.paths().vault_file@ && final(effects)@ == old(effects)@,
                Stored::Broken(e) => r == Err::<VaultStatus, _>(e) && final(effects)@ == old(effects)@,
                Stored::Present(vf) => r matches Ok(s) && s.initialized && (s.auth_mode matches Some(
                    m,
                ) && m@ == auth_label(vf.auth)) && s.logged_in == unlock_spec(*files, now) is Ok
                    && s.vault_file@ == self.paths().vault_file@ && final(effects)@
                    == after_unlock(*files, now, old(effects)@),
            },
    {
        let initialized = !matches!(files.vault, Stored::Absent);
        let auth_mode = if initialized {
            let vault_file = read_vault_file(&files.vault)?;
            match vault_file.auth {
                AuthMode::NoPassword { .. } => {
                    proof {
                        reveal_strlit("no-password");
                    }
                    Some("no-password")
                },
                AuthMode::Password { .. } => {
                    proof {
                        reveal_strlit("password");
                    }
                    Some("password")
                },
            }
        } else {
            None
        };
        let logged_in = if initialized {
            self.unlock_without_prompt(files, now, effects).is_ok()
        } else {
            false
        };
        Ok(VaultStatus {
            initialized,
            auth_mode,
            logged_in,
            vault_file: copy_string(&self.paths.vault_file),
        })
    }

    /// The vault's status now (see `status_at`). The clock is read only when unlocking needs it (see
    /// `unlock_needs_clock`); `Time`, with no effect, when it cannot be read
    /// then.
    pub fn status(&self, files: &VaultFiles, effects: &mut Vec<FileEffect>) -> (r: HubResult<VaultStatus>)
        ensures
            (r == Err::<VaultStatus, _>(SecretHubError::Time) && unlock_needs_clock(*files) && final(effects)@ == old(effects)@)
                || exists|now: Timestamp|
                #![trigger unlock_spec(*files, now)]
                clock_time(now) && match files.vault {
                    Stored::Absent => r matches Ok(s) && !s.initialized && s.auth_mode is None
                        && !s.logged_in && s.vault_file@ == self.paths().vault_file@ && final(effects)@ == old(effects)@,
                    Stored::Broken(e) => r == Err::<VaultStatus, _>(e) && final(effects)@ == old(effects)@,
                    Stored::Present(vf) => r matches Ok(s) && s.initialized && (s.auth_mode matches Some(
                        m,
                    ) && m@ == auth_label(vf.auth)) && s.logged_in == unlock_spec(*files, now) is Ok
                        && s.vault_file@ == self.paths().vault_file@ && final(effects)@
                        == after_unlock(*files, now, old(effects)@),
                },
    {
        let now = match clock_if(Self::needs_clock(files)) {
            Some(now) => now,
            None => return Err(SecretHubError::Time),
        };
        let r = self.status_at(files, now, effects);
        assert(unlock_spec(*files, now) == unlock_spec(*files, now));
        r
    }

    /// Creates a password-mode vault from drawn values: the vault key
    /// `vault_key` seals `data_json` (the JSON text of new, empty vault data)
    /// with `data_nonce`, and is itself sealed with `wrap_nonce` under the
    /// key that Argon2 derives from `password` and `salt`. With
    /// `session_minutes > 0` a session holding the vault key is opened too.
    ///
    /// An existing vault gives `VaultAlreadyExists`; data too long for the
    /// cipher gives `Crypto`; a failed derivation gives its error; a session
    /// ending past chrono's range gives `Time` after the vault file was
    /// written. Otherwise the vault is created.
    pub fn create_with_password(
        &self,
        files: &VaultFiles,
        password: &str,
        session_minutes: i64,
        data_json: Vec<u8>,
        now: Timestamp,
        vault_key: &[u8; 32],
        data_nonce: &[u8; 24],
        salt: String,
        wrap_nonce: &[u8; 24],
        effects: &mut Vec<FileEffect>,
    ) -> (r: HubResult<()>)
        requires
            data_json@.len() <= usize::MAX / 2 - 16,
            clock_time(now),
        ensures
            if !(files.vault is Absent) {
                r == Err::<(), _>(SecretHubError::VaultAlreadyExists) && final(effects)@ == old(
                    effects,
                )@
            } else if !fits_cipher(data_json@.len()) {
                r == Err::<(), _>(SecretHubError::Crypto) && final(effects)@ == old(effects)@
            } else {
                match derive_key_spec(password@, salt@) {
                    Err(e) => r == Err::<(), _>(e) && final(effects)@ == old(effects)@,
                    Ok(wk) => {
                        &&& final(effects)@.len() > old(effects)@.len()
                        &&& final(effects)@[old(effects)@.len() as int] matches FileEffect::WriteVault(
                            vf,
                        )
                        &&& new_vault_file(vf, vault_key@, data_nonce@, data_json@, wk, wrap_nonce@)
                        &&& vf.auth == (AuthMode::Password { salt })
                        &&& if session_minutes > 0 && !expiry_fits(now, session_minutes) {
                            r == Err::<(), _>(SecretHubError::Time) && init_effects(
                                self.paths(),
                                Some(password@),
                                0,
                                data_json@,
                                now,
                                old(effects)@,
                                final(effects)@,
                            )
                        } else {
                            &&& r is Ok
                            &&& init_effects(
                                self.paths(),
                                Some(password@),
                                session_minutes,
                                data_json@,
                                now,
                                old(effects)@,
                                final(effects)@,
                            )
                            &&& session_minutes > 0 ==> (final(effects)@.last() matches FileEffect::WriteSession(
                                s,
                            ) && session_written(s, vault_key@, after_minutes(now, session_minutes)))
                        }
                    },
                }
            },
            files.vault is Absent && fits_cipher(data_json@.len()) && derive_fits(password@, salt@)
                ==> derive_key_spec(password@, salt@) is Ok,
    {
        if !matches!(files.vault, Stored::Absent) {
            return Err(SecretHubError::VaultAlreadyExists);
        }
        let ghost before = effects@;
        let ghost json = data_json@;
        let ghost salt_text = salt;
        let data = match seal_vault_data(vault_key, data_nonce, data_json) {
            Ok(d) => d,
            Err(e) => return Err(e),
        };
        let wrapping_key = match derive_key(password, salt.as_str()) {
            Ok(k) => k,
            Err(e) => return Err(e),
        };
        let wrapped_key = match seal_with_nonce(&wrapping_key, wrap_nonce, vault_key.as_slice()) {
            Ok(w) => w,
            Err(e) => return Err(e),
        };
        let vault_file = VaultFile {
            version: 1,
            auth: AuthMode::Password { salt },
            wrapped_key,
            data,
        };
        let ghost vf = vault_file;
        write_vault_file(vault_file, effects);
        let ghost after_vault = effects@;
        proof {
            assert(data_holds(vf, vault_key@, json));
            assert(password_unlocks(vf, password@, vault_key@));
            assert(effects@.take(before.len() as int) =~= before);
            assert(effects@[before.len() as int] == FileEffect::WriteVault(vf));
            assert(init_effects(self.paths(), Some(password@), 0, json, now, before, effects@));
        }
        if session_minutes > 0 {
            let expires_at = match session_expiry(now, session_minutes) {
                Some(t) => t,
                None => return Err(SecretHubError::Time),
            };
            save_session(vault_key, expires_at, effects);
            proof {
                assert(effects@.take(after_vault.len() as int)[before.len() as int] == effects@[before.len() as int]);
                assert(effects@.take(before.len() as int) =~= before) by {
                    assert(effects@.take(before.len() as int) =~= effects@.take(after_vault.len() as int).take(before.len() as int));
                }
                assert(init_effects(self.paths(), Some(password@), session_minutes, json, now, before, effects@));
            }
        }
        Ok(())
    }

    /// Creates a no-password vault from drawn values: the vault key
    /// `vault_key` seals `data_json` (the JSON text of new, empty vault data)
    /// with `data_nonce` and is itself sealed with `wrap_nonce` under
    /// `wrapping_key`, which the key file keeps in base64.
    ///
    /// An existing vault gives `VaultAlreadyExists` and data too long for the
    /// cipher gives `Crypto`, both with no effect; otherwise the key file and
    /// then the vault file are written.
    pub fn create_with_key_file(
        &self,
        files: &VaultFiles,
        data_json: Vec<u8>,
        vault_key: &[u8; 32],
        data_nonce: &[u8; 24],
        wrapping_key: &[u8; 32],
        wrap_nonce: &[u8; 24],
        effects: &mut Vec<FileEffect>,
    ) -> (r: HubResult<()>)
        requires
            data_json@.len() <= usize::MAX / 2 - 16,
        ensures
            if !(files.vault is Absent) {
                r == Err::<(), _>(SecretHubError::VaultAlreadyExists) && final(effects)@ == old(
                    effects,
                )@
            } else if !fits_cipher(data_json@.len()) {
                r == Err::<(), _>(SecretHubError::Crypto) && final(effects)@ == old(effects)@
            } else {
                &&& r is Ok
                &&& final(effects)@.len() == old(effects)@.len() + 2
                &&& final(effects)@.take(old(effects)@.len() as int) == old(effects)@
                &&& final(effects)@[old(effects)@.len() as int] matches FileEffect::WriteKeyFile(text)
                &&& text@ == base64_encode(wrapping_key@)
                &&& final(effects)@[old(effects)@.len() as int + 1] matches FileEffect::WriteVault(vf)
                &&& new_vault_file(
                    vf,
                    vault_key@,
                    data_nonce@,
                    data_json@,
                    wrapping_key@,
                    wrap_nonce@,
                )
                &&& vf.auth == (AuthMode::NoPassword { key_file: self.paths().key_file })
                &&& data_holds(vf, vault_key@, data_json@)
                &&& key_file_unlocks(vf, text@, vault_key@)
            },
    {
        if !matches!(files.vault, Stored::Absent) {
            return Err(SecretHubError::VaultAlreadyExists);
        }
        let ghost before = effects@;
        let ghost json = data_json@;
        let data = match seal_vault_data(vault_key, data_nonce, data_json) {
            Ok(d) => d,
            Err(e) => return Err(e),
        };
        let wrapped_key = match seal_with_nonce(wrapping_key, wrap_nonce, vault_key.as_slice()) {
            Ok(w) => w,
            Err(e) => return Err(e),
        };
        write_key_file(wrapping_key, effects);
        let ghost after_key = effects@;
        let vault_file = VaultFile {
            version: 1,
            auth: AuthMode::NoPassword { key_file: copy_string(&self.paths.key_file) },
            wrapped_key,
            data,
        };
        let ghost vf = vault_file;
        write_vault_file(vault_file, effects);
        proof {
            assert(effects@[before.len() as int] == after_key[before.len() as int]);
            assert(data_holds(vf, vault_key@, json));
            assert(key_file_unlocks(vf, effects@[before.len() as int]->WriteKeyFile_0@, vault_key@));
            assert(effects@.take(before.len() as int) =~= before) by {
                assert(after_key.take(before.len() as int) =~= before);
            }
        }
        Ok(())
    }

    /// Creates the vault at `now`: draws a fresh vault key, nonces, and a
    /// salt (with a password) or a wrapping key (without), then creates the
    /// vault with them (see `create_with_password` and
    /// `create_with_key_file`). A failed draw gives `Crypto` with no effect.
    /// See `init_outcome`.
    pub fn init_at(
        &self,
        files: &VaultFiles,
        password: Option<&str>,
        session_minutes: i64,
        data_json: Vec<u8>,
        now: Timestamp,
        effects: &mut Vec<FileEffect>,
    ) -> (r: HubResult<()>)
        requires
            data_json@.len() <= usize::MAX / 2 - 16,
            clock_time(now),
        ensures
            init_outcome(
                self.paths(),
                *files,
                str_option_view(password),
                session_minutes,
                data_json@,
                now,
                r,
                old(effects)@,
                final(effects)@,
            ),
    {
        if !matches!(files.vault, Stored::Absent) {
            return Err(SecretHubError::VaultAlreadyExists);
        }
        let ghost before = effects@;
        let ghost json = data_json@;
        assert(effects@.take(before.len() as int) =~= before);
        let vault_key = match random_key() {
            Ok(k) => k,
            Err(e) => return Err(e),
        };
        let data_nonce = match random_nonce() {
            Ok(n) => n,
            Err(e) => return Err(e),
        };
        match password {
            Some(pw) => {
                let salt = match random_salt() {
                    Ok(s) => s,
                    Err(e) => return Err(e),
                };
                let wrap_nonce = match random_nonce() {
                    Ok(n) => n,
                    Err(e) => return Err(e),
                };
                self.create_with_password(
                    files,
                    pw,
                    session_minutes,
                    data_json,
                    now,
                    &vault_key,
                    &data_nonce,
                    salt,
                    &wrap_nonce,
                    effects,
                )
            },
            None => {
                let wrapping_key = match random_key() {
                    Ok(k) => k,
                    Err(e) => return Err(e),
                };
                let wrap_nonce = match random_nonce() {
                    Ok(n) => n,
                    Err(e) => return Err(e),
                };
                let r = self.create_with_key_file(
                    files,
                    data_json,
                    &vault_key,
                    &data_nonce,
                    &wrapping_key,
                    &wrap_nonce,
                    effects,
                );
                proof {
                    if r is Ok {
                        assert(init_effects(self.paths(), None, session_minutes, json, now, before, effects@));
                    }
                }
                r
            },
        }
    }

    /// Creates the vault without a login password (see `init_at`). An
    /// existing vault is refused before the clock is read; `Time`, with no
    /// effect, when it cannot be read.
    pub fn init_no_password(&self, files: &VaultFiles, data_json: Vec<u8>, effects: &mut Vec<
        FileEffect,
    >) -> (r: HubResult<()>)
        requires
            data_json@.len() <= usize::MAX / 2 - 16,
        ensures
            (r == Err::<(), _>(SecretHubError::Time) && files.vault is Absent && final(effects)@ == old(effects)@) || exists|
                now: Timestamp,
            |
                #![trigger clock_time(now)]
                clock_time(now) && init_outcome(
                    self.paths(),
                    *files,
                    None,
                    0,
                    data_json@,
                    now,
                    r,
                    old(effects)@,
                    final(effects)@,
                ),
    {
        if !matches!(files.vault, Stored::Absent) {
            let ghost epoch = Timestamp { secs: 0, nanos: 0 };
            assert(clock_time(epoch));
            assert(init_outcome(
                self.paths(),
                *files,
                None,
                0,
                data_json@,
                epoch,
                Err(SecretHubError::VaultAlreadyExists),
                effects@,
                effects@,
            ));
            return Err(SecretHubError::VaultAlreadyExists);
        }
        let now = match utc_now() {
            Some(now) => now,
            None => return Err(SecretHubError::Time),
        };
        let ghost json = data_json@;
        let r = self.init_at(files, None, 0, data_json, now, effects);
        assert(init_outcome(self.paths(), *files, None, 0, json, now, r, old(effects)@, effects@));
        assert(after_minutes(now, 0) == after_minutes(now, 0));
        r
    }

    /// Creates the vault with a login password, opening a session of
    /// `session_minutes` minutes when that is positive (see `init_at`). An
    /// existing vault is refused before the clock is read; `Time`, with no
    /// effect, when it cannot be read.
    pub fn init_with_password(
        &self,
        files: &VaultFiles,
        password: &str,
        session_minutes: i64,
        data_json: Vec<u8>,
        effects: &mut Vec<FileEffect>,
    ) -> (r: HubResult<()>)
        requires
            data_json@.len() <= usize::MAX / 2 - 16,
        ensures
            (r == Err::<(), _>(SecretHubError::Time) && files.vault is Absent && final(effects)@ == old(effects)@) || exists|
                now: Timestamp,
            |
                #![trigger clock_time(now)]
                clock_time(now) && init_outcome(
                    self.paths(),
                    *files,
                    Some(password@),
                    session_minutes,
                    data_json@,
                    now,
                    r,
                    old(effects)@,
                    final(effects)@,
                ),
    {
        if !matches!(files.vault, Stored::Absent) {
            let ghost epoch = Timestamp { secs: 0, nanos: 0 };
            assert(clock_time(epoch));
            assert(init_outcome(
                self.paths(),
                *files,
                Some(password@),
                session_minutes,
                data_json@,
                epoch,
                Err(SecretHubError::VaultAlreadyExists),
                effects@,
                effects@,
            ));
            return Err(SecretHubError::VaultAlreadyExists);
        }
        let now = match utc_now() {
            Some(now) => now,
            None => return Err(SecretHubError::Time),
        };
        let ghost json = data_json@;
        let r = self.init_at(files, Some(password), session_minutes, data_json, now, effects);
        assert(init_outcome(
            self.paths(),
            *files,
            Some(password@),
            session_minutes,
            json,
            now,
            r,
            old(effects)@,
            effects@,
        ));
        assert(after_minutes(now, session_minutes) == after_minutes(now, session_minutes));
        r
    }

    /// The vault key that logging in with `password` unwraps (see
    /// `login_spec`).
    pub fn login_key(&self, files: &VaultFiles, password: &str) -> (r: HubResult<[u8; 32]>)
        ensures
            match (r, login_spec(*files, password@)) {
                (Ok(k), Ok(s)) => k@ == s,
                (Err(e), Err(s)) => e == s,
                _ => false,
            },
    {
        let vault_file = read_vault_file(&files.vault)?;
        let salt = match &vault_file.auth {
            AuthMode::Password { salt } => salt,
            AuthMode::NoPassword { .. } => return Err(SecretHubError::UnsupportedAuthMode),
        };
        let wrapping_key = derive_key(password, salt.as_str())?;
        let vault_key = decrypt_bytes(&wrapping_key, &vault_file.wrapped_key)?;
        fixed_key(vault_key)
    }

    /// Keeps `vault_key` in a session of `max(session_minutes, 1)` minutes
    /// from `now`; `Time`, with no effect, when it would end past chrono's
    /// range.
    fn save_login_session(
        vault_key: &[u8; 32],
        session_minutes: i64,
        now: Timestamp,
        effects: &mut Vec<FileEffect>,
    ) -> (r: HubResult<()>)
        requires
            clock_time(now),
        ensures
            match r {
                Ok(()) => {
                    &&& expiry_fits(now, login_minutes(session_minutes))
                    &&& final(effects)@.len() == old(effects)@.len() + 1
                    &&& final(effects)@.take(old(effects)@.len() as int) == old(effects)@
                    &&& final(effects)@.last() matches FileEffect::WriteSession(s)
                    &&& session_written(
                        s,
                        vault_key@,
                        after_minutes(now, login_minutes(session_minutes)),
                    )
                },
                Err(e) => e is Time && !expiry_fits(now, login_minutes(session_minutes))
                    && final(effects)@ == old(effects)@,
            },
    {
        let minutes = if session_minutes > 1 {
            session_minutes
        } else {
            1
        };
        let expires_at = match session_expiry(now, minutes) {
            Some(t) => t,
            None => return Err(SecretHubError::Time),
        };
        save_session(vault_key, expires_at, effects);
        Ok(())
    }

    /// Logs in with `password` at `now`: the vault key that the password
    /// unwraps is kept in a session of `max(session_minutes, 1)` minutes.
    /// See `login_outcome`.
    pub fn login_at(
        &self,
        files: &VaultFiles,
        password: &str,
        session_minutes: i64,
        now: Timestamp,
        effects: &mut Vec<FileEffect>,
    ) -> (r: HubResult<()>)
        requires
            clock_time(now),
        ensures
            login_outcome(*files, password@, session_minutes, now, r, old(effects)@, final(effects)@),
    {
        let vault_key = self.login_key(files, password)?;
        Self::save_login_session(&vault_key, session_minutes, now, effects)
    }

    /// Logs in with `password` now (see `login_at`). The clock is read only
    /// once the password has unwrapped the vault key; `Time`, with no
    /// effect, when it cannot be read then.
    pub fn login(&self, files: &VaultFiles, password: &str, session_minutes: i64, effects: &mut Vec<
        FileEffect,
    >) -> (r: HubResult<()>)
        ensures
            (r == Err::<(), _>(SecretHubError::Time) && login_spec(*files, password@) is Ok
                && final(effects)@ == old(effects)@) || exists|now: Timestamp|
                #![trigger clock_time(now)]
                clock_time(now) && login_outcome(
                    *files,
                    password@,
                    session_minutes,
                    now,
                    r,
                    old(effects)@,
                    final(effects)@,
                ),
    {
        let vault_key = match self.login_key(files, password) {
            Ok(k) => k,
            Err(e) => {
                assert(login_outcome(
                    *files,
                    password@,
                    session_minutes,
                    Timestamp { secs: 0, nanos: 0 },
                    Err(e),
                    old(effects)@,
                    effects@,
                ));
                assert(clock_time(Timestamp { secs: 0, nanos: 0 }));
                return Err(e);
            },
        };
        let now = match utc_now() {
            Some(now) => now,
            None => return Err(SecretHubError::Time),
        };
        let r = Self::save_login_session(&vault_key, session_minutes, now, effects);
        assert(login_outcome(*files, password@, session_minutes, now, r, old(effects)@, effects@));
        r
    }

    /// Switches an unlocked vault file to password mode with drawn values:
    /// the key that Argon2 derives from `password` and `salt` seals the vault
    /// key with `nonce`; the vault file is written in password mode with the
    /// same version and data, the key file removed, and, when
    /// `session_minutes > 0`, a session holding the vault key opened.
    ///
    /// A failed derivation gives its error with no effect; a session ending
    /// past chrono's range gives `Time` after the vault file was written and
    /// the key file removed.
    pub fn rewrap_with_password(
        vault_file: VaultFile,
        vault_key: &[u8; 32],
        password: &str,
        session_minutes: i64,
        now: Timestamp,
        salt: String,
        nonce: &[u8; 24],
        effects: &mut Vec<FileEffect>,
    ) -> (r: HubResult<()>)
        requires
            clock_time(now),
        ensures
            match derive_key_spec(password@, salt@) {
                Err(e) => r == Err::<(), _>(e) && final(effects)@ == old(effects)@,
                Ok(wk) => {
                    &&& final(effects)@.len() == old(effects)@.len() + if session_minutes > 0
                        && expiry_fits(now, session_minutes) {
                        3int
                    } else {
                        2int
                    }
                    &&& final(effects)@.take(old(effects)@.len() as int) == old(effects)@
                    &&& final(effects)@[old(effects)@.len() as int] matches FileEffect::WriteVault(vf)
                    &&& password_rewrap(vault_file, vf, salt@, wk, nonce@, vault_key@)
                    &&& password_unlocks(vf, password@, vault_key@)
                    &&& final(effects)@[old(effects)@.len() as int + 1] == FileEffect::DeleteKeyFile
                    &&& if session_minutes > 0 {
                        if expiry_fits(now, session_minutes) {
                            &&& r is Ok
                            &&& final(effects)@.last() matches FileEffect::WriteSession(s)
                            &&& session_written(s, vault_key@, after_minutes(now, session_minutes))
                        } else {
                            r == Err::<(), _>(SecretHubError::Time)
                        }
                    } else {
                        r is Ok
                    }
                },
            },
            derive_fits(password@, salt@) ==> derive_key_spec(password@, salt@) is Ok,
    {
        let ghost before = effects@;
        let mut vault_file = vault_file;
        let wrapping_key = match derive_key(password, salt.as_str()) {
            Ok(k) => k,
            Err(e) => return Err(e),
        };
        let wrapped_key = match seal_with_nonce(&wrapping_key, nonce, vault_key.as_slice()) {
            Ok(w) => w,
            Err(e) => return Err(e),
        };
        vault_file.auth = AuthMode::Password { salt };
        vault_file.wrapped_key = wrapped_key;
        let ghost vf = vault_file;
        write_vault_file(vault_file, effects);
        delete_key_file(effects);
        let ghost after_delete = effects@;
        proof {
            assert(password_unlocks(vf, password@, vault_key@));
            assert(effects@.take(before.len() as int) =~= before);
        }
        if session_minutes > 0 {
            let expires_at = match session_expiry(now, session_minutes) {
                Some(t) => t,
                None => return Err(SecretHubError::Time),
            };
            save_session(vault_key, expires_at, effects);
            proof {
                assert(effects@.take(after_delete.len() as int)[before.len() as int] == effects@[before.len() as int]);
                assert(effects@.take(after_delete.len() as int)[before.len() as int + 1] == effects@[before.len() as int + 1]);
                assert(effects@.take(before.len() as int) =~= before) by {
                    assert(effects@.take(before.len() as int) =~= effects@.take(after_delete.len() as int).take(before.len() as int));
                }
            }
        }
        Ok(())
    }

    /// Switches the unlocked vault to password mode at `now`: draws a fresh
    /// salt and nonce and rewraps the vault key with them (see
    /// `rewrap_with_password`). See `set_password_outcome`.
    pub fn set_password_at(
        &self,
        files: &VaultFiles,
        password: &str,
        session_minutes: i64,
        now: Timestamp,
        effects: &mut Vec<FileEffect>,
    ) -> (r: HubResult<()>)
        requires
            clock_time(now),
        ensures
            set_password_outcome(
                *files,
                password@,
                session_minutes,
                now,
                r,
                old(effects)@,
                final(effects)@,
            ),
    {
        let (vault_file, vault_key) = self.load_unlocked_at(files, now, effects)?;
        let ghost mid = effects@;
        assert(effects@.take(mid.len() as int) =~= mid);
        let salt = match random_salt() {
            Ok(s) => s,
            Err(e) => return Err(e),
        };
        let nonce = match random_nonce() {
            Ok(n) => n,
            Err(e) => return Err(e),
        };
        Self::rewrap_with_password(
            vault_file,
            &vault_key,
            password,
            session_minutes,
            now,
            salt,
            &nonce,
            effects,
        )
    }

    /// Switches the unlocked vault to password mode now (see
    /// `set_password_at`). The clock is read only when unlocking needs it or
    /// a session is to be opened on an existing vault; `Time`, with no
    /// effect, when it cannot be read then.
    pub fn set_password(&self, files: &VaultFiles, password: &str, session_minutes: i64, effects: &mut Vec<
        FileEffect,
    >) -> (r: HubResult<()>)
        ensures
            (r == Err::<(), _>(SecretHubError::Time) && (unlock_needs_clock(*files) || (session_minutes > 0 && files.vault is Present)) && final(effects)@ == old(effects)@) || exists|
                now: Timestamp,
            |
                #![trigger clock_time(now)]
                clock_time(now) && set_password_outcome(
                    *files,
                    password@,
                    session_minutes,
                    now,
                    r,
                    old(effects)@,
                    final(effects)@,
                ),
    {
        let now = match clock_if(Self::needs_clock(files) || (session_minutes > 0 && matches!(files.vault, Stored::Present(_)))) {
            Some(now) => now,
            None => return Err(SecretHubError::Time),
        };
        let r = self.set_password_at(files, password, session_minutes, now, effects);
        assert(set_password_outcome(
            *files,
            password@,
            session_minutes,
            now,
            r,
            old(effects)@,
            effects@,
        ));
        assert(after_minutes(now, session_minutes) == after_minutes(now, session_minutes));
        r
    }

    /// Switches an unlocked vault file to no-password mode with drawn values:
    /// `wrapping_key` seals the vault key with `nonce` and is written in
    /// base64 to the key file; then the vault file is written in
    /// no-password mode with the same version and data, and the session is
    /// removed.
    pub fn rewrap_with_key_file(
        &self,
        vault_file: VaultFile,
        vault_key: &[u8; 32],
        wrapping_key: &[u8; 32],
        nonce: &[u8; 24],
        effects: &mut Vec<FileEffect>,
    )
        ensures
            final(effects)@.len() == old(effects)@.len() + 3,
            final(effects)@.take(old(effects)@.len() as int) == old(effects)@,
            ({
                &&& final(effects)@[old(effects)@.len() as int] matches FileEffect::WriteKeyFile(text)
                &&& text@ == base64_encode(wrapping_key@)
                &&& final(effects)@[old(effects)@.len() as int + 1] matches FileEffect::WriteVault(vf)
                &&& key_file_rewrap(
                    vault_file,
                    vf,
                    self.paths().key_file,
                    wrapping_key@,
                    nonce@,
                    vault_key@,
                )
                &&& key_file_unlocks(vf, text@, vault_key@)
            }),
            final(effects)@[old(effects)@.len() as int + 2] == FileEffect::ClearSession,
    {
        let ghost before = effects@;
        let mut vault_file = vault_file;
        let wrapped_key = match seal_with_nonce(wrapping_key, nonce, vault_key.as_slice()) {
            Ok(w) => w,
            Err(_) => {
                assert(false);
                return;
            },
        };
        write_key_file(wrapping_key, effects);
        let ghost after_key = effects@;
        vault_file.auth = AuthMode::NoPassword { key_file: copy_string(&self.paths.key_file) };
        vault_file.wrapped_key = wrapped_key;
        let ghost vf = vault_file;
        write_vault_file(vault_file, effects);
        clear_session(effects);
        proof {
            assert(effects@[before.len() as int] == after_key[before.len() as int]);
            assert(key_file_unlocks(vf, effects@[before.len() as int]->WriteKeyFile_0@, vault_key@));
            assert(effects@.take(before.len() as int) =~= before) by {
                assert(after_key.take(before.len() as int) =~= before);
            }
        }
    }

    /// Switches the unlocked vault to no-password mode at `now`: draws a
    /// fresh wrapping key and nonce and rewraps the vault key with them (see
    /// `rewrap_with_key_file`). See `remove_password_outcome`.
    pub fn remove_password_at(&self, files: &VaultFiles, now: Timestamp, effects: &mut Vec<
        FileEffect,
    >) -> (r: HubResult<()>)
        ensures
            remove_password_outcome(self.paths(), *files, now, r, old(effects)@, final(effects)@),
    {
        let (vault_file, vault_key) = self.load_unlocked_at(files, now, effects)?;
        let ghost mid = effects@;
        assert(effects@.take(mid.len() as int) =~= mid);
        let wrapping_key = match random_key() {
            Ok(k) => k,
            Err(e) => return Err(e),
        };
        let nonce = match random_nonce() {
            Ok(n) => n,
            Err(e) => return Err(e),
        };
        self.rewrap_with_key_file(vault_file, &vault_key, &wrapping_key, &nonce, effects);
        Ok(())
    }

    /// Switches the unlocked vault to no-password mode now (see
    /// `remove_password_at`). The clock is read only when unlocking needs it (see
    /// `unlock_needs_clock`); `Time`, with no effect, when it cannot be read
    /// then.
    pub fn remove_password(&self, files: &VaultFiles, effects: &mut Vec<FileEffect>) -> (r: HubResult<()>)
        ensures
            (r == Err::<(), _>(SecretHubError::Time) && unlock_needs_clock(*files) && final(effects)@ == old(effects)@) || exists|
                now: Timestamp,
            |
                #![trigger unlock_spec(*files, now)]
                clock_time(now) && remove_password_outcome(
                    self.paths(),
                    *files,
                    now,
                    r,
                    old(effects)@,
                    final(effects)@,
                ),
    {
        let now = match clock_if(Self::needs_clock(files)) {
            Some(now) => now,
            None => return Err(SecretHubError::Time),
        };
        let r = self.remove_password_at(files, now, effects);
        assert(unlock_spec(*files, now) == unlock_spec(*files, now));
        r
    }

    /// Whether entry `e` is named `name`: by its name or by its id's text.
    fn is_named(e: &SecretEntry, name: &Vec<char>) -> (r: bool)
        ensures
            r == entry_named(*e, name@),
    {
        let entry_name = str_chars(e.name.as_str());
        if chars_eq(&entry_name, name) {
            return true;
        }
        let id_text = uuid_string(e.id);
        let id_chars = str_chars(id_text.as_str());
        chars_eq(&id_chars, name)
    }

    /// The index of the first entry named `name`.
    fn position(entries: &Vec<SecretEntry>, name: &Vec<char>) -> (r: Option<usize>)
        ensures
            match r {
                Some(i) => find_entry_from(entries@, name@, 0) == Some(i as int),
                None => find_entry_from(entries@, name@, 0) is None,
            },
    {
        let mut i: usize = 0;
        while i < entries.len()
            invariant
                i <= entries.len(),
                find_entry_from(entries@, name@, 0) == find_entry_from(entries@, name@, i as int),
            decreases entries.len() - i,
        {
            if Self::is_named(&entries[i], name) {
                return Some(i);
            }
            i = i + 1;
        }
        None
    }

    /// The vault file, its key and the JSON text of its data, decrypted at
    /// `now` without asking for a password.
    pub fn load_data_at(&self, files: &VaultFiles, now: Timestamp, effects: &mut Vec<FileEffect>) -> (r:
        HubResult<(VaultFile, [u8; 32], Vec<u8>)>)
        ensures
            match (r, unlock_spec(*files, now)) {
                (Ok((vf, k, json)), Ok(s)) => vault_file_spec(files.vault) == Ok::<
                    _,
                    SecretHubError,
                >(vf) && k@ == s && decrypt_spec(k@, vf.data.nonce@, vf.data.ciphertext@)
                    == Ok::<_, SecretHubError>(json@),
                (Err(e), Err(s)) => e == s,
                (Err(e), Ok(s)) => vault_file_spec(files.vault) matches Ok(vf) && decrypt_spec(
                    s,
                    vf.data.nonce@,
                    vf.data.ciphertext@,
                ) == Err::<Seq<u8>, _>(e),
                _ => false,
            },
            final(effects)@ == after_unlock(*files, now, old(effects)@),
    {
        let (vault_file, vault_key) = self.load_unlocked_at(files, now, effects)?;
        let data = crate::store::decrypt_vault_data(&vault_key, &vault_file.data)?;
        Ok((vault_file, vault_key, data))
    }

    /// The vault file, its key and the JSON text of its data now (see
    /// `load_data_at`). The clock is read only when unlocking needs it (see
    /// `unlock_needs_clock`); `Time`, with no effect, when it cannot be read
    /// then.
    pub fn load_data(&self, files: &VaultFiles, effects: &mut Vec<FileEffect>) -> (r: HubResult<
        (VaultFile, [u8; 32], Vec<u8>),
    >)
        ensures
            (r == Err::<(VaultFile, [u8; 32], Vec<u8>), _>(SecretHubError::Time) && unlock_needs_clock(*files) && final(effects)@
                == old(effects)@) || exists|now: Timestamp|
                #![trigger clock_time(now)]
                clock_time(now) && match (r, unlock_spec(*files, now)) {
                    (Ok((vf, k, json)), Ok(s)) => vault_file_spec(files.vault) == Ok::<
                        _,
                        SecretHubError,
                    >(vf) && k@ == s && decrypt_spec(k@, vf.data.nonce@, vf.data.ciphertext@)
                        == Ok::<_, SecretHubError>(json@),
                    (Err(e), Err(s)) => e == s,
                    (Err(e), Ok(s)) => vault_file_spec(files.vault) matches Ok(vf) && decrypt_spec(
                        s,
                        vf.data.nonce@,
                        vf.data.ciphertext@,
                    ) == Err::<Seq<u8>, _>(e),
                    _ => false,
                } && final(effects)@ == after_unlock(*files, now, old(effects)@),
    {
        let now = match clock_if(Self::needs_clock(files)) {
            Some(now) => now,
            None => return Err(SecretHubError::Time),
        };
        self.load_data_at(files, now, effects)
    }

    /// Stores `data_json`, the JSON text of the updated vault data (marked
    /// updated with `VaultData::touch` before it was written), sealed under
    /// the vault key with `nonce`, in the vault file. Fails with `Crypto`,
    /// and no effect, exactly when the text is too long for the cipher.
    pub fn save_data_with_nonce(
        &self,
        vault_file: VaultFile,
        vault_key: &[u8; 32],
        data_json: Vec<u8>,
        nonce: &[u8; 24],
        effects: &mut Vec<FileEffect>,
    ) -> (r: HubResult<()>)
        requires
            data_json@.len() <= usize::MAX / 2 - 16,
        ensures
            match r {
                Ok(()) => {
                    &&& fits_cipher(data_json@.len())
                    &&& final(effects)@.len() == old(effects)@.len() + 1
                    &&& final(effects)@.take(old(effects)@.len() as int) == old(effects)@
                    &&& final(effects)@.last() matches FileEffect::WriteVault(vf)
                    &&& vf.version == vault_file.version
                    &&& vf.auth == vault_file.auth
                    &&& vf.wrapped_key == vault_file.wrapped_key
                    &&& sealed_with(vf.data, vault_key@, nonce@, data_json@)
                    &&& data_holds(vf, vault_key@, data_json@)
                },
                Err(e) => !fits_cipher(data_json@.len()) && e is Crypto && final(effects)@ == old(
                    effects,
                )@,
            },
    {
        let mut vault_file = vault_file;
        let ghost json = data_json@;
        vault_file.data = match seal_vault_data(vault_key, nonce, data_json) {
            Ok(d) => d,
            Err(e) => return Err(e),
        };
        let ghost vf = vault_file;
        write_vault_file(vault_file, effects);
        assert(effects@.take(old(effects)@.len() as int) =~= old(effects)@);
        assert(data_holds(vf, vault_key@, json));
        Ok(())
    }

    /// Stores `data_json` sealed under the vault key with a fresh random
    /// nonce (see `save_data_with_nonce`); `Crypto`, with no effect, when the
    /// random source fails or the text is too long for the cipher.
    pub fn save_data(
        &self,
        vault_file: VaultFile,
        vault_key: &[u8; 32],
        data_json: Vec<u8>,
        effects: &mut Vec<FileEffect>,
    ) -> (r: HubResult<()>)
        requires
            data_json@.len() <= usize::MAX / 2 - 16,
        ensures
            match r {
                Ok(()) => {
                    &&& final(effects)@.len() == old(effects)@.len() + 1
                    &&& final(effects)@.take(old(effects)@.len() as int) == old(effects)@
                    &&& final(effects)@.last() matches FileEffect::WriteVault(vf)
                    &&& vf.version == vault_file.version
                    &&& vf.auth == vault_file.auth
                    &&& vf.wrapped_key == vault_file.wrapped_key
                    &&& data_holds(vf, vault_key@, data_json@)
                },
                Err(e) => e is Crypto && final(effects)@ == old(effects)@,
            },
    {
        let nonce = match random_nonce() {
            Ok(n) => n,
            Err(e) => return Err(e),
        };
        self.save_data_with_nonce(vault_file, vault_key, data_json, &nonce, effects)
    }

    /// The entries of the vault data whose kind has the label `kind`, or all
    /// of them, in order.
    pub fn list(&self, data: VaultData, kind: Option<&str>) -> (r: Vec<SecretEntry>)
        ensures
            r@ == list_spec(data.entries@, str_option_view(kind)),
    {
        let ghost k = str_option_view(kind);
        let ghost all = data.entries@;
        let wanted: Option<Vec<char>> = match kind {
            Some(t) => Some(str_chars(t)),
            None => None,
        };
        let mut rest = data.entries;
        let mut out: Vec<SecretEntry> = Vec::new();
        assert(out@ + list_spec(rest@, k) =~= list_spec(all, k));
        while rest.len() > 0
            invariant
                list_spec(all, k) == out@ + list_spec(rest@, k),
                match wanted {
                    Some(w) => k == Some(w@),
                    None => k is None,
                },
            decreases rest.len(),
        {
            let ghost before = rest@;
            let entry = rest.remove(0);
            assert(rest@ =~= before.drop_first());
            let keep = match &wanted {
                None => true,
                Some(w) => {
                    let label = str_chars(entry.kind.label());
                    chars_eq(&label, w)
                },
            };
            if keep {
                let ghost prev = out@;
                out.push(entry);
                assert(prev + list_spec(before, k) =~= out@ + list_spec(rest@, k));
            }
        }
        assert(out@ + list_spec(rest@, k) =~= out@);
        out
    }

    /// The first entry of the vault data named `name` (by name or by the text
    /// of its id); `SecretNotFound` with the name when there is none.
    pub fn get(&self, data: VaultData, name: &str) -> (r: HubResult<SecretEntry>)
        ensures
            match find_entry_from(data.entries@, name@, 0) {
                Some(i) => r == Ok::<_, SecretHubError>(data.entries@[i]),
                None => r matches Err(e) && e matches SecretHubError::SecretNotFound(n) && n@
                    == name@,
            },
    {
        let wanted = str_chars(name);
        let mut entries = data.entries;
        match Self::position(&entries, &wanted) {
            Some(i) => {
                proof {
                    lemma_find_entry_from(entries@, name@, 0);
                }
                Ok(entries.remove(i))
            },
            None => Err(SecretHubError::SecretNotFound(crate::text::chars_string(&wanted))),
        }
    }

    /// Adds an entry made from `secret` (see `entry_from`) at the end of the
    /// vault data and returns a copy of it. Making the entry fails with
    /// `Time` when the clock cannot be read and with `Crypto` when the random
    /// source fails; the data is then unchanged.
    pub fn add(&self, data: &mut VaultData, secret: NewSecret) -> (r: HubResult<SecretEntry>)
        ensures
            match r {
                Ok(e) => {
                    &&& entry_from(e, secret)
                    &&& final(data).entries@.len() == old(data).entries@.len() + 1
                    &&& final(data).entries@.take(old(data).entries@.len() as int) == old(
                        data,
                    ).entries@
                    &&& entry_copy(final(data).entries@.last(), e)
                },
                Err(e) => (e is Time || e is Crypto) && final(data).entries == old(data).entries,
            },
            final(data).version == old(data).version,
            final(data).created_at == old(data).created_at,
            final(data).updated_at == old(data).updated_at,
    {
        let entry = match secret {
            NewSecret::Totp { name, issuer, account, secret, digits, period, tags, notes } => {
                let normalized = normalize_secret(secret.as_str());
                SecretEntry::new(
                    name,
                    tags,
                    notes,
                    SecretKind::Totp(
                        TotpEntry { issuer, account, secret: normalized, digits, period },
                    ),
                )
            },
            NewSecret::ApiKey { name, provider, key, scopes, tags, notes } => SecretEntry::new(
                name,
                tags,
                notes,
                SecretKind::ApiKey(ApiKeyEntry { provider, key, scopes, expires_at: None }),
            ),
            NewSecret::Password { name, username, password, url, tags, notes } => SecretEntry::new(
                name,
                tags,
                notes,
                SecretKind::Password(PasswordEntry { username, password, url }),
            ),
            NewSecret::Token { name, service, token, tags, notes } => SecretEntry::new(
                name,
                tags,
                notes,
                SecretKind::Token(TokenEntry { service, token, expires_at: None }),
            ),
            NewSecret::Env { project, profile, variables, tags, notes } => {
                let name = copy_string(&project);
                SecretEntry::new(
                    name,
                    tags,
                    notes,
                    SecretKind::Env(EnvProfile { project, profile, variables }),
                )
            },
        };
        let entry = match entry {
            Ok(e) => e,
            Err(e) => return Err(e),
        };
        let copy = entry.duplicate();
        data.entries.push(copy);
        assert(data.entries@.take(old(data).entries@.len() as int) =~= old(data).entries@);
        Ok(entry)
    }

    /// Removes and returns the first entry of the vault data named `name`;
    /// `SecretNotFound` with the name, and no change, when there is none.
    pub fn delete(&self, data: &mut VaultData, name: &str) -> (r: HubResult<SecretEntry>)
        ensures
            match find_entry_from(old(data).entries@, name@, 0) {
                Some(i) => r == Ok::<_, SecretHubError>(old(data).entries@[i])
                    && final(data).entries@ == old(data).entries@.remove(i),
                None => (r matches Err(e) && e matches SecretHubError::SecretNotFound(n) && n@
                    == name@) && final(data).entries@ == old(data).entries@,
            },
            final(data).version == old(data).version,
            final(data).created_at == old(data).created_at,
            final(data).updated_at == old(data).updated_at,
    {
        let wanted = str_chars(name);
        match Self::position(&data.entries, &wanted) {
            Some(i) => {
                proof {
                    lemma_find_entry_from(data.entries@, name@, 0);
                }
                Ok(data.entries.remove(i))
            },
            None => Err(SecretHubError::SecretNotFound(crate::text::chars_string(&wanted))),
        }
    }

    /// The TOTP code at `now` of the first entry named `name`: the errors of
    /// `get`, `InvalidTotpSecret` when the entry is not a TOTP entry, else
    /// what `generate_code_at` gives for its secret, digits and period.
    pub fn totp_code_at(&self, data: VaultData, name: &str, now: u64) -> (r: HubResult<String>)
        ensures
            match find_entry_from(data.entries@, name@, 0) {
                None => r matches Err(e) && e matches SecretHubError::SecretNotFound(n) && n@
                    == name@,
                Some(i) => match data.entries@[i].kind {
                    SecretKind::Totp(t) => match r {
                        Ok(code) => valid_totp_params(t.digits, t.period) && (totp_key(t.secret@) matches Some(key)
                            && code@ == hotp_spec(key, now / t.period, t.digits)),
                        Err(e) => e is InvalidTotpSecret && (!valid_totp_params(t.digits, t.period)
                            || totp_key(t.secret@) is None),
                    },
                    _ => r matches Err(e) && e is InvalidTotpSecret,
                },
            },
    {
        let entry = self.get(data, name)?;
        match entry.kind {
            SecretKind::Totp(totp) => generate_code_at(totp.secret.as_str(), totp.digits, totp.period, now),
            _ => Err(SecretHubError::InvalidTotpSecret),
        }
    }

    /// The current TOTP code of the first entry named `name` (see
    /// `totp_code_at`); `Time` when the clock is set before the Unix epoch.
    pub fn totp_code(&self, data: VaultData, name: &str) -> (r: HubResult<String>)
        ensures
            match find_entry_from(data.entries@, name@, 0) {
                None => r matches Err(e) && e matches SecretHubError::SecretNotFound(n) && n@
                    == name@,
                Some(i) => match data.entries@[i].kind {
                    SecretKind::Totp(t) => match r {
                        Ok(code) => valid_totp_params(t.digits, t.period) && (totp_key(t.secret@) matches Some(key)
                            && exists|now: u64| code@ == hotp_spec(key, #[trigger] time_step(now, t.period), t.digits)),
                        Err(e) => (e is InvalidTotpSecret && (!valid_totp_params(t.digits, t.period)
                            || totp_key(t.secret@) is None)) || (e is Time && valid_totp_params(
                            t.digits,
                            t.period,
                        ) && totp_key(t.secret@) is Some),
                    },
                    _ => r matches Err(e) && e is InvalidTotpSecret,
                },
            },
    {
        let entry = self.get(data, name)?;
        match entry.kind {
            SecretKind::Totp(totp) => generate_code(totp.secret.as_str(), totp.digits, totp.period),
            _ => Err(SecretHubError::InvalidTotpSecret),
        }
    }

    /// Removes the session file: the vault locks again in password mode.
    pub fn logout(&self, effects: &mut Vec<FileEffect>) -> (r: HubResult<()>)
        ensures
            r is Ok,
            final(effects)@ == old(effects)@.push(FileEffect::ClearSession),
    {
        clear_session(effects);
        Ok(())
    }
}

// ---------------------------------------------------------------------------
// Laws
// ---------------------------------------------------------------------------

/// A password-mode vault file whose key the password unwraps logs in with
/// that password and gives that key.
pub proof fn law_login_gives_wrapped_key(files: VaultFiles, password: Seq<char>, key: Seq<u8>)
    requires
        files.vault matches Stored::Present(vf) && password_unlocks(vf, password, key),
    ensures
        login_spec(files, password) == Ok::<_, SecretHubError>(key),
{
}

/// In password mode, a session that holds a key and has not expired unlocks
/// the vault with that key.
pub proof fn law_session_unlocks(
    files: VaultFiles,
    key: Seq<u8>,
    expires_at: Timestamp,
    now: Timestamp,
)
    requires
        files.vault matches Stored::Present(vf) && vf.auth is Password,
        files.session matches Stored::Present(s) && session_holds(s, key, expires_at),
        !time_le(expires_at, now),
    ensures
        unlock_spec(files, now) == Ok::<_, SecretHubError>(key),
        !unlock_clears(files, now),
{
}

/// In password mode, without a session the vault stays locked:
/// `LoginRequired`.
pub proof fn law_no_session_locked(files: VaultFiles, now: Timestamp)
    requires
        files.vault matches Stored::Present(vf) && vf.auth is Password,
        files.session is Absent,
    ensures
        unlock_spec(files, now) == Err::<Seq<u8>, _>(SecretHubError::LoginRequired),
{
}

/// In no-password mode, a key file whose key unwraps the vault key unlocks
/// the vault with it, at any time.
pub proof fn law_key_file_unlocks(files: VaultFiles, text: String, key: Seq<u8>, now: Timestamp)
    requires
        files.vault matches Stored::Present(vf) && key_file_unlocks(vf, text@, key),
        files.key_file == Ok::<String, SecretHubError>(text),
    ensures
        unlock_spec(files, now) == Ok::<_, SecretHubError>(key),
{
}

/// What creating a vault writes opens again: with the files it wrote, the
/// vault unlocks (with the password through `login`, or through the key
/// file) to a key under which the data is the JSON text it was given.
pub proof fn law_init_reopens(
    paths: HubPaths,
    password: Option<Seq<char>>,
    minutes: i64,
    json: Seq<u8>,
    now: Timestamp,
    before: Seq<FileEffect>,
    after: Seq<FileEffect>,
    files: VaultFiles,
    later: Timestamp,
)
    requires
        init_effects(paths, password, minutes, json, now, before, after),
        password is Some ==> files.vault == Stored::Present(after[before.len() as int]->WriteVault_0),
        password is None ==> files.vault == Stored::Present(after[before.len() as int + 1]->WriteVault_0)
            && files.key_file == Ok::<String, SecretHubError>(after[before.len() as int]->WriteKeyFile_0),
    ensures
        exists|key: Seq<u8>|
            #![trigger key.len()]
            key.len() == 32 && data_holds(files.vault->Present_0, key, json) && match password {
                Some(pw) => login_spec(files, pw) == Ok::<_, SecretHubError>(key),
                None => unlock_spec(files, later) == Ok::<_, SecretHubError>(key),
            },
{
    match password {
        Some(pw) => {
            let vf = after[before.len() as int]->WriteVault_0;
            let key = choose|key: Seq<u8>|
                #![trigger data_holds(vf, key, json)]
                {
                    &&& data_holds(vf, key, json)
                    &&& key.len() == 32
                    &&& password_unlocks(vf, pw, key)
                    &&& minutes > 0 ==> (after.last() matches FileEffect::WriteSession(s)
                        && session_written(s, key, after_minutes(now, minutes)))
                };
            assert(key.len() == 32);
        },
        None => {
            let vf = after[before.len() as int + 1]->WriteVault_0;
            let text = after[before.len() as int]->WriteKeyFile_0;
            let key = choose|key: Seq<u8>|
                #![trigger data_holds(vf, key, json)]
                {
                    &&& data_holds(vf, key, json)
                    &&& key.len() == 32
                    &&& key_file_unlocks(vf, text@, key)
                };
            assert(key.len() == 32);
        },
    }
}

/// Logging out locks a password-mode vault: with the session file removed
/// (the effect that `logout` gives), the vault no longer unlocks without the
/// password, so `status` reports it not logged in; removing the session
/// again changes nothing.
pub proof fn law_logout_locks(files: VaultFiles, now: Timestamp)
    requires
        files.vault matches Stored::Present(vf) && vf.auth is Password,
    ensures
        unlock_spec(session_cleared(files), now) == Err::<Seq<u8>, _>(SecretHubError::LoginRequired),
        !unlock_clears(session_cleared(files), now),
        session_cleared(session_cleared(files)) == session_cleared(files),
{
}

/// Adding an entry under a name that no entry had makes `get` of that name
/// find it: the first entry named so is the added one, at the end.
pub proof fn law_get_finds_added(
    before: Seq<SecretEntry>,
    after: Seq<SecretEntry>,
    added: SecretEntry,
)
    requires
        after.len() == before.len() + 1,
        after.take(before.len() as int) == before,
        entry_copy(after.last(), added),
        find_entry_from(before, added.name@, 0) is None,
    ensures
        find_entry_from(after, added.name@, 0) == Some(before.len() as int),
        entry_copy(after[before.len() as int], added),
{
    lemma_find_entry_from(before, added.name@, 0);
    assert forall|k: int| 0 <= k < before.len() implies !entry_named(
        #[trigger] after[k],
        added.name@,
    ) by {
        assert(after.take(before.len() as int)[k] == after[k]);
    }
    lemma_find_entry_at(after, added.name@, 0, before.len() as int);
}

proof fn lemma_find_entry_at(entries: Seq<SecretEntry>, name: Seq<char>, i: int, j: int)
    requires
        0 <= i <= j < entries.len(),
        entry_named(entries[j], name),
        forall|k: int| i <= k < j ==> !entry_named(#[trigger] entries[k], name),
    ensures
        find_entry_from(entries, name, i) == Some(j),
    decreases j - i,
{
    if i < j {
        lemma_find_entry_at(entries, name, i + 1, j);
    }
}

/// Listing without a kind gives every entry, in order.
pub proof fn law_list_all(entries: Seq<SecretEntry>)
    ensures
        list_spec(entries, None) == entries,
    decreases entries.len(),
{
    if entries.len() > 0 {
        law_list_all(entries.drop_first());
        assert(seq![entries[0]] + entries.drop_first() =~= entries);
    }
}

/// Listing a kind gives only entries of that kind.
pub proof fn law_list_kind(entries: Seq<SecretEntry>, kind: Seq<char>)
    ensures
        forall|i: int|
            0 <= i < list_spec(entries, Some(kind)).len() ==> kind_label(
                #[trigger] list_spec(entries, Some(kind))[i].kind,
            ) == kind,
    decreases entries.len(),
{
    if entries.len() > 0 {
        law_list_kind(entries.drop_first(), kind);
        let rest = list_spec(entries.drop_first(), Some(kind));
        assert forall|i: int|
            0 <= i < list_spec(entries, Some(kind)).len() implies kind_label(
            #[trigger] list_spec(entries, Some(kind))[i].kind,
        ) == kind by {
            if kind_label(entries[0].kind) == kind && i > 0 {
                assert(list_spec(entries, Some(kind))[i] == rest[i - 1]);
            }
        }
    }
}

} // verus!

verus! {

/// Listing a kind is complete and exact: it gives every entry whose kind has
/// that label, and no other, in their order in the vault.
pub proof fn law_list_kind_complete(entries: Seq<SecretEntry>, kind: Seq<char>)
    ensures
        list_spec(entries, Some(kind)) == entries.filter(
            |e: SecretEntry| kind_label(e.kind) == kind,
        ),
    decreases entries.len(),
{
    let pred = |e: SecretEntry| kind_label(e.kind) == kind;
    reveal(Seq::filter);
    if entries.len() == 0 {
        assert(entries.filter(pred) =~= Seq::<SecretEntry>::empty());
    } else {
        law_list_kind_complete(entries.drop_first(), kind);
        let head = seq![entries[0]];
        assert(entries =~= head + entries.drop_first());
        Seq::filter_distributes_over_add(head, entries.drop_first(), pred);
        assert(head.drop_last() =~= Seq::<SecretEntry>::empty());
        assert(head.drop_last().filter(pred) =~= Seq::<SecretEntry>::empty());
        if pred(entries[0]) {
            assert(head.filter(pred) =~= head);
        } else {
            assert(head.filter(pred) =~= Seq::<SecretEntry>::empty());
        }
    }
}

/// Finding by name matches exactly: the entry found is named `name` or has
/// `name` as the text of its id, every entry before it has neither, and when
/// none is found no entry has that name or id.
pub proof fn law_find_matches_exactly(entries: Seq<SecretEntry>, name: Seq<char>)
    ensures
        match find_entry_from(entries, name, 0) {
            Some(i) => {
                &&& 0 <= i < entries.len()
                &&& (entries[i].name@ == name || uuid_text(entries[i].id) == name)
                &&& forall|j: int|
                    0 <= j < i ==> #[trigger] entries[j].name@ != name && uuid_text(entries[j].id)
                        != name
            },
            None => forall|j: int|
                0 <= j < entries.len() ==> #[trigger] entries[j].name@ != name && uuid_text(
                    entries[j].id,
                ) != name,
        },
{
    lemma_find_entry_from(entries, name, 0);
    match find_entry_from(entries, name, 0) {
        Some(i) => {
            assert forall|j: int| 0 <= j < i implies #[trigger] entries[j].name@ != name
                && uuid_text(entries[j].id) != name by {
                assert(!entry_named(entries[j], name));
            }
        },
        None => {
            assert forall|j: int| 0 <= j < entries.len() implies #[trigger] entries[j].name@
                != name && uuid_text(entries[j].id) != name by {
                assert(!entry_named(entries[j], name));
            }
        },
    }
}

/// A login session lasts the minutes asked for, and one minute when fewer
/// than one are asked for.
pub proof fn law_login_minutes(minutes: i64)
    ensures
        minutes >= 1 ==> login_minutes(minutes) == minutes,
        minutes < 1 ==> login_minutes(minutes) == 1,
        login_minutes(minutes) >= 1,
{
}

/// A session of `minutes` minutes that fits chrono's range ends exactly
/// `minutes * 60` seconds after it starts, to the nanosecond.
pub proof fn law_session_length(now: Timestamp, minutes: i64)
    requires
        clock_time(now),
        minutes >= 0,
        expiry_fits(now, minutes),
    ensures
        after_minutes(now, minutes).total_nanos() == now.total_nanos() + minutes * 60_000_000_000,
        clock_time(after_minutes(now, minutes)),
{
    let e = after_minutes(now, minutes);
    assert(e.secs == now.secs + minutes * 60);
    assert(e.secs * 1_000_000_000 == now.secs * 1_000_000_000 + minutes * 60_000_000_000)
        by (nonlinear_arith)
        requires
            e.secs == now.secs + minutes * 60,
    ;
}

} // verus!
