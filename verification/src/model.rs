//! The vault's data model: secret entries of five kinds and the `.env`
//! profiles, with the vault data that holds them.
use vstd::prelude::*;
use crate::crypto::fill_random;
use crate::error::{HubResult, SecretHubError};
use chrono::DateTime;
use std::time::{SystemTime, UNIX_EPOCH};
use uuid::{Builder, Uuid};

verus! {

// ---------------------------------------------------------------------------
// Outside functions
// ---------------------------------------------------------------------------

/// The lowercase hexadecimal digit of `n`, below 16.
pub open spec fn hex_digit(n: int) -> char {
    if n < 10 {
        (48 + n) as char
    } else {
        (87 + n) as char
    }
}

/// The `j`-th of the 32 hexadecimal digits of `id`, most significant first.
pub open spec fn uuid_nibble(id: u128, j: int) -> int {
    (id as int / vstd::arithmetic::power2::pow2((4 * (31 - j)) as nat) as int) % 16
}

/// How many hyphens come before position `i` of a UUID's text.
pub open spec fn hyphens_before(i: int) -> int {
    if i < 9 {
        0
    } else if i < 14 {
        1
    } else if i < 19 {
        2
    } else if i < 24 {
        3
    } else {
        4
    }
}

/// The hyphenated lowercase text of the UUID with the bits `id`, as
/// `Uuid::to_string` writes it: its 32 hexadecimal digits, most significant
/// first, with a hyphen after the 8th, 12th, 16th and 20th.
pub open spec fn uuid_text(id: u128) -> Seq<char> {
    Seq::new(
        36,
        |i: int|
            if i == 8 || i == 13 || i == 18 || i == 23 {
                '-'
            } else {
                hex_digit(uuid_nibble(id, i - hyphens_before(i)))
            },
    )
}

/// Whether `t` is a time that `chrono::Utc::now` can return: at or after the
/// Unix epoch, before the end of chrono's range, with a nanosecond part below
/// one second.
pub open spec fn clock_time(t: Timestamp) -> bool {
    0 <= t.secs <= MAX_CLOCK_SECS && t.nanos < 1_000_000_000
}

/// The seconds of chrono's latest `DateTime<Utc>`, `DateTime::MAX_UTC`
/// (the last second of the year 262142).
pub const MAX_CLOCK_SECS: i64 = 8_210_266_876_799;

/// Reads the machine's clock as `chrono::Utc::now` does, through
/// `SystemTime::now().duration_since(UNIX_EPOCH)` and
/// `DateTime::from_timestamp`, and takes the seconds and nanoseconds of the
/// `DateTime`. Where `Utc::now` panics (a clock set before the Unix epoch, or
/// past chrono's range) the result is `None`. The contract claims only the
/// range of a result: `from_timestamp` gives `Some` only within
/// `DateTime::MIN_UTC..=DateTime::MAX_UTC`, the seconds it is given are not
/// negative, and the nanoseconds come from a `Duration`, below one second.
#[verifier::external_body]
pub(crate) fn utc_now() -> (t: Option<Timestamp>)
    ensures
        t matches Some(now) ==> clock_time(now),
{
    let elapsed = SystemTime::now().duration_since(UNIX_EPOCH).ok()?;
    let secs = i64::try_from(elapsed.as_secs()).ok()?;
    let now = DateTime::from_timestamp(secs, elapsed.subsec_nanos())?;
    Some(Timestamp { secs: now.timestamp(), nanos: now.timestamp_subsec_nanos() })
}

/// The time now when `needed`, else the Unix epoch, which serves wherever
/// the time makes no difference; `None` when the clock is needed and cannot
/// be read.
pub(crate) fn clock_if(needed: bool) -> (r: Option<Timestamp>)
    ensures
        r matches Some(t) ==> clock_time(t),
        !needed ==> r == Some(Timestamp { secs: 0, nanos: 0 }),
{
    if needed {
        utc_now()
    } else {
        Some(Timestamp { secs: 0, nanos: 0 })
    }
}

/// The number that the bytes `b` stand for, read big-endian.
pub open spec fn be_value(b: Seq<u8>) -> nat
    decreases b.len(),
{
    if b.len() == 0 {
        0
    } else {
        be_value(b.drop_last()) * 256 + b.last() as nat
    }
}

/// The bits of the version 4 UUID that `uuid::Builder::from_random_bytes`
/// makes of 16 random bytes: the high nibble of byte 6 set to the version
/// (4), the two high bits of byte 8 set to the RFC 4122 variant (`10`), and
/// the bytes read big-endian, as `Uuid::as_u128` reads them.
pub open spec fn uuid_v4_bits(bytes: Seq<u8>) -> nat {
    be_value(bytes.update(6, (bytes[6] & 0x0f) | 0x40).update(8, (bytes[8] & 0x3f) | 0x80))
}

/// Whether `id` is the bits of a version 4 UUID made of 16 random bytes.
pub open spec fn random_v4_id(id: u128) -> bool {
    exists|b: Seq<u8>| #![trigger uuid_v4_bits(b)] b.len() == 16 && id == uuid_v4_bits(b)
}

/// Calls `uuid::Builder::from_random_bytes(bytes).into_uuid().as_u128()`. The
/// contract claims that the result is `uuid_v4_bits` of the bytes, which is
/// what `from_random_bytes`, `with_variant`, `with_version` and `as_u128`
/// compute in the crate's source.
#[verifier::external_body]
fn uuid_from_random(bytes: [u8; 16]) -> (id: u128)
    ensures
        id == uuid_v4_bits(bytes@),
{
    Builder::from_random_bytes(bytes).into_uuid().as_u128()
}

/// Calls `Uuid::from_u128(id).to_string()`. The contract claims that the
/// result is `uuid_text` of `id`: `Display` for `Uuid` writes the hyphenated
/// lowercase form (`format_hyphenated` with lowercase digits in the crate's
/// `fmt.rs`).
#[verifier::external_body]
pub(crate) fn uuid_string(id: u128) -> (s: String)
    ensures
        s@ == uuid_text(id),
{
    Uuid::from_u128(id).to_string()
}

/// A point in time: seconds since the Unix epoch and the nanoseconds within
/// that second.
#[derive(Debug, Clone, Copy, PartialEq, Eq, Structural)]
pub struct Timestamp {
    pub secs: i64,
    pub nanos: u32,
}

impl Timestamp {
    /// The instant as a number of nanoseconds since the epoch.
    pub open spec fn total_nanos(self) -> int {
        self.secs * 1_000_000_000 + self.nanos
    }

    /// Whether `self` is at or before `other`.
    pub fn at_or_before(&self, other: &Timestamp) -> (r: bool)
        ensures
            r == (self.secs < other.secs || (self.secs == other.secs && self.nanos <= other.nanos)),
    {
        self.secs < other.secs || (self.secs == other.secs && self.nanos <= other.nanos)
    }
}

/// The decrypted content of a vault.
#[derive(Debug, Clone)]
pub struct VaultData {
    pub version: u32,
    pub created_at: Timestamp,
    pub updated_at: Timestamp,
    pub entries: Vec<SecretEntry>,
}

impl VaultData {
    /// An empty vault data of version 1, created and updated at `now`.
    pub fn new_at(now: Timestamp) -> (r: Self)
        ensures
            r.version == 1,
            r.created_at == now,
            r.updated_at == now,
            r.entries@.len() == 0,
    {
        VaultData { version: 1, created_at: now, updated_at: now, entries: Vec::new() }
    }

    /// An empty vault data of version 1, created and updated now (see
    /// `new_at`); `Time` when the clock cannot be read.
    pub fn new() -> (r: HubResult<Self>)
        ensures
            match r {
                Ok(d) => d.version == 1 && clock_time(d.created_at) && d.updated_at
                    == d.created_at && d.entries@.len() == 0,
                Err(e) => e is Time,
            },
    {
        match utc_now() {
            Some(now) => Ok(VaultData::new_at(now)),
            None => Err(SecretHubError::Time),
        }
    }

    /// Marks the data as updated at `now`.
    pub fn touch_at(&mut self, now: Timestamp)
        ensures
            final(self).updated_at == now,
            final(self).version == old(self).version,
            final(self).created_at == old(self).created_at,
            final(self).entries == old(self).entries,
    {
        self.updated_at = now;
    }

    /// Marks the data as updated now (see `touch_at`); `Time`, and no
    /// change, when the clock cannot be read.
    pub fn touch(&mut self) -> (r: HubResult<()>)
        ensures
            match r {
                Ok(()) => clock_time(final(self).updated_at),
                Err(e) => e is Time && final(self).updated_at == old(self).updated_at,
            },
            final(self).version == old(self).version,
            final(self).created_at == old(self).created_at,
            final(self).entries == old(self).entries,
    {
        match utc_now() {
            Some(now) => {
                self.touch_at(now);
                Ok(())
            },
            None => Err(SecretHubError::Time),
        }
    }
}

/// One stored secret with its metadata.
#[derive(Debug, Clone)]
pub struct SecretEntry {
    pub id: u128,
    pub name: String,
    pub tags: Vec<String>,
    pub notes: Option<String>,
    pub created_at: Timestamp,
    pub updated_at: Timestamp,
    pub kind: SecretKind,
}

impl SecretEntry {
    /// A new entry with the version 4 UUID made of the 16 random bytes
    /// `random`, created and updated at `now`.
    pub fn new_at(
        name: String,
        tags: Vec<String>,
        notes: Option<String>,
        kind: SecretKind,
        now: Timestamp,
        random: [u8; 16],
    ) -> (r: Self)
        ensures
            r.id == uuid_v4_bits(random@),
            r.name == name,
            r.tags == tags,
            r.notes == notes,
            r.kind == kind,
            r.created_at == now,
            r.updated_at == now,
    {
        SecretEntry {
            id: uuid_from_random(random),
            name,
            tags,
            notes,
            created_at: now,
            updated_at: now,
            kind,
        }
    }

    /// A new entry with a random version 4 UUID, created and updated now (see
    /// `new_at`). Fails with `Time` when the clock cannot be read and with
    /// `Crypto` when the random source fails.
    pub fn new(name: String, tags: Vec<String>, notes: Option<String>, kind: SecretKind) -> (r:
        HubResult<Self>)
        ensures
            match r {
                Ok(e) => {
                    &&& e.name == name
                    &&& e.tags == tags
                    &&& e.notes == notes
                    &&& e.kind == kind
                    &&& clock_time(e.created_at)
                    &&& e.updated_at == e.created_at
                    &&& random_v4_id(e.id)
                },
                Err(e) => e is Time || e is Crypto,
            },
    {
        let now = match utc_now() {
            Some(now) => now,
            None => return Err(SecretHubError::Time),
        };
        let mut random = [0u8; 16];
        if !fill_random(&mut random) {
            return Err(SecretHubError::Crypto);
        }
        let entry = SecretEntry::new_at(name, tags, notes, kind, now, random);
        assert(uuid_v4_bits(random@) == entry.id);
        Ok(entry)
    }
}

/// The five kinds of secret.
#[derive(Debug, Clone)]
pub enum SecretKind {
    Totp(TotpEntry),
    ApiKey(ApiKeyEntry),
    Password(PasswordEntry),
    Token(TokenEntry),
    Env(EnvProfile),
}

/// The label of a kind: `totp`, `api-key`, `password`, `token` or `env`.
pub open spec fn kind_label(kind: SecretKind) -> Seq<char> {
    match kind {
        SecretKind::Totp(_) => seq!['t', 'o', 't', 'p'],
        SecretKind::ApiKey(_) => seq!['a', 'p', 'i', '-', 'k', 'e', 'y'],
        SecretKind::Password(_) => seq!['p', 'a', 's', 's', 'w', 'o', 'r', 'd'],
        SecretKind::Token(_) => seq!['t', 'o', 'k', 'e', 'n'],
        SecretKind::Env(_) => seq!['e', 'n', 'v'],
    }
}

impl SecretKind {
    /// The kind's label.
    pub fn label(&self) -> (r: &'static str)
        ensures
            r@ == kind_label(*self),
    {
        match self {
            SecretKind::Totp(_) => {
                proof {
                    reveal_strlit("totp");
                }
                "totp"
            },
            SecretKind::ApiKey(_) => {
                proof {
                    reveal_strlit("api-key");
                }
                "api-key"
            },
            SecretKind::Password(_) => {
                proof {
                    reveal_strlit("password");
                }
                "password"
            },
            SecretKind::Token(_) => {
                proof {
                    reveal_strlit("token");
                }
                "token"
            },
            SecretKind::Env(_) => {
                proof {
                    reveal_strlit("env");
                }
                "env"
            },
        }
    }
}

/// A time-based one-time password seed and its parameters.
#[derive(Debug, Clone)]
pub struct TotpEntry {
    pub issuer: Option<String>,
    pub account: Option<String>,
    pub secret: String,
    pub digits: u32,
    pub period: u64,
}

/// An API key.
#[derive(Debug, Clone)]
pub struct ApiKeyEntry {
    pub provider: Option<String>,
    pub key: String,
    pub scopes: Vec<String>,
    pub expires_at: Option<Timestamp>,
}

/// An account password.
#[derive(Debug, Clone)]
pub struct PasswordEntry {
    pub username: Option<String>,
    pub password: String,
    pub url: Option<String>,
}

/// An access token.
#[derive(Debug, Clone)]
pub struct TokenEntry {
    pub service: Option<String>,
    pub token: String,
    pub expires_at: Option<Timestamp>,
}

/// The variables of one profile of a project.
#[derive(Debug, Clone)]
pub struct EnvProfile {
    pub project: String,
    pub profile: String,
    pub variables: Vec<EnvVariable>,
}

impl EnvProfile {
    /// A profile without variables.
    pub fn new(project: String, profile: String) -> (r: Self)
        ensures
            r.project == project,
            r.profile == profile,
            r.variables@.len() == 0,
    {
        EnvProfile { project, profile, variables: Vec::new() }
    }
}

/// One variable of a profile.
#[derive(Debug, Clone)]
pub struct EnvVariable {
    pub key: String,
    pub value: EnvValue,
}

impl EnvVariable {
    /// Whether this variable is `key` bound to the literal `value`.
    pub open spec fn is_literal(self, key: Seq<char>, value: Seq<char>) -> bool {
        &&& self.key@ == key
        &&& self.value matches EnvValue::Literal { value: v } && v@ == value
    }
}

/// The value of a variable: a literal, or a reference to a stored API key
/// or token.
#[derive(Debug, Clone)]
pub enum EnvValue {
    Literal { value: String },
    SecretRef { kind: EnvSecretRefKind, name: String },
}

impl EnvValue {
    /// A literal value.
    pub fn literal(value: String) -> (r: Self)
        ensures
            r == (EnvValue::Literal { value }),
    {
        EnvValue::Literal { value }
    }
}

/// The kinds of secret that a variable may refer to.
#[derive(Debug, Clone, Copy, PartialEq, Eq, Structural)]
pub enum EnvSecretRefKind {
    ApiKey,
    Token,
}

/// The label of a reference kind: `api-key` or `token`.
pub open spec fn ref_kind_label(kind: EnvSecretRefKind) -> Seq<char> {
    match kind {
        EnvSecretRefKind::ApiKey => seq!['a', 'p', 'i', '-', 'k', 'e', 'y'],
        EnvSecretRefKind::Token => seq!['t', 'o', 'k', 'e', 'n'],
    }
}

impl EnvSecretRefKind {
    /// The reference kind's label.
    pub fn label(self) -> (r: &'static str)
        ensures
            r@ == ref_kind_label(self),
    {
        match self {
            EnvSecretRefKind::ApiKey => {
                proof {
                    reveal_strlit("api-key");
                }
                "api-key"
            },
            EnvSecretRefKind::Token => {
                proof {
                    reveal_strlit("token");
                }
                "token"
            },
        }
    }
}

/// How the vault key is unwrapped: by a key file, or by a key derived from
/// the login password with the given salt.
#[derive(Debug, Clone)]
pub enum AuthMode {
    NoPassword { key_file: String },
    Password { salt: String },
}

// ---------------------------------------------------------------------------
// Copies
// ---------------------------------------------------------------------------

/// Whether `a` and `b` are the same kind of secret with the same content.
pub open spec fn kind_copy(a: SecretKind, b: SecretKind) -> bool {
    match (a, b) {
        (SecretKind::Totp(x), SecretKind::Totp(y)) => x == y,
        (SecretKind::ApiKey(x), SecretKind::ApiKey(y)) => {
            &&& x.provider == y.provider
            &&& x.key == y.key
            &&& x.scopes@ == y.scopes@
            &&& x.expires_at == y.expires_at
        },
        (SecretKind::Password(x), SecretKind::Password(y)) => x == y,
        (SecretKind::Token(x), SecretKind::Token(y)) => x == y,
        (SecretKind::Env(x), SecretKind::Env(y)) => {
            &&& x.project == y.project
            &&& x.profile == y.profile
            &&& x.variables@ == y.variables@
        },
        _ => false,
    }
}

/// Whether `a` and `b` are entries with the same content.
pub open spec fn entry_copy(a: SecretEntry, b: SecretEntry) -> bool {
    &&& a.id == b.id
    &&& a.name == b.name
    &&& a.tags@ == b.tags@
    &&& a.notes == b.notes
    &&& a.created_at == b.created_at
    &&& a.updated_at == b.updated_at
    &&& kind_copy(a.kind, b.kind)
}

/// A copy of an optional string.
pub fn copy_opt_string(s: &Option<String>) -> (r: Option<String>)
    ensures
        r == *s,
{
    match s {
        Some(t) => Some(t.clone()),
        None => None,
    }
}

/// A copy of a list of strings.
pub fn copy_strings(v: &Vec<String>) -> (r: Vec<String>)
    ensures
        r@ == v@,
{
    let mut r: Vec<String> = Vec::new();
    let mut i: usize = 0;
    while i < v.len()
        invariant
            i <= v.len(),
            r@ == v@.take(i as int),
        decreases v.len() - i,
    {
        r.push(v[i].clone());
        i = i + 1;
        assert(r@ =~= v@.take(i as int));
    }
    assert(v@.take(v.len() as int) =~= v@);
    r
}

impl EnvValue {
    /// A copy of the value.
    pub fn duplicate(&self) -> (r: Self)
        ensures
            r == *self,
    {
        match self {
            EnvValue::Literal { value } => EnvValue::Literal { value: value.clone() },
            EnvValue::SecretRef { kind, name } => EnvValue::SecretRef { kind: *kind, name: name.clone() },
        }
    }
}

impl EnvVariable {
    /// A copy of the variable.
    pub fn duplicate(&self) -> (r: Self)
        ensures
            r == *self,
    {
        EnvVariable { key: self.key.clone(), value: self.value.duplicate() }
    }
}

impl SecretKind {
    /// A copy of the kind and its content.
    pub fn duplicate(&self) -> (r: Self)
        ensures
            kind_copy(r, *self),
    {
        match self {
            SecretKind::Totp(t) => SecretKind::Totp(
                TotpEntry {
                    issuer: copy_opt_string(&t.issuer),
                    account: copy_opt_string(&t.account),
                    secret: t.secret.clone(),
                    digits: t.digits,
                    period: t.period,
                },
            ),
            SecretKind::ApiKey(a) => SecretKind::ApiKey(
                ApiKeyEntry {
                    provider: copy_opt_string(&a.provider),
                    key: a.key.clone(),
                    scopes: copy_strings(&a.scopes),
                    expires_at: a.expires_at,
                },
            ),
            SecretKind::Password(p) => SecretKind::Password(
                PasswordEntry {
                    username: copy_opt_string(&p.username),
                    password: p.password.clone(),
                    url: copy_opt_string(&p.url),
                },
            ),
            SecretKind::Token(t) => SecretKind::Token(
                TokenEntry {
                    service: copy_opt_string(&t.service),
                    token: t.token.clone(),
                    expires_at: t.expires_at,
                },
            ),
            SecretKind::Env(e) => {
                let mut variables: Vec<EnvVariable> = Vec::new();
                let mut i: usize = 0;
                while i < e.variables.len()
                    invariant
                        i <= e.variables.len(),
                        variables@ == e.variables@.take(i as int),
                    decreases e.variables.len() - i,
                {
                    variables.push(e.variables[i].duplicate());
                    i = i + 1;
                    assert(variables@ =~= e.variables@.take(i as int));
                }
                assert(e.variables@.take(e.variables.len() as int) =~= e.variables@);
                SecretKind::Env(
                    EnvProfile {
                        project: e.project.clone(),
                        profile: e.profile.clone(),
                        variables,
                    },
                )
            },
        }
    }
}

impl SecretEntry {
    /// A copy of the entry.
    pub fn duplicate(&self) -> (r: Self)
        ensures
            entry_copy(r, *self),
    {
        SecretEntry {
            id: self.id,
            name: self.name.clone(),
            tags: copy_strings(&self.tags),
            notes: copy_opt_string(&self.notes),
            created_at: self.created_at,
            updated_at: self.updated_at,
            kind: self.kind.duplicate(),
        }
    }
}

} // verus!
