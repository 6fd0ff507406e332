//! Small rules shared by the command-line and desktop front ends: masking
//! secret values, the kinds that can be listed, requests to add a secret and
//! their required fields, and the names of reference kinds.
use vstd::prelude::*;
use crate::model::{kind_label, ref_kind_label, EnvSecretRefKind, EnvValue, EnvVariable, SecretKind};
use crate::vault::NewSecret;
use crate::text::{append_chars, chars_eq, chars_string, str_chars};

verus! {

/// The mask shown in place of a hidden secret.
pub open spec fn mask() -> Seq<char> {
    seq!['*', '*', '*', '*', '*', '*', '*', '*']
}

/// How a secret value is shown: as is when revealed, empty when empty, else
/// masked with eight asterisks.
pub fn reveal_value(value: &str, reveal: bool) -> (r: String)
    ensures
        r@ == if reveal {
            value@
        } else if value@.len() == 0 {
            Seq::<char>::empty()
        } else {
            mask()
        },
{
    let chars = str_chars(value);
    if reveal {
        chars_string(&chars)
    } else if chars.len() == 0 {
        String::new()
    } else {
        let masked = vec!['*', '*', '*', '*', '*', '*', '*', '*'];
        proof {
            assert(masked@ =~= mask());
        }
        chars_string(&masked)
    }
}

/// The kinds of entry that can be listed.
#[derive(Debug, Clone, Copy, PartialEq, Eq, Structural)]
pub enum EntryKind {
    Totp,
    ApiKey,
    Password,
    Token,
    Env,
}

/// The label of a listable kind, the same as `kind_label` of that kind.
pub open spec fn entry_kind_label(k: EntryKind) -> Seq<char> {
    match k {
        EntryKind::Totp => seq!['t', 'o', 't', 'p'],
        EntryKind::ApiKey => seq!['a', 'p', 'i', '-', 'k', 'e', 'y'],
        EntryKind::Password => seq!['p', 'a', 's', 's', 'w', 'o', 'r', 'd'],
        EntryKind::Token => seq!['t', 'o', 'k', 'e', 'n'],
        EntryKind::Env => seq!['e', 'n', 'v'],
    }
}

impl EntryKind {
    /// The label of the kind.
    pub fn as_str(&self) -> (r: &'static str)
        ensures
            r@ == entry_kind_label(*self),
    {
        match self {
            EntryKind::Totp => {
                proof {
                    reveal_strlit("totp");
                }
                "totp"
            },
            EntryKind::ApiKey => {
                proof {
                    reveal_strlit("api-key");
                }
                "api-key"
            },
            EntryKind::Password => {
                proof {
                    reveal_strlit("password");
                }
                "password"
            },
            EntryKind::Token => {
                proof {
                    reveal_strlit("token");
                }
                "token"
            },
            EntryKind::Env => {
                proof {
                    reveal_strlit("env");
                }
                "env"
            },
        }
    }
}

/// The text `prefix` followed by `suffix`.
fn joined(prefix: &str, suffix: &str) -> (r: String)
    ensures
        r@ == prefix@ + suffix@,
{
    let mut out = str_chars(prefix);
    let tail = str_chars(suffix);
    append_chars(&mut out, &tail);
    chars_string(&out)
}

/// A request field that must be given and not empty; otherwise the message
/// `<field> is required`.
pub fn required(value: Option<String>, field: &str) -> (r: Result<String, String>)
    ensures
        match value {
            Some(v) if v@.len() > 0 => r == Ok::<String, String>(v),
            _ => r matches Err(m) && m@ == field@ + " is required"@,
        },
{
    match value {
        Some(v) if v.as_str().unicode_len() > 0 => Ok(v),
        _ => Err(joined(field, " is required")),
    }
}

/// A request to add a secret, as a front end collects it: the kind's label,
/// the name, and the fields of the kinds, each of them optional.
#[derive(Debug, Clone)]
pub struct AddSecretRequest {
    pub kind: String,
    pub name: String,
    pub issuer: Option<String>,
    pub account: Option<String>,
    pub secret: Option<String>,
    pub digits: Option<u32>,
    pub period: Option<u64>,
    pub provider: Option<String>,
    pub key: Option<String>,
    pub scopes: Option<Vec<String>>,
    pub username: Option<String>,
    pub password: Option<String>,
    pub url: Option<String>,
    pub service: Option<String>,
    pub token: Option<String>,
    pub tags: Option<Vec<String>>,
    pub notes: Option<String>,
}

/// The strings of an optional list, none when it is missing.
pub open spec fn strings_or_empty(v: Option<Vec<String>>) -> Seq<String> {
    match v {
        Some(v) => v@,
        None => seq![],
    }
}

/// Whether an optional request field is given and not empty.
pub open spec fn given(v: Option<String>) -> bool {
    v matches Some(s) && s@.len() > 0
}

/// Whether `r` is the error for the missing field `field`.
pub open spec fn missing_field(r: Result<NewSecret, String>, field: Seq<char>) -> bool {
    r matches Err(m) && m@ == field + " is required"@
}

/// What a request to add a secret asks for: a secret of the kind its label
/// names (`totp`, `api-key`, `password`, `token` or `env`), with 6 digits and
/// a period of 30 seconds unless the request gives others, and no tags or
/// scopes unless it gives some; for `env`, the profile of the project `name`
/// named by `account` (else `default`) with the one literal variable `key`
/// set to `secret`; or the message for the first missing required field; or
/// `unsupported secret type: <kind>`.
pub open spec fn request_spec(req: AddSecretRequest, r: Result<NewSecret, String>) -> bool {
    if req.kind@ == "totp"@ {
        if given(req.secret) {
            &&& r matches Ok(NewSecret::Totp { name, issuer, account, secret, digits, period, tags, notes })
            &&& name == req.name
            &&& issuer == req.issuer
            &&& account == req.account
            &&& secret == req.secret->0
            &&& digits == (if let Some(d) = req.digits { d } else { 6u32 })
            &&& period == (if let Some(p) = req.period { p } else { 30u64 })
            &&& tags@ == strings_or_empty(req.tags)
            &&& notes == req.notes
        } else {
            missing_field(r, "secret"@)
        }
    } else if req.kind@ == "api-key"@ {
        if given(req.key) {
            &&& r matches Ok(NewSecret::ApiKey { name, provider, key, scopes, tags, notes })
            &&& name == req.name
            &&& provider == req.provider
            &&& key == req.key->0
            &&& scopes@ == strings_or_empty(req.scopes)
            &&& tags@ == strings_or_empty(req.tags)
            &&& notes == req.notes
        } else {
            missing_field(r, "key"@)
        }
    } else if req.kind@ == "password"@ {
        if given(req.password) {
            &&& r matches Ok(NewSecret::Password { name, username, password, url, tags, notes })
            &&& name == req.name
            &&& username == req.username
            &&& password == req.password->0
            &&& url == req.url
            &&& tags@ == strings_or_empty(req.tags)
            &&& notes == req.notes
        } else {
            missing_field(r, "password"@)
        }
    } else if req.kind@ == "token"@ {
        if given(req.token) {
            &&& r matches Ok(NewSecret::Token { name, service, token, tags, notes })
            &&& name == req.name
            &&& service == req.service
            &&& token == req.token->0
            &&& tags@ == strings_or_empty(req.tags)
            &&& notes == req.notes
        } else {
            missing_field(r, "token"@)
        }
    } else if req.kind@ == "env"@ {
        if given(req.key) && given(req.secret) {
            &&& r matches Ok(NewSecret::Env { project, profile, variables, tags, notes })
            &&& project == req.name
            &&& profile@ == (if let Some(a) = req.account { a@ } else { "default"@ })
            &&& variables@.len() == 1
            &&& variables@[0].is_literal(req.key->0@, req.secret->0@)
            &&& tags@ == strings_or_empty(req.tags)
            &&& notes == req.notes
        } else if !given(req.key) {
            missing_field(r, "key"@)
        } else {
            missing_field(r, "value"@)
        }
    } else {
        r matches Err(m) && m@ == "unsupported secret type: "@ + req.kind@
    }
}

/// The strings of an optional list, or an empty list.
fn strings_or_new(v: Option<Vec<String>>) -> (r: Vec<String>)
    ensures
        r@ == strings_or_empty(v),
{
    match v {
        Some(v) => v,
        None => Vec::new(),
    }
}

/// The secret that a request to add one asks for (see `request_spec`).
pub fn new_secret_from_request(req: AddSecretRequest) -> (r: Result<NewSecret, String>)
    ensures
        request_spec(req, r),
{
    let AddSecretRequest {
        kind,
        name,
        issuer,
        account,
        secret,
        digits,
        period,
        provider,
        key,
        scopes,
        username,
        password,
        url,
        service,
        token,
        tags,
        notes,
    } = req;
    let tags = strings_or_new(tags);
    let label = str_chars(kind.as_str());
    if chars_eq(&label, &str_chars("totp")) {
        let secret = match required(secret, "secret") {
            Ok(s) => s,
            Err(m) => return Err(m),
        };
        let digits = match digits {
            Some(d) => d,
            None => 6,
        };
        let period = match period {
            Some(p) => p,
            None => 30,
        };
        Ok(NewSecret::Totp { name, issuer, account, secret, digits, period, tags, notes })
    } else if chars_eq(&label, &str_chars("api-key")) {
        let key = match required(key, "key") {
            Ok(k) => k,
            Err(m) => return Err(m),
        };
        let scopes = strings_or_new(scopes);
        Ok(NewSecret::ApiKey { name, provider, key, scopes, tags, notes })
    } else if chars_eq(&label, &str_chars("password")) {
        let password = match required(password, "password") {
            Ok(p) => p,
            Err(m) => return Err(m),
        };
        Ok(NewSecret::Password { name, username, password, url, tags, notes })
    } else if chars_eq(&label, &str_chars("token")) {
        let token = match required(token, "token") {
            Ok(t) => t,
            Err(m) => return Err(m),
        };
        Ok(NewSecret::Token { name, service, token, tags, notes })
    } else if chars_eq(&label, &str_chars("env")) {
        let profile = match account {
            Some(a) => a,
            None => {
                proof {
                    reveal_strlit("default");
                }
                String::from_str("default")
            },
        };
        let key = match required(key, "key") {
            Ok(k) => k,
            Err(m) => return Err(m),
        };
        let value = match required(secret, "value") {
            Ok(v) => v,
            Err(m) => return Err(m),
        };
        let variables = vec![EnvVariable { key, value: EnvValue::literal(value) }];
        Ok(NewSecret::Env { project: name, profile, variables, tags, notes })
    } else {
        Err(joined("unsupported secret type: ", kind.as_str()))
    }
}

/// The reference kind named `kind` (`api-key` or `token`); otherwise the
/// message `unsupported env reference type: <kind>`.
pub fn parse_env_ref_kind(kind: &str) -> (r: Result<EnvSecretRefKind, String>)
    ensures
        match r {
            Ok(k) => ref_kind_label(k) == kind@,
            Err(m) => kind@ != ref_kind_label(EnvSecretRefKind::ApiKey) && kind@ != ref_kind_label(
                EnvSecretRefKind::Token,
            ) && m@ == "unsupported env reference type: "@ + kind@,
        },
{
    let chars = str_chars(kind);
    let api = str_chars("api-key");
    let token = str_chars("token");
    proof {
        reveal_strlit("api-key");
        reveal_strlit("token");
        assert("api-key"@ =~= ref_kind_label(EnvSecretRefKind::ApiKey));
        assert("token"@ =~= ref_kind_label(EnvSecretRefKind::Token));
    }
    if chars_eq(&chars, &api) {
        Ok(EnvSecretRefKind::ApiKey)
    } else if chars_eq(&chars, &token) {
        Ok(EnvSecretRefKind::Token)
    } else {
        Err(joined("unsupported env reference type: ", kind))
    }
}

} // verus!
