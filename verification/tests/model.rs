use secret_hub_core::interface::{
    new_secret_from_request, parse_env_ref_kind, required, reveal_value, AddSecretRequest, EntryKind,
};
use secret_hub_core::NewSecret;
use secret_hub_core::{EnvProfile, EnvSecretRefKind, EnvValue, PasswordEntry, SecretKind, TokenEntry};

#[test]
fn kind_labels() {
    let token = SecretKind::Token(TokenEntry { service: None, token: "t".into(), expires_at: None });
    assert_eq!(token.label(), "token");
    let pw = SecretKind::Password(PasswordEntry { username: None, password: "p".into(), url: None });
    assert_eq!(pw.label(), "password");
    let env = SecretKind::Env(EnvProfile::new("proj".into(), "dev".into()));
    assert_eq!(env.label(), "env");
    assert_eq!(EnvSecretRefKind::ApiKey.label(), "api-key");
    assert_eq!(EnvSecretRefKind::Token.label(), "token");
    assert_eq!(EntryKind::ApiKey.as_str(), "api-key");
    assert_eq!(EntryKind::Totp.as_str(), "totp");
}

#[test]
fn env_profile_and_literal() {
    let p = EnvProfile::new("proj".into(), "dev".into());
    assert_eq!(p.project, "proj");
    assert_eq!(p.profile, "dev");
    assert!(p.variables.is_empty());
    assert!(matches!(EnvValue::literal("v".into()), EnvValue::Literal { value } if value == "v"));
}

#[test]
fn reveal_masks_unless_asked() {
    assert_eq!(reveal_value("secret", true), "secret");
    assert_eq!(reveal_value("secret", false), "********");
    assert_eq!(reveal_value("", false), "");
}

#[test]
fn required_fields_and_ref_kinds() {
    assert_eq!(required(Some("x".into()), "key").unwrap(), "x");
    assert_eq!(required(Some(String::new()), "key").unwrap_err(), "key is required");
    assert_eq!(required(None, "secret").unwrap_err(), "secret is required");
    assert_eq!(parse_env_ref_kind("api-key").unwrap(), EnvSecretRefKind::ApiKey);
    assert_eq!(parse_env_ref_kind("token").unwrap(), EnvSecretRefKind::Token);
    assert_eq!(parse_env_ref_kind("x").unwrap_err(), "unsupported env reference type: x");
}

fn request(kind: &str) -> AddSecretRequest {
    AddSecretRequest {
        kind: kind.into(),
        name: "n".into(),
        issuer: None,
        account: None,
        secret: None,
        digits: None,
        period: None,
        provider: None,
        key: None,
        scopes: None,
        username: None,
        password: None,
        url: None,
        service: None,
        token: None,
        tags: None,
        notes: None,
    }
}

#[test]
fn totp_requests_get_default_digits_and_period() {
    let mut req = request("totp");
    req.secret = Some("JBSWY3DP".into());
    req.tags = Some(vec!["a".into()]);
    match new_secret_from_request(req).unwrap() {
        NewSecret::Totp { name, secret, digits, period, tags, .. } => {
            assert_eq!((name.as_str(), secret.as_str(), digits, period), ("n", "JBSWY3DP", 6, 30));
            assert_eq!(tags, vec!["a".to_string()]);
        }
        _ => panic!("expected a TOTP secret"),
    }
    let mut req = request("totp");
    req.secret = Some("JBSWY3DP".into());
    req.digits = Some(8);
    req.period = Some(60);
    assert!(matches!(new_secret_from_request(req), Ok(NewSecret::Totp { digits: 8, period: 60, .. })));
}

#[test]
fn requests_need_their_required_field() {
    assert_eq!(new_secret_from_request(request("totp")).unwrap_err(), "secret is required");
    assert_eq!(new_secret_from_request(request("api-key")).unwrap_err(), "key is required");
    assert_eq!(new_secret_from_request(request("password")).unwrap_err(), "password is required");
    let mut req = request("token");
    req.token = Some(String::new());
    assert_eq!(new_secret_from_request(req).unwrap_err(), "token is required");
    assert_eq!(new_secret_from_request(request("env")).unwrap_err(), "key is required");
    let mut req = request("env");
    req.key = Some("API_URL".into());
    assert_eq!(new_secret_from_request(req).unwrap_err(), "value is required");
    assert_eq!(new_secret_from_request(request("x")).unwrap_err(), "unsupported secret type: x");
}

#[test]
fn requests_of_each_kind() {
    let mut req = request("api-key");
    req.key = Some("k".into());
    assert!(matches!(new_secret_from_request(req), Ok(NewSecret::ApiKey { key, scopes, .. }) if key == "k" && scopes.is_empty()));
    let mut req = request("password");
    req.password = Some("p".into());
    req.username = Some("u".into());
    assert!(matches!(new_secret_from_request(req), Ok(NewSecret::Password { password, username: Some(u), .. }) if password == "p" && u == "u"));
    let mut req = request("token");
    req.token = Some("t".into());
    assert!(matches!(new_secret_from_request(req), Ok(NewSecret::Token { token, .. }) if token == "t"));
}

#[test]
fn env_requests_make_a_profile_with_one_literal() {
    let mut req = request("env");
    req.name = "web".into();
    req.key = Some("API_URL".into());
    req.secret = Some("http://x".into());
    match new_secret_from_request(req).unwrap() {
        NewSecret::Env { project, profile, variables, tags, notes } => {
            assert_eq!((project.as_str(), profile.as_str()), ("web", "default"));
            assert_eq!(variables.len(), 1);
            assert_eq!(variables[0].key, "API_URL");
            assert!(matches!(&variables[0].value, EnvValue::Literal { value } if value == "http://x"));
            assert!(tags.is_empty() && notes.is_none());
        }
        _ => panic!("expected an env profile"),
    }
    let mut req = request("env");
    req.account = Some("dev".into());
    req.key = Some("K".into());
    req.secret = Some("v".into());
    assert!(matches!(new_secret_from_request(req), Ok(NewSecret::Env { profile, .. }) if profile == "dev"));
}
