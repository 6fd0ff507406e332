use secret_hub_core::paths::HubPaths;
use secret_hub_core::store::{FileEffect, SessionFile, Stored, VaultFile, VaultFiles};
use base64::engine::general_purpose::STANDARD;
use base64::Engine;
use secret_hub_core::crypto::{encode_key, salt_from_bytes};
use secret_hub_core::vault::{fixed_key, session_expiry, NewSecret, SecretHub};
use secret_hub_core::{AuthMode, SecretEntry, SecretHubError, SecretKind, Timestamp, VaultData};

fn hub() -> SecretHub {
    SecretHub::new(HubPaths {
        config_dir: "/tmp/hub".to_string(),
        vault_file: "/tmp/hub/vault.json".to_string(),
        key_file: "/tmp/hub/vault.key".to_string(),
        session_file: "/tmp/hub/session.json".to_string(),
    })
}

fn empty_files() -> VaultFiles {
    VaultFiles {
        vault: Stored::Absent,
        key_file: Err(SecretHubError::Io("not found".to_string())),
        session: Stored::Absent,
    }
}

/// Carries out the effects on an in-memory copy of the files.
fn apply(files: &mut VaultFiles, effects: Vec<FileEffect>) {
    for effect in effects {
        match effect {
            FileEffect::WriteVault(v) => files.vault = Stored::Present(v),
            FileEffect::WriteKeyFile(t) => files.key_file = Ok(t),
            FileEffect::DeleteKeyFile => files.key_file = Err(SecretHubError::Io("not found".into())),
            FileEffect::WriteSession(s) => files.session = Stored::Present(s),
            FileEffect::ClearSession => files.session = Stored::Absent,
        }
    }
}

fn vault_file(files: &VaultFiles) -> &VaultFile {
    match &files.vault {
        Stored::Present(v) => v,
        _ => panic!("no vault file"),
    }
}

#[test]
fn init_without_password_writes_key_file_then_vault() {
    let hub = hub();
    let mut files = empty_files();
    let mut effects = Vec::new();
    hub.init_no_password(&files, b"{\"entries\":[]}".to_vec(), &mut effects).unwrap();
    assert_eq!(effects.len(), 2);
    assert!(matches!(effects[0], FileEffect::WriteKeyFile(_)));
    assert!(matches!(effects[1], FileEffect::WriteVault(_)));
    apply(&mut files, effects);
    let vf = vault_file(&files);
    assert_eq!(vf.version, 1);
    assert!(matches!(&vf.auth, AuthMode::NoPassword { key_file } if key_file == "/tmp/hub/vault.key"));

    let mut effects = Vec::new();
    let (_, _, json) = hub.load_data(&files, &mut effects).unwrap();
    assert_eq!(json, b"{\"entries\":[]}".to_vec());
    assert!(effects.is_empty());

    let status = hub.status(&files, &mut effects).unwrap();
    assert!(status.initialized);
    assert_eq!(status.auth_mode, Some("no-password"));
    assert!(status.logged_in);
    assert_eq!(status.vault_file, "/tmp/hub/vault.json");
}

#[test]
fn init_twice_is_refused() {
    let hub = hub();
    let mut files = empty_files();
    let mut effects = Vec::new();
    hub.init_no_password(&files, b"{}".to_vec(), &mut effects).unwrap();
    apply(&mut files, effects);
    let mut effects = Vec::new();
    assert!(matches!(
        hub.init_with_password(&files, "pw", 30, b"{}".to_vec(), &mut effects),
        Err(SecretHubError::VaultAlreadyExists)
    ));
    assert!(effects.is_empty());
}

#[test]
fn password_vault_needs_a_session() {
    let hub = hub();
    let mut files = empty_files();
    let mut effects = Vec::new();
    hub.init_with_password(&files, "hunter2", 0, b"data".to_vec(), &mut effects).unwrap();
    assert_eq!(effects.len(), 1);
    apply(&mut files, effects);
    assert!(matches!(&vault_file(&files).auth, AuthMode::Password { .. }));

    let mut effects = Vec::new();
    assert!(matches!(hub.load_unlocked(&files, &mut effects), Err(SecretHubError::LoginRequired)));
    let status = hub.status(&files, &mut effects).unwrap();
    assert_eq!(status.auth_mode, Some("password"));
    assert!(!status.logged_in);

    assert!(matches!(
        hub.login(&files, "wrong", 30, &mut effects),
        Err(SecretHubError::InvalidPassword)
    ));
    assert!(effects.is_empty());
    hub.login(&files, "hunter2", 30, &mut effects).unwrap();
    assert_eq!(effects.len(), 1);
    apply(&mut files, effects);
    let mut effects = Vec::new();
    let (_, _, json) = hub.load_data(&files, &mut effects).unwrap();
    assert_eq!(json, b"data".to_vec());

    hub.logout(&mut effects).unwrap();
    apply(&mut files, effects);
    let mut effects = Vec::new();
    assert!(matches!(hub.load_unlocked(&files, &mut effects), Err(SecretHubError::LoginRequired)));
}

#[test]
fn init_with_password_opens_a_session() {
    let hub = hub();
    let mut files = empty_files();
    let mut effects = Vec::new();
    hub.init_with_password(&files, "pw", 30, b"x".to_vec(), &mut effects).unwrap();
    assert_eq!(effects.len(), 2);
    match &effects[1] {
        FileEffect::WriteSession(s) => assert!(s.expires_at.secs > 1_600_000_000),
        _ => panic!("expected a session"),
    }
    apply(&mut files, effects);
    let mut effects = Vec::new();
    assert!(hub.load_unlocked(&files, &mut effects).is_ok());
}

#[test]
fn expired_session_is_cleared() {
    let hub = hub();
    let mut files = empty_files();
    let mut effects = Vec::new();
    hub.init_with_password(&files, "pw", 30, b"x".to_vec(), &mut effects).unwrap();
    apply(&mut files, effects);
    let key = match &files.session {
        Stored::Present(s) => s.vault_key.clone(),
        _ => panic!("no session"),
    };
    files.session = Stored::Present(SessionFile { expires_at: Timestamp { secs: 1000, nanos: 0 }, vault_key: key });
    let mut effects = Vec::new();
    assert!(matches!(hub.load_unlocked(&files, &mut effects), Err(SecretHubError::LoginRequired)));
    assert!(matches!(effects.as_slice(), [FileEffect::ClearSession]));
}

#[test]
fn login_in_no_password_mode_is_unsupported() {
    let hub = hub();
    let mut files = empty_files();
    let mut effects = Vec::new();
    hub.init_no_password(&files, b"x".to_vec(), &mut effects).unwrap();
    apply(&mut files, effects);
    let mut effects = Vec::new();
    assert!(matches!(hub.login(&files, "pw", 30, &mut effects), Err(SecretHubError::UnsupportedAuthMode)));
    assert!(matches!(hub.login(&empty_files(), "pw", 30, &mut effects), Err(SecretHubError::VaultNotInitialized)));
}

#[test]
fn set_and_remove_password_keep_key_and_data() {
    let hub = hub();
    let mut files = empty_files();
    let mut effects = Vec::new();
    hub.init_no_password(&files, b"payload".to_vec(), &mut effects).unwrap();
    apply(&mut files, effects);
    let mut effects = Vec::new();
    let (_, key_before, _) = hub.load_data(&files, &mut effects).unwrap();

    let mut effects = Vec::new();
    hub.set_password(&files, "new-pw", 0, &mut effects).unwrap();
    assert!(matches!(effects.as_slice(), [FileEffect::WriteVault(_), FileEffect::DeleteKeyFile]));
    apply(&mut files, effects);
    let mut effects = Vec::new();
    hub.login(&files, "new-pw", 5, &mut effects).unwrap();
    apply(&mut files, effects);
    let mut effects = Vec::new();
    let (_, key_after, json) = hub.load_data(&files, &mut effects).unwrap();
    assert_eq!(key_before, key_after);
    assert_eq!(json, b"payload".to_vec());

    let mut effects = Vec::new();
    hub.remove_password(&files, &mut effects).unwrap();
    assert!(matches!(
        effects.as_slice(),
        [FileEffect::WriteKeyFile(_), FileEffect::WriteVault(_), FileEffect::ClearSession]
    ));
    apply(&mut files, effects);
    let mut effects = Vec::new();
    let (_, key_last, json) = hub.load_data(&files, &mut effects).unwrap();
    assert_eq!(key_last, key_before);
    assert_eq!(json, b"payload".to_vec());
}

#[test]
fn broken_files_report_their_errors() {
    let hub = hub();
    let files = VaultFiles {
        vault: Stored::Broken(SecretHubError::Json("bad".into())),
        key_file: Ok(String::new()),
        session: Stored::Absent,
    };
    let mut effects = Vec::new();
    assert!(matches!(hub.status(&files, &mut effects), Err(SecretHubError::Json(ref m)) if m == "bad"));
    let status = hub.status(&empty_files(), &mut effects).unwrap();
    assert!(!status.initialized && !status.logged_in && status.auth_mode.is_none());
}

#[test]
fn key_file_text_is_trimmed() {
    let hub = hub();
    let mut files = empty_files();
    let mut effects = Vec::new();
    hub.init_no_password(&files, b"x".to_vec(), &mut effects).unwrap();
    apply(&mut files, effects);
    if let Ok(text) = &files.key_file {
        files.key_file = Ok(format!("  {}\n", text));
    }
    let mut effects = Vec::new();
    assert!(hub.load_unlocked(&files, &mut effects).is_ok());
    files.key_file = Ok("AAAA".into());
    assert!(matches!(hub.load_unlocked(&files, &mut effects), Err(SecretHubError::Crypto)));
}

fn totp_secret(name: &str) -> NewSecret {
    NewSecret::Totp {
        name: name.to_string(),
        issuer: Some("Example".into()),
        account: None,
        secret: "gezd gnbv gy3t qojq gezd gnbv gy3t qojq".into(),
        digits: 8,
        period: 30,
        tags: vec!["work".into()],
        notes: None,
    }
}

#[test]
fn add_get_delete_and_list() {
    let hub = hub();
    let mut data = VaultData::new().unwrap();
    let totp = hub.add(&mut data, totp_secret("github")).unwrap();
    assert!(matches!(&totp.kind, SecretKind::Totp(t) if t.secret == "GEZDGNBVGY3TQOJQGEZDGNBVGY3TQOJQ"));
    assert_eq!(totp.created_at, totp.updated_at);
    let pw = hub.add(&mut data, NewSecret::Password {
        name: "mail".into(),
        username: Some("me".into()),
        password: "p4ss".into(),
        url: None,
        tags: vec![],
        notes: Some("n".into()),
    }).unwrap();
    hub.add(&mut data, NewSecret::ApiKey {
        name: "openai".into(),
        provider: None,
        key: "sk-1".into(),
        scopes: vec!["read".into()],
        tags: vec![],
        notes: None,
    }).unwrap();
    hub.add(&mut data, NewSecret::Token {
        name: "gh-token".into(),
        service: None,
        token: "t".into(),
        tags: vec![],
        notes: None,
    }).unwrap();
    assert_eq!(data.entries.len(), 4);

    let all = hub.list(data.clone(), None);
    assert_eq!(all.iter().map(|e| e.name.as_str()).collect::<Vec<_>>(), ["github", "mail", "openai", "gh-token"]);
    let totps = hub.list(data.clone(), Some("totp"));
    assert_eq!(totps.len(), 1);
    assert_eq!(hub.list(data.clone(), Some("api-key"))[0].name, "openai");
    assert!(hub.list(data.clone(), Some("env")).is_empty());

    let found = hub.get(data.clone(), "mail").unwrap();
    assert_eq!(found.id, pw.id);
    let id_text = uuid::Uuid::from_u128(pw.id).to_string();
    assert_eq!(hub.get(data.clone(), &id_text).unwrap().name, "mail");
    assert_eq!(uuid::Uuid::from_u128(pw.id).get_version_num(), 4);
    assert!(matches!(hub.get(data.clone(), "nope"), Err(SecretHubError::SecretNotFound(ref n)) if n == "nope"));

    assert_eq!(hub.totp_code_at(data.clone(), "github", 59).unwrap(), "94287082");
    assert!(matches!(hub.totp_code_at(data.clone(), "mail", 59), Err(SecretHubError::InvalidTotpSecret)));
    assert_eq!(hub.totp_code(data.clone(), "github").unwrap().len(), 8);

    let removed = hub.delete(&mut data, "mail").unwrap();
    assert_eq!(removed.id, pw.id);
    assert_eq!(data.entries.len(), 3);
    assert!(matches!(hub.delete(&mut data, "mail"), Err(SecretHubError::SecretNotFound(_))));
    assert_eq!(data.entries.len(), 3);
}

#[test]
fn get_returns_the_first_match() {
    let hub = hub();
    let mut data = VaultData::new().unwrap();
    let first = hub.add(&mut data, totp_secret("dup")).unwrap();
    hub.add(&mut data, totp_secret("dup")).unwrap();
    assert_eq!(hub.get(data.clone(), "dup").unwrap().id, first.id);
}

#[test]
fn save_data_replaces_only_the_data() {
    let hub = hub();
    let mut files = empty_files();
    let mut effects = Vec::new();
    hub.init_no_password(&files, b"old".to_vec(), &mut effects).unwrap();
    apply(&mut files, effects);
    let mut effects = Vec::new();
    let (vf, key, _) = hub.load_data(&files, &mut effects).unwrap();
    let wrapped = vf.wrapped_key.clone();
    hub.save_data(vf, &key, b"new".to_vec(), &mut effects).unwrap();
    apply(&mut files, effects);
    assert_eq!(vault_file(&files).wrapped_key.nonce, wrapped.nonce);
    let mut effects = Vec::new();
    let (_, _, json) = hub.load_data(&files, &mut effects).unwrap();
    assert_eq!(json, b"new".to_vec());
}

#[test]
fn fixed_key_needs_32_bytes() {
    assert_eq!(fixed_key(vec![7u8; 32]).unwrap(), [7u8; 32]);
    assert!(matches!(fixed_key(vec![7u8; 31]), Err(SecretHubError::Crypto)));
}

#[test]
fn touch_updates_only_the_update_time() {
    let mut data = VaultData::new().unwrap();
    let created = data.created_at;
    data.touch().unwrap();
    assert_eq!(data.created_at, created);
    assert!(data.updated_at.secs >= created.secs);
    assert_eq!(data.version, 1);
}

fn base64(bytes: &[u8]) -> String {
    STANDARD.encode(bytes)
}

#[test]
fn create_with_key_file_uses_the_drawn_values() {
    let hub = hub();
    let mut files = empty_files();
    let mut effects = Vec::new();
    let (vault_key, wrapping_key) = ([1u8; 32], [2u8; 32]);
    hub.create_with_key_file(&files, b"{}".to_vec(), &vault_key, &[3u8; 24], &wrapping_key, &[4u8; 24], &mut effects)
        .unwrap();
    match effects.as_slice() {
        [FileEffect::WriteKeyFile(text), FileEffect::WriteVault(vf)] => {
            assert_eq!(text, &encode_key(&wrapping_key));
            assert_eq!(vf.version, 1);
            assert_eq!(vf.data.nonce, base64(&[3u8; 24]));
            assert_eq!(vf.wrapped_key.nonce, base64(&[4u8; 24]));
        }
        _ => panic!("expected the key file and the vault file"),
    }
    apply(&mut files, effects);
    let mut effects = Vec::new();
    let (_, key, json) = hub.load_data(&files, &mut effects).unwrap();
    assert_eq!(key, vault_key);
    assert_eq!(json, b"{}".to_vec());
    let mut effects = Vec::new();
    assert!(matches!(
        hub.create_with_key_file(&files, b"{}".to_vec(), &vault_key, &[3u8; 24], &wrapping_key, &[4u8; 24], &mut effects),
        Err(SecretHubError::VaultAlreadyExists)
    ));
    assert!(effects.is_empty());
}

#[test]
fn create_with_password_uses_the_drawn_values() {
    let hub = hub();
    let mut files = empty_files();
    let mut effects = Vec::new();
    let now = Timestamp { secs: 1_700_000_000, nanos: 5 };
    let salt = salt_from_bytes(&[6u8; 16]);
    hub.create_with_password(&files, "pw", 10, b"{}".to_vec(), now, &[1u8; 32], &[3u8; 24], salt.clone(), &[4u8; 24], &mut effects)
        .unwrap();
    match effects.as_slice() {
        [FileEffect::WriteVault(vf), FileEffect::WriteSession(s)] => {
            assert!(matches!(&vf.auth, AuthMode::Password { salt: t } if *t == salt));
            assert_eq!(s.expires_at, Timestamp { secs: 1_700_000_600, nanos: 5 });
            assert_eq!(s.vault_key, encode_key(&[1u8; 32]));
        }
        _ => panic!("expected the vault file and a session"),
    }
    apply(&mut files, effects);
    let mut effects = Vec::new();
    files.session = Stored::Absent;
    hub.login(&files, "pw", 1, &mut effects).unwrap();
    apply(&mut files, effects);
    let mut effects = Vec::new();
    let (_, key, json) = hub.load_data(&files, &mut effects).unwrap();
    assert_eq!(key, [1u8; 32]);
    assert_eq!(json, b"{}".to_vec());
}

#[test]
fn sessions_past_the_clock_range_are_refused() {
    let hub = hub();
    let files = empty_files();
    let mut effects = Vec::new();
    let now = Timestamp { secs: 1_700_000_000, nanos: 0 };
    let salt = salt_from_bytes(&[6u8; 16]);
    assert!(matches!(
        hub.create_with_password(&files, "pw", i64::MAX, b"{}".to_vec(), now, &[1u8; 32], &[3u8; 24], salt, &[4u8; 24], &mut effects),
        Err(SecretHubError::Time)
    ));
    assert!(matches!(effects.as_slice(), [FileEffect::WriteVault(_)]));
    let mut files = empty_files();
    apply(&mut files, effects);
    let mut effects = Vec::new();
    assert!(matches!(hub.login(&files, "pw", i64::MAX, &mut effects), Err(SecretHubError::Time)));
    assert!(effects.is_empty());
    assert!(matches!(hub.init_with_password(&empty_files(), "pw", i64::MAX, b"{}".to_vec(), &mut effects), Err(SecretHubError::Time)));
    assert!(matches!(effects.as_slice(), [FileEffect::WriteVault(_)]));
}

#[test]
fn session_expiry_stays_within_the_clock_range() {
    let now = Timestamp { secs: 100, nanos: 7 };
    assert_eq!(session_expiry(now, 2), Some(Timestamp { secs: 220, nanos: 7 }));
    let late = Timestamp { secs: 8_210_266_876_799 - 120, nanos: 0 };
    assert_eq!(session_expiry(late, 2), Some(Timestamp { secs: 8_210_266_876_799, nanos: 0 }));
    assert_eq!(session_expiry(late, 3), None);
    assert_eq!(session_expiry(now, i64::MAX), None);
}

#[test]
fn rewraps_use_the_drawn_values() {
    let hub = hub();
    let mut files = empty_files();
    let mut effects = Vec::new();
    hub.init_no_password(&files, b"payload".to_vec(), &mut effects).unwrap();
    apply(&mut files, effects);
    let mut effects = Vec::new();
    let (vf, key) = hub.load_unlocked(&files, &mut effects).unwrap();
    let now = Timestamp { secs: 1_700_000_000, nanos: 0 };
    let salt = salt_from_bytes(&[8u8; 16]);
    SecretHub::rewrap_with_password(vf.clone(), &key, "pw", 0, now, salt.clone(), &[5u8; 24], &mut effects).unwrap();
    match effects.as_slice() {
        [FileEffect::WriteVault(new_vf), FileEffect::DeleteKeyFile] => {
            assert_eq!(new_vf.wrapped_key.nonce, base64(&[5u8; 24]));
            assert_eq!(new_vf.data.ciphertext, vf.data.ciphertext);
            assert!(matches!(&new_vf.auth, AuthMode::Password { salt: t } if *t == salt));
        }
        _ => panic!("expected the vault file and the key file removed"),
    }
    let mut effects = Vec::new();
    hub.rewrap_with_key_file(vf.clone(), &key, &[9u8; 32], &[6u8; 24], &mut effects);
    match effects.as_slice() {
        [FileEffect::WriteKeyFile(text), FileEffect::WriteVault(new_vf), FileEffect::ClearSession] => {
            assert_eq!(text, &encode_key(&[9u8; 32]));
            assert_eq!(new_vf.wrapped_key.nonce, base64(&[6u8; 24]));
        }
        _ => panic!("expected the key file, the vault file and the session removed"),
    }
    apply(&mut files, effects);
    let mut effects = Vec::new();
    let (_, again) = hub.load_unlocked(&files, &mut effects).unwrap();
    assert_eq!(again, key);
}

#[test]
fn save_data_with_nonce_uses_the_nonce() {
    let hub = hub();
    let mut files = empty_files();
    let mut effects = Vec::new();
    hub.init_no_password(&files, b"old".to_vec(), &mut effects).unwrap();
    apply(&mut files, effects);
    let mut effects = Vec::new();
    let (vf, key, _) = hub.load_data(&files, &mut effects).unwrap();
    hub.save_data_with_nonce(vf, &key, b"new".to_vec(), &[7u8; 24], &mut effects).unwrap();
    match effects.as_slice() {
        [FileEffect::WriteVault(new_vf)] => assert_eq!(new_vf.data.nonce, base64(&[7u8; 24])),
        _ => panic!("expected the vault file"),
    }
}

#[test]
fn logout_then_status_reports_not_logged_in() {
    let hub = hub();
    let mut files = empty_files();
    let mut effects = Vec::new();
    hub.init_with_password(&files, "pw", 30, b"x".to_vec(), &mut effects).unwrap();
    apply(&mut files, effects);
    let mut effects = Vec::new();
    assert!(hub.status(&files, &mut effects).unwrap().logged_in);
    hub.logout(&mut effects).unwrap();
    apply(&mut files, effects);
    let mut effects = Vec::new();
    let status = hub.status(&files, &mut effects).unwrap();
    assert!(status.initialized && !status.logged_in);
    hub.logout(&mut effects).unwrap();
    apply(&mut files, effects);
    assert!(matches!(files.session, Stored::Absent));
}

#[test]
fn unlock_without_prompt_agrees_with_load_unlocked() {
    let hub = hub();
    let mut files = empty_files();
    let mut effects = Vec::new();
    hub.init_no_password(&files, b"x".to_vec(), &mut effects).unwrap();
    apply(&mut files, effects);
    let now = Timestamp { secs: 1_700_000_000, nanos: 0 };
    let mut effects = Vec::new();
    let key = hub.unlock_without_prompt(&files, now, &mut effects).unwrap();
    assert_eq!(hub.load_unlocked_at(&files, now, &mut effects).unwrap().1, key);
    assert!(matches!(hub.unlock_without_prompt(&empty_files(), now, &mut effects), Err(SecretHubError::VaultNotInitialized)));
}

#[test]
fn new_entries_take_the_given_time_and_bytes() {
    let now = Timestamp { secs: 1_700_000_000, nanos: 1 };
    let kind = SecretKind::Token(secret_hub_core::TokenEntry { service: None, token: "t".into(), expires_at: None });
    let entry = SecretEntry::new_at("n".into(), vec![], None, kind, now, [0u8; 16]);
    assert_eq!(entry.id, 0x0000_0000_0000_4000_8000_0000_0000_0000);
    assert_eq!(entry.created_at, now);
    assert_eq!(entry.updated_at, now);
    let bytes = [0xffu8; 16];
    let kind = SecretKind::Token(secret_hub_core::TokenEntry { service: None, token: "t".into(), expires_at: None });
    let entry = SecretEntry::new_at("n".into(), vec![], None, kind, now, bytes);
    assert_eq!(entry.id, uuid::Builder::from_random_bytes(bytes).into_uuid().as_u128());
    let mut data = VaultData::new_at(now);
    assert_eq!((data.version, data.created_at, data.updated_at), (1, now, now));
    let later = Timestamp { secs: 1_700_000_060, nanos: 0 };
    data.touch_at(later);
    assert_eq!((data.created_at, data.updated_at), (now, later));
}

#[test]
fn adding_an_env_profile_names_it_after_the_project() {
    let hub = hub();
    let mut data = VaultData::new().unwrap();
    let variables = vec![secret_hub_core::EnvVariable {
        key: "API_URL".into(),
        value: secret_hub_core::EnvValue::literal("http://x".into()),
    }];
    let entry = hub
        .add(&mut data, NewSecret::Env { project: "web".into(), profile: "dev".into(), variables, tags: vec![], notes: None })
        .unwrap();
    assert_eq!(entry.name, "web");
    assert!(matches!(&entry.kind, SecretKind::Env(p) if p.project == "web" && p.profile == "dev" && p.variables.len() == 1));
    assert_eq!(uuid::Uuid::from_u128(entry.id).get_version_num(), 4);
    assert_eq!(hub.list(data.clone(), Some("env")).len(), 1);
    let other = hub.add(&mut data, totp_secret("x")).unwrap();
    assert_ne!(other.id, entry.id);
}
