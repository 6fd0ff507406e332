use secret_hub_core::envfile::{parse_env, render_env, validate_key};
use secret_hub_core::{EnvValue, SecretHubError};

fn literal(value: &EnvValue) -> &str {
    match value {
        EnvValue::Literal { value } => value.as_str(),
        EnvValue::SecretRef { .. } => panic!("expected a literal"),
    }
}

#[test]
fn parses_common_env_lines() {
    let variables = parse_env(
        r#"
            # comment
            FOO=bar
            export API_KEY="abc 123"
            HASH=value#kept
            COMMENTED=value # dropped
            SINGLE='hello world'
            "#,
    )
    .unwrap();

    assert_eq!(variables.len(), 5);
    assert_eq!(variables[1].key, "API_KEY");
    assert!(matches!(
        &variables[1].value,
        EnvValue::Literal { value } if value == "abc 123"
    ));
    assert!(matches!(
        &variables[2].value,
        EnvValue::Literal { value } if value == "value#kept"
    ));
    assert!(matches!(
        &variables[3].value,
        EnvValue::Literal { value } if value == "value"
    ));
    assert!(matches!(
        &variables[4].value,
        EnvValue::Literal { value } if value == "hello world"
    ));
}

#[test]
fn renders_values_that_need_quotes() {
    let variables = vec![
        ("PLAIN".to_string(), "abc-123".to_string()),
        ("SPACED".to_string(), "hello world".to_string()),
    ];

    assert_eq!(
        render_env(&variables),
        "PLAIN=abc-123\nSPACED=\"hello world\"\n"
    );
}

#[test]
fn parse_reports_line_without_equals() {
    let err = parse_env("A=1\n\nNOEQUALS\n").unwrap_err();
    assert!(matches!(err, SecretHubError::InvalidEnvLine(3)));
}

#[test]
fn parse_reports_invalid_key() {
    let err = parse_env("1ABC=x").unwrap_err();
    assert!(matches!(err, SecretHubError::InvalidEnvKey(ref k) if k == "1ABC"));
    let err = parse_env("  MY-KEY = x").unwrap_err();
    assert!(matches!(err, SecretHubError::InvalidEnvKey(ref k) if k == "MY-KEY"));
}

#[test]
fn parse_reports_unclosed_quotes() {
    assert!(matches!(parse_env("A=\"abc").unwrap_err(), SecretHubError::InvalidEnvValue));
    assert!(matches!(parse_env("A='abc").unwrap_err(), SecretHubError::InvalidEnvValue));
    assert!(matches!(parse_env("A=\"abc\\\"").unwrap_err(), SecretHubError::InvalidEnvValue));
}

#[test]
fn parse_first_error_wins() {
    let err = parse_env("BAD LINE\n1X=2").unwrap_err();
    assert!(matches!(err, SecretHubError::InvalidEnvLine(1)));
}

#[test]
fn parse_escapes_and_crlf() {
    let vars = parse_env("A=\"x\\ny\\t\\\"q\\\\\\z\"\r\nB=  spaced value   \r\nC='it''s'\r\nD=\n").unwrap();
    assert_eq!(vars.len(), 4);
    assert_eq!(literal(&vars[0].value), "x\ny\t\"q\\\\z");
    assert_eq!(literal(&vars[1].value), "spaced value");
    assert_eq!(literal(&vars[2].value), "it");
    assert_eq!(vars[3].key, "D");
    assert_eq!(literal(&vars[3].value), "");
}

#[test]
fn parse_comment_at_start_and_after_tab() {
    let vars = parse_env("A=#all\nB=x\t#c\nC=a#b # c").unwrap();
    assert_eq!(literal(&vars[0].value), "");
    assert_eq!(literal(&vars[1].value), "x");
    assert_eq!(literal(&vars[2].value), "a#b");
}

#[test]
fn parse_keeps_text_after_closing_quote_out() {
    let vars = parse_env("A=\"one\" trailing\nexport  B=2").unwrap();
    assert_eq!(literal(&vars[0].value), "one");
    assert_eq!(vars[1].key, "B");
}

#[test]
fn render_empty_and_escaped_values() {
    let variables = vec![
        ("EMPTY".to_string(), String::new()),
        ("PATHS".to_string(), "a/b.c:d_e".to_string()),
        ("ESC".to_string(), "l1\nl2\t\"q\"\\ #".to_string()),
    ];
    assert_eq!(
        render_env(&variables),
        "EMPTY=\nPATHS=a/b.c:d_e\nESC=\"l1\\nl2\\t\\\"q\\\"\\\\ #\"\n"
    );
    assert_eq!(render_env(&[]), "");
}

#[test]
fn render_then_parse_gives_back_the_variables() {
    let variables = vec![
        ("PLAIN".to_string(), "abc-123".to_string()),
        ("EMPTY".to_string(), String::new()),
        ("_QUOTED".to_string(), " lead and trail ".to_string()),
        ("MULTI".to_string(), "line1\nline2\r\n\tend\\".to_string()),
        ("HASHY".to_string(), "a #b 'c' \"d\"".to_string()),
        ("UNI".to_string(), "h\u{e9}llo \u{2028} w\u{f6}rld".to_string()),
    ];
    let text = render_env(&variables);
    let parsed = parse_env(&text).unwrap();
    assert_eq!(parsed.len(), variables.len());
    for (var, (key, value)) in parsed.iter().zip(variables.iter()) {
        assert_eq!(&var.key, key);
        assert_eq!(literal(&var.value), value);
    }
}

#[test]
fn validate_key_accepts_and_rejects() {
    assert!(validate_key("_A1").is_ok());
    assert!(validate_key("abc_DEF_9").is_ok());
    assert!(matches!(validate_key(""), Err(SecretHubError::InvalidEnvKey(ref k)) if k.is_empty()));
    assert!(validate_key("9A").is_err());
    assert!(validate_key("A-B").is_err());
    assert!(validate_key("A B").is_err());
    assert!(validate_key("\u{e9}").is_err());
}
