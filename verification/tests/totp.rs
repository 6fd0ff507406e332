use secret_hub_core::totp::{generate_code, generate_code_at, normalize_secret};
use secret_hub_core::SecretHubError;

// RFC 6238, appendix B: the SHA-1 seed "12345678901234567890" in base32.
const RFC_SEED: &str = "GEZDGNBVGY3TQOJQGEZDGNBVGY3TQOJQ";

#[test]
fn rfc6238_sha1_vectors() {
    let cases: [(u64, &str); 6] = [
        (59, "94287082"),
        (1111111109, "07081804"),
        (1111111111, "14050471"),
        (1234567890, "89005924"),
        (2000000000, "69279037"),
        (20000000000, "65353130"),
    ];
    for (time, code) in cases {
        assert_eq!(generate_code_at(RFC_SEED, 8, 30, time).unwrap(), code);
    }
}

#[test]
fn six_digit_codes_are_the_low_digits() {
    assert_eq!(generate_code_at(RFC_SEED, 6, 30, 59).unwrap(), "287082");
    assert_eq!(generate_code_at(RFC_SEED, 6, 30, 1111111109).unwrap(), "081804");
    assert_eq!(generate_code_at(RFC_SEED, 1, 30, 59).unwrap(), "2");
}

#[test]
fn ten_digit_code_is_the_whole_truncated_value() {
    let code = generate_code_at(RFC_SEED, 10, 30, 59).unwrap();
    assert_eq!(code.len(), 10);
    assert!(code.ends_with("94287082"));
    assert!(code.chars().all(|c| c.is_ascii_digit()));
}

#[test]
fn secret_is_normalized_before_decoding() {
    let spaced = "gezd gnbv gy3t qojq\tgezd gnbv gy3t qojq";
    assert_eq!(generate_code_at(spaced, 8, 30, 59).unwrap(), "94287082");
}

#[test]
fn period_groups_times() {
    let a = generate_code_at(RFC_SEED, 6, 60, 120).unwrap();
    let b = generate_code_at(RFC_SEED, 6, 60, 179).unwrap();
    let c = generate_code_at(RFC_SEED, 6, 30, 60).unwrap();
    assert_eq!(a, b);
    assert_eq!(a, c);
}

#[test]
fn invalid_parameters_are_rejected() {
    for (digits, period) in [(0u32, 30u64), (11, 30), (6, 0)] {
        assert!(matches!(
            generate_code_at(RFC_SEED, digits, period, 59),
            Err(SecretHubError::InvalidTotpSecret)
        ));
        assert!(matches!(
            generate_code(RFC_SEED, digits, period),
            Err(SecretHubError::InvalidTotpSecret)
        ));
    }
}

#[test]
fn invalid_base32_is_rejected() {
    assert!(matches!(
        generate_code_at("not base32!", 6, 30, 59),
        Err(SecretHubError::InvalidTotpSecret)
    ));
    assert!(matches!(
        generate_code_at("GEZDGNBVGY3TQOJQ====", 6, 30, 59),
        Err(SecretHubError::InvalidTotpSecret)
    ));
}

#[test]
fn current_code_has_the_requested_shape() {
    let code = generate_code(RFC_SEED, 6, 30).unwrap();
    assert_eq!(code.len(), 6);
    assert!(code.chars().all(|c| c.is_ascii_digit()));
}

#[test]
fn normalize_removes_ascii_whitespace_and_uppercases() {
    assert_eq!(normalize_secret(" ab c\td\ne\r\x0cf "), "ABCDEF");
    assert_eq!(normalize_secret("\u{e9}x\u{a0}y"), "\u{e9}X\u{a0}Y");
    assert_eq!(normalize_secret("\x0bz"), "\x0bZ");
    let once = normalize_secret("mixed Case 12");
    assert_eq!(normalize_secret(&once), once);
}
