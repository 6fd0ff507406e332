use base64::engine::general_purpose::STANDARD;
use base64::Engine;
use secret_hub_core::crypto::{
    decode_key, decrypt_bytes, derive_key, encode_key, encrypt_bytes, key_from_hash, random_key,
    random_nonce, random_salt, salt_from_bytes, seal_with_nonce, EncryptedPayload,
};
use secret_hub_core::SecretHubError;

#[test]
fn encode_key_is_standard_base64() {
    let key = [0u8; 32];
    assert_eq!(encode_key(&key), "AAAAAAAAAAAAAAAAAAAAAAAAAAAAAAAAAAAAAAAAAAA=");
    let mut key = [0u8; 32];
    for (i, b) in key.iter_mut().enumerate() {
        *b = i as u8;
    }
    assert_eq!(encode_key(&key), "AAECAwQFBgcICQoLDA0ODxAREhMUFRYXGBkaGxwdHh8=");
}

#[test]
fn decode_key_inverts_encode_key() {
    let key = random_key().unwrap();
    assert_eq!(decode_key(&encode_key(&key)).unwrap(), key);
}

#[test]
fn decode_key_rejects_wrong_lengths_and_text() {
    assert!(matches!(decode_key("AAAA"), Err(SecretHubError::Crypto)));
    assert!(matches!(decode_key("not base64!"), Err(SecretHubError::Crypto)));
    assert!(matches!(decode_key(" AAECAwQFBgcICQoLDA0ODxAREhMUFRYXGBkaGxwdHh8="), Err(SecretHubError::Crypto)));
}

#[test]
fn random_values_differ() {
    let a = random_key().unwrap();
    let b = random_key().unwrap();
    assert_ne!(a, b);
    let s = random_salt().unwrap();
    assert_eq!(s.len(), 24);
    assert_ne!(s, random_salt().unwrap());
}

#[test]
fn encrypt_then_decrypt_gives_back_the_plaintext() {
    let key = random_key().unwrap();
    let plaintext = b"the quick brown fox";
    let payload = encrypt_bytes(&key, plaintext).unwrap();
    assert_eq!(payload.version, 1);
    assert_ne!(payload.ciphertext.as_bytes(), plaintext);
    assert_eq!(decrypt_bytes(&key, &payload).unwrap(), plaintext.to_vec());
    let empty = encrypt_bytes(&key, b"").unwrap();
    assert_eq!(decrypt_bytes(&key, &empty).unwrap(), Vec::<u8>::new());
}

#[test]
fn decrypt_with_another_key_is_an_invalid_password() {
    let key = random_key().unwrap();
    let other = random_key().unwrap();
    let payload = encrypt_bytes(&key, b"secret").unwrap();
    assert!(matches!(decrypt_bytes(&other, &payload), Err(SecretHubError::InvalidPassword)));
}

#[test]
fn decrypt_rejects_malformed_payloads() {
    let key = random_key().unwrap();
    let good = encrypt_bytes(&key, b"secret").unwrap();
    let bad_nonce = EncryptedPayload { version: 1, nonce: "***".into(), ciphertext: good.ciphertext.clone() };
    assert!(matches!(decrypt_bytes(&key, &bad_nonce), Err(SecretHubError::Crypto)));
    let bad_text = EncryptedPayload { version: 1, nonce: good.nonce.clone(), ciphertext: "***".into() };
    assert!(matches!(decrypt_bytes(&key, &bad_text), Err(SecretHubError::Crypto)));
    let short_nonce = EncryptedPayload { version: 1, nonce: "AAAA".into(), ciphertext: good.ciphertext.clone() };
    assert!(matches!(decrypt_bytes(&key, &short_nonce), Err(SecretHubError::Crypto)));
}

#[test]
fn derive_key_is_deterministic_and_depends_on_both_inputs() {
    let salt = "c2FsdHNhbHRzYWx0c2FsdA==";
    let a = derive_key("password", salt).unwrap();
    let b = derive_key("password", salt).unwrap();
    let c = derive_key("passwore", salt).unwrap();
    let d = derive_key("password", "c2FsdHNhbHRzYWx0c2FsdQ==").unwrap();
    assert_eq!(a, b);
    assert_ne!(a, c);
    assert_ne!(a, d);
    assert_ne!(&a[..8], b"password");
}

#[test]
fn derive_key_errors() {
    assert!(matches!(derive_key("pw", "%%%"), Err(SecretHubError::InvalidPassword)));
    assert!(matches!(derive_key("pw", "AAA="), Err(SecretHubError::Crypto)));
    assert!(matches!(derive_key("pw", ""), Err(SecretHubError::Crypto)));
}

#[test]
fn key_from_hash_takes_the_first_32_bytes() {
    let hash: Vec<u8> = (0u8..40).collect();
    let key = key_from_hash(Some(hash)).unwrap();
    assert_eq!(key.to_vec(), (0u8..32).collect::<Vec<u8>>());
    assert!(matches!(key_from_hash(Some(vec![1u8; 31])), Err(SecretHubError::Crypto)));
    assert!(matches!(key_from_hash(None), Err(SecretHubError::Crypto)));
}

#[test]
fn seal_with_nonce_uses_the_given_nonce() {
    let key = [9u8; 32];
    let nonce = [3u8; 24];
    let sealed = seal_with_nonce(&key, &nonce, b"hello").unwrap();
    assert_eq!(sealed.version, 1);
    assert_eq!(sealed.nonce, STANDARD.encode(nonce));
    assert_eq!(STANDARD.decode(&sealed.ciphertext).unwrap().len(), 5 + 16);
    let again = seal_with_nonce(&key, &nonce, b"hello").unwrap();
    assert_eq!(again.ciphertext, sealed.ciphertext);
    assert_eq!(decrypt_bytes(&key, &sealed).unwrap(), b"hello".to_vec());
    let other = seal_with_nonce(&key, &[4u8; 24], b"hello").unwrap();
    assert_ne!(other.ciphertext, sealed.ciphertext);
}

#[test]
fn encrypted_text_is_sixteen_bytes_longer() {
    let key = random_key().unwrap();
    let sealed = encrypt_bytes(&key, b"0123456789").unwrap();
    assert_eq!(STANDARD.decode(&sealed.nonce).unwrap().len(), 24);
    assert_eq!(STANDARD.decode(&sealed.ciphertext).unwrap().len(), 10 + 16);
    let empty = encrypt_bytes(&key, b"").unwrap();
    assert_eq!(STANDARD.decode(&empty.ciphertext).unwrap().len(), 16);
}

#[test]
fn salts_are_base64_of_sixteen_bytes() {
    assert_eq!(salt_from_bytes(&[0u8; 16]), "AAAAAAAAAAAAAAAAAAAAAA==");
    let salt = random_salt().unwrap();
    assert_eq!(STANDARD.decode(&salt).unwrap().len(), 16);
    assert_eq!(random_nonce().unwrap().len(), 24);
}

#[test]
fn derive_key_succeeds_for_sixteen_byte_salts() {
    let salt = salt_from_bytes(&[7u8; 16]);
    let a = derive_key("password", &salt).unwrap();
    assert_eq!(a, derive_key("password", &salt).unwrap());
    let eight = STANDARD.encode([1u8; 8]);
    assert!(derive_key("", &eight).is_ok());
    let seven = STANDARD.encode([1u8; 7]);
    assert!(matches!(derive_key("pw", &seven), Err(SecretHubError::Crypto)));
}
