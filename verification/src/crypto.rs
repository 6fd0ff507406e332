//! Key derivation, authenticated encryption and the base64 text forms of
//! keys, salts, nonces and ciphertexts.
use vstd::prelude::*;
use crate::error::{HubResult, SecretHubError};
use crate::text::{is_ascii_alnum, is_space, trim};
use argon2::password_hash::SaltString;
use argon2::{Argon2, PasswordHasher};
use base64::engine::general_purpose::STANDARD;
use base64::Engine;
use chacha20poly1305::aead::{Aead, KeyInit};
use chacha20poly1305::{XChaCha20Poly1305, XNonce};
use zeroize::Zeroize;

verus! {

/// Length of keys in bytes.
pub const KEY_LEN: usize = 32;

/// Length of XChaCha20-Poly1305 nonces in bytes.
pub const NONCE_LEN: usize = 24;

/// A ciphertext with the nonce it was sealed with, both in base64.
#[derive(Debug, Clone)]
pub struct EncryptedPayload {
    pub version: u32,
    pub nonce: String,
    pub ciphertext: String,
}

// ---------------------------------------------------------------------------
// Outside functions
// ---------------------------------------------------------------------------

/// The character of the standard base64 alphabet for the 6-bit value `n`:
/// `A`-`Z`, `a`-`z`, `0`-`9`, `+` and `/`.
pub open spec fn base64_char(n: int) -> char {
    if n < 26 {
        (65 + n) as char
    } else if n < 52 {
        (71 + n) as char
    } else if n < 62 {
        (n - 4) as char
    } else if n == 62 {
        '+'
    } else {
        '/'
    }
}

/// The standard base64 text of `bytes`: each group of three bytes as four
/// characters of six bits each, most significant first, and a last group of
/// one or two bytes padded with `=` to four characters.
pub open spec fn base64_encode(bytes: Seq<u8>) -> Seq<char>
    decreases bytes.len(),
{
    let b0 = bytes[0] as int;
    let b1 = bytes[1] as int;
    let b2 = bytes[2] as int;
    if bytes.len() == 0 {
        seq![]
    } else if bytes.len() == 1 {
        seq![base64_char(b0 / 4), base64_char((b0 % 4) * 16), '=', '=']
    } else if bytes.len() == 2 {
        seq![
            base64_char(b0 / 4),
            base64_char((b0 % 4) * 16 + b1 / 16),
            base64_char((b1 % 16) * 4),
            '=',
        ]
    } else {
        seq![
            base64_char(b0 / 4),
            base64_char((b0 % 4) * 16 + b1 / 16),
            base64_char((b1 % 16) * 4 + b2 / 64),
            base64_char(b2 % 64),
        ] + base64_encode(bytes.subrange(3, bytes.len() as int))
    }
}

/// The bytes that the standard base64 engine decodes `text` to, or `None`
/// when it rejects `text`.
pub uninterp spec fn base64_decode(text: Seq<char>) -> Option<Seq<u8>>;

/// The XChaCha20-Poly1305 ciphertext (with its tag) of `plaintext` under
/// `key` and `nonce`, without associated data.
pub uninterp spec fn aead_seal(key: Seq<u8>, nonce: Seq<u8>, plaintext: Seq<u8>) -> Seq<u8>;

/// The plaintext that XChaCha20-Poly1305 recovers from `ciphertext` under
/// `key` and `nonce`, or `None` when the tag does not verify.
pub uninterp spec fn aead_open(key: Seq<u8>, nonce: Seq<u8>, ciphertext: Seq<u8>) -> Option<Seq<u8>>;

/// The hash that `Argon2::default()` (Argon2id, version 0x13, default
/// parameters) computes for `password` and `salt`, or `None` when it fails.
pub uninterp spec fn argon2_hash(password: Seq<u8>, salt: Seq<u8>) -> Option<Seq<u8>>;

/// A character of the standard base64 alphabet or its padding.
pub open spec fn is_base64_char(c: char) -> bool {
    is_ascii_alnum(c) || c == '+' || c == '/' || c == '='
}

/// Calls `STANDARD.encode` of the `base64` crate. The contract claims that the
/// result is `base64_encode` of the input (the standard alphabet with `=`
/// padding), that its characters are of that alphabet, and that the engine's
/// `decode` gives the input back, as the crate documents for its standard
/// engine. `encode` panics when the encoded length overflows `usize`, which
/// the bound on the input excludes.
#[verifier::external_body]
fn b64_encode(bytes: &[u8]) -> (text: String)
    requires
        bytes@.len() <= usize::MAX / 2,
    ensures
        text@ == base64_encode(bytes@),
        forall|i: int| 0 <= i < text@.len() ==> is_base64_char(#[trigger] text@[i]),
        base64_decode(text@) == Some(bytes@),
{
    STANDARD.encode(bytes)
}

/// Calls `STANDARD.decode` of the `base64` crate. The contract claims only
/// that the result is the named `base64_decode` of the text.
#[verifier::external_body]
fn b64_decode(text: &str) -> (bytes: Option<Vec<u8>>)
    ensures
        match bytes {
            Some(b) => base64_decode(text@) == Some(b@),
            None => base64_decode(text@) is None,
        },
{
    match STANDARD.decode(text) {
        Ok(bytes) => Some(bytes),
        Err(_) => None,
    }
}

/// Calls `getrandom::fill` on `buf`. Nothing is claimed of the bytes, which
/// come from the operating system; the length stays. The result tells
/// whether the call succeeded.
#[verifier::external_body]
pub(crate) fn fill_random(buf: &mut [u8]) -> (ok: bool)
    ensures
        final(buf)@.len() == old(buf)@.len(),
{
    getrandom::fill(buf).is_ok()
}

/// Calls `XChaCha20Poly1305::new` and `encrypt` of the `chacha20poly1305`
/// crate. The contract claims that encryption fails exactly when the
/// plaintext spans `u32::MAX` or more blocks of 64 bytes (the check in the
/// crate's `encrypt_in_place_detached`), that the ciphertext is the named
/// `aead_seal` and is 16 bytes (the tag) longer than the plaintext, and that
/// decryption with the same key and nonce gives the plaintext back, as an
/// AEAD promises. `XNonce::from_slice` panics unless the nonce has 24 bytes,
/// and reserving room for the tag panics when the length overflows; the
/// precondition excludes both.
#[verifier::external_body]
fn xchacha_seal(key: &[u8; 32], nonce: &[u8], plaintext: &[u8]) -> (r: Option<Vec<u8>>)
    requires
        nonce@.len() == NONCE_LEN,
        plaintext@.len() <= usize::MAX / 2 - 16,
    ensures
        r is Some <==> plaintext@.len() / 64 < 0xFFFF_FFFF,
        r matches Some(c) ==> c@ == aead_seal(key@, nonce@, plaintext@) && c@.len()
            == plaintext@.len() + 16 && aead_open(key@, nonce@, c@) == Some(plaintext@),
{
    let cipher = XChaCha20Poly1305::new(key.into());
    match cipher.encrypt(XNonce::from_slice(nonce), plaintext) {
        Ok(ciphertext) => Some(ciphertext),
        Err(_) => None,
    }
}

/// Calls `XChaCha20Poly1305::new` and `decrypt` of the `chacha20poly1305`
/// crate. The contract claims only that the result is the named `aead_open`.
/// `XNonce::from_slice` panics unless the nonce has 24 bytes, which the
/// precondition demands.
#[verifier::external_body]
fn xchacha_open(key: &[u8; 32], nonce: &[u8], ciphertext: &[u8]) -> (r: Option<Vec<u8>>)
    requires
        nonce@.len() == NONCE_LEN,
    ensures
        match r {
            Some(p) => aead_open(key@, nonce@, ciphertext@) == Some(p@),
            None => aead_open(key@, nonce@, ciphertext@) is None,
        },
{
    let cipher = XChaCha20Poly1305::new(key.into());
    match cipher.decrypt(XNonce::from_slice(nonce), ciphertext) {
        Ok(plaintext) => Some(plaintext),
        Err(_) => None,
    }
}

/// Calls `SaltString::encode_b64` and `Argon2::default().hash_password`, and
/// takes the bytes of the hash. The contract claims that the result is the
/// named `argon2_hash`, that a hash has the default output length of 32
/// bytes, and that there is one whenever the salt has 8 to 48 bytes and the
/// password at most `0xFFFF_FFFF` bytes: `encode_b64` accepts salts of up to
/// 64 base64 characters (48 bytes), and `hash_password` fails only on a
/// password over `MAX_PWD_LEN`, a salt under `MIN_SALT_LEN` (8 bytes) or over
/// `MAX_SALT_LEN`, or an output length that the default parameters do not
/// give. Turning a salt of fewer than 3 bytes (under 4 base64 characters)
/// into a `Salt` panics in `SaltString::as_salt`, which the precondition
/// excludes.
#[verifier::external_body]
fn argon2_default_hash(password: &[u8], salt: &[u8]) -> (r: Option<Vec<u8>>)
    requires
        salt@.len() >= 3,
    ensures
        match r {
            Some(h) => argon2_hash(password@, salt@) == Some(h@) && h@.len() == KEY_LEN,
            None => argon2_hash(password@, salt@) is None,
        },
        8 <= salt@.len() <= 48 && password@.len() <= 0xFFFF_FFFF ==> r is Some,
{
    let salt = match SaltString::encode_b64(salt) {
        Ok(salt) => salt,
        Err(_) => return None,
    };
    match Argon2::default().hash_password(password, &salt) {
        Ok(hash) => match hash.hash {
            Some(output) => Some(output.as_bytes().to_vec()),
            None => None,
        },
        Err(_) => None,
    }
}

/// Calls `Zeroize::zeroize` on `bytes`, which overwrites them with zeros and
/// leaves the vector empty.
#[verifier::external_body]
pub(crate) fn wipe_bytes(bytes: &mut Vec<u8>)
    ensures
        final(bytes)@.len() == 0,
{
    bytes.zeroize();
}

// ---------------------------------------------------------------------------
// Specification
// ---------------------------------------------------------------------------

/// The view of an optional byte vector.
pub open spec fn bytes_option_view(v: Option<Vec<u8>>) -> Option<Seq<u8>> {
    match v {
        Some(b) => Some(b@),
        None => None,
    }
}

/// The key of the first 32 bytes of a hash, when it has that many.
pub open spec fn key_from_hash_spec(hash: Option<Seq<u8>>) -> Result<Seq<u8>, SecretHubError> {
    match hash {
        None => Err(SecretHubError::Crypto),
        Some(h) => if h.len() < KEY_LEN {
            Err(SecretHubError::Crypto)
        } else {
            Ok(h.take(KEY_LEN as int))
        },
    }
}

/// The key that `derive_key` derives from a password and a base64 salt.
pub open spec fn derive_key_spec(password: Seq<char>, salt_b64: Seq<char>) -> Result<
    Seq<u8>,
    SecretHubError,
> {
    match base64_decode(salt_b64) {
        None => Err(SecretHubError::InvalidPassword),
        Some(salt) => if salt.len() < 3 {
            Err(SecretHubError::Crypto)
        } else {
            key_from_hash_spec(argon2_hash(vstd::utf8::encode_utf8(password), salt))
        },
    }
}

/// Whether `salt_b64` is the base64 text of 8 to 48 bytes and `password`
/// has at most `0xFFFF_FFFF` bytes in UTF-8: then Argon2 derives a key.
pub open spec fn derive_fits(password: Seq<char>, salt_b64: Seq<char>) -> bool {
    &&& base64_decode(salt_b64) matches Some(salt)
    &&& 8 <= salt.len() <= 48
    &&& vstd::utf8::encode_utf8(password).len() <= 0xFFFF_FFFF
}

/// The key that a base64 text stands for, when it decodes to 32 bytes.
pub open spec fn decode_key_spec(text: Seq<char>) -> Result<Seq<u8>, SecretHubError> {
    match base64_decode(text) {
        Some(bytes) => if bytes.len() == KEY_LEN {
            Ok(bytes)
        } else {
            Err(SecretHubError::Crypto)
        },
        None => Err(SecretHubError::Crypto),
    }
}

/// What `decrypt_bytes` gives for a key and a payload's nonce and
/// ciphertext texts.
pub open spec fn decrypt_spec(key: Seq<u8>, nonce: Seq<char>, ciphertext: Seq<char>) -> Result<
    Seq<u8>,
    SecretHubError,
> {
    match base64_decode(nonce) {
        None => Err(SecretHubError::Crypto),
        Some(n) => match base64_decode(ciphertext) {
            None => Err(SecretHubError::Crypto),
            Some(c) => if n.len() != NONCE_LEN {
                Err(SecretHubError::Crypto)
            } else {
                match aead_open(key, n, c) {
                    Some(p) => Ok(p),
                    None => Err(SecretHubError::InvalidPassword),
                }
            },
        },
    }
}

/// Whether `payload` is the version 1 sealing of `plaintext` under `key`
/// with `nonce`: both in base64.
pub open spec fn sealed_with(payload: EncryptedPayload, key: Seq<u8>, nonce: Seq<u8>, plaintext: Seq<
    u8,
>) -> bool {
    &&& payload.version == 1
    &&& payload.nonce@ == base64_encode(nonce)
    &&& payload.ciphertext@ == base64_encode(aead_seal(key, nonce, plaintext))
}

/// Whether `payload` is a version 1 sealing of `plaintext` under `key` with
/// some 24-byte nonce, its ciphertext 16 bytes (the tag) longer than the
/// plaintext, and both texts decoding back to those bytes.
pub open spec fn seals(payload: EncryptedPayload, key: Seq<u8>, plaintext: Seq<u8>) -> bool {
    exists|n: Seq<u8>|
        #![trigger base64_encode(n)]
        {
            &&& n.len() == NONCE_LEN
            &&& sealed_with(payload, key, n, plaintext)
            &&& aead_seal(key, n, plaintext).len() == plaintext.len() + 16
            &&& base64_decode(payload.nonce@) == Some(n)
            &&& base64_decode(payload.ciphertext@) == Some(aead_seal(key, n, plaintext))
        }
}

/// Whether a plaintext of `len` bytes fits the cipher: fewer than
/// `u32::MAX` blocks of 64 bytes.
pub open spec fn fits_cipher(len: nat) -> bool {
    len / 64 < 0xFFFF_FFFF
}

// ---------------------------------------------------------------------------
// Keys and salts
// ---------------------------------------------------------------------------

/// Copies the first 32 bytes of `bytes` into a key.
fn key_prefix(bytes: &Vec<u8>) -> (key: [u8; 32])
    requires
        bytes@.len() >= KEY_LEN,
    ensures
        key@ == bytes@.take(KEY_LEN as int),
{
    let mut key = [0u8; 32];
    let mut i: usize = 0;
    while i < KEY_LEN
        invariant
            i <= KEY_LEN <= bytes@.len(),
            key@.len() == KEY_LEN,
            forall|j: int| 0 <= j < i ==> key@[j] == bytes@[j],
        decreases KEY_LEN - i,
    {
        key[i] = bytes[i];
        i = i + 1;
    }
    assert(key@ =~= bytes@.take(KEY_LEN as int));
    key
}

/// A fresh random 32-byte key.
///
/// Fails with `Crypto` when the operating system's random source fails.
pub fn random_key() -> (r: HubResult<[u8; 32]>)
    ensures
        r matches Err(e) ==> e is Crypto,
{
    let mut key = [0u8; 32];
    if !fill_random(&mut key) {
        return Err(SecretHubError::Crypto);
    }
    Ok(key)
}

/// The base64 text of the 16 salt bytes `bytes`.
pub fn salt_from_bytes(bytes: &[u8; 16]) -> (s: String)
    ensures
        s@ == base64_encode(bytes@),
        base64_decode(s@) == Some(bytes@),
{
    b64_encode(bytes.as_slice())
}

/// A fresh random 16-byte salt in base64.
///
/// Fails with `Crypto` when the operating system's random source fails.
pub fn random_salt() -> (r: HubResult<String>)
    ensures
        match r {
            Ok(s) => exists|b: Seq<u8>|
                #![trigger base64_encode(b)]
                b.len() == 16 && s@ == base64_encode(b) && base64_decode(s@) == Some(b),
            Err(e) => e is Crypto,
        },
{
    let mut bytes = [0u8; 16];
    if !fill_random(&mut bytes) {
        return Err(SecretHubError::Crypto);
    }
    let salt = salt_from_bytes(&bytes);
    assert(salt@ == base64_encode(bytes@));
    Ok(salt)
}

/// A fresh random 24-byte nonce.
///
/// Fails with `Crypto` when the operating system's random source fails.
pub fn random_nonce() -> (r: HubResult<[u8; 24]>)
    ensures
        r matches Err(e) ==> e is Crypto,
{
    let mut nonce = [0u8; 24];
    if !fill_random(&mut nonce) {
        return Err(SecretHubError::Crypto);
    }
    Ok(nonce)
}

/// The key of the first 32 bytes of a password hash: `Crypto` when there is
/// no hash or it is shorter.
pub fn key_from_hash(hash: Option<Vec<u8>>) -> (r: HubResult<[u8; 32]>)
    ensures
        match (r, key_from_hash_spec(bytes_option_view(hash))) {
            (Ok(k), Ok(s)) => k@ == s,
            (Err(e), Err(s)) => e == s,
            _ => false,
        },
{
    match hash {
        None => Err(SecretHubError::Crypto),
        Some(bytes) => {
            if bytes.len() < KEY_LEN {
                return Err(SecretHubError::Crypto);
            }
            Ok(key_prefix(&bytes))
        },
    }
}

/// Derives a 32-byte key from a password and a base64 salt with Argon2id.
///
/// A salt that is not base64 gives `InvalidPassword`. A salt of fewer than 3
/// bytes, which the password-hash crate cannot hold, and a failed hash give
/// `Crypto`. A salt of 8 to 48 bytes with a password of at most
/// `0xFFFF_FFFF` bytes always gives a key.
pub fn derive_key(password: &str, salt_b64: &str) -> (r: HubResult<[u8; 32]>)
    ensures
        match (r, derive_key_spec(password@, salt_b64@)) {
            (Ok(k), Ok(s)) => k@ == s,
            (Err(e), Err(s)) => e == s,
            _ => false,
        },
        derive_fits(password@, salt_b64@) ==> r is Ok,
{
    let salt = match b64_decode(salt_b64) {
        Some(salt) => salt,
        None => return Err(SecretHubError::InvalidPassword),
    };
    if salt.len() < 3 {
        return Err(SecretHubError::Crypto);
    }
    let hash = argon2_default_hash(password.as_bytes(), salt.as_slice());
    key_from_hash(hash)
}

/// The base64 text of a key.
pub fn encode_key(key: &[u8; 32]) -> (text: String)
    ensures
        text@ == base64_encode(key@),
        decode_key_spec(text@) == Ok::<_, SecretHubError>(key@),
        trim(text@) == text@,
{
    let text = b64_encode(key.as_slice());
    proof {
        if text@.len() > 0 {
            assert(is_base64_char(text@[0]));
            assert(is_base64_char(text@[text@.len() - 1]));
        }
    }
    text
}

/// The key that a base64 text stands for.
///
/// Fails with `Crypto` when the text is not base64 or does not decode to
/// exactly 32 bytes. The decoded bytes are wiped before returning.
pub fn decode_key(value: &str) -> (r: HubResult<[u8; 32]>)
    ensures
        match (r, decode_key_spec(value@)) {
            (Ok(k), Ok(s)) => k@ == s,
            (Err(e), Err(s)) => e == s,
            _ => false,
        },
{
    let mut decoded = match b64_decode(value) {
        Some(decoded) => decoded,
        None => return Err(SecretHubError::Crypto),
    };
    if decoded.len() != KEY_LEN {
        wipe_bytes(&mut decoded);
        return Err(SecretHubError::Crypto);
    }
    let key = key_prefix(&decoded);
    assert(decoded@.take(KEY_LEN as int) =~= decoded@);
    wipe_bytes(&mut decoded);
    Ok(key)
}

// ---------------------------------------------------------------------------
// Encryption
// ---------------------------------------------------------------------------

/// Seals `plaintext` under `key` with `nonce`.
///
/// Fails with `Crypto` exactly when the plaintext is too long for the
/// cipher. What is sealed opens again: `decrypt_bytes` with the same key
/// gives `plaintext` back.
pub fn seal_with_nonce(key: &[u8; 32], nonce: &[u8; 24], plaintext: &[u8]) -> (r: HubResult<
    EncryptedPayload,
>)
    requires
        plaintext@.len() <= usize::MAX / 2 - 16,
    ensures
        match r {
            Ok(p) => {
                &&& fits_cipher(plaintext@.len())
                &&& sealed_with(p, key@, nonce@, plaintext@)
                &&& aead_seal(key@, nonce@, plaintext@).len() == plaintext@.len() + 16
                &&& base64_decode(p.nonce@) == Some(nonce@)
                &&& base64_decode(p.ciphertext@) == Some(aead_seal(key@, nonce@, plaintext@))
                &&& decrypt_spec(key@, p.nonce@, p.ciphertext@) == Ok::<_, SecretHubError>(
                    plaintext@,
                )
            },
            Err(e) => !fits_cipher(plaintext@.len()) && e is Crypto,
        },
{
    let ciphertext = match xchacha_seal(key, nonce.as_slice(), plaintext) {
        Some(c) => c,
        None => return Err(SecretHubError::Crypto),
    };
    let payload = EncryptedPayload {
        version: 1,
        nonce: b64_encode(nonce.as_slice()),
        ciphertext: b64_encode(ciphertext.as_slice()),
    };
    Ok(payload)
}

/// Seals `plaintext` under `key` with a fresh random nonce (see
/// `seal_with_nonce`).
///
/// Fails with `Crypto` when the random source fails or the plaintext is too
/// long for the cipher. What is sealed opens again: `decrypt_bytes` with the
/// same key gives `plaintext` back.
pub fn encrypt_bytes(key: &[u8; 32], plaintext: &[u8]) -> (r: HubResult<EncryptedPayload>)
    requires
        plaintext@.len() <= usize::MAX / 2 - 16,
    ensures
        match r {
            Ok(p) => fits_cipher(plaintext@.len()) && seals(p, key@, plaintext@) && decrypt_spec(
                key@,
                p.nonce@,
                p.ciphertext@,
            ) == Ok::<_, SecretHubError>(plaintext@),
            Err(e) => e is Crypto,
        },
{
    let nonce = match random_nonce() {
        Ok(n) => n,
        Err(e) => return Err(e),
    };
    let r = seal_with_nonce(key, &nonce, plaintext);
    if let Ok(p) = &r {
        assert(base64_encode(nonce@) == p.nonce@);
    }
    r
}

/// Opens a payload with `key`.
///
/// A nonce or ciphertext that is not base64 gives `Crypto`; so does a nonce
/// that does not decode to 24 bytes, which the cipher cannot take. A
/// ciphertext that does not authenticate under the key gives
/// `InvalidPassword`.
pub fn decrypt_bytes(key: &[u8; 32], payload: &EncryptedPayload) -> (r: HubResult<Vec<u8>>)
    ensures
        match (r, decrypt_spec(key@, payload.nonce@, payload.ciphertext@)) {
            (Ok(p), Ok(s)) => p@ == s,
            (Err(e), Err(s)) => e == s,
            _ => false,
        },
{
    let nonce = match b64_decode(payload.nonce.as_str()) {
        Some(n) => n,
        None => return Err(SecretHubError::Crypto),
    };
    let ciphertext = match b64_decode(payload.ciphertext.as_str()) {
        Some(c) => c,
        None => return Err(SecretHubError::Crypto),
    };
    if nonce.len() != NONCE_LEN {
        return Err(SecretHubError::Crypto);
    }
    match xchacha_open(key, nonce.as_slice(), ciphertext.as_slice()) {
        Some(p) => Ok(p),
        None => Err(SecretHubError::InvalidPassword),
    }
}

} // verus!
