//! Time-based one-time passwords (RFC 6238 over HMAC-SHA1).
use vstd::prelude::*;
use crate::error::{HubResult, SecretHubError};
use crate::text::{chars_string, str_chars};
use data_encoding::BASE32_NOPAD;
use hmac::{Hmac, Mac};
use sha1::Sha1;
use std::time::{SystemTime, UNIX_EPOCH};

verus! {

// ---------------------------------------------------------------------------
// Outside functions
// ---------------------------------------------------------------------------

/// The HMAC-SHA1 tag of `message` under `key`.
pub uninterp spec fn hmac_sha1(key: Seq<u8>, message: Seq<u8>) -> Seq<u8>;

/// The bytes that `data_encoding::BASE32_NOPAD` decodes `input` to, or
/// `None` when it rejects `input`.
pub uninterp spec fn base32_nopad_decode(input: Seq<u8>) -> Option<Seq<u8>>;

/// Calls `Hmac::<Sha1>::new_from_slice`, `update` and `finalize` of the `hmac`
/// crate. The contract claims that the result is the HMAC-SHA1 tag of
/// `message` under `key` and is 20 bytes long (SHA-1's output size). The key
/// is always accepted: `new_from_slice` of `hmac` 0.12 hashes keys longer than
/// a block and returns `Ok` for every length, so the `expect` never fires.
#[verifier::external_body]
fn hmac_sha1_tag(key: &[u8], message: &[u8]) -> (tag: Vec<u8>)
    ensures
        tag@ == hmac_sha1(key@, message@),
        tag@.len() == 20,
{
    let mut mac = <Hmac<Sha1> as Mac>::new_from_slice(key).expect("HMAC takes keys of any length");
    mac.update(message);
    mac.finalize().into_bytes().to_vec()
}

/// Calls `data_encoding::BASE32_NOPAD.decode`. The contract claims only that
/// the result is what the named function `base32_nopad_decode` gives for the
/// input bytes.
#[verifier::external_body]
fn decode_base32(input: &[u8]) -> (r: Option<Vec<u8>>)
    ensures
        match r {
            Some(v) => base32_nopad_decode(input@) == Some(v@),
            None => base32_nopad_decode(input@) is None,
        },
{
    match BASE32_NOPAD.decode(input) {
        Ok(v) => Some(v),
        Err(_) => None,
    }
}

/// Calls `SystemTime::now().duration_since(UNIX_EPOCH)`: the whole seconds
/// since the Unix epoch, or `None` when the clock is set before it. Nothing
/// is claimed of the value, which is the machine's clock.
#[verifier::external_body]
fn unix_time_secs() -> (r: Option<u64>) {
    match SystemTime::now().duration_since(UNIX_EPOCH) {
        Ok(elapsed) => Some(elapsed.as_secs()),
        Err(_) => None,
    }
}

// ---------------------------------------------------------------------------
// Specification
// ---------------------------------------------------------------------------

/// ASCII whitespace as `char::is_ascii_whitespace` defines it: space, tab,
/// line feed, form feed and carriage return.
pub open spec fn is_ascii_space(c: char) -> bool {
    c == ' ' || c == '\t' || c == '\n' || c == '\x0C' || c == '\r'
}

/// `c` with an ASCII lowercase letter turned uppercase.
pub open spec fn ascii_upper(c: char) -> char {
    if 'a' as u32 <= c as u32 <= 'z' as u32 {
        ((c as u32) - 32) as char
    } else {
        c
    }
}

/// `s` without ASCII whitespace and with ASCII letters uppercased.
pub open spec fn normalize_spec(s: Seq<char>) -> Seq<char>
    decreases s.len(),
{
    if s.len() == 0 {
        seq![]
    } else if is_ascii_space(s[0]) {
        normalize_spec(s.drop_first())
    } else {
        seq![ascii_upper(s[0])] + normalize_spec(s.drop_first())
    }
}

/// `10` to the power `d`.
pub open spec fn pow10(d: nat) -> nat
    decreases d,
{
    if d == 0 {
        1
    } else {
        10 * pow10((d - 1) as nat)
    }
}

/// The decimal digit character of `d < 10`.
pub open spec fn digit_char(d: nat) -> char {
    (('0' as u32) + d) as char
}

/// `n` in decimal, padded with leading zeros to `width` characters (the last
/// `width` digits of `n`).
pub open spec fn decimal_padded(n: nat, width: nat) -> Seq<char>
    decreases width,
{
    if width == 0 {
        seq![]
    } else {
        decimal_padded(n / 10, (width - 1) as nat).push(digit_char(n % 10))
    }
}

/// The eight big-endian bytes of `c`.
pub open spec fn u64_be_bytes(c: u64) -> Seq<u8> {
    seq![
        (c / 0x100000000000000) as u8,
        ((c / 0x1000000000000) % 256) as u8,
        ((c / 0x10000000000) % 256) as u8,
        ((c / 0x100000000) % 256) as u8,
        ((c / 0x1000000) % 256) as u8,
        ((c / 0x10000) % 256) as u8,
        ((c / 0x100) % 256) as u8,
        (c % 256) as u8,
    ]
}

/// The 31-bit number that dynamic truncation takes from a 20-byte tag: four
/// bytes from the offset that the last byte's low nibble names, the top bit
/// cleared.
pub open spec fn truncate_tag(h: Seq<u8>) -> nat {
    let o = (h[19] % 16) as int;
    ((h[o] % 128) * 0x1000000 + h[o + 1] * 0x10000 + h[o + 2] * 0x100 + h[o + 3]) as nat
}

/// The HOTP code for `counter`: the truncated HMAC-SHA1 tag of its
/// big-endian bytes, modulo `10^digits`, as `digits` decimal digits.
pub open spec fn hotp_spec(key: Seq<u8>, counter: u64, digits: u32) -> Seq<char> {
    decimal_padded(
        truncate_tag(hmac_sha1(key, u64_be_bytes(counter))) % pow10(digits as nat),
        digits as nat,
    )
}

/// The number of whole periods of `period` seconds in `now` seconds.
pub open spec fn time_step(now: u64, period: u64) -> u64 {
    (now / period) as u64
}

/// The parameters that code generation accepts.
pub open spec fn valid_totp_params(digits: u32, period: u64) -> bool {
    1 <= digits <= 10 && period > 0
}

/// The HMAC key of a TOTP secret: the base32 decoding of its normalized text.
pub open spec fn totp_key(secret: Seq<char>) -> Option<Seq<u8>> {
    base32_nopad_decode(vstd::utf8::encode_utf8(normalize_spec(secret)))
}

// ---------------------------------------------------------------------------
// Normalization
// ---------------------------------------------------------------------------

/// `c` with an ASCII lowercase letter turned uppercase.
fn to_ascii_upper(c: char) -> (r: char)
    ensures
        r == ascii_upper(c),
{
    if 'a' <= c && c <= 'z' {
        let b = c as u8;
        (b - 32) as char
    } else {
        c
    }
}

/// Removes ASCII whitespace from a TOTP secret and uppercases its ASCII
/// letters.
pub fn normalize_secret(secret: &str) -> (r: String)
    ensures
        r@ == normalize_spec(secret@),
{
    let chars = str_chars(secret);
    let mut out: Vec<char> = Vec::new();
    let mut i: usize = 0;
    assert(chars@.skip(0) =~= chars@);
    while i < chars.len()
        invariant
            i <= chars.len(),
            chars@ == secret@,
            normalize_spec(secret@) == out@ + normalize_spec(chars@.skip(i as int)),
        decreases chars.len() - i,
    {
        let c = chars[i];
        proof {
            assert(chars@.skip(i as int).drop_first() =~= chars@.skip(i + 1));
        }
        if !(c == ' ' || c == '\t' || c == '\n' || c == '\x0C' || c == '\r') {
            let ghost before = out@;
            out.push(to_ascii_upper(c));
            proof {
                assert(before + normalize_spec(chars@.skip(i as int)) =~= out@ + normalize_spec(
                    chars@.skip(i + 1),
                ));
            }
        }
        i = i + 1;
    }
    proof {
        assert(chars@.skip(chars.len() as int) =~= Seq::<char>::empty());
        assert(out@ + Seq::<char>::empty() =~= out@);
    }
    chars_string(&out)
}

proof fn lemma_normalize_chars(s: Seq<char>)
    ensures
        forall|j: int|
            0 <= j < normalize_spec(s).len() ==> !is_ascii_space(#[trigger] normalize_spec(s)[j])
                && ascii_upper(normalize_spec(s)[j]) == normalize_spec(s)[j],
    decreases s.len(),
{
    if s.len() > 0 {
        lemma_normalize_chars(s.drop_first());
        let r = normalize_spec(s.drop_first());
        if !is_ascii_space(s[0]) {
            assert forall|j: int| 0 <= j < normalize_spec(s).len() implies !is_ascii_space(
                #[trigger] normalize_spec(s)[j],
            ) && ascii_upper(normalize_spec(s)[j]) == normalize_spec(s)[j] by {
                if j > 0 {
                    assert(normalize_spec(s)[j] == r[j - 1]);
                }
            }
        }
    }
}

proof fn lemma_normalize_fixed(s: Seq<char>)
    requires
        forall|j: int|
            0 <= j < s.len() ==> !is_ascii_space(#[trigger] s[j]) && ascii_upper(s[j]) == s[j],
    ensures
        normalize_spec(s) == s,
    decreases s.len(),
{
    if s.len() > 0 {
        lemma_normalize_fixed(s.drop_first());
        assert(seq![s[0]] + s.drop_first() =~= s);
    }
}

/// Normalizing a secret twice changes nothing more than normalizing it once.
pub proof fn law_normalize_idempotent(s: Seq<char>)
    ensures
        normalize_spec(normalize_spec(s)) == normalize_spec(s),
{
    lemma_normalize_chars(s);
    lemma_normalize_fixed(normalize_spec(s));
}

// ---------------------------------------------------------------------------
// Codes
// ---------------------------------------------------------------------------

/// The eight big-endian bytes of `c`.
fn be_bytes(c: u64) -> (r: Vec<u8>)
    ensures
        r@ == u64_be_bytes(c),
{
    let mut r: Vec<u8> = Vec::new();
    r.push((c / 0x100000000000000) as u8);
    r.push(((c / 0x1000000000000) % 256) as u8);
    r.push(((c / 0x10000000000) % 256) as u8);
    r.push(((c / 0x100000000) % 256) as u8);
    r.push(((c / 0x1000000) % 256) as u8);
    r.push(((c / 0x10000) % 256) as u8);
    r.push(((c / 0x100) % 256) as u8);
    r.push((c % 256) as u8);
    assert(r@ =~= u64_be_bytes(c));
    r
}

proof fn lemma_pow10_mono(a: nat, b: nat)
    requires
        a <= b,
    ensures
        1 <= pow10(a) <= pow10(b),
    decreases b,
{
    if a < b {
        lemma_pow10_mono(a, (b - 1) as nat);
    } else if a > 0 {
        lemma_pow10_mono((a - 1) as nat, (a - 1) as nat);
    }
}

proof fn lemma_pow10_bounds(d: nat)
    ensures
        pow10(d) >= 1,
        d <= 10 ==> pow10(d) <= 10_000_000_000,
{
    lemma_pow10_mono(d, d);
    if d <= 10 {
        lemma_pow10_mono(d, 10);
        assert(pow10(10) == 10_000_000_000) by {
            reveal_with_fuel(pow10, 11);
        }
    }
}

/// `n` as `width` decimal digits, padded with leading zeros.
fn format_padded(n: u64, width: u32) -> (r: Vec<char>)
    ensures
        r@ == decimal_padded(n as nat, width as nat),
{
    let mut out: Vec<char> = Vec::new();
    let mut x = n;
    let mut j: u32 = 0;
    while j < width
        invariant
            j <= width,
            decimal_padded(n as nat, width as nat) == decimal_padded(x as nat, (width - j) as nat)
                + out@,
        decreases width - j,
    {
        let d = (x % 10) as u8;
        let c = ('0' as u8 + d) as char;
        proof {
            assert(c == digit_char((x % 10) as nat));
            assert(decimal_padded(x as nat, (width - j) as nat) == decimal_padded(
                (x / 10) as nat,
                (width - j - 1) as nat,
            ).push(c));
        }
        let ghost before = out@;
        out.insert(0, c);
        proof {
            assert(decimal_padded((x / 10) as nat, (width - j - 1) as nat).push(c) + before
                =~= decimal_padded((x / 10) as nat, (width - j - 1) as nat) + out@);
        }
        x = x / 10;
        j = j + 1;
    }
    proof {
        assert(decimal_padded(x as nat, 0) + out@ =~= out@);
    }
    out
}

/// Dynamic truncation of a 20-byte tag.
fn truncate(h: &Vec<u8>) -> (r: u64)
    requires
        h@.len() == 20,
    ensures
        r == truncate_tag(h@),
        r < 0x80000000,
{
    let o = (h[19] % 16) as usize;
    ((h[o] % 128) as u64) * 0x1000000 + (h[o + 1] as u64) * 0x10000 + (h[o + 2] as u64) * 0x100
        + (h[o + 3] as u64)
}

/// The HOTP code of `counter` under `key` with `digits` digits.
fn hotp(key: &[u8], counter: u64, digits: u32) -> (r: HubResult<String>)
    requires
        1 <= digits <= 10,
    ensures
        r matches Ok(code) && code@ == hotp_spec(key@, counter, digits),
{
    let message = be_bytes(counter);
    let tag = hmac_sha1_tag(key, message.as_slice());
    let binary = truncate(&tag);
    let mut modulo: u64 = 1;
    let mut i: u32 = 0;
    while i < digits
        invariant
            i <= digits <= 10,
            modulo == pow10(i as nat),
        decreases digits - i,
    {
        proof {
            lemma_pow10_bounds((i + 1) as nat);
        }
        modulo = modulo * 10;
        i = i + 1;
    }
    proof {
        lemma_pow10_bounds(digits as nat);
    }
    let code = format_padded(binary % modulo, digits);
    Ok(chars_string(&code))
}

/// Checks the parameters and decodes the secret into its HMAC key.
fn secret_key(secret: &str, digits: u32, period: u64) -> (r: HubResult<Vec<u8>>)
    ensures
        match r {
            Ok(key) => valid_totp_params(digits, period) && totp_key(secret@) == Some(key@),
            Err(e) => e is InvalidTotpSecret && (!valid_totp_params(digits, period) || totp_key(
                secret@,
            ) is None),
        },
{
    if digits == 0 || digits > 10 || period == 0 {
        return Err(SecretHubError::InvalidTotpSecret);
    }
    let normalized = normalize_secret(secret);
    let bytes = normalized.as_str().as_bytes();
    match decode_base32(bytes) {
        Some(key) => Ok(key),
        None => Err(SecretHubError::InvalidTotpSecret),
    }
}

/// The TOTP code of `secret` at `now` seconds after the Unix epoch: the HOTP
/// code of the time step `now / period`.
///
/// Fails with `InvalidTotpSecret` when `digits` is not within 1 to 10, when
/// `period` is 0, or when the normalized secret is not base32 without
/// padding.
pub fn generate_code_at(secret: &str, digits: u32, period: u64, now: u64) -> (r: HubResult<String>)
    ensures
        match r {
            Ok(code) => valid_totp_params(digits, period) && (totp_key(secret@) matches Some(key)
                && code@ == hotp_spec(key, now / period, digits)),
            Err(e) => e is InvalidTotpSecret && (!valid_totp_params(digits, period) || totp_key(
                secret@,
            ) is None),
        },
{
    let key = secret_key(secret, digits, period)?;
    hotp(key.as_slice(), now / period, digits)
}

/// The current TOTP code of `secret`, read from the machine's clock.
///
/// Fails with `InvalidTotpSecret` as `generate_code_at` does and with `Time`
/// when the clock is set before the Unix epoch.
pub fn generate_code(secret: &str, digits: u32, period: u64) -> (r: HubResult<String>)
    ensures
        match r {
            Ok(code) => valid_totp_params(digits, period) && (totp_key(secret@) matches Some(key)
                && exists|now: u64| code@ == hotp_spec(key, #[trigger] time_step(now, period), digits)),
            Err(e) => (e is InvalidTotpSecret && (!valid_totp_params(digits, period) || totp_key(
                secret@,
            ) is None)) || (e is Time && valid_totp_params(digits, period) && totp_key(
                secret@,
            ) is Some),
        },
{
    if let Err(e) = secret_key(secret, digits, period) {
        return Err(e);
    }
    let now = match unix_time_secs() {
        Some(now) => now,
        None => return Err(SecretHubError::Time),
    };
    let code = generate_code_at(secret, digits, period, now);
    if let Ok(c) = &code {
        assert(c@ == hotp_spec(totp_key(secret@)->0, time_step(now, period), digits));
    }
    code
}

proof fn lemma_decimal_padded(n: nat, width: nat)
    ensures
        decimal_padded(n, width).len() == width,
        forall|j: int|
            0 <= j < width ==> '0' as u32 <= #[trigger] decimal_padded(n, width)[j] as u32 <= '9'
                as u32,
    decreases width,
{
    if width > 0 {
        lemma_decimal_padded(n / 10, (width - 1) as nat);
    }
}

/// A code is exactly `digits` decimal digits long.
pub proof fn law_code_shape(key: Seq<u8>, counter: u64, digits: u32)
    ensures
        hotp_spec(key, counter, digits).len() == digits,
        forall|j: int|
            0 <= j < digits ==> '0' as u32 <= #[trigger] hotp_spec(key, counter, digits)[j] as u32
                <= '9' as u32,
{
    lemma_decimal_padded(
        truncate_tag(hmac_sha1(key, u64_be_bytes(counter))) % pow10(digits as nat),
        digits as nat,
    );
}

} // verus!
