//! Key hashing (HMAC-SHA256, hex), key generation, password hashing
//! (Argon2) and token expiry.
use vstd::prelude::*;
use vstd::utf8::encode_utf8;
use hmac::{Hmac, Mac};
use sha2::Sha256;
use argon2::password_hash::{PasswordHash, PasswordHasher, PasswordVerifier, SaltString};
use argon2::Argon2;
use rand::Rng;

verus! {

// ── Outside computations ─────────────────────────────────────────────────────

/// The HMAC-SHA256 tag of `message` under `key`.
pub uninterp spec fn hmac_sha256_tag(key: Seq<u8>, message: Seq<u8>) -> Seq<u8>;

/// `hmac::Hmac::<sha2::Sha256>`: `new_from_slice`, `update`, `finalize`.
/// Claims the result is the HMAC-SHA256 tag of `message` under `key`, and
/// that a key of any length is accepted (`new_from_slice` of the HMAC core
/// always returns `Ok`, hashing keys longer than a block).
#[verifier::external_body]
fn hmac_sha256(key: &[u8], message: &[u8]) -> (tag: Option<Vec<u8>>)
    ensures
        tag is Some,
        tag matches Some(t) ==> t@ == hmac_sha256_tag(key@, message@),
{
    match <Hmac<Sha256> as Mac>::new_from_slice(key) {
        Ok(mut mac) => {
            mac.update(message);
            Some(mac.finalize().into_bytes().to_vec())
        },
        Err(_) => None,
    }
}

/// The lower-case hex digit of a value below 16.
pub open spec fn hex_digit(n: u8) -> char {
    if n < 10 {
        (48 + n) as char
    } else {
        (87 + n) as char
    }
}

/// Lower-case hex encoding: two digits per byte, high nibble first.
pub open spec fn hex_lower(bytes: Seq<u8>) -> Seq<char>
    decreases bytes.len(),
{
    if bytes.len() == 0 {
        Seq::empty()
    } else {
        seq![hex_digit(bytes[0] / 16), hex_digit(bytes[0] % 16)] + hex_lower(bytes.skip(1))
    }
}

/// `hex::encode`: claims the result is the lower-case hex encoding of the
/// bytes (table `"0123456789abcdef"`, high nibble first).
#[verifier::external_body]
fn hex_encode(bytes: &[u8]) -> (s: String)
    ensures
        s@ == hex_lower(bytes@),
{
    hex::encode(bytes)
}

/// `rand::thread_rng().sample_iter(rand::distributions::Alphanumeric)`:
/// claims `len` characters, each an ASCII letter or digit. Which ones is
/// left to chance and not stated.
#[verifier::external_body]
fn random_alphanumeric(len: usize) -> (s: String)
    ensures
        s@.len() == len,
        forall|i: int| 0 <= i < len ==> is_ascii_alphanumeric(#[trigger] s@[i]),
{
    rand::thread_rng().sample_iter(rand::distributions::Alphanumeric).take(len).map(char::from).collect()
}

/// Whether `phc` parses as a PHC password-hash string.
pub uninterp spec fn phc_well_formed(phc: Seq<char>) -> bool;

/// Whether Argon2 verification of `password` against the PHC string `phc`
/// succeeds.
pub uninterp spec fn argon2_accepts(password: Seq<u8>, phc: Seq<char>) -> bool;

/// `argon2::Argon2::default().hash_password` with a fresh
/// `SaltString::generate(&mut OsRng)`, rendered with `to_string`. The salt
/// is random, so only what holds of every outcome is claimed: a hash that
/// comes back is a well-formed PHC string that verifies against `password`
/// (the crate's documented hash-then-verify usage). Hashing fails only on a
/// password of more than `u32::MAX` bytes (`verify_inputs`; the generated
/// 16-byte salt and the default parameters always pass).
#[verifier::external_body]
fn argon2_hash(password: &[u8]) -> (h: Option<String>)
    ensures
        password@.len() <= u32::MAX ==> h is Some,
        h matches Some(s) ==> phc_well_formed(s@) && argon2_accepts(password@, s@),
{
    let salt = SaltString::generate(&mut argon2::password_hash::rand_core::OsRng);
    match Argon2::default().hash_password(password, &salt) {
        Ok(hash) => Some(hash.to_string()),
        Err(_) => None,
    }
}

/// `argon2::password_hash::PasswordHash::new` followed by
/// `Argon2::default().verify_password(..).is_ok()`: `None` when `phc` does
/// not parse, else whether verification succeeds.
#[verifier::external_body]
fn argon2_verify(password: &[u8], phc: &str) -> (r: Option<bool>)
    ensures
        r is Some <==> phc_well_formed(phc@),
        r matches Some(b) ==> b == argon2_accepts(password@, phc@),
{
    match PasswordHash::new(phc) {
        Ok(parsed) => Some(Argon2::default().verify_password(password, &parsed).is_ok()),
        Err(_) => None,
    }
}

// ── Key hashing ──────────────────────────────────────────────────────────────

/// Errors of key and password handling.
#[derive(Debug, PartialEq)]
pub enum AuthError {
    /// The pepper was refused as an HMAC key.
    InvalidPepper,
    /// Hashing a password failed.
    PasswordHashFailed,
    /// A stored password hash is not a valid PHC string.
    InvalidPasswordHash,
}

/// The stored hash of an API key: lower-case hex of HMAC-SHA256 of the key's
/// UTF-8 bytes, keyed with the pepper's UTF-8 bytes.
pub open spec fn api_key_digest(key: Seq<char>, pepper: Seq<char>) -> Seq<char> {
    hex_lower(hmac_sha256_tag(encode_utf8(pepper), encode_utf8(key)))
}

/// Hashes an API key with the server pepper. Never fails.
pub fn hash_api_key(key: &str, pepper: &str) -> (r: Result<String, AuthError>)
    ensures
        r matches Ok(h) && h@ == api_key_digest(key@, pepper@),
{
    match hmac_sha256(pepper.as_bytes(), key.as_bytes()) {
        Some(tag) => Ok(hex_encode(tag.as_slice())),
        None => Err(AuthError::InvalidPepper),
    }
}

/// Whether `key` hashes, under `pepper`, to `stored_hash`.
pub open spec fn api_key_matches(key: Seq<char>, pepper: Seq<char>, stored_hash: Seq<char>) -> bool {
    api_key_digest(key, pepper) == stored_hash
}

/// Checks an API key against its stored hash. Never fails.
pub fn verify_api_key(key: &str, pepper: &str, stored_hash: &str) -> (r: Result<bool, AuthError>)
    ensures
        r == Ok::<bool, AuthError>(api_key_matches(key@, pepper@, stored_hash@)),
{
    let computed = hash_api_key(key, pepper)?;
    Ok(crate::text::str_eq(computed.as_str(), stored_hash))
}

/// A key hashed with a pepper verifies against its hash with that pepper.
pub proof fn lemma_hashed_key_verifies(key: Seq<char>, pepper: Seq<char>, stored_hash: Seq<char>)
    requires
        stored_hash == api_key_digest(key, pepper),
    ensures
        api_key_matches(key, pepper, stored_hash),
{
}

// ── Key generation ───────────────────────────────────────────────────────────

/// ASCII letters and digits.
pub open spec fn is_ascii_alphanumeric(c: char) -> bool {
    ||| 0x30 <= (c as u32) <= 0x39
    ||| 0x41 <= (c as u32) <= 0x5A
    ||| 0x61 <= (c as u32) <= 0x7A
}

/// Number of random characters in an API key.
pub const API_KEY_RANDOM_LEN: usize = 32;

/// The API key of an environment and a random part: `la_<env>_<random>`.
pub fn api_key_from_parts(env: &str, random: &str) -> (k: String)
    ensures
        k@ == "la_"@ + env@ + "_"@ + random@,
{
    let mut k = "la_".to_owned();
    k.append(env);
    k.append("_");
    k.append(random);
    k
}

/// A fresh API key for environment `env`: `la_<env>_` followed by 32
/// random ASCII letters and digits.
pub fn generate_api_key(env: &str) -> (k: String)
    ensures
        exists|random: Seq<char>|
            #![trigger random.len()]
            random.len() == API_KEY_RANDOM_LEN && (forall|i: int|
                0 <= i < random.len() ==> is_ascii_alphanumeric(#[trigger] random[i])) && k@ == "la_"@
                + env@ + "_"@ + random,
{
    let random = random_alphanumeric(API_KEY_RANDOM_LEN);
    let k = api_key_from_parts(env, random.as_str());
    assert(random@.len() == API_KEY_RANDOM_LEN);
    k
}

// ── Passwords ────────────────────────────────────────────────────────────────

/// What `hash_password` promises of a hash it returns for `password`.
pub open spec fn password_hash_made_for(password: Seq<char>, hash: Seq<char>) -> bool {
    phc_well_formed(hash) && argon2_accepts(encode_utf8(password), hash)
}

/// The outcome of checking `password` against the stored string `hash`.
pub open spec fn password_check(password: Seq<char>, hash: Seq<char>) -> Result<bool, AuthError> {
    if phc_well_formed(hash) {
        Ok(argon2_accepts(encode_utf8(password), hash))
    } else {
        Err(AuthError::InvalidPasswordHash)
    }
}

/// Hashes a password with Argon2id (default parameters, random salt) into a
/// PHC string that verifies against the password. It fails only on a
/// password of more than `u32::MAX` bytes.
pub fn hash_password(password: &str) -> (r: Result<String, AuthError>)
    ensures
        encode_utf8(password@).len() <= u32::MAX ==> r is Ok,
        r matches Ok(h) ==> password_hash_made_for(password@, h@),
        r matches Err(e) ==> e == AuthError::PasswordHashFailed,
{
    match argon2_hash(password.as_bytes()) {
        Some(h) => Ok(h),
        None => Err(AuthError::PasswordHashFailed),
    }
}

/// Checks a password against a stored PHC string; an error when the stored
/// string does not parse.
pub fn verify_password(password: &str, hash: &str) -> (r: Result<bool, AuthError>)
    ensures
        r == password_check(password@, hash@),
{
    match argon2_verify(password.as_bytes(), hash) {
        Some(b) => Ok(b),
        None => Err(AuthError::InvalidPasswordHash),
    }
}

/// A password verifies against any hash that `hash_password` made of it.
pub proof fn lemma_hashed_password_verifies(password: Seq<char>, hash: Seq<char>)
    requires
        password_hash_made_for(password, hash),
    ensures
        password_check(password, hash) == Ok::<bool, AuthError>(true),
{
}

// ── Tokens ───────────────────────────────────────────────────────────────────

/// Lifetime of an issued token: seven days, in seconds.
pub const TOKEN_EXPIRY_SECS: u64 = 604800;

/// The expiry (seconds since the epoch) of a token issued at `now_secs`;
/// `None` when it would not fit in `u64`.
pub fn token_expiry(now_secs: u64) -> (r: Option<u64>)
    ensures
        match r {
            Some(e) => e == now_secs + TOKEN_EXPIRY_SECS,
            None => now_secs + TOKEN_EXPIRY_SECS > u64::MAX,
        },
{
    now_secs.checked_add(TOKEN_EXPIRY_SECS)
}

} // verus!
