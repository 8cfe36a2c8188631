//! Decisions of the API-key service's request handlers: request checks,
//! the fields of new records, bearer-token extraction and key validation.
use vstd::prelude::*;
use vstd::utf8::encode_utf8;
use crate::keys::auth::{
    api_key_digest, api_key_matches, generate_api_key, hash_api_key, is_ascii_alphanumeric, password_check,
    verify_password, verify_api_key, API_KEY_RANDOM_LEN, AuthError,
};
use crate::keys::models::{
    ApiKey, AppError, CreateKeyRequest, CreatedKey, RegisterRequest, User, ValidatedKey,
};
use crate::text::{lemma_seq_lt_is_lexicographic, seq_lt, sorts_before, str_lt, utf8_len_at_least};

verus! {

/// The environment of a key whose creation request names none.
pub fn default_env() -> (r: String)
    ensures
        r@ == "live"@,
{
    "live".to_owned()
}

/// A key creation request must name the key.
pub fn check_create_request(req: &CreateKeyRequest) -> (r: Result<(), AppError>)
    ensures
        match r {
            Ok(()) => req.name@.len() > 0,
            Err(AppError::BadRequest(m)) => req.name@.len() == 0 && m@ == "name is required"@,
            Err(_) => false,
        },
{
    if req.name.as_str().is_empty() {
        return Err(AppError::BadRequest("name is required".to_owned()));
    }
    Ok(())
}

/// Number of leading characters of a key kept as its lookup prefix.
pub const KEY_PREFIX_LEN: usize = 12;

/// The lookup prefix of a key: its first 12 characters (all of a shorter key).
pub fn key_prefix(secret: &str) -> (r: String)
    ensures
        secret@.len() >= KEY_PREFIX_LEN ==> r@ == secret@.take(KEY_PREFIX_LEN as int),
        secret@.len() < KEY_PREFIX_LEN ==> r@ == secret@,
{
    let n = secret.unicode_len();
    let k = if n < KEY_PREFIX_LEN { n } else { KEY_PREFIX_LEN };
    let r = secret.substring_char(0, k).to_owned();
    assert(secret@.len() < KEY_PREFIX_LEN ==> secret@.subrange(0, k as int) =~= secret@);
    r
}

/// The last four characters of a key (all of a shorter key).
pub fn key_last_four(secret: &str) -> (r: String)
    ensures
        secret@.len() >= 4 ==> r@ == secret@.skip(secret@.len() - 4),
        secret@.len() < 4 ==> r@ == secret@,
{
    let n = secret.unicode_len();
    let k = if n < 4 { 0 } else { n - 4 };
    let r = secret.substring_char(k, n).to_owned();
    assert(secret@.subrange(k as int, n as int) =~= secret@.skip(k as int));
    assert(secret@.len() < 4 ==> secret@.skip(0) =~= secret@);
    r
}

/// The record of a newly created key: active, its own lineage, never used,
/// not revoked, with the prefix and last four characters of the secret.
pub fn new_key_record(
    id: String,
    user_id: String,
    req: CreateKeyRequest,
    key_hash: String,
    secret: &str,
    created_at: String,
) -> (k: ApiKey)
    ensures
        k.id == id,
        k.user_id == user_id,
        k.name == req.name,
        k.key_hash == key_hash,
        k.prefix@ == (if secret@.len() >= KEY_PREFIX_LEN { secret@.take(KEY_PREFIX_LEN as int) } else { secret@ }),
        k.last_four@ == (if secret@.len() >= 4 { secret@.skip(secret@.len() - 4) } else { secret@ }),
        k.environment == req.environment,
        k.status@ == "active"@,
        k.lineage_id == id,
        k.created_at == created_at,
        k.expires_at == req.expires_at,
        k.last_used_at is None,
        k.revoked_at is None,
{
    let lineage_id = id.clone();
    ApiKey {
        id,
        user_id,
        name: req.name,
        key_hash,
        prefix: key_prefix(secret),
        last_four: key_last_four(secret),
        environment: req.environment,
        status: "active".to_owned(),
        lineage_id,
        created_at,
        expires_at: req.expires_at,
        last_used_at: None,
        revoked_at: None,
    }
}

/// A new key for a creation request: the request must name the key; the
/// secret is a fresh key of the request's environment, stored only as its
/// hash under `pepper`; the record is that of `new_key_record`.
pub fn prepare_created_key(
    req: CreateKeyRequest,
    id: String,
    user_id: String,
    pepper: &str,
    created_at: String,
) -> (r: Result<CreatedKey, AppError>)
    ensures
        match r {
            Err(AppError::BadRequest(m)) => req.name@.len() == 0 && m@ == "name is required"@,
            Err(_) => false,
            Ok(ck) => req.name@.len() > 0 && {
                let secret = ck.secret@;
                let k = ck.key;
                &&& exists|random: Seq<char>|
                    #![trigger random.len()]
                    random.len() == API_KEY_RANDOM_LEN && (forall|i: int|
                        0 <= i < random.len() ==> is_ascii_alphanumeric(#[trigger] random[i])) && secret
                        == "la_"@ + req.environment@ + "_"@ + random
                &&& k.id == id && k.user_id == user_id && k.name == req.name
                &&& k.key_hash@ == api_key_digest(secret, pepper@)
                &&& k.prefix@ == (if secret.len() >= KEY_PREFIX_LEN {
                    secret.take(KEY_PREFIX_LEN as int)
                } else {
                    secret
                })
                &&& k.last_four@ == (if secret.len() >= 4 { secret.skip(secret.len() - 4) } else { secret })
                &&& k.environment == req.environment && k.status@ == "active"@ && k.lineage_id == id
                &&& k.created_at == created_at && k.expires_at == req.expires_at
                &&& k.last_used_at is None && k.revoked_at is None
            },
        },
{
    check_create_request(&req)?;
    let secret = generate_api_key(req.environment.as_str());
    let key_hash = match hash_api_key(secret.as_str(), pepper) {
        Ok(h) => h,
        Err(_) => return Err(AppError::Internal("key hashing failed".to_owned())),
    };
    let key = new_key_record(id, user_id, req, key_hash, secret.as_str(), created_at);
    Ok(CreatedKey { key, secret })
}

/// The outcome of a login attempt once the user is found: the password must
/// verify against the stored hash; a stored hash that does not parse is an
/// internal error.
pub fn check_login(password: &str, user: &User) -> (r: Result<(), AppError>)
    ensures
        match password_check(password@, user.password_hash@) {
            Ok(true) => r is Ok,
            Ok(false) => r matches Err(AppError::Unauthorized),
            Err(_) => r matches Err(AppError::Internal(_)),
        },
{
    match verify_password(password, user.password_hash.as_str()) {
        Ok(true) => Ok(()),
        Ok(false) => Err(AppError::Unauthorized),
        Err(_) => Err(AppError::Internal("invalid password hash".to_owned())),
    }
}

/// The token of a header value `Bearer <token>`.
pub open spec fn bearer_token_of(header_value: Seq<char>) -> Option<Seq<char>> {
    if header_value.len() >= 7 && header_value.take(7) == "Bearer "@ {
        Some(header_value.skip(7))
    } else {
        None
    }
}

/// The token of an `Authorization` header value of the form `Bearer <token>`.
pub fn bearer_token(header_value: &str) -> (r: Option<&str>)
    ensures
        match r {
            Some(t) => bearer_token_of(header_value@) == Some(t@),
            None => bearer_token_of(header_value@) is None,
        },
{
    proof {
        reveal_strlit("Bearer ");
    }
    let n = header_value.unicode_len();
    if n < 7 {
        return None;
    }
    let head = header_value.substring_char(0, 7);
    if !crate::text::str_eq(head, "Bearer ") {
        return None;
    }
    let t = header_value.substring_char(7, n);
    assert(t@ =~= header_value@.skip(7));
    Some(t)
}

/// A registration needs an e-mail address and a password of at least 8 bytes.
pub fn check_register_request(req: &RegisterRequest) -> (r: Result<(), AppError>)
    ensures
        match r {
            Ok(()) => req.email@.len() > 0 && encode_utf8(req.password@).len() >= 8,
            Err(AppError::BadRequest(m)) => (req.email@.len() == 0 || encode_utf8(req.password@).len() < 8)
                && m@ == "email required and password must be \u{2265}8 chars"@,
            Err(_) => false,
        },
{
    if req.email.as_str().is_empty() || !utf8_len_at_least(req.password.as_str(), 8) {
        return Err(AppError::BadRequest("email required and password must be \u{2265}8 chars".to_owned()));
    }
    Ok(())
}

/// The record of a newly registered user, on the free tier.
pub fn new_user_record(
    id: String,
    req: &RegisterRequest,
    password_hash: String,
    created_at: String,
    updated_at: String,
) -> (u: User)
    ensures
        u.id == id,
        u.email == req.email,
        u.name == req.name,
        u.password_hash == password_hash,
        u.tier@ == "free"@,
        u.created_at == created_at,
        u.updated_at == updated_at,
{
    User {
        id,
        email: req.email.clone(),
        name: req.name.clone(),
        password_hash,
        tier: "free".to_owned(),
        created_at,
        updated_at,
    }
}

/// A stored active key whose prefix matches the presented key.
#[derive(Debug, Clone)]
pub struct KeyCandidate {
    pub id: String,
    pub user_id: String,
    pub key_hash: String,
    pub environment: String,
    pub expires_at: Option<String>,
}

/// The first candidate whose hash the presented key matches.
pub open spec fn first_key_match(cands: Seq<KeyCandidate>, raw_key: Seq<char>, pepper: Seq<char>) -> Option<KeyCandidate>
    decreases cands.len(),
{
    if cands.len() == 0 {
        None
    } else if api_key_matches(raw_key, pepper, cands[0].key_hash@) {
        Some(cands[0])
    } else {
        first_key_match(cands.skip(1), raw_key, pepper)
    }
}

/// A key is expired when its expiry sorts before `now`.
pub open spec fn key_expired(c: KeyCandidate, now: Seq<char>) -> bool {
    match c.expires_at {
        Some(e) => seq_lt(e@, now),
        None => false,
    }
}

/// A key is expired exactly when it has an expiry and that whole expiry
/// string sorts strictly before `now` (lexicographically by code point, as
/// `String`'s `<`); a key without an expiry never expires.
pub proof fn lemma_key_expired_iff_expiry_before_now(c: KeyCandidate, now: Seq<char>)
    ensures
        key_expired(c, now) <==> (c.expires_at matches Some(e) && sorts_before(e@, now)),
{
    match c.expires_at {
        Some(e) => lemma_seq_lt_is_lexicographic(e@, now),
        None => {},
    }
}

/// Validates a presented key against the stored candidates: the first
/// candidate whose hash it matches decides; an expired match, or no match,
/// is unauthorized. (The caller records the use of a key that validates.)
pub fn select_validated_key(
    candidates: &Vec<KeyCandidate>,
    raw_key: &str,
    pepper: &str,
    now: &str,
) -> (r: Result<ValidatedKey, AppError>)
    ensures
        match first_key_match(candidates@, raw_key@, pepper@) {
            None => r matches Err(AppError::Unauthorized),
            Some(c) => if key_expired(c, now@) {
                r matches Err(AppError::Unauthorized)
            } else {
                r matches Ok(v) && v.key_id == c.id && v.user_id == c.user_id && v.environment
                    == c.environment
            },
        },
{
    let mut i: usize = 0;
    assert(candidates@.skip(0) =~= candidates@);
    while i < candidates.len()
        invariant
            i <= candidates@.len(),
            first_key_match(candidates@, raw_key@, pepper@) == first_key_match(
                candidates@.skip(i as int),
                raw_key@,
                pepper@,
            ),
        decreases candidates@.len() - i,
    {
        assert(candidates@.skip(i as int)[0] == candidates@[i as int]);
        assert(candidates@.skip(i as int).skip(1) =~= candidates@.skip(i + 1));
        let c = &candidates[i];
        let matched = match verify_api_key(raw_key, pepper, c.key_hash.as_str()) {
            Ok(b) => b,
            Err(_) => false,
        };
        if matched {
            match &c.expires_at {
                Some(exp) => {
                    if str_lt(exp.as_str(), now) {
                        return Err(AppError::Unauthorized);
                    }
                },
                None => {},
            }
            return Ok(
                ValidatedKey {
                    key_id: c.id.clone(),
                    user_id: c.user_id.clone(),
                    environment: c.environment.clone(),
                },
            );
        }
        i += 1;
    }
    Err(AppError::Unauthorized)
}

/// A key whose record was made with the hash of its secret, that does not
/// expire and that is the first candidate it matches, validates as that key.
pub proof fn lemma_created_key_validates(
    candidates: Seq<KeyCandidate>,
    secret: Seq<char>,
    pepper: Seq<char>,
    now: Seq<char>,
    i: int,
)
    requires
        0 <= i < candidates.len(),
        candidates[i].key_hash@ == crate::keys::auth::api_key_digest(secret, pepper),
        candidates[i].expires_at is None,
        forall|j: int| 0 <= j < i ==> !api_key_matches(secret, pepper, #[trigger] candidates[j].key_hash@),
    ensures
        first_key_match(candidates, secret, pepper) == Some(candidates[i]),
        !key_expired(candidates[i], now),
    decreases i,
{
    if i > 0 {
        assert(candidates.skip(1)[i - 1] == candidates[i]);
        assert forall|j: int| 0 <= j < i - 1 implies !api_key_matches(secret, pepper, #[trigger] candidates.skip(1)[j].key_hash@) by {
            assert(candidates.skip(1)[j] == candidates[j + 1]);
        }
        lemma_created_key_validates(candidates.skip(1), secret, pepper, now, i - 1);
        assert(!api_key_matches(secret, pepper, candidates[0].key_hash@));
    }
}

} // verus!
