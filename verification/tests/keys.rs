use larc::keys::auth::{
    api_key_from_parts, generate_api_key, hash_api_key, hash_password, token_expiry, verify_api_key,
    verify_password, AuthError, TOKEN_EXPIRY_SECS,
};
use larc::keys::config::{Config, ConfigError, Env};
use larc::keys::handlers::{
    bearer_token, check_create_request, check_login, check_register_request, default_env, key_last_four,
    key_prefix, new_key_record, new_user_record, prepare_created_key, select_validated_key, KeyCandidate,
};
use larc::keys::models::{AppError, CreateKeyRequest, RegisterRequest, User};

#[test]
fn hash_api_key_is_hmac_sha256_hex() {
    // RFC 4231, test case 2: key "Jefe", data "what do ya want for nothing?".
    let h = hash_api_key("what do ya want for nothing?", "Jefe").unwrap();
    assert_eq!(h, "5bdcc146bf60754e6a042426089575c75a003f089d2739839dec58b964ec3843");
}

#[test]
fn verify_api_key_accepts_its_hash_only() {
    let h = hash_api_key("la_live_abc", "pepper").unwrap();
    assert_eq!(verify_api_key("la_live_abc", "pepper", &h), Ok(true));
    assert_eq!(verify_api_key("la_live_abd", "pepper", &h), Ok(false));
    assert_eq!(verify_api_key("la_live_abc", "other", &h), Ok(false));
}

#[test]
fn generated_keys_have_the_documented_shape() {
    let k = generate_api_key("live");
    assert!(k.starts_with("la_live_"));
    assert_eq!(k.len(), "la_live_".len() + 32);
    assert!(k["la_live_".len()..].chars().all(|c| c.is_ascii_alphanumeric()));
    assert_eq!(api_key_from_parts("test", "xyz"), "la_test_xyz");
}

#[test]
fn password_round_trip() {
    let h = hash_password("correct horse").unwrap();
    assert!(h.starts_with("$argon2id$"));
    assert_eq!(verify_password("correct horse", &h), Ok(true));
    assert_eq!(verify_password("wrong horse", &h), Ok(false));
    assert_eq!(verify_password("x", "not a phc string"), Err(AuthError::InvalidPasswordHash));
}

#[test]
fn token_expiry_is_seven_days_later() {
    assert_eq!(TOKEN_EXPIRY_SECS, 7 * 24 * 60 * 60);
    assert_eq!(token_expiry(1_000), Some(1_000 + 604_800));
    assert_eq!(token_expiry(u64::MAX - 10), None);
}

#[test]
fn key_prefix_and_last_four() {
    let secret = "la_live_ABCDEFGHIJKLMNOPQRSTUVWXYZ012345";
    assert_eq!(key_prefix(secret), "la_live_ABCD");
    assert_eq!(key_last_four(secret), "2345");
    assert_eq!(key_prefix("short"), "short");
    assert_eq!(key_last_four("ab"), "ab");
}

#[test]
fn create_request_needs_a_name() {
    let bad = CreateKeyRequest { name: String::new(), environment: default_env(), expires_at: None };
    match check_create_request(&bad) {
        Err(AppError::BadRequest(m)) => assert_eq!(m, "name is required"),
        other => panic!("unexpected {other:?}"),
    }
    let good = CreateKeyRequest { name: "ci".into(), environment: default_env(), expires_at: None };
    assert!(check_create_request(&good).is_ok());
    assert_eq!(default_env(), "live");
}

#[test]
fn new_key_record_is_active_own_lineage() {
    let req = CreateKeyRequest { name: "ci".into(), environment: "live".into(), expires_at: None };
    let secret = "la_live_ABCDEFGHIJKLMNOPQRSTUVWXYZ012345";
    let k = new_key_record("id-1".into(), "u-1".into(), req, "hash".into(), secret, "2026-01-01T00:00:00Z".into());
    assert_eq!(k.status, "active");
    assert_eq!(k.lineage_id, "id-1");
    assert_eq!(k.prefix, "la_live_ABCD");
    assert_eq!(k.last_four, "2345");
    assert!(k.last_used_at.is_none() && k.revoked_at.is_none());
}

#[test]
fn register_request_checks() {
    let short = RegisterRequest { email: "a@b.c".into(), name: "n".into(), password: "1234567".into() };
    match check_register_request(&short) {
        Err(AppError::BadRequest(m)) => assert_eq!(m, "email required and password must be \u{2265}8 chars"),
        other => panic!("unexpected {other:?}"),
    }
    let no_mail = RegisterRequest { email: String::new(), name: "n".into(), password: "12345678".into() };
    assert!(check_register_request(&no_mail).is_err());
    let ok = RegisterRequest { email: "a@b.c".into(), name: "n".into(), password: "12345678".into() };
    assert!(check_register_request(&ok).is_ok());
    // Eight bytes, four characters.
    let multibyte = RegisterRequest { email: "a@b.c".into(), name: "n".into(), password: "\u{e9}\u{e9}\u{e9}\u{e9}".into() };
    assert!(check_register_request(&multibyte).is_ok());
    let u = new_user_record("u".into(), &ok, "h".into(), "t1".into(), "t2".into());
    assert_eq!(u.tier, "free");
    assert_eq!(u.email, "a@b.c");
}

#[test]
fn bearer_token_extraction() {
    assert_eq!(bearer_token("Bearer abc"), Some("abc"));
    assert_eq!(bearer_token("Bearer "), Some(""));
    assert_eq!(bearer_token("bearer abc"), None);
    assert_eq!(bearer_token("Basic abc"), None);
    assert_eq!(bearer_token("Bear"), None);
}

fn candidate(id: &str, secret: &str, expires_at: Option<&str>) -> KeyCandidate {
    KeyCandidate {
        id: id.into(),
        user_id: "u-1".into(),
        key_hash: hash_api_key(secret, "pepper").unwrap(),
        environment: "live".into(),
        expires_at: expires_at.map(|e| e.to_owned()),
    }
}

#[test]
fn key_validation_outcomes() {
    let now = "2026-01-01T00:00:00Z";
    let cands = vec![candidate("k1", "other", None), candidate("k2", "secret", None)];
    let v = select_validated_key(&cands, "secret", "pepper", now).unwrap();
    assert_eq!((v.key_id.as_str(), v.user_id.as_str(), v.environment.as_str()), ("k2", "u-1", "live"));
    assert!(matches!(select_validated_key(&cands, "nope", "pepper", now), Err(AppError::Unauthorized)));
    let expired = vec![candidate("k3", "secret", Some("2025-12-31T23:59:59Z"))];
    assert!(matches!(select_validated_key(&expired, "secret", "pepper", now), Err(AppError::Unauthorized)));
    let later = vec![candidate("k4", "secret", Some("2026-06-01T00:00:00Z"))];
    assert_eq!(select_validated_key(&later, "secret", "pepper", now).unwrap().key_id, "k4");
}

#[test]
fn keys_config_from_settings() {
    let c = Config::from_settings(None, None, None, Some("jwt".into()), Some("pep".into()), None).unwrap();
    assert_eq!((c.host.as_str(), c.port, c.database_path.as_str()), ("0.0.0.0", 3800, "./data/larc.db"));
    assert_eq!(c.env, Env::Development);
    let p = Config::from_settings(None, Some("+8080".into()), None, Some("j".into()), Some("p".into()), Some("production".into()))
        .unwrap();
    assert_eq!(p.port, 8080);
    assert_eq!(p.env, Env::Production);
    let bad = Config::from_settings(None, Some("70000".into()), None, Some("j".into()), Some("p".into()), None);
    assert_eq!(bad.unwrap_err(), ConfigError::InvalidPort);
    let no_jwt = Config::from_settings(None, None, None, None, Some("p".into()), None);
    assert_eq!(no_jwt.unwrap_err().message(), "LARC_JWT_SECRET is required");
    let no_pepper = Config::from_settings(None, None, None, Some("j".into()), None, None);
    assert_eq!(no_pepper.unwrap_err(), ConfigError::MissingHmacPepper);
}

fn create_request(name: &str) -> CreateKeyRequest {
    CreateKeyRequest { name: name.to_owned(), environment: "test".to_owned(), expires_at: None }
}

#[test]
fn prepared_key_is_stored_as_its_hash_and_validates() {
    let created =
        prepare_created_key(create_request("ci"), "k1".to_owned(), "u1".to_owned(), "pepper", "2025-01-01T00:00:00Z".to_owned())
            .unwrap();
    let secret = created.secret.clone();
    assert!(secret.starts_with("la_test_"));
    assert_eq!(secret.len(), "la_test_".len() + 32);
    let k = &created.key;
    assert_eq!(k.key_hash, hash_api_key(&secret, "pepper").unwrap());
    assert_ne!(k.key_hash, secret);
    assert_eq!(k.prefix, key_prefix(&secret));
    assert_eq!(k.last_four, key_last_four(&secret));
    assert_eq!((k.id.as_str(), k.user_id.as_str(), k.lineage_id.as_str()), ("k1", "u1", "k1"));
    assert_eq!((k.name.as_str(), k.environment.as_str(), k.status.as_str()), ("ci", "test", "active"));
    assert_eq!(k.created_at, "2025-01-01T00:00:00Z");
    assert!(k.expires_at.is_none() && k.last_used_at.is_none() && k.revoked_at.is_none());

    let cands = vec![KeyCandidate {
        id: k.id.clone(),
        user_id: k.user_id.clone(),
        key_hash: k.key_hash.clone(),
        environment: k.environment.clone(),
        expires_at: None,
    }];
    let v = select_validated_key(&cands, &secret, "pepper", "2030-01-01T00:00:00Z").unwrap();
    assert_eq!((v.key_id.as_str(), v.user_id.as_str(), v.environment.as_str()), ("k1", "u1", "test"));
}

#[test]
fn prepared_key_needs_a_name() {
    match prepare_created_key(create_request(""), "k1".to_owned(), "u1".to_owned(), "pepper", "t".to_owned()) {
        Err(AppError::BadRequest(m)) => assert_eq!(m, "name is required"),
        other => panic!("unexpected {other:?}"),
    }
}

fn user_with_hash(password_hash: String) -> User {
    User {
        id: "u1".to_owned(),
        email: "a@b.c".to_owned(),
        name: "A".to_owned(),
        password_hash,
        tier: "free".to_owned(),
        created_at: "t".to_owned(),
        updated_at: "t".to_owned(),
    }
}

#[test]
fn login_checks_the_password() {
    let user = user_with_hash(hash_password("hunter22").unwrap());
    assert!(check_login("hunter22", &user).is_ok());
    assert!(matches!(check_login("hunter23", &user), Err(AppError::Unauthorized)));
    let broken = user_with_hash("not a phc string".to_owned());
    assert!(matches!(check_login("hunter22", &broken), Err(AppError::Internal(_))));
}

#[test]
fn port_settings_parse_like_u16_from_str() {
    for text in ["0", "80", "+80", "0080", "65535", "65536", "99999999999", "", "+", "-1", "8o", " 80", "+-1"] {
        let r = Config::from_settings(None, Some(text.into()), None, Some("j".into()), Some("p".into()), None);
        match text.parse::<u16>() {
            Ok(p) => assert_eq!(r.unwrap().port, p, "{text:?}"),
            Err(_) => assert_eq!(r.unwrap_err(), ConfigError::InvalidPort, "{text:?}"),
        }
    }
}
