use flovenet::auth::{AuthManager, StoredUser};
use flovenet::time::Timestamp;

fn manager() -> AuthManager {
    AuthManager::new("flovenet-dev-secret")
}

#[test]
fn register_then_login_succeeds() {
    let mut m = manager();
    let token = m.register("a@x.com", "pass", "Alice", vec![1, 2, 3]).expect("registration");
    assert_eq!(token.split('.').count(), 3);
    let (token2, user) = m.login("a@x.com", "pass").expect("login");
    assert_eq!(token2.split('.').count(), 3);
    assert_eq!(user.email, "a@x.com");
    assert_eq!(user.display_name, "Alice");
    assert_eq!(user.public_key, vec![1, 2, 3]);
    assert_eq!(user.password_salt.len(), 32);
    assert_eq!(user.password_hash.len(), 64);
    assert_eq!(user.id.len(), 36);
}

#[test]
fn duplicate_email_is_refused() {
    let mut m = manager();
    m.register("a@x.com", "pass", "Alice", vec![]).unwrap();
    assert_eq!(m.register("a@x.com", "other", "Eve", vec![]).unwrap_err(), "email already registered");
    // the first account is untouched
    assert!(m.login("a@x.com", "pass").is_ok());
    assert_eq!(m.login("a@x.com", "other").unwrap_err(), "invalid email or password");
}

#[test]
fn wrong_password_and_unknown_email() {
    let mut m = manager();
    m.register("b@x.com", "secret", "Bob", vec![]).unwrap();
    assert_eq!(m.login("b@x.com", "Secret").unwrap_err(), "invalid email or password");
    assert_eq!(m.login("nobody@x.com", "secret").unwrap_err(), "invalid email or password");
}

#[test]
fn short_salt_is_a_hashing_error() {
    let mut m = manager();
    let t = Timestamp { secs: 1_700_000_000, nanos: 0 };
    let r = m.register_with("c@x.com", "pw", "Carl", vec![], "id-c".to_string(), vec![1, 2, 3], t, t);
    assert_eq!(r.unwrap_err(), "hashing error: salt is too short");
    assert!(m.login("c@x.com", "pw").is_err());
}

#[test]
fn token_is_deterministic_in_claims_and_time() {
    let t = Timestamp { secs: 1_700_000_000, nanos: 5 };
    let mut m1 = manager();
    let mut m2 = manager();
    let salt = vec![7u8; 32];
    let a = m1.register_with("d@x.com", "pw", "D", vec![], "id-d".into(), salt.clone(), t, t).unwrap();
    let b = m2.register_with("d@x.com", "pw", "D", vec![], "id-d".into(), salt, t, t).unwrap();
    assert_eq!(a, b);
    let (c, user) = m1.login_at("d@x.com", "pw", t).unwrap();
    assert_eq!(a, c);
    assert_eq!(user.id, "id-d");
    let later = Timestamp { secs: 1_700_000_001, nanos: 0 };
    let (d, _) = m1.login_at("d@x.com", "pw", later).unwrap();
    assert_ne!(a, d);
}

#[test]
fn stored_hash_is_hex_of_argon2() {
    let t = Timestamp { secs: 0, nanos: 0 };
    let mut m = manager();
    let salt = vec![0u8; 32];
    m.register_with("e@x.com", "password", "E", vec![], "id-e".into(), salt.clone(), t, t).unwrap();
    let (_, user): (String, StoredUser) = m.login_at("e@x.com", "password", t).unwrap();
    let mut expected = [0u8; 32];
    argon2::Argon2::default().hash_password_into(b"password", &salt, &mut expected).unwrap();
    assert_eq!(user.password_hash, hex::encode(expected));
}

#[test]
fn claims_last_a_day() {
    let user = StoredUser {
        id: "u1".into(),
        email: "u@x.com".into(),
        password_hash: String::new(),
        password_salt: vec![],
        public_key: vec![],
        display_name: "U".into(),
        created_at: Timestamp { secs: 0, nanos: 0 },
    };
    let c = AuthManager::claims_for(&user, Timestamp { secs: 1000, nanos: 0 });
    assert_eq!(c.sub, "u1");
    assert_eq!(c.email, "u@x.com");
    assert_eq!(c.iat, 1000);
    assert_eq!(c.exp, 1000 + 86_400);
}

#[test]
fn token_carries_the_claims_signed_with_the_secret() {
    let t = Timestamp { secs: 1_700_000_000, nanos: 0 };
    let mut m = manager();
    let token = m
        .register_with("e@x.com", "pw", "E", vec![], "id-e".into(), vec![3u8; 32], t, t)
        .unwrap();
    let mut validation = jsonwebtoken::Validation::new(jsonwebtoken::Algorithm::HS256);
    validation.validate_exp = false;
    let key = jsonwebtoken::DecodingKey::from_secret(m.jwt_secret().as_bytes());
    let data = jsonwebtoken::decode::<serde_json::Value>(&token, &key, &validation).unwrap();
    assert_eq!(data.claims["sub"], "id-e");
    assert_eq!(data.claims["email"], "e@x.com");
    assert_eq!(data.claims["iat"], 1_700_000_000u64);
    assert_eq!(data.claims["exp"], 1_700_086_400u64);
    let wrong = jsonwebtoken::DecodingKey::from_secret(b"another secret");
    assert!(jsonwebtoken::decode::<serde_json::Value>(&token, &wrong, &validation).is_err());
}

#[test]
fn issued_tokens_validate_to_their_claims() {
    let mut m = manager();
    m.register("v@x.com", "pw", "V", vec![]).unwrap();
    let (token, user) = m.login("v@x.com", "pw").unwrap();
    let c = m.validate_token(&token).unwrap();
    assert_eq!(c.sub, user.id);
    assert_eq!(c.email, "v@x.com");
    assert_eq!(c.exp, c.iat + 86_400);
}

#[test]
fn bad_or_expired_tokens_are_refused() {
    let m = manager();
    assert!(m.validate_token("not a token").unwrap_err().starts_with("invalid token: "));
    let mut other = AuthManager::new("another secret");
    let token = other.register("w@x.com", "pw", "W", vec![]).unwrap();
    assert!(m.validate_token(&token).unwrap_err().starts_with("invalid token: "));
    let t = Timestamp { secs: 1_000_000_000, nanos: 0 };
    let mut old = manager();
    let stale = old.register_with("o@x.com", "pw", "O", vec![], "id-o".into(), vec![1u8; 32], t, t).unwrap();
    assert!(old.validate_token(&stale).unwrap_err().starts_with("invalid token: "));
}
