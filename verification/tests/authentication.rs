use nethound::auth::{
    _hash_password, _verify_password, begin_validation, database_url, field_or_empty, get_challenge, new_account_request, hash_password_with_salt, response_matches, sha256, validate_user,
    AppError, ChallengeStore, DatabaseConfig, GlobalConfig, ValidationReply, ValidationStep,
};

#[test]
fn sha256_hex_of_known_inputs() {
    assert_eq!(
        sha256("abc".to_string()),
        "ba7816bf8f01cfea414140de5dae2223b00361a396177a9cb410ff61f20015ad"
    );
    assert_eq!(
        sha256(String::new()),
        "e3b0c44298fc1c149afbf4c8996fb92427ae41e4649b934ca495991b7852b855"
    );
}

#[test]
fn challenge_store_reads_back_the_last_write() {
    let mut store = ChallengeStore::new();
    assert_eq!(store.get("10.0.0.1"), None);
    store.insert("10.0.0.1".to_string(), "c1".to_string());
    store.insert("10.0.0.2".to_string(), "c2".to_string());
    store.insert("10.0.0.1".to_string(), "c3".to_string());
    assert_eq!(store.get("10.0.0.1").as_deref(), Some("c3"));
    assert_eq!(store.get("10.0.0.2").as_deref(), Some("c2"));
    let issued = store.issue("10.0.0.3".to_string());
    assert_eq!(issued.len(), 36);
    assert_eq!(store.get("10.0.0.3"), Some(issued));
}

#[test]
fn response_is_sha256_of_password_and_challenge() {
    let expected = sha256("secretc1".to_string());
    assert!(response_matches("secret", "c1", &expected));
    assert!(!response_matches("secret", "c2", &expected));
    assert_eq!(validate_user("secret", "c1", &expected), ValidationReply::Checked(true));
    assert_eq!(validate_user("secret", "c1", "secret"), ValidationReply::Checked(false));
}

#[test]
fn invalid_stored_hash_accepts_nothing() {
    assert!(!_verify_password("secret", "not a hash"));
}

#[test]
fn argon2_round_trip() {
    let h = _hash_password("pw").unwrap();
    assert!(h.starts_with("$argon2"));
    assert!(_verify_password("pw", &h));
    assert!(!_verify_password("other", &h));
}

#[test]
fn error_response_and_database_url() {
    let e = AppError { message: "no such row".to_string() };
    let (status, body) = e.into_response();
    assert_eq!(status, 500);
    assert_eq!(body, "Error interno del servidor: no such row");
    let cfg = GlobalConfig { database: DatabaseConfig { path: "/var/lib/nh/auth.db".to_string() } };
    assert_eq!(database_url(&cfg), "sqlite:/var/lib/nh/auth.db");
}

#[test]
fn hashing_with_a_given_salt_is_deterministic() {
    let a = hash_password_with_salt("pw", "c2FsdHNhbHQ").unwrap();
    let b = hash_password_with_salt("pw", "c2FsdHNhbHQ").unwrap();
    assert_eq!(a, b);
    assert!(a.contains("c2FsdHNhbHQ"));
    assert!(_verify_password("pw", &a));
    let err = hash_password_with_salt("pw", "!").unwrap_err();
    assert!(err.starts_with("Error al hashear: "));
}

#[test]
fn challenge_reply_carries_the_ip() {
    let mut store = ChallengeStore::new();
    let reply = get_challenge(&mut store, "192.168.1.30".to_string());
    assert_eq!(reply.ip, "192.168.1.30");
    assert_eq!(store.get("192.168.1.30"), Some(reply.challenge.clone()));
    let expected = sha256(format!("{}{}", "stored", reply.challenge));
    assert_eq!(validate_user("stored", &reply.challenge, &expected), ValidationReply::Checked(true));
}

fn has_uuid_v4_shape(c: &str) -> bool {
    let b = c.as_bytes();
    if b.len() != 36 {
        return false;
    }
    for (i, ch) in b.iter().enumerate() {
        let ok = match i {
            8 | 13 | 18 | 23 => *ch == b'-',
            14 => *ch == b'4',
            19 => matches!(*ch, b'8' | b'9' | b'a' | b'b'),
            _ => ch.is_ascii_digit() || (b'a'..=b'f').contains(ch),
        };
        if !ok {
            return false;
        }
    }
    true
}

#[test]
fn challenges_are_fresh_v4_uuids() {
    let mut store = ChallengeStore::new();
    let first = get_challenge(&mut store, "10.1.1.1".to_string());
    assert!(has_uuid_v4_shape(&first.challenge));
    let second = get_challenge(&mut store, "10.1.1.1".to_string());
    assert!(has_uuid_v4_shape(&second.challenge));
    assert_ne!(first.challenge, second.challenge);
    assert_eq!(store.get("10.1.1.1"), Some(second.challenge));
    let issued = store.issue("10.1.1.2".to_string());
    assert!(has_uuid_v4_shape(&issued));
}

#[test]
fn validation_without_a_challenge_is_answered_at_once() {
    let mut store = ChallengeStore::new();
    match begin_validation(&store, "10.2.2.2") {
        ValidationStep::Answer(r) => assert_eq!(r, ValidationReply::NoChallenge),
        other => panic!("unexpected step {:?}", other),
    }
    store.insert("10.2.2.3".to_string(), "c9".to_string());
    match begin_validation(&store, "10.2.2.2") {
        ValidationStep::Answer(r) => assert_eq!(r, ValidationReply::NoChallenge),
        other => panic!("unexpected step {:?}", other),
    }
    let reply = get_challenge(&mut store, "10.2.2.2".to_string());
    match begin_validation(&store, "10.2.2.2") {
        ValidationStep::CheckAgainst(c) => assert_eq!(c, reply.challenge),
        other => panic!("unexpected step {:?}", other),
    }
}

#[test]
fn fresh_salts_are_sixteen_bytes_of_base64() {
    for pw in ["", "pw", "contraseña"] {
        let h = _hash_password(pw).unwrap();
        let parts: Vec<&str> = h.split('$').collect();
        assert_eq!(parts.len(), 6);
        let salt = parts[4];
        assert_eq!(salt.len(), 22);
        assert!(salt.chars().all(|c| c.is_ascii_alphanumeric() || c == '+' || c == '/'));
        assert!(matches!(salt.chars().last(), Some('A' | 'Q' | 'g' | 'w')));
        assert!(_verify_password(pw, &h));
        assert_eq!(hash_password_with_salt(pw, salt).unwrap(), h);
    }
    let a = _hash_password("pw").unwrap();
    let b = _hash_password("pw").unwrap();
    assert_ne!(a, b);
}

#[test]
fn salts_outside_the_phc_rules_fail() {
    assert!(hash_password_with_salt("pw", "").is_err());
    assert!(hash_password_with_salt("pw", "abc").is_err());
    assert!(hash_password_with_salt("pw", "abc;defgh").is_err());
    assert!(hash_password_with_salt("pw", &"a".repeat(65)).is_err());
    assert!(hash_password_with_salt("pw", "AAAAAAAAAAAAAAAAAAAAAA").is_ok());
}

#[test]
fn create_user_request_fields() {
    let a = new_account_request(Some("ana"), Some("pw"), Some("admin"));
    assert_eq!((a.name.as_str(), a.password.as_str(), a.role.as_str()), ("ana", "pw", "admin"));
    let b = new_account_request(None, Some("pw"), None);
    assert_eq!((b.name.as_str(), b.password.as_str(), b.role.as_str()), ("", "pw", ""));
    assert_eq!(field_or_empty(Some("x")), "x");
    assert_eq!(field_or_empty(None), "");
}
