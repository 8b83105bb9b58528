use user_auth::password::{HashingFailure, UserService, ARGON2_PHC_PREFIX};

#[test]
fn hashed_password_verifies() {
    let hash = UserService::hash_password("correct horse").unwrap();
    assert!(UserService::verify_password(&hash, "correct horse"));
}

#[test]
fn hashed_password_rejects_other_secret() {
    let hash = UserService::hash_password("correct horse").unwrap();
    assert!(!UserService::verify_password(&hash, "battery staple"));
    assert!(!UserService::verify_password(&hash, "correct horsE"));
    assert!(!UserService::verify_password(&hash, ""));
}

#[test]
fn hashing_twice_gives_different_strings() {
    let first = UserService::hash_password("same secret").unwrap();
    let second = UserService::hash_password("same secret").unwrap();
    assert_ne!(first, second);
    assert!(UserService::verify_password(&first, "same secret"));
    assert!(UserService::verify_password(&second, "same secret"));
}

#[test]
fn hash_is_self_describing_and_not_plaintext() {
    let hash = UserService::hash_password("hunter2").unwrap();
    assert_ne!(hash, "hunter2");
    assert!(hash.starts_with(ARGON2_PHC_PREFIX));
    assert_eq!(ARGON2_PHC_PREFIX, "$argon2id$v=19$m=19456,t=2,p=1$");
    let salt = &hash[ARGON2_PHC_PREFIX.len()..ARGON2_PHC_PREFIX.len() + 22];
    assert!(!salt.contains('$'));
    assert_eq!(&hash[ARGON2_PHC_PREFIX.len() + 22..ARGON2_PHC_PREFIX.len() + 23], "$");
    assert!(!hash.contains("hunter2"));
}

#[test]
fn hash_with_fixed_salt_is_deterministic() {
    let salt = b"somesaltsomesalt";
    let first = UserService::hash_password_with_salt("pw", salt).unwrap();
    let second = UserService::hash_password_with_salt("pw", salt).unwrap();
    assert_eq!(first, second);
    assert!(first.starts_with(&format!("{}{}$", ARGON2_PHC_PREFIX, "c29tZXNhbHRzb21lc2FsdA")));
    assert_eq!(first.len(), ARGON2_PHC_PREFIX.len() + 22 + 1 + 43);
    assert!(UserService::verify_password(&first, "pw"));
    let other = UserService::hash_password_with_salt("pw", b"othersaltothersalt").unwrap();
    assert_ne!(first, other);
}

#[test]
fn salt_size_bounds() {
    assert!(UserService::hash_password_with_salt("pw", &[7u8; 8]).is_ok());
    assert!(UserService::hash_password_with_salt("pw", &[7u8; 48]).is_ok());
    assert_eq!(
        UserService::hash_password_with_salt("pw", &[7u8; 7]),
        Err(HashingFailure::HasherRejected)
    );
    assert_eq!(
        UserService::hash_password_with_salt("pw", &[7u8; 49]),
        Err(HashingFailure::HasherRejected)
    );
    assert_eq!(
        UserService::hash_password_with_salt("pw", b""),
        Err(HashingFailure::HasherRejected)
    );
}

#[test]
fn any_password_content_hashes() {
    for pw in ["", "pässwörd \u{1F600}", "with:colon$and$dollars"] {
        let hash = UserService::hash_password_with_salt(pw, b"0123456789abcdef").unwrap();
        assert!(UserService::verify_password(&hash, pw));
    }
}

#[test]
fn long_password_hashes() {
    let long = "x".repeat(10_000);
    let hash = UserService::hash_password_with_salt(&long, b"0123456789abcdef").unwrap();
    assert!(UserService::verify_password(&hash, &long));
}

#[test]
fn foreign_argon2_variants_parse_but_mismatch() {
    assert!(!UserService::verify_password("$argon2id$", "secret"));
    assert!(!UserService::verify_password("$scrypt$ln=16,r=8,p=1$c2FsdA$aGFzaA", "secret"));
    let hash = UserService::hash_password_with_salt("pw", b"somesaltsomesalt").unwrap();
    let renamed = hash.replacen("$argon2id$", "$argon3id$", 1);
    assert!(!UserService::verify_password(&renamed, "pw"));
}

#[test]
fn malformed_hash_is_a_mismatch() {
    assert!(!UserService::verify_password("", "secret"));
    assert!(!UserService::verify_password("secret", "secret"));
    assert!(!UserService::verify_password("$", "secret"));
    assert!(!UserService::verify_password("$argon2id$garbage", "secret"));
    assert!(!UserService::verify_password("$argon2id$v=19$m=19456,t=2,p=1$!!!$???", "secret"));
}

#[test]
fn foreign_hash_is_a_mismatch() {
    assert!(!UserService::verify_password(
        "$2b$12$R9h/cIPz0gi.URNNX3kh2OPST9/PgBkqquzi.Ss7KIUgO2t0jWMUW",
        "secret"
    ));
}
