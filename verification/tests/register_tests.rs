use argon2::password_hash::{PasswordHash, PasswordVerifier};
use korgi_beats::register::{
    classify_insert_failure, field_error_text, hash_password, hash_password_with_salt, FieldError,
    RegisterError,
};

#[test]
fn duplicate_email_is_a_conflict() {
    let e = classify_insert_failure(Some("UNIQUE constraint failed: users.email"), "d".to_string());
    assert!(matches!(e, RegisterError::EmailTaken));
    assert_eq!(e.status_code(), 409);
}

#[test]
fn other_database_failures_are_server_errors() {
    let e = classify_insert_failure(Some("UNIQUE constraint failed: users.id"), "dup id".to_string());
    assert!(matches!(&e, RegisterError::Database(d) if d == "dup id"));
    assert_eq!(e.status_code(), 500);
    let e = classify_insert_failure(None, "pool timed out".to_string());
    assert!(matches!(&e, RegisterError::Database(d) if d == "pool timed out"));
}

#[test]
fn field_errors_join_messages_or_codes() {
    let errs = vec![
        FieldError { message: Some("Invalid email".to_string()), code: "email".to_string() },
        FieldError { message: None, code: "length".to_string() },
    ];
    assert_eq!(field_error_text(&errs), "Invalid email, length");
    assert_eq!(field_error_text(&vec![]), "");
}

#[test]
fn register_error_codes() {
    assert_eq!(RegisterError::InvalidBody("x".to_string()).status_code(), 422);
    assert_eq!(RegisterError::Invalid(vec![]).status_code(), 422);
    assert_eq!(RegisterError::HashFailed.status_code(), 500);
}

#[test]
fn password_hash_verifies() {
    let h = hash_password_with_salt("hunter22", "c29tZXNhbHQ").ok().unwrap();
    assert!(h.starts_with("$argon2id$"));
    let parsed = PasswordHash::new(&h).unwrap();
    assert!(argon2::Argon2::default().verify_password(b"hunter22", &parsed).is_ok());
    assert!(argon2::Argon2::default().verify_password(b"hunter23", &parsed).is_err());
}

#[test]
fn bad_salt_fails_hashing() {
    assert!(matches!(hash_password_with_salt("pw", "!"), Err(RegisterError::HashFailed)));
}

#[test]
fn fresh_salts_differ() {
    let a = hash_password("secret").ok().unwrap();
    let b = hash_password("secret").ok().unwrap();
    assert_ne!(a, b);
    let parsed = PasswordHash::new(&a).unwrap();
    assert!(argon2::Argon2::default().verify_password(b"secret", &parsed).is_ok());
}
