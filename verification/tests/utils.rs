use financial_tracker::errors::AppError;
use financial_tracker::utils::generate_transaction_id;
use financial_tracker::utils::hash::hash_outcome;
use financial_tracker::utils::hash::hash_value;
use financial_tracker::utils::hash::hash_with_salt;
use financial_tracker::utils::hash::verify_hash;
use financial_tracker::utils::hash::verify_outcome;

#[test]
fn a_transaction_identifier_is_a_prefixed_uuid() {
    let id = generate_transaction_id();
    assert_eq!(id.len(), 40);
    assert!(id.starts_with("TXN-"));
    let uuid = &id[4..];
    for (i, c) in uuid.chars().enumerate() {
        if [8, 13, 18, 23].contains(&i) {
            assert_eq!(c, '-');
        } else {
            assert!(c.is_ascii_digit() || ('a'..='f').contains(&c));
        }
    }
    assert_ne!(id, generate_transaction_id());
}

#[test]
fn codes_are_hashed_under_one_salt() {
    let a = hash_value("123456").unwrap();
    let b = hash_value("123456").unwrap();
    let c = hash_value("123457").unwrap();
    assert_eq!(a, b);
    assert_ne!(a, c);
    assert_ne!(a, "123456");
    assert!(a.starts_with("$argon2id$"));
    assert_eq!(a, hash_with_salt("123456", b"financial_tracker_salt").unwrap());
    assert_ne!(a, hash_with_salt("123456", b"another salt of some length").unwrap());
}

#[test]
fn a_value_is_checked_against_its_hash() {
    let hash = hash_value("secret").unwrap();
    assert_eq!(verify_hash("secret", &hash).unwrap(), true);
    assert_eq!(verify_hash("Secret", &hash).unwrap(), false);
    assert_eq!(verify_hash("", &hash).unwrap(), false);
    assert!(matches!(verify_hash("secret", "secret"), Err(AppError::InternalError)));
    assert!(matches!(verify_hash("secret", ""), Err(AppError::InternalError)));
}

#[test]
fn a_salt_of_the_wrong_length_is_an_internal_error() {
    assert!(matches!(hash_with_salt("x", b""), Err(AppError::InternalError)));
    assert!(matches!(hash_with_salt("x", &[0u8; 4]), Err(AppError::InternalError)));
    assert!(matches!(hash_with_salt("x", &[0u8; 49]), Err(AppError::InternalError)));
    assert!(hash_with_salt("x", &[0u8; 8]).is_ok());
}

#[test]
fn outcomes_become_results() {
    assert_eq!(hash_outcome(Some("h".to_string())).unwrap(), "h");
    assert!(matches!(hash_outcome(None), Err(AppError::InternalError)));
    assert_eq!(verify_outcome(Some(true)).unwrap(), true);
    assert_eq!(verify_outcome(Some(false)).unwrap(), false);
    assert!(matches!(verify_outcome(None), Err(AppError::InternalError)));
}

#[test]
fn every_error_has_its_status_and_message() {
    let cases = [
        (AppError::db_error("down"), 500, "Database error: down"),
        (AppError::Unauthorized, 401, "Unauthorized"),
        (AppError::bad_request("no"), 400, "Bad request: no"),
        (AppError::not_found("Order not found"), 404, "Not found"),
        (AppError::conflict("taken"), 409, "Conflict: taken"),
        (AppError::InternalError, 500, "Internal error"),
    ];
    for (error, status, message) in cases {
        assert_eq!(error.status_code(), status);
        assert_eq!(error.message(), message);
    }
    assert!(matches!(AppError::bad_request("no"), AppError::BadRequest(ref m) if m == "no"));
    assert!(matches!(AppError::not_found("x"), AppError::NotFound(ref m) if m == "x"));
    assert!(matches!(AppError::db_error("x"), AppError::DbError(ref m) if m == "x"));
    assert!(matches!(AppError::conflict("x"), AppError::Conflict(ref m) if m == "x"));
}
