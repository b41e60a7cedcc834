use financial_tracker::db::Database;
use financial_tracker::entities::RegistrationCode;
use financial_tracker::errors::AppError;
use financial_tracker::services::registration::find_open_reset;
use financial_tracker::services::registration::ForgotRegistrationRequest;
use financial_tracker::services::registration::RegistrationService;
use financial_tracker::services::registration::ResetRegistrationRequest;
use financial_tracker::services::registration::RESET_CODE_TTL_SECONDS;
use financial_tracker::utils::hash::hash_value;

const EMAIL: &str = "office@example.com";

fn store_with_code(code: &str) -> Database {
    let mut db = Database::new();
    db.registration_code =
        Some(RegistrationCode { id: 1, code_hash: hash_value(code).unwrap(), updated_at: 0 });
    db
}

fn forgot() -> ForgotRegistrationRequest {
    ForgotRegistrationRequest { email: EMAIL.to_string() }
}

fn reset(code: &str, new_code: &str) -> ResetRegistrationRequest {
    ResetRegistrationRequest {
        email: EMAIL.to_string(),
        verification_code: code.to_string(),
        new_registration_code: new_code.to_string(),
    }
}

#[test]
fn an_issued_code_has_six_letters_or_digits_and_is_stored_hashed() {
    let mut db = store_with_code("old");
    let code = RegistrationService::new().forgot_registration_code(&mut db, forgot()).unwrap();
    assert_eq!(code.len(), 6);
    assert!(code.chars().all(|c| c.is_ascii_alphanumeric()));
    assert_eq!(db.registration_code_resets.len(), 1);
    let row = &db.registration_code_resets[0];
    assert_eq!(row.id, 1);
    assert_eq!(row.email, EMAIL);
    assert_ne!(row.hashed_verification_code, code);
    assert_eq!(row.hashed_verification_code, hash_value(&code).unwrap());
    assert!(!row.used);
}

#[test]
fn a_code_expires_fifteen_minutes_after_it_was_issued() {
    let mut db = store_with_code("old");
    let service = RegistrationService::new();
    let code = service
        .forgot_registration_code_with(&mut db, forgot(), "abc123".to_string(), 1_000)
        .unwrap();
    assert_eq!(code, "abc123");
    assert_eq!(RESET_CODE_TTL_SECONDS, 900);
    assert_eq!(db.registration_code_resets[0].expires_at, 1_900);
}

#[test]
fn a_good_code_sets_the_new_registration_code_and_is_used_up() {
    let mut db = store_with_code("old");
    let service = RegistrationService::new();
    service.forgot_registration_code_with(&mut db, forgot(), "abc123".to_string(), 1_000).unwrap();
    let message =
        service.reset_registration_code_at(&mut db, reset("abc123", "new"), 1_900).unwrap();
    assert_eq!(message, "Registration code successfully reset");
    let stored = db.registration_code.as_ref().unwrap();
    assert_eq!(stored.id, 1);
    assert_eq!(stored.code_hash, hash_value("new").unwrap());
    assert_eq!(stored.updated_at, 1_900);
    assert!(db.registration_code_resets[0].used);
    assert_eq!(db.registration_code_resets.len(), 1);
}

#[test]
fn a_code_cannot_be_used_twice() {
    let mut db = store_with_code("old");
    let service = RegistrationService::new();
    service.forgot_registration_code_with(&mut db, forgot(), "abc123".to_string(), 1_000).unwrap();
    service.reset_registration_code_at(&mut db, reset("abc123", "new"), 1_001).unwrap();
    let err =
        service.reset_registration_code_at(&mut db, reset("abc123", "newer"), 1_002).unwrap_err();
    assert!(matches!(err, AppError::BadRequest(ref m) if m == "Invalid verification code"));
    assert_eq!(db.registration_code.as_ref().unwrap().code_hash, hash_value("new").unwrap());
}

#[test]
fn an_expired_code_is_refused_and_the_registration_code_stays() {
    let mut db = store_with_code("old");
    let service = RegistrationService::new();
    service.forgot_registration_code_with(&mut db, forgot(), "abc123".to_string(), 1_000).unwrap();
    let before = db.registration_code.as_ref().unwrap().code_hash.clone();
    let err =
        service.reset_registration_code_at(&mut db, reset("abc123", "new"), 1_901).unwrap_err();
    assert!(matches!(err, AppError::BadRequest(ref m) if m == "Invalid verification code"));
    assert_eq!(err.status_code(), 400);
    let stored = db.registration_code.as_ref().unwrap();
    assert_eq!(stored.code_hash, before);
    assert_eq!(stored.updated_at, 0);
    assert!(!db.registration_code_resets[0].used);
}

#[test]
fn a_wrong_code_or_another_address_is_refused() {
    let mut db = store_with_code("old");
    let service = RegistrationService::new();
    service.forgot_registration_code_with(&mut db, forgot(), "abc123".to_string(), 1_000).unwrap();
    assert!(matches!(
        service.reset_registration_code_at(&mut db, reset("abc124", "new"), 1_001),
        Err(AppError::BadRequest(_))
    ));
    let mut other = reset("abc123", "new");
    other.email = "else@example.com".to_string();
    assert!(matches!(
        service.reset_registration_code_at(&mut db, other, 1_001),
        Err(AppError::BadRequest(_))
    ));
    assert!(!db.registration_code_resets[0].used);
    assert_eq!(db.registration_code.as_ref().unwrap().code_hash, hash_value("old").unwrap());
}

#[test]
fn the_first_open_row_is_the_one_that_is_used() {
    let mut db = store_with_code("old");
    let service = RegistrationService::new();
    service.forgot_registration_code_with(&mut db, forgot(), "abc123".to_string(), 10).unwrap();
    service.forgot_registration_code_with(&mut db, forgot(), "abc123".to_string(), 500).unwrap();
    service.forgot_registration_code_with(&mut db, forgot(), "abc123".to_string(), 600).unwrap();
    service.reset_registration_code_at(&mut db, reset("abc123", "n1"), 1_000).unwrap();
    let used: Vec<bool> = db.registration_code_resets.iter().map(|r| r.used).collect();
    assert_eq!(used, vec![false, true, false]);
    let hashed = hash_value("abc123").unwrap();
    let found =
        find_open_reset(&db.registration_code_resets, &EMAIL.to_string(), &hashed, 1_000);
    assert_eq!(found, Some(2));
    assert_eq!(
        find_open_reset(&db.registration_code_resets, &EMAIL.to_string(), &hashed, 1_501),
        None
    );
}

#[test]
fn a_reset_without_a_registration_code_in_the_store_is_an_internal_error() {
    let mut db = Database::new();
    let service = RegistrationService::new();
    service.forgot_registration_code_with(&mut db, forgot(), "abc123".to_string(), 1_000).unwrap();
    let err =
        service.reset_registration_code_at(&mut db, reset("abc123", "new"), 1_001).unwrap_err();
    assert!(matches!(err, AppError::InternalError));
    assert_eq!(err.status_code(), 500);
    assert_eq!(err.message(), "Internal error");
    assert!(!db.registration_code_resets[0].used);
}

#[test]
fn issuing_fails_without_change_when_time_or_keys_run_out() {
    let mut db = store_with_code("old");
    let service = RegistrationService::new();
    let err = service
        .forgot_registration_code_with(&mut db, forgot(), "abc123".to_string(), i64::MAX - 899)
        .unwrap_err();
    assert!(matches!(err, AppError::InternalError));
    assert!(service
        .forgot_registration_code_with(&mut db, forgot(), "abc123".to_string(), i64::MAX - 900)
        .is_ok());
    db.next_reset_id = i32::MAX;
    let err = service.forgot_registration_code(&mut db, forgot()).unwrap_err();
    assert!(matches!(err, AppError::DbError(ref m) if m == "reset keys are used up"));
    assert_eq!(db.registration_code_resets.len(), 1);
}

#[test]
fn a_code_issued_now_can_be_used_now() {
    let mut db = store_with_code("old");
    let service = RegistrationService::new();
    let code = service.forgot_registration_code(&mut db, forgot()).unwrap();
    let message = service.reset_registration_code(&mut db, reset(&code, "new")).unwrap();
    assert_eq!(message, "Registration code successfully reset");
    assert!(db.registration_code_resets[0].used);
    assert!(service.reset_registration_code(&mut db, reset(&code, "again")).is_err());
}
