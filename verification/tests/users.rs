use financial_tracker::db::Database;
use financial_tracker::entities::RegistrationCode;
use financial_tracker::errors::AppError;
use financial_tracker::middleware::auth::authenticate;
use financial_tracker::services::users::check_registration_code;
use financial_tracker::services::users::ForgotPasswordRequest;
use financial_tracker::services::users::LoginRequest;
use financial_tracker::services::users::RegisterRequest;
use financial_tracker::services::users::UserService;
use financial_tracker::utils::hash::hash_value;
use financial_tracker::utils::hash::hash_with_salt;
use financial_tracker::utils::hash::verify_hash;

fn store_with_code(code: &str) -> Database {
    let mut db = Database::new();
    db.registration_code =
        Some(RegistrationCode { id: 1, code_hash: hash_value(code).unwrap(), updated_at: 0 });
    db
}

fn service() -> UserService {
    UserService::new("a secret for tests".to_string())
}

fn register(name: &str, password: &str, code: &str) -> RegisterRequest {
    RegisterRequest {
        username: name.to_string(),
        password: password.to_string(),
        registration_code: code.to_string(),
    }
}

fn login(name: &str, password: &str) -> LoginRequest {
    LoginRequest { username: name.to_string(), password: password.to_string() }
}

#[test]
fn registering_stores_the_user_with_a_hashed_password_and_gives_a_token() {
    let mut db = store_with_code("let me in");
    let auth = service().register_user(&mut db, register("alice", "pw", "let me in")).unwrap();
    assert_eq!(auth.user_id, 1);
    assert_eq!(auth.username, "alice");
    assert_eq!(auth.token.split('.').count(), 3);
    assert_eq!(db.users.len(), 1);
    assert_eq!(db.users[0].username, "alice");
    assert_ne!(db.users[0].password_hash, "pw");
    assert!(db.users[0].password_hash.starts_with("$argon2"));
    assert_eq!(verify_hash("pw", &db.users[0].password_hash).unwrap(), true);
    let header = format!("Bearer {}", auth.token);
    let user = authenticate(&header, "a secret for tests").unwrap();
    assert_eq!(user.user_id, 1);
}

#[test]
fn registering_needs_the_registration_code_and_a_free_name() {
    let mut db = store_with_code("let me in");
    let users = service();
    assert!(matches!(
        users.register_user(&mut db, register("alice", "pw", "wrong")),
        Err(AppError::BadRequest(ref m)) if m == "Invalid registration code"
    ));
    assert!(db.users.is_empty());
    users.register_user(&mut db, register("alice", "pw", "let me in")).unwrap();
    assert!(matches!(
        users.register_user(&mut db, register("alice", "other", "let me in")),
        Err(AppError::Conflict(ref m)) if m == "Username already exists"
    ));
    assert_eq!(db.users.len(), 1);
    let mut empty = Database::new();
    assert!(matches!(
        users.register_user(&mut empty, register("alice", "pw", "let me in")),
        Err(AppError::BadRequest(ref m)) if m == "Invalid registration code"
    ));
}

#[test]
fn registering_fails_without_change_when_keys_or_time_run_out() {
    let mut db = store_with_code("c");
    let users = service();
    db.next_user_id = i32::MAX;
    assert!(matches!(
        users.register_user(&mut db, register("alice", "pw", "c")),
        Err(AppError::DbError(ref m)) if m == "user keys are used up"
    ));
    db.next_user_id = 1;
    let salt = [7u8; 16];
    assert!(matches!(
        users.register_user_with(&mut db, register("alice", "pw", "c"), &salt, i64::MAX),
        Err(AppError::InternalError)
    ));
    assert!(matches!(
        users.register_user_with(&mut db, register("alice", "pw", "c"), &[1u8, 2], 0),
        Err(AppError::InternalError)
    ));
    assert!(db.users.is_empty());
    let auth = users.register_user_with(&mut db, register("alice", "pw", "c"), &salt, 0).unwrap();
    assert_eq!(auth.user_id, 1);
    assert_eq!(db.users[0].password_hash, hash_with_salt("pw", &salt).unwrap());
}

#[test]
fn logging_in_needs_the_name_and_the_password() {
    let mut db = store_with_code("c");
    let users = service();
    users.register_user(&mut db, register("alice", "pw", "c")).unwrap();
    let auth = users.login_user(&db, login("alice", "pw")).unwrap();
    assert_eq!(auth.user_id, 1);
    assert_eq!(auth.username, "alice");
    let user = authenticate(&format!("Bearer {}", auth.token), "a secret for tests").unwrap();
    assert_eq!(user.user_id, 1);
    assert!(matches!(
        users.login_user(&db, login("alice", "pW")),
        Err(AppError::Unauthorized)
    ));
    assert!(matches!(
        users.login_user(&db, login("bob", "pw")),
        Err(AppError::Unauthorized)
    ));
}

#[test]
fn a_stored_hash_that_is_no_hash_is_an_internal_error() {
    let mut db = Database::new();
    db.insert_user("alice".to_string(), "plain".to_string()).unwrap();
    let err = service().login_user(&db, login("alice", "plain")).unwrap_err();
    assert!(matches!(err, AppError::InternalError));
    assert!(matches!(verify_hash("plain", "plain"), Err(AppError::InternalError)));
}

#[test]
fn the_token_is_a_function_of_user_time_and_secret() {
    let users = service();
    let a = users.generate_jwt(5, 1_700_000_000).unwrap();
    let b = users.generate_jwt(5, 1_700_000_000).unwrap();
    let c = users.generate_jwt(6, 1_700_000_000).unwrap();
    let d = users.generate_jwt(5, 1_700_000_001).unwrap();
    let e = UserService::new("another".to_string()).generate_jwt(5, 1_700_000_000).unwrap();
    assert_eq!(a, b);
    assert_ne!(a, c);
    assert_ne!(a, d);
    assert_ne!(a, e);
    assert!(matches!(users.generate_jwt(5, i64::MAX - 86_399), Err(AppError::InternalError)));
    assert!(users.generate_jwt(5, i64::MAX - 86_400).is_ok());
    assert!(matches!(users.generate_jwt(5, -86_401), Err(AppError::InternalError)));
    assert!(users.generate_jwt(5, -86_400).is_ok());
}

#[test]
fn a_token_issued_long_ago_has_expired() {
    let token = service().generate_jwt(5, 1_000_000_000).unwrap();
    let err = authenticate(&format!("Bearer {}", token), "a secret for tests").unwrap_err();
    assert!(matches!(err, AppError::Unauthorized));
    assert_eq!(err.status_code(), 401);
    assert_eq!(err.message(), "Unauthorized");
}

#[test]
fn a_new_password_needs_the_user_and_the_registration_code() {
    let mut db = store_with_code("c");
    let users = service();
    users.register_user(&mut db, register("alice", "pw", "c")).unwrap();
    let req = |name: &str, code: &str| ForgotPasswordRequest {
        username: name.to_string(),
        registration_code: code.to_string(),
        new_password: "fresh".to_string(),
    };
    assert!(matches!(
        users.forgot_password(&mut db, req("bob", "c")),
        Err(AppError::NotFound(ref m)) if m == "User not found"
    ));
    assert!(matches!(
        users.forgot_password(&mut db, req("alice", "x")),
        Err(AppError::BadRequest(ref m)) if m == "Invalid registration code"
    ));
    assert!(users.login_user(&db, login("alice", "pw")).is_ok());
    users.forgot_password(&mut db, req("alice", "c")).unwrap();
    assert_eq!(db.users.len(), 1);
    assert_eq!(db.users[0].user_id, 1);
    assert_eq!(db.users[0].username, "alice");
    assert!(users.login_user(&db, login("alice", "fresh")).is_ok());
    assert!(users.login_user(&db, login("alice", "pw")).is_err());
}

#[test]
fn a_new_password_under_a_given_salt() {
    let mut db = store_with_code("c");
    let users = service();
    users.register_user(&mut db, register("alice", "pw", "c")).unwrap();
    let req = ForgotPasswordRequest {
        username: "alice".to_string(),
        registration_code: "c".to_string(),
        new_password: "fresh".to_string(),
    };
    let salt = [9u8; 16];
    users.forgot_password_with(&mut db, req, &salt).unwrap();
    assert_eq!(db.users[0].password_hash, hash_with_salt("fresh", &salt).unwrap());
}

#[test]
fn the_registration_code_is_compared_by_its_hash() {
    let db = store_with_code("c");
    assert_eq!(check_registration_code(&db, "c").unwrap(), true);
    assert_eq!(check_registration_code(&db, "C").unwrap(), false);
    assert_eq!(check_registration_code(&Database::new(), "c").unwrap(), false);
}

#[test]
fn a_token_holds_the_user_and_the_expiry_in_that_order() {
    let token = service().generate_jwt(5, 1_700_000_000).unwrap();
    let parts: Vec<&str> = token.split('.').collect();
    assert_eq!(parts.len(), 3);
    // {"typ":"JWT","alg":"HS256"}
    assert_eq!(parts[0], "eyJ0eXAiOiJKV1QiLCJhbGciOiJIUzI1NiJ9");
    // {"user_id":5,"exp":1700086400}
    assert_eq!(parts[1], "eyJ1c2VyX2lkIjo1LCJleHAiOjE3MDAwODY0MDB9");
    assert_eq!(parts[2], "Fe0XoIemiLhQuckbwp-skNjQoqxk7DH7rAO8-76cmCk");
}
