//! The account requests.

use crate::config::Config;
use crate::date::is_clock_reading;
use crate::db::Database;
use crate::errors::AppError;
use crate::middleware::auth::AuthenticatedUser;
use crate::services::users::forgot_password_outcome;
use crate::services::users::login_outcome;
use crate::services::users::register_outcome;
use crate::services::users::AuthResponse;
use crate::services::users::ForgotPasswordRequest;
use crate::services::users::UserResponse;
use crate::services::users::UserService;
use crate::table::has_id;
use crate::utils::SALT_LENGTH;
use crate::table::index_of_id;
use crate::table::lemma_index_of_id;
use vstd::prelude::*;
use vstd::string::StringExecFns;

verus! {

/// The body of a request to open an account.
#[derive(Debug)]
pub struct RegisterRequest {
    pub username: String,
    pub password: String,
    pub registration_code: String,
}

/// The body of a request to log in.
#[derive(Debug)]
pub struct LoginRequest {
    pub username: String,
    pub password: String,
}

/// The body of a request to set a new password.
#[derive(Debug)]
pub struct ForgotPasswordPayload {
    pub username: String,
    pub registration_code: String,
    pub new_password: String,
}

/// The registration that `payload` asks for.
pub open spec fn register_request(
    payload: RegisterRequest,
) -> crate::services::users::RegisterRequest {
    crate::services::users::RegisterRequest {
        username: payload.username,
        password: payload.password,
        registration_code: payload.registration_code,
    }
}

/// The login that `payload` asks for.
pub open spec fn login_request(payload: LoginRequest) -> crate::services::users::LoginRequest {
    crate::services::users::LoginRequest { username: payload.username, password: payload.password }
}

/// The new password that `payload` asks for.
pub open spec fn forgot_password_request(payload: ForgotPasswordPayload) -> ForgotPasswordRequest {
    ForgotPasswordRequest {
        username: payload.username,
        registration_code: payload.registration_code,
        new_password: payload.new_password,
    }
}

/// Opens the account that `payload` asks for and answers with a token
/// signed under the secret of `config`.
pub fn register(db: &mut Database, config: &Config, payload: RegisterRequest) -> (r: Result<
    AuthResponse,
    AppError,
>)
    requires
        old(db).wf(),
    ensures
        final(db).wf(),
        exists|salt: Seq<u8>, now: i64|
            salt.len() == SALT_LENGTH && is_clock_reading(now) && #[trigger] register_outcome(
                *old(db),
                *final(db),
                config.jwt_secret@,
                register_request(payload),
                salt,
                now,
                r,
            ),
{
    let service = UserService::new(config.jwt_secret.clone());
    let req = crate::services::users::RegisterRequest {
        username: payload.username,
        password: payload.password,
        registration_code: payload.registration_code,
    };
    let ghost before = *db;
    let ghost asked = req;
    let r = service.register_user(db, req);
    proof {
        let (salt, now) = choose|salt: Seq<u8>, now: i64|
            salt.len() == SALT_LENGTH && is_clock_reading(now) && #[trigger] register_outcome(
                before,
                *db,
                service.jwt_secret@,
                asked,
                salt,
                now,
                r,
            );
        assert(asked == register_request(payload));
        assert(register_outcome(
            before,
            *db,
            config.jwt_secret@,
            register_request(payload),
            salt,
            now,
            r,
        ));
    }
    r
}

/// Logs in as `payload` asks and answers with a token signed under the
/// secret of `config`.
pub fn login(db: &Database, config: &Config, payload: LoginRequest) -> (r: Result<
    AuthResponse,
    AppError,
>)
    requires
        db.wf(),
    ensures
        exists|now: i64|
            is_clock_reading(now) && #[trigger] login_outcome(
                *db,
                config.jwt_secret@,
                login_request(payload),
                now,
                r,
            ),
{
    let service = UserService::new(config.jwt_secret.clone());
    let req = crate::services::users::LoginRequest {
        username: payload.username,
        password: payload.password,
    };
    let ghost asked = req;
    let r = service.login_user(db, req);
    proof {
        let now = choose|now: i64|
            is_clock_reading(now) && #[trigger] login_outcome(
                *db,
                service.jwt_secret@,
                asked,
                now,
                r,
            );
        assert(asked == login_request(payload));
        assert(login_outcome(*db, config.jwt_secret@, login_request(payload), now, r));
    }
    r
}

/// The account of the user who asks, or `NotFound` where it is gone.
pub fn get_me(db: &Database, user: &AuthenticatedUser) -> (r: Result<UserResponse, AppError>)
    requires
        db.wf(),
    ensures
        if has_id(db.users@, user.user_id as int) {
            r matches Ok(response) && response.user_id == user.user_id && response.username
                == db.users@[index_of_id(db.users@, user.user_id as int)].username
        } else {
            r matches Err(e) && e.is_not_found("User not found"@)
        },
{
    match crate::table::find_by_id(&db.users, user.user_id) {
        Some(k) => {
            proof {
                lemma_index_of_id(db.users@, db.next_user_id as int, k as int);
            }
            Ok(
                UserResponse {
                    user_id: db.users[k].user_id,
                    username: db.users[k].username.clone(),
                },
            )
        },
        None => Err(AppError::not_found("User not found")),
    }
}

/// What the request for a new password is answered with.
pub open spec fn forgot_password_answer(
    before: Database,
    after: Database,
    req: ForgotPasswordRequest,
    salt: Seq<u8>,
    r: Result<String, AppError>,
) -> bool {
    match r {
        Ok(message) => message@ == "Password reset successfully"@ && forgot_password_outcome(
            before,
            after,
            req,
            salt,
            Ok(()),
        ),
        Err(e) => forgot_password_outcome(before, after, req, salt, Err(e)),
    }
}

/// Sets the new password that `payload` asks for.
pub fn forgot_password(db: &mut Database, config: &Config, payload: ForgotPasswordPayload) -> (r:
    Result<String, AppError>)
    requires
        old(db).wf(),
    ensures
        final(db).wf(),
        exists|salt: Seq<u8>|
            salt.len() == SALT_LENGTH && #[trigger] forgot_password_answer(
                *old(db),
                *final(db),
                forgot_password_request(payload),
                salt,
                r,
            ),
{
    let service = UserService::new(config.jwt_secret.clone());
    let req = ForgotPasswordRequest {
        username: payload.username,
        registration_code: payload.registration_code,
        new_password: payload.new_password,
    };
    let ghost before = *db;
    let ghost asked = req;
    let outcome = service.forgot_password(db, req);
    let ghost salt = choose|salt: Seq<u8>|
        salt.len() == SALT_LENGTH && #[trigger] forgot_password_outcome(
            before,
            *db,
            asked,
            salt,
            outcome,
        );
    let r = match outcome {
        Ok(()) => Ok(String::from_str("Password reset successfully")),
        Err(e) => Err(e),
    };
    proof {
        assert(forgot_password_answer(before, *db, forgot_password_request(payload), salt, r));
    }
    r
}

} // verus!
