//! Accounts: registration behind the registration code, login, and a new
//! password for whoever knows the registration code.

use crate::date::is_clock_reading;
use crate::date::utc_now;
use crate::db::has_username;
use crate::db::username_index;
use crate::db::Database;
use crate::errors::AppError;
use crate::errors::ErrorView;
use crate::middleware::auth::jwt_encode;
use crate::middleware::auth::jwt_signed;
use crate::utils::hash::argon2_hashed;
use crate::utils::hash::argon2_verified;
use crate::utils::hash::hash_value;
use crate::utils::hash::hash_with_salt;
use crate::utils::hash::spec_hash_value;
use crate::utils::hash::verify_hash;
use crate::utils::random_salt;
use crate::utils::SALT_LENGTH;
use vstd::prelude::*;

verus! {

/// How long a token is good for, in seconds.
pub const TOKEN_LIFETIME_SECONDS: i64 = 86400;

/// The request to open an account.
#[derive(Debug)]
pub struct RegisterRequest {
    pub username: String,
    pub password: String,
    pub registration_code: String,
}

/// The request to log in.
#[derive(Debug)]
pub struct LoginRequest {
    pub username: String,
    pub password: String,
}

/// The request to set a new password.
#[derive(Debug)]
pub struct ForgotPasswordRequest {
    pub username: String,
    pub registration_code: String,
    pub new_password: String,
}

/// A token with the account that it is for.
#[derive(Debug)]
pub struct AuthResponse {
    pub token: String,
    pub user_id: i32,
    pub username: String,
}

/// An account as it is shown to its owner.
#[derive(Debug)]
pub struct UserResponse {
    pub user_id: i32,
    pub username: String,
}

/// The token for `user_id` issued at `now` under `secret`: it expires one
/// day later. There is none where that second does not fit the claim or
/// the library reports an error.
pub open spec fn spec_generate_jwt(secret: Seq<char>, user_id: i32, now: i64) -> Option<Seq<char>> {
    if 0 <= now + TOKEN_LIFETIME_SECONDS <= i64::MAX {
        jwt_signed(user_id as int, now + TOKEN_LIFETIME_SECONDS, secret)
    } else {
        None
    }
}

/// Whether `code` is the registration code of `db`: `None` where hashing
/// fails, and no code is the registration code of a store that has none.
pub open spec fn registration_code_matches(db: Database, code: Seq<char>) -> Option<bool> {
    match db.registration_code {
        None => Some(false),
        Some(stored) => match spec_hash_value(code) {
            None => None,
            Some(hashed) => Some(hashed == stored.code_hash@),
        },
    }
}

/// Why `req` cannot open an account, if it cannot.
pub open spec fn register_failure(
    db: Database,
    secret: Seq<char>,
    req: RegisterRequest,
    salt: Seq<u8>,
    now: i64,
) -> Option<ErrorView> {
    match registration_code_matches(db, req.registration_code@) {
        None => Some(ErrorView::InternalError),
        Some(false) => Some(ErrorView::BadRequest("Invalid registration code"@)),
        Some(true) => if has_username(db.users@, req.username@) {
            Some(ErrorView::Conflict("Username already exists"@))
        } else if argon2_hashed(req.password@, salt) is None {
            Some(ErrorView::InternalError)
        } else if db.next_user_id == i32::MAX {
            Some(ErrorView::DbError("user keys are used up"@))
        } else if spec_generate_jwt(secret, db.next_user_id, now) is None {
            Some(ErrorView::InternalError)
        } else {
            None
        },
    }
}

/// What opening an account does to the store: a user is appended under the
/// next key, with the name of the request and the hash of its password
/// under `salt`.
pub open spec fn user_registered(
    before: Database,
    after: Database,
    req: RegisterRequest,
    salt: Seq<u8>,
) -> bool {
    let row = after.users@.last();
    &&& after.users@ == before.users@.push(row)
    &&& row.user_id == before.next_user_id
    &&& row.username == req.username
    &&& Some(row.password_hash@) == argon2_hashed(req.password@, salt)
    &&& after == (Database {
        users: after.users,
        next_user_id: (before.next_user_id + 1) as i32,
        ..before
    })
}

/// What the attempt of `req` to open an account comes to.
pub open spec fn register_outcome(
    before: Database,
    after: Database,
    secret: Seq<char>,
    req: RegisterRequest,
    salt: Seq<u8>,
    now: i64,
    r: Result<AuthResponse, AppError>,
) -> bool {
    match register_failure(before, secret, req, salt, now) {
        Some(failure) => r matches Err(e) && e@ == failure && after == before,
        None => {
            &&& r matches Ok(response)
            &&& Some(response.token@) == spec_generate_jwt(secret, before.next_user_id, now)
            &&& response.user_id == before.next_user_id
            &&& response.username == req.username
            &&& user_registered(before, after, req, salt)
        },
    }
}

/// Why `req` cannot log in at `now`, if it cannot. An unknown name and a
/// wrong password are both rejected credentials and are not told apart.
pub open spec fn login_failure(
    db: Database,
    secret: Seq<char>,
    req: LoginRequest,
    now: i64,
) -> Option<ErrorView> {
    if !has_username(db.users@, req.username@) {
        Some(ErrorView::Unauthorized)
    } else {
        let user = db.users@[username_index(db.users@, req.username@)];
        match argon2_verified(req.password@, user.password_hash@) {
            None => Some(ErrorView::InternalError),
            Some(false) => Some(ErrorView::Unauthorized),
            Some(true) => if spec_generate_jwt(secret, user.user_id, now) is None {
                Some(ErrorView::InternalError)
            } else {
                None
            },
        }
    }
}

/// What the attempt of `req` to log in at `now` comes to.
pub open spec fn login_outcome(
    db: Database,
    secret: Seq<char>,
    req: LoginRequest,
    now: i64,
    r: Result<AuthResponse, AppError>,
) -> bool {
    match login_failure(db, secret, req, now) {
        Some(failure) => r matches Err(e) && e@ == failure,
        None => {
            let user = db.users@[username_index(db.users@, req.username@)];
            &&& r matches Ok(response)
            &&& Some(response.token@) == spec_generate_jwt(secret, user.user_id, now)
            &&& response.user_id == user.user_id
            &&& response.username == user.username
        },
    }
}

/// Why `req` cannot set a new password, if it cannot.
pub open spec fn forgot_password_failure(
    db: Database,
    req: ForgotPasswordRequest,
    salt: Seq<u8>,
) -> Option<ErrorView> {
    if !has_username(db.users@, req.username@) {
        Some(ErrorView::NotFound("User not found"@))
    } else {
        match registration_code_matches(db, req.registration_code@) {
            None => Some(ErrorView::InternalError),
            Some(false) => Some(ErrorView::BadRequest("Invalid registration code"@)),
            Some(true) => if argon2_hashed(req.new_password@, salt) is None {
                Some(ErrorView::InternalError)
            } else {
                None
            },
        }
    }
}

/// What setting a new password does to the store: the user of the request
/// holds the hash of the new password under `salt`; nothing else changes.
pub open spec fn password_changed(
    before: Database,
    after: Database,
    req: ForgotPasswordRequest,
    salt: Seq<u8>,
) -> bool {
    let k = username_index(before.users@, req.username@);
    let row = after.users@[k];
    &&& after.users@ == before.users@.update(k, row)
    &&& row.user_id == before.users@[k].user_id
    &&& row.username == before.users@[k].username
    &&& Some(row.password_hash@) == argon2_hashed(req.new_password@, salt)
    &&& after == (Database { users: after.users, ..before })
}

/// What the attempt of `req` to set a new password comes to.
pub open spec fn forgot_password_outcome(
    before: Database,
    after: Database,
    req: ForgotPasswordRequest,
    salt: Seq<u8>,
    r: Result<(), AppError>,
) -> bool {
    match forgot_password_failure(before, req, salt) {
        Some(failure) => r matches Err(e) && e@ == failure && after == before,
        None => r is Ok && password_changed(before, after, req, salt),
    }
}

/// The account operations, with the secret that tokens are signed under.
#[derive(Debug)]
pub struct UserService {
    pub jwt_secret: String,
}

impl UserService {
    /// The service that signs its tokens under `jwt_secret`.
    pub fn new(jwt_secret: String) -> (r: UserService)
        ensures
            r.jwt_secret == jwt_secret,
    {
        UserService { jwt_secret }
    }

    /// Opens an account for `req`, with a random salt for the password and
    /// a token issued now.
    pub fn register_user(&self, db: &mut Database, req: RegisterRequest) -> (r: Result<
        AuthResponse,
        AppError,
    >)
        requires
            old(db).wf(),
        ensures
            final(db).wf(),
            exists|salt: Seq<u8>, now: i64|
                salt.len() == SALT_LENGTH && is_clock_reading(now) && #[trigger] register_outcome(
                    *old(db),
                    *final(db),
                    self.jwt_secret@,
                    req,
                    salt,
                    now,
                    r,
                ),
    {
        let salt = random_salt();
        let (_, now) = utc_now();
        let ghost before = *db;
        let r = self.register_user_with(db, req, salt.as_slice(), now);
        proof {
            assert(register_outcome(before, *db, self.jwt_secret@, req, salt@, now, r));
        }
        r
    }

    /// Opens an account for `req`: the registration code of the request
    /// must be the one of the store and the name must be free. The password
    /// is hashed under `salt`, and the token is issued at `now`. Where the
    /// token cannot be made, no account is opened.
    pub fn register_user_with(
        &self,
        db: &mut Database,
        req: RegisterRequest,
        salt: &[u8],
        now: i64,
    ) -> (r: Result<AuthResponse, AppError>)
        requires
            old(db).wf(),
        ensures
            final(db).wf(),
            register_outcome(*old(db), *final(db), self.jwt_secret@, req, salt@, now, r),
    {
        match check_registration_code(db, req.registration_code.as_str()) {
            Ok(true) => {},
            Ok(false) => {
                return Err(AppError::bad_request("Invalid registration code"));
            },
            Err(e) => {
                return Err(e);
            },
        }
        if db.find_user_by_username(&req.username).is_some() {
            return Err(AppError::conflict("Username already exists"));
        }
        let password_hash = match hash_with_salt(req.password.as_str(), salt) {
            Ok(password_hash) => password_hash,
            Err(e) => {
                return Err(e);
            },
        };
        if db.next_user_id == i32::MAX {
            return Err(AppError::db_error("user keys are used up"));
        }
        let token = match self.generate_jwt(db.next_user_id, now) {
            Ok(token) => token,
            Err(e) => {
                return Err(e);
            },
        };
        match db.insert_user(req.username, password_hash) {
            Ok(user) => Ok(AuthResponse { token, user_id: user.user_id, username: user.username }),
            Err(e) => Err(e),
        }
    }

    /// Logs `req` in as of now.
    pub fn login_user(&self, db: &Database, req: LoginRequest) -> (r: Result<
        AuthResponse,
        AppError,
    >)
        requires
            db.wf(),
        ensures
            exists|now: i64|
                is_clock_reading(now) && #[trigger] login_outcome(
                    *db,
                    self.jwt_secret@,
                    req,
                    now,
                    r,
                ),
    {
        let (_, now) = utc_now();
        let r = self.login_user_at(db, req, now);
        proof {
            assert(login_outcome(*db, self.jwt_secret@, req, now, r));
        }
        r
    }

    /// Logs `req` in at the time `now`: the name must be known and the
    /// password must match the stored hash.
    pub fn login_user_at(&self, db: &Database, req: LoginRequest, now: i64) -> (r: Result<
        AuthResponse,
        AppError,
    >)
        requires
            db.wf(),
        ensures
            login_outcome(*db, self.jwt_secret@, req, now, r),
    {
        let k = match db.find_user_by_username(&req.username) {
            Some(k) => k,
            None => {
                return Err(AppError::Unauthorized);
            },
        };
        let user = &db.users[k];
        match verify_hash(req.password.as_str(), user.password_hash.as_str()) {
            Ok(true) => {},
            Ok(false) => {
                return Err(AppError::Unauthorized);
            },
            Err(e) => {
                return Err(e);
            },
        }
        match self.generate_jwt(user.user_id, now) {
            Ok(token) => Ok(
                AuthResponse { token, user_id: user.user_id, username: user.username.clone() },
            ),
            Err(e) => Err(e),
        }
    }

    /// Sets a new password for the user of `req`, hashed under a random
    /// salt.
    pub fn forgot_password(&self, db: &mut Database, req: ForgotPasswordRequest) -> (r: Result<
        (),
        AppError,
    >)
        requires
            old(db).wf(),
        ensures
            final(db).wf(),
            exists|salt: Seq<u8>|
                salt.len() == SALT_LENGTH && #[trigger] forgot_password_outcome(
                    *old(db),
                    *final(db),
                    req,
                    salt,
                    r,
                ),
    {
        let salt = random_salt();
        let ghost before = *db;
        let r = self.forgot_password_with(db, req, salt.as_slice());
        proof {
            assert(forgot_password_outcome(before, *db, req, salt@, r));
        }
        r
    }

    /// Sets a new password for the user of `req`, hashed under `salt`: the
    /// user must exist and the registration code of the request must be
    /// the one of the store.
    pub fn forgot_password_with(
        &self,
        db: &mut Database,
        req: ForgotPasswordRequest,
        salt: &[u8],
    ) -> (r: Result<(), AppError>)
        requires
            old(db).wf(),
        ensures
            final(db).wf(),
            forgot_password_outcome(*old(db), *final(db), req, salt@, r),
    {
        let k = match db.find_user_by_username(&req.username) {
            Some(k) => k,
            None => {
                return Err(AppError::not_found("User not found"));
            },
        };
        match check_registration_code(db, req.registration_code.as_str()) {
            Ok(true) => {},
            Ok(false) => {
                return Err(AppError::bad_request("Invalid registration code"));
            },
            Err(e) => {
                return Err(e);
            },
        }
        let password_hash = match hash_with_salt(req.new_password.as_str(), salt) {
            Ok(password_hash) => password_hash,
            Err(e) => {
                return Err(e);
            },
        };
        db.set_password_hash(k, password_hash);
        Ok(())
    }

    /// The token for `user_id` issued at `now`: it expires one day later.
    pub fn generate_jwt(&self, user_id: i32, now: i64) -> (r: Result<String, AppError>)
        ensures
            match spec_generate_jwt(self.jwt_secret@, user_id, now) {
                Some(token) => r matches Ok(t) && t@ == token,
                None => r matches Err(e) && e is InternalError,
            },
    {
        if now > i64::MAX - TOKEN_LIFETIME_SECONDS || now < -TOKEN_LIFETIME_SECONDS {
            return Err(AppError::InternalError);
        }
        let expiration: i64 = now + TOKEN_LIFETIME_SECONDS;
        match jwt_encode(user_id, expiration as u64, self.jwt_secret.as_str()) {
            Some(token) => Ok(token),
            None => Err(AppError::InternalError),
        }
    }
}

/// Whether `code` is the registration code of `db`.
pub fn check_registration_code(db: &Database, code: &str) -> (r: Result<bool, AppError>)
    ensures
        match registration_code_matches(*db, code@) {
            Some(b) => r == Ok::<bool, AppError>(b),
            None => r matches Err(e) && e is InternalError,
        },
{
    match &db.registration_code {
        None => Ok(false),
        Some(stored) => match hash_value(code) {
            Ok(hashed) => Ok(hashed == stored.code_hash),
            Err(e) => Err(e),
        },
    }
}

} // verus!
