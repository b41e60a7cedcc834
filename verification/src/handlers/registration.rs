//! The requests that rotate the registration code.

use crate::date::is_clock_reading;
use crate::db::Database;
use crate::errors::AppError;
use crate::services::registration::forgot_outcome;
use crate::services::registration::reset_outcome;
use crate::services::registration::ForgotRegistrationRequest;
use crate::services::registration::RegistrationService;
use crate::services::registration::ResetRegistrationRequest;
use crate::services::registration::VERIFICATION_CODE_LENGTH;
use crate::utils::is_alphanumeric_token;
use vstd::prelude::*;

verus! {

/// The body of a request for a verification code.
#[derive(Debug)]
pub struct ForgotCodeRequest {
    pub email: String,
}

/// The body of a request to set a new registration code.
#[derive(Debug)]
pub struct ResetCodeRequest {
    pub email: String,
    pub verification_code: String,
    pub new_registration_code: String,
}

/// The reset that `payload` asks for.
pub open spec fn reset_request(payload: ResetCodeRequest) -> ResetRegistrationRequest {
    ResetRegistrationRequest {
        email: payload.email,
        verification_code: payload.verification_code,
        new_registration_code: payload.new_registration_code,
    }
}

/// Issues a verification code for the address of `payload` and answers
/// with the code.
pub fn forgot_code(db: &mut Database, payload: ForgotCodeRequest) -> (r: Result<String, AppError>)
    requires
        old(db).wf(),
    ensures
        final(db).wf(),
        exists|code: Seq<char>, now: i64|
            is_alphanumeric_token(code, VERIFICATION_CODE_LENGTH as int) && is_clock_reading(now)
                && #[trigger] forgot_outcome(*old(db), *final(db), payload.email, code, now, r),
{
    let req = ForgotRegistrationRequest { email: payload.email };
    RegistrationService::new().forgot_registration_code(db, req)
}

/// Sets the registration code that `payload` asks for, where it presents a
/// verification code that is still good.
pub fn reset_code(db: &mut Database, payload: ResetCodeRequest) -> (r: Result<String, AppError>)
    requires
        old(db).wf(),
    ensures
        final(db).wf(),
        exists|now: i64|
            is_clock_reading(now) && #[trigger] reset_outcome(
                *old(db),
                *final(db),
                reset_request(payload),
                now,
                r,
            ),
{
    let req = ResetRegistrationRequest {
        email: payload.email,
        verification_code: payload.verification_code,
        new_registration_code: payload.new_registration_code,
    };
    let ghost before = *db;
    let ghost asked = req;
    let r = RegistrationService::new().reset_registration_code(db, req);
    proof {
        let now = choose|now: i64|
            is_clock_reading(now) && #[trigger] reset_outcome(before, *db, asked, now, r);
        assert(asked == reset_request(payload));
        assert(reset_outcome(before, *db, reset_request(payload), now, r));
    }
    r
}

} // verus!
