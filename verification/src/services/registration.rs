//! Rotating the registration code: a verification code is issued for an
//! address, and whoever presents it in time, once, sets a new registration
//! code.

use crate::date::is_clock_reading;
use crate::date::utc_now;
use crate::db::Database;
use crate::entities::RegistrationCode;
use crate::entities::RegistrationCodeReset;
use crate::errors::AppError;
use crate::errors::ErrorView;
use crate::utils::hash::hash_value;
use crate::utils::hash::spec_hash_value;
use crate::utils::is_alphanumeric_token;
use crate::utils::random_alphanumeric;
use vstd::prelude::*;
use vstd::string::StringExecFns;

verus! {

/// How long a verification code can be used, in seconds.
pub const RESET_CODE_TTL_SECONDS: i64 = 900;

/// The number of characters of a verification code.
pub const VERIFICATION_CODE_LENGTH: usize = 6;

/// The request for a verification code.
#[derive(Debug)]
pub struct ForgotRegistrationRequest {
    pub email: String,
}

/// The request to set a new registration code.
#[derive(Debug)]
pub struct ResetRegistrationRequest {
    pub email: String,
    pub verification_code: String,
    pub new_registration_code: String,
}

/// The row was issued for `email` with the code whose hash is `hashed`, has
/// not been used, and has not expired at `now`.
pub open spec fn reset_is_open(
    row: RegistrationCodeReset,
    email: Seq<char>,
    hashed: Seq<char>,
    now: i64,
) -> bool {
    &&& row.email@ == email
    &&& row.hashed_verification_code@ == hashed
    &&& !row.used
    &&& now <= row.expires_at
}

/// Some row is open for `email` and `hashed` at `now`.
pub open spec fn has_open_reset(
    resets: Seq<RegistrationCodeReset>,
    email: Seq<char>,
    hashed: Seq<char>,
    now: i64,
) -> bool {
    exists|i: int| 0 <= i < resets.len() && reset_is_open(#[trigger] resets[i], email, hashed, now)
}

/// The position `k` holds the first row that is open for `email` and
/// `hashed` at `now`.
pub open spec fn is_first_open_reset(
    resets: Seq<RegistrationCodeReset>,
    email: Seq<char>,
    hashed: Seq<char>,
    now: i64,
    k: int,
) -> bool {
    &&& 0 <= k < resets.len()
    &&& reset_is_open(resets[k], email, hashed, now)
    &&& forall|j: int| 0 <= j < k ==> !reset_is_open(#[trigger] resets[j], email, hashed, now)
}

/// The position of the first row that is open for `email` and `hashed` at
/// `now`, where there is one.
pub open spec fn first_open_reset(
    resets: Seq<RegistrationCodeReset>,
    email: Seq<char>,
    hashed: Seq<char>,
    now: i64,
) -> int {
    choose|k: int| is_first_open_reset(resets, email, hashed, now, k)
}

/// Why no verification code can be issued, if none can.
pub open spec fn forgot_failure(db: Database, code: Seq<char>, now: i64) -> Option<ErrorView> {
    if spec_hash_value(code) is None {
        Some(ErrorView::InternalError)
    } else if now + RESET_CODE_TTL_SECONDS > i64::MAX {
        Some(ErrorView::InternalError)
    } else if db.next_reset_id == i32::MAX {
        Some(ErrorView::DbError("reset keys are used up"@))
    } else {
        None
    }
}

/// What issuing the code `code` for `email` at `now` does to the store: a
/// row is appended that holds the hash of the code, is unused and expires
/// after the time to live.
pub open spec fn reset_issued(
    before: Database,
    after: Database,
    email: String,
    code: Seq<char>,
    now: i64,
) -> bool {
    let row = after.registration_code_resets@.last();
    &&& after.registration_code_resets@ == before.registration_code_resets@.push(row)
    &&& row.id == before.next_reset_id
    &&& row.email == email
    &&& Some(row.hashed_verification_code@) == spec_hash_value(code)
    &&& row.expires_at == now + RESET_CODE_TTL_SECONDS
    &&& !row.used
    &&& after == (Database {
        registration_code_resets: after.registration_code_resets,
        next_reset_id: (before.next_reset_id + 1) as i32,
        ..before
    })
}

/// Why `req` cannot set a new registration code at `now`, if it cannot. A
/// wrong code, a code that was used and a code that has expired are not
/// told apart.
pub open spec fn reset_failure(db: Database, req: ResetRegistrationRequest, now: i64) -> Option<
    ErrorView,
> {
    match spec_hash_value(req.verification_code@) {
        None => Some(ErrorView::InternalError),
        Some(hashed) => if !has_open_reset(db.registration_code_resets@, req.email@, hashed, now) {
            Some(ErrorView::BadRequest("Invalid verification code"@))
        } else if db.registration_code is None {
            Some(ErrorView::InternalError)
        } else if spec_hash_value(req.new_registration_code@) is None {
            Some(ErrorView::InternalError)
        } else {
            None
        },
    }
}

/// What a reset at `now` does to the store: the registration code holds
/// the hash of the new code, and the first row that was open for the
/// request is marked as used.
pub open spec fn registration_code_reset(
    before: Database,
    after: Database,
    req: ResetRegistrationRequest,
    now: i64,
) -> bool {
    let resets = before.registration_code_resets@;
    let k = first_open_reset(resets, req.email@, spec_hash_value(req.verification_code@)->0, now);
    &&& after.registration_code matches Some(code)
    &&& code.id == before.registration_code->0.id
    &&& Some(code.code_hash@) == spec_hash_value(req.new_registration_code@)
    &&& code.updated_at == now
    &&& after.registration_code_resets@ == resets.update(
        k,
        RegistrationCodeReset { used: true, ..resets[k] },
    )
    &&& after == (Database {
        registration_code: after.registration_code,
        registration_code_resets: after.registration_code_resets,
        ..before
    })
}

/// What issuing the code `code` for the address `email` at `now` comes to:
/// it fails and changes nothing, or it stores the row and returns the code.
pub open spec fn forgot_outcome(
    before: Database,
    after: Database,
    email: String,
    code: Seq<char>,
    now: i64,
    r: Result<String, AppError>,
) -> bool {
    match forgot_failure(before, code, now) {
        Some(failure) => r matches Err(e) && e@ == failure && after == before,
        None => r matches Ok(issued) && issued@ == code && reset_issued(
            before,
            after,
            email,
            code,
            now,
        ),
    }
}

/// What the reset that `req` asks for at `now` comes to: it fails and
/// changes nothing, or it sets the new code and uses up the row.
pub open spec fn reset_outcome(
    before: Database,
    after: Database,
    req: ResetRegistrationRequest,
    now: i64,
    r: Result<String, AppError>,
) -> bool {
    match reset_failure(before, req, now) {
        Some(failure) => r matches Err(e) && e@ == failure && after == before,
        None => r matches Ok(message) && message@ == "Registration code successfully reset"@
            && registration_code_reset(before, after, req, now),
    }
}

/// The operations that rotate the registration code.
#[derive(Clone, Copy, Debug)]
pub struct RegistrationService {}

impl RegistrationService {
    /// The service. It holds nothing: the store is handed to every call.
    pub fn new() -> (r: RegistrationService) {
        RegistrationService {  }
    }

    /// Issues a random verification code of six letters and digits for the
    /// address of `req` and returns it. The code can be used for fifteen
    /// minutes from now.
    pub fn forgot_registration_code(&self, db: &mut Database, req: ForgotRegistrationRequest) -> (r:
        Result<String, AppError>)
        requires
            old(db).wf(),
        ensures
            final(db).wf(),
            exists|code: Seq<char>, now: i64|
                is_alphanumeric_token(code, VERIFICATION_CODE_LENGTH as int) && is_clock_reading(
                    now,
                ) && #[trigger] forgot_outcome(*old(db), *final(db), req.email, code, now, r),
    {
        let code = random_alphanumeric(VERIFICATION_CODE_LENGTH);
        let (_, now) = utc_now();
        let ghost before = *db;
        let ghost drawn = code@;
        let r = self.forgot_registration_code_with(db, req, code, now);
        proof {
            assert(forgot_outcome(before, *db, req.email, drawn, now, r));
        }
        r
    }

    /// Issues the verification code `code` for the address of `req` at the
    /// time `now`, and returns the code.
    pub fn forgot_registration_code_with(
        &self,
        db: &mut Database,
        req: ForgotRegistrationRequest,
        code: String,
        now: i64,
    ) -> (r: Result<String, AppError>)
        requires
            old(db).wf(),
        ensures
            final(db).wf(),
            forgot_outcome(*old(db), *final(db), req.email, code@, now, r),
            r matches Ok(issued) ==> issued == code,
    {
        let hashed = match hash_value(code.as_str()) {
            Ok(hashed) => hashed,
            Err(e) => {
                return Err(e);
            },
        };
        if now > i64::MAX - RESET_CODE_TTL_SECONDS {
            return Err(AppError::InternalError);
        }
        let expires_at: i64 = now + RESET_CODE_TTL_SECONDS;
        match db.insert_reset(req.email, hashed, expires_at) {
            Ok(_) => Ok(code),
            Err(e) => Err(e),
        }
    }

    /// Sets a new registration code as of now, where `req` presents a
    /// verification code that was issued for its address, has not been
    /// used and has not expired.
    pub fn reset_registration_code(&self, db: &mut Database, req: ResetRegistrationRequest) -> (r:
        Result<String, AppError>)
        requires
            old(db).wf(),
        ensures
            final(db).wf(),
            exists|now: i64|
                is_clock_reading(now) && #[trigger] reset_outcome(
                    *old(db),
                    *final(db),
                    req,
                    now,
                    r,
                ),
    {
        let (_, now) = utc_now();
        let ghost before = *db;
        let r = self.reset_registration_code_at(db, req, now);
        proof {
            assert(reset_outcome(before, *db, req, now, r));
        }
        r
    }

    /// Sets a new registration code at the time `now`, where `req`
    /// presents a verification code that was issued for its address, has
    /// not been used and has not expired at `now`. The code is then used.
    pub fn reset_registration_code_at(
        &self,
        db: &mut Database,
        req: ResetRegistrationRequest,
        now: i64,
    ) -> (r: Result<String, AppError>)
        requires
            old(db).wf(),
        ensures
            final(db).wf(),
            reset_outcome(*old(db), *final(db), req, now, r),
    {
        let hashed = match hash_value(req.verification_code.as_str()) {
            Ok(hashed) => hashed,
            Err(e) => {
                return Err(e);
            },
        };
        let k = match find_open_reset(&db.registration_code_resets, &req.email, &hashed, now) {
            Some(k) => k,
            None => {
                return Err(AppError::bad_request("Invalid verification code"));
            },
        };
        let id: i32 = match &db.registration_code {
            Some(code) => code.id,
            None => {
                return Err(AppError::InternalError);
            },
        };
        let code_hash = match hash_value(req.new_registration_code.as_str()) {
            Ok(code_hash) => code_hash,
            Err(e) => {
                return Err(e);
            },
        };
        db.registration_code = Some(RegistrationCode { id, code_hash, updated_at: now });
        db.mark_reset_used(k);
        Ok(String::from_str("Registration code successfully reset"))
    }
}

/// The position of the first row that is open for `email` and `hashed` at
/// `now`, or `None` where no row is.
pub fn find_open_reset(
    resets: &Vec<RegistrationCodeReset>,
    email: &String,
    hashed: &String,
    now: i64,
) -> (r: Option<usize>)
    ensures
        match r {
            Some(k) => is_first_open_reset(resets@, email@, hashed@, now, k as int) && k
                == first_open_reset(resets@, email@, hashed@, now),
            None => !has_open_reset(resets@, email@, hashed@, now),
        },
{
    let mut i: usize = 0;
    while i < resets.len()
        invariant
            i <= resets@.len(),
            forall|j: int|
                0 <= j < i ==> !reset_is_open(#[trigger] resets@[j], email@, hashed@, now),
        decreases resets@.len() - i,
    {
        let row = &resets[i];
        if row.email == *email && row.hashed_verification_code == *hashed && !row.used && now
            <= row.expires_at {
            proof {
                lemma_first_open_is_unique(
                    resets@,
                    email@,
                    hashed@,
                    now,
                    i as int,
                    first_open_reset(resets@, email@, hashed@, now),
                );
            }
            return Some(i);
        }
        i += 1;
    }
    None
}

/// There is one first open row at most.
pub proof fn lemma_first_open_is_unique(
    resets: Seq<RegistrationCodeReset>,
    email: Seq<char>,
    hashed: Seq<char>,
    now: i64,
    a: int,
    b: int,
)
    requires
        is_first_open_reset(resets, email, hashed, now, a),
        b == first_open_reset(resets, email, hashed, now),
    ensures
        a == b,
{
    assert(is_first_open_reset(resets, email, hashed, now, b));
}

/// A verification code that has been used or has expired never sets a new
/// registration code: where every row of the store is used or expired at
/// `now`, the reset fails whatever it presents, and the store, the
/// registration code with it, stays as it was.
pub proof fn lemma_used_or_expired_never_authorizes(
    before: Database,
    after: Database,
    req: ResetRegistrationRequest,
    now: i64,
    r: Result<String, AppError>,
)
    requires
        forall|i: int|
            0 <= i < before.registration_code_resets@.len() ==> (
            #[trigger] before.registration_code_resets@[i]).used
                || before.registration_code_resets@[i].expires_at < now,
        reset_outcome(before, after, req, now, r),
    ensures
        r is Err,
        after == before,
        after.registration_code == before.registration_code,
{
    if spec_hash_value(req.verification_code@) is Some {
        let hashed = spec_hash_value(req.verification_code@)->0;
        assert(!has_open_reset(before.registration_code_resets@, req.email@, hashed, now));
    }
}

/// A reset that succeeds rests on a row that was issued for the address
/// and the code of the request, was unused and had not expired; that row
/// is then used, so that it is open for nobody at any time after.
pub proof fn lemma_reset_consumes_its_code(
    before: Database,
    after: Database,
    req: ResetRegistrationRequest,
    now: i64,
    r: Result<String, AppError>,
)
    requires
        reset_outcome(before, after, req, now, r),
        r is Ok,
    ensures
        spec_hash_value(req.verification_code@) is Some,
        ({
            let hashed = spec_hash_value(req.verification_code@)->0;
            let k = first_open_reset(before.registration_code_resets@, req.email@, hashed, now);
            &&& 0 <= k < before.registration_code_resets@.len()
            &&& before.registration_code_resets@[k].email@ == req.email@
            &&& before.registration_code_resets@[k].hashed_verification_code@ == hashed
            &&& !before.registration_code_resets@[k].used
            &&& now <= before.registration_code_resets@[k].expires_at
            &&& after.registration_code_resets@.len() == before.registration_code_resets@.len()
            &&& after.registration_code_resets@[k].used
            &&& forall|email: Seq<char>, code: Seq<char>, later: i64|
                !reset_is_open(after.registration_code_resets@[k], email, code, later)
        }),
{
    let hashed = spec_hash_value(req.verification_code@)->0;
    let resets = before.registration_code_resets@;
    let i = choose|i: int|
        0 <= i < resets.len() && reset_is_open(#[trigger] resets[i], req.email@, hashed, now);
    lemma_some_first_open(resets, req.email@, hashed, now, i);
}

/// Where some row is open, some row is the first open one.
pub proof fn lemma_some_first_open(
    resets: Seq<RegistrationCodeReset>,
    email: Seq<char>,
    hashed: Seq<char>,
    now: i64,
    i: int,
)
    requires
        0 <= i < resets.len(),
        reset_is_open(resets[i], email, hashed, now),
    ensures
        is_first_open_reset(
            resets,
            email,
            hashed,
            now,
            first_open_reset(resets, email, hashed, now),
        ),
    decreases i,
{
    if exists|j: int| 0 <= j < i && reset_is_open(#[trigger] resets[j], email, hashed, now) {
        let j = choose|j: int|
            0 <= j < i && reset_is_open(#[trigger] resets[j], email, hashed, now);
        lemma_some_first_open(resets, email, hashed, now, j);
    } else {
        assert(is_first_open_reset(resets, email, hashed, now, i));
    }
}

} // verus!
