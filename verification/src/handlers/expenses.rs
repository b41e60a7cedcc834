//! The expense requests.

use crate::date::spec_parse_date;
use crate::date::Date;
use crate::db::Database;
use crate::errors::AppError;
use crate::handlers::orders::bad_date;
use crate::handlers::orders::parse_optional_date;
use crate::handlers::orders::spec_parse_optional_date;
use crate::middleware::auth::AuthenticatedUser;
use crate::services::expenses::create_expense_outcome;
use crate::services::expenses::delete_expense_outcome;
use crate::services::expenses::expense_responses;
use crate::services::expenses::get_expense_outcome;
use crate::services::expenses::update_expense_outcome;
use crate::services::expenses::AllExpensesResponse;
use crate::services::expenses::CreateExpenseResponse;
use crate::services::expenses::ExpensesService;
use crate::services::expenses::GetExpenseResponse;
use crate::services::expenses::UpdateExpenseResponse;
use vstd::prelude::*;
use vstd::string::StringExecFns;

verus! {

/// The body of a request to record an expense. The date is written as
/// `YYYY-MM-DD`, the amount is in cents.
#[derive(Debug)]
pub struct CreateExpenseRequest {
    pub description: String,
    pub label: String,
    pub amount: i64,
    pub expense_date: String,
}

/// The body of a request to edit an expense. The date, where there is one,
/// is written as `YYYY-MM-DD`.
#[derive(Debug)]
pub struct UpdateExpenseRequest {
    pub description: Option<String>,
    pub label: Option<String>,
    pub amount: Option<i64>,
    pub expense_date: Option<String>,
}

/// The expense that `payload` asks for on behalf of `user_id`, once its
/// date is read as `expense_date`.
pub open spec fn create_request(
    payload: CreateExpenseRequest,
    expense_date: Date,
    user_id: i32,
) -> crate::services::expenses::CreateExpenseRequest {
    crate::services::expenses::CreateExpenseRequest {
        description: payload.description,
        label: payload.label,
        amount: payload.amount,
        expense_date,
        created_by: user_id,
    }
}

/// The edit that `payload` asks for, once its date is read as
/// `expense_date`.
pub open spec fn update_request(
    payload: UpdateExpenseRequest,
    expense_date: Option<Date>,
) -> crate::services::expenses::UpdateExpenseRequest {
    crate::services::expenses::UpdateExpenseRequest {
        description: payload.description,
        label: payload.label,
        amount: payload.amount,
        expense_date,
    }
}

/// Records the expense of `payload` for the user who asks. A date that
/// cannot be read is a bad request.
pub fn create_expense(
    db: &mut Database,
    user: &AuthenticatedUser,
    payload: CreateExpenseRequest,
) -> (r: Result<CreateExpenseResponse, AppError>)
    requires
        old(db).wf(),
    ensures
        final(db).wf(),
        match spec_parse_date(payload.expense_date@) {
            None => r matches Err(e) && e@ == bad_date() && *final(db) == *old(db),
            Some(expense_date) => create_expense_outcome(
                *old(db),
                *final(db),
                create_request(payload, expense_date, user.user_id),
                r,
            ),
        },
{
    let expense_date = match Date::parse(payload.expense_date.as_str()) {
        Some(d) => d,
        None => {
            return Err(AppError::bad_request("Invalid date format, expected YYYY-MM-DD"));
        },
    };
    let req = crate::services::expenses::CreateExpenseRequest {
        description: payload.description,
        label: payload.label,
        amount: payload.amount,
        expense_date,
        created_by: user.user_id,
    };
    ExpensesService::new().create_expense(db, req)
}

/// All expenses.
pub fn list_expenses(db: &Database) -> (r: Result<Vec<AllExpensesResponse>, AppError>)
    ensures
        r matches Ok(responses) && responses@ == expense_responses(db.expenses@),
{
    ExpensesService::new().get_expenses(db)
}

/// The expense `id`.
pub fn get_expense(db: &Database, id: i32) -> (r: Result<GetExpenseResponse, AppError>)
    requires
        db.wf(),
    ensures
        get_expense_outcome(*db, id, r),
{
    ExpensesService::new().get_expense_by_id(db, id)
}

/// Edits the expense `id` for the user who asks. A date that cannot be
/// read is a bad request.
pub fn update_expense(
    db: &mut Database,
    user: &AuthenticatedUser,
    id: i32,
    payload: UpdateExpenseRequest,
) -> (r: Result<UpdateExpenseResponse, AppError>)
    requires
        old(db).wf(),
    ensures
        final(db).wf(),
        match spec_parse_optional_date(payload.expense_date) {
            None => r matches Err(e) && e@ == bad_date() && *final(db) == *old(db),
            Some(expense_date) => update_expense_outcome(
                *old(db),
                *final(db),
                id,
                update_request(payload, expense_date),
                user.user_id,
                r,
            ),
        },
{
    let expense_date = match parse_optional_date(&payload.expense_date) {
        Ok(d) => d,
        Err(e) => {
            return Err(e);
        },
    };
    let req = crate::services::expenses::UpdateExpenseRequest {
        description: payload.description,
        label: payload.label,
        amount: payload.amount,
        expense_date,
    };
    ExpensesService::new().update_expense(db, id, req, user.user_id)
}

/// What the deletion of the expense `id` is answered with.
pub open spec fn delete_expense_answer(
    before: Database,
    after: Database,
    id: i32,
    r: Result<String, AppError>,
) -> bool {
    match r {
        Ok(message) => message@ == "Expense deleted successfully"@ && delete_expense_outcome(
            before,
            after,
            id,
            Ok(()),
        ),
        Err(e) => delete_expense_outcome(before, after, id, Err(e)),
    }
}

/// Deletes the expense `id`.
pub fn delete_expense(db: &mut Database, id: i32) -> (r: Result<String, AppError>)
    requires
        old(db).wf(),
    ensures
        final(db).wf(),
        delete_expense_answer(*old(db), *final(db), id, r),
{
    match ExpensesService::new().delete_expense(db, id) {
        Ok(()) => Ok(String::from_str("Expense deleted successfully")),
        Err(e) => Err(e),
    }
}

} // verus!
