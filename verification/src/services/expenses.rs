//! Expenses: outgoing costs. Creating or editing an expense recomputes the
//! report of the expense's month on the side.

use crate::date::utc_now;
use crate::date::Date;
use crate::db::Database;
use crate::entities::amount_in_range;
use crate::entities::check_amount;
use crate::entities::Expense;
use crate::errors::AppError;
use crate::errors::ErrorView;
use crate::db::has_report_of;
use crate::db::report_index;
use crate::entities::sum_expense_amounts;
use crate::entities::sum_order_amounts;
use crate::entities::ReportView;
use crate::services::reports::expense_in_window;
use crate::services::reports::expenses_between;
use crate::services::reports::generate_failure;
use crate::services::reports::lemma_upserted_report_is_found;
use crate::services::reports::orders_between;
use crate::services::reports::report_keys_used_up;
use crate::services::reports::report_refreshed;
use crate::services::reports::report_stored;
use crate::services::reports::ReportsService;
use crate::table::find_by_id;
use crate::table::has_id;
use crate::table::index_of_id;
use crate::table::lemma_index_of_id;
use crate::table::without_id;
use vstd::prelude::*;

verus! {

/// What it takes to record an expense.
#[derive(Debug)]
pub struct CreateExpenseRequest {
    pub description: String,
    pub label: String,
    pub amount: i64,
    pub expense_date: Date,
    pub created_by: i32,
}

/// The fields of an expense to change; a field that is `None` stays as it
/// is.
#[derive(Debug)]
pub struct UpdateExpenseRequest {
    pub description: Option<String>,
    pub label: Option<String>,
    pub amount: Option<i64>,
    pub expense_date: Option<Date>,
}

/// A new expense as it is shown to its creator.
#[derive(Debug)]
pub struct CreateExpenseResponse {
    pub expense_id: i32,
    pub description: String,
    pub label: String,
    pub amount: i64,
    pub expense_date: Date,
    pub created_by: Option<i32>,
    pub modified_by: Option<i32>,
}

/// An expense as it is shown in the list of all expenses.
#[derive(Debug)]
pub struct AllExpensesResponse {
    pub expense_id: i32,
    pub description: String,
    pub label: String,
    pub amount: i64,
    pub expense_date: Date,
    pub created_by: Option<i32>,
    pub modified_by: Option<i32>,
}

/// An expense as it is shown by itself.
#[derive(Debug)]
pub struct GetExpenseResponse {
    pub expense_id: i32,
    pub description: String,
    pub label: String,
    pub amount: i64,
    pub expense_date: Date,
    pub created_by: Option<i32>,
    pub modified_by: Option<i32>,
}

/// An expense as it is shown after an edit.
#[derive(Debug)]
pub struct UpdateExpenseResponse {
    pub expense_id: i32,
    pub description: String,
    pub label: String,
    pub amount: i64,
    pub expense_date: Date,
    pub created_by: Option<i32>,
    pub modified_by: Option<i32>,
}

impl CreateExpenseResponse {
    /// The response that shows `expense`.
    pub open spec fn of(expense: Expense) -> CreateExpenseResponse {
        CreateExpenseResponse {
            expense_id: expense.expense_id,
            description: expense.description,
            label: expense.label,
            amount: expense.amount,
            expense_date: expense.expense_date,
            created_by: expense.created_by,
            modified_by: expense.modified_by,
        }
    }

    /// The response that shows `expense`.
    pub fn from_expense(expense: &Expense) -> (r: CreateExpenseResponse)
        ensures
            r == CreateExpenseResponse::of(*expense),
    {
        CreateExpenseResponse {
            expense_id: expense.expense_id,
            description: expense.description.clone(),
            label: expense.label.clone(),
            amount: expense.amount,
            expense_date: expense.expense_date,
            created_by: expense.created_by,
            modified_by: expense.modified_by,
        }
    }
}

impl AllExpensesResponse {
    /// The response that shows `expense`.
    pub open spec fn of(expense: Expense) -> AllExpensesResponse {
        AllExpensesResponse {
            expense_id: expense.expense_id,
            description: expense.description,
            label: expense.label,
            amount: expense.amount,
            expense_date: expense.expense_date,
            created_by: expense.created_by,
            modified_by: expense.modified_by,
        }
    }

    /// The response that shows `expense`.
    pub fn from_expense(expense: &Expense) -> (r: AllExpensesResponse)
        ensures
            r == AllExpensesResponse::of(*expense),
    {
        AllExpensesResponse {
            expense_id: expense.expense_id,
            description: expense.description.clone(),
            label: expense.label.clone(),
            amount: expense.amount,
            expense_date: expense.expense_date,
            created_by: expense.created_by,
            modified_by: expense.modified_by,
        }
    }
}

impl GetExpenseResponse {
    /// The response that shows `expense`.
    pub open spec fn of(expense: Expense) -> GetExpenseResponse {
        GetExpenseResponse {
            expense_id: expense.expense_id,
            description: expense.description,
            label: expense.label,
            amount: expense.amount,
            expense_date: expense.expense_date,
            created_by: expense.created_by,
            modified_by: expense.modified_by,
        }
    }

    /// The response that shows `expense`.
    pub fn from_expense(expense: &Expense) -> (r: GetExpenseResponse)
        ensures
            r == GetExpenseResponse::of(*expense),
    {
        GetExpenseResponse {
            expense_id: expense.expense_id,
            description: expense.description.clone(),
            label: expense.label.clone(),
            amount: expense.amount,
            expense_date: expense.expense_date,
            created_by: expense.created_by,
            modified_by: expense.modified_by,
        }
    }
}

impl UpdateExpenseResponse {
    /// The response that shows `expense`.
    pub open spec fn of(expense: Expense) -> UpdateExpenseResponse {
        UpdateExpenseResponse {
            expense_id: expense.expense_id,
            description: expense.description,
            label: expense.label,
            amount: expense.amount,
            expense_date: expense.expense_date,
            created_by: expense.created_by,
            modified_by: expense.modified_by,
        }
    }

    /// The response that shows `expense`.
    pub fn from_expense(expense: &Expense) -> (r: UpdateExpenseResponse)
        ensures
            r == UpdateExpenseResponse::of(*expense),
    {
        UpdateExpenseResponse {
            expense_id: expense.expense_id,
            description: expense.description.clone(),
            label: expense.label.clone(),
            amount: expense.amount,
            expense_date: expense.expense_date,
            created_by: expense.created_by,
            modified_by: expense.modified_by,
        }
    }
}

/// The responses that show `expenses`, one for one.
pub open spec fn expense_responses(expenses: Seq<Expense>) -> Seq<AllExpensesResponse> {
    Seq::new(expenses.len(), |i: int| AllExpensesResponse::of(expenses[i]))
}

/// The expense that `req` asks for, under the next key of `db`. Its creator
/// is also the one who changed it last.
pub open spec fn requested_expense(db: Database, req: CreateExpenseRequest) -> Expense {
    Expense {
        expense_id: db.next_expense_id,
        description: req.description,
        label: req.label,
        amount: req.amount,
        expense_date: req.expense_date,
        created_by: Some(req.created_by),
        modified_by: Some(req.created_by),
    }
}

/// Why `req` cannot be carried out, if it cannot.
pub open spec fn create_expense_failure(db: Database, req: CreateExpenseRequest) -> Option<
    ErrorView,
> {
    if !req.expense_date.is_valid() {
        Some(ErrorView::BadRequest("Invalid date format, expected YYYY-MM-DD"@))
    } else if !amount_in_range(req.amount) {
        Some(ErrorView::BadRequest("Invalid amount"@))
    } else if !has_id(db.users@, req.created_by as int) {
        Some(ErrorView::NotFound("User not found"@))
    } else if db.next_expense_id == i32::MAX {
        Some(ErrorView::DbError("expense keys are used up"@))
    } else {
        None
    }
}

/// What recording an expense does to the store: the expense is appended,
/// and the report of its month is recomputed on the side from the tables
/// that hold it.
pub open spec fn expense_created(
    before: Database,
    after: Database,
    req: CreateExpenseRequest,
) -> bool {
    let inserted = Database {
        expenses: after.expenses,
        next_expense_id: (before.next_expense_id + 1) as i32,
        ..before
    };
    &&& after.expenses@ == before.expenses@.push(requested_expense(before, req))
    &&& report_refreshed(inserted, after, req.expense_date.spec_first_of_month())
}

/// The expense `existing` after the edit `req` by the user `user_id`: a
/// field that `req` names takes the new value, every other field stays.
pub open spec fn updated_expense(
    existing: Expense,
    req: UpdateExpenseRequest,
    user_id: i32,
) -> Expense {
    Expense {
        expense_id: existing.expense_id,
        description: match req.description {
            Some(description) => description,
            None => existing.description,
        },
        label: match req.label {
            Some(label) => label,
            None => existing.label,
        },
        amount: match req.amount {
            Some(amount) => amount,
            None => existing.amount,
        },
        expense_date: match req.expense_date {
            Some(date) => date,
            None => existing.expense_date,
        },
        created_by: existing.created_by,
        modified_by: Some(user_id),
    }
}

/// Why the edit `req` of the expense `id` by the user `user_id` cannot be
/// carried out, if it cannot.
pub open spec fn update_expense_failure(
    db: Database,
    id: i32,
    req: UpdateExpenseRequest,
    user_id: i32,
) -> Option<ErrorView> {
    if !has_id(db.expenses@, id as int) {
        Some(ErrorView::NotFound("Expense not found"@))
    } else if req.expense_date is Some && !req.expense_date->0.is_valid() {
        Some(ErrorView::BadRequest("Invalid date format, expected YYYY-MM-DD"@))
    } else if req.amount is Some && !amount_in_range(req.amount->0) {
        Some(ErrorView::BadRequest("Invalid amount"@))
    } else if !has_id(db.users@, user_id as int) {
        Some(ErrorView::NotFound("User not found"@))
    } else {
        None
    }
}

/// What editing an expense does to the store: the expense is replaced by
/// its edited form, and the report of the month that it is now dated in is
/// recomputed on the side.
pub open spec fn expense_updated(
    before: Database,
    after: Database,
    id: i32,
    req: UpdateExpenseRequest,
    user_id: i32,
) -> bool {
    let k = index_of_id(before.expenses@, id as int);
    let expense = updated_expense(before.expenses@[k], req, user_id);
    let edited = Database { expenses: after.expenses, ..before };
    &&& after.expenses@ == before.expenses@.update(k, expense)
    &&& report_refreshed(edited, after, expense.expense_date.spec_first_of_month())
}

/// What the attempt to record the expense of `req` comes to: it fails and
/// changes nothing, or it stores the expense and shows it.
pub open spec fn create_expense_outcome(
    before: Database,
    after: Database,
    req: CreateExpenseRequest,
    r: Result<CreateExpenseResponse, AppError>,
) -> bool {
    match create_expense_failure(before, req) {
        Some(failure) => r matches Err(e) && e@ == failure && after == before,
        None => {
            &&& r matches Ok(response)
            &&& response == CreateExpenseResponse::of(requested_expense(before, req))
            &&& expense_created(before, after, req)
        },
    }
}

/// What the attempt to edit the expense `id` comes to: it fails and
/// changes nothing, or it stores the edit and shows the expense as it now
/// is.
pub open spec fn update_expense_outcome(
    before: Database,
    after: Database,
    id: i32,
    req: UpdateExpenseRequest,
    user_id: i32,
    r: Result<UpdateExpenseResponse, AppError>,
) -> bool {
    match update_expense_failure(before, id, req, user_id) {
        Some(failure) => r matches Err(e) && e@ == failure && after == before,
        None => {
            &&& r matches Ok(response)
            &&& response == UpdateExpenseResponse::of(
                after.expenses@[index_of_id(before.expenses@, id as int)],
            )
            &&& expense_updated(before, after, id, req, user_id)
        },
    }
}

/// What the attempt to delete the expense `expense_id` comes to: an
/// expense that does not exist is reported and nothing changes; else the
/// expense is gone and no other row is touched.
pub open spec fn delete_expense_outcome(
    before: Database,
    after: Database,
    expense_id: i32,
    r: Result<(), AppError>,
) -> bool {
    if has_id(before.expenses@, expense_id as int) {
        &&& r is Ok
        &&& after.expenses@ == without_id(before.expenses@, expense_id as int)
        &&& !has_id(after.expenses@, expense_id as int)
        &&& after == (Database { expenses: after.expenses, ..before })
    } else {
        r matches Err(e) && e.is_not_found("Expense not found"@) && after == before
    }
}

/// What looking up the expense `expense_id` comes to.
pub open spec fn get_expense_outcome(
    db: Database,
    expense_id: i32,
    r: Result<GetExpenseResponse, AppError>,
) -> bool {
    if has_id(db.expenses@, expense_id as int) {
        r matches Ok(response) && response == GetExpenseResponse::of(
            db.expenses@[index_of_id(db.expenses@, expense_id as int)],
        )
    } else {
        r matches Err(e) && e.is_not_found("Expense not found"@)
    }
}

/// The expense operations.
#[derive(Clone, Copy, Debug)]
pub struct ExpensesService {}

impl ExpensesService {
    /// The service. It holds nothing: the store is handed to every call.
    pub fn new() -> (r: ExpensesService) {
        ExpensesService {  }
    }

    /// Records an expense.
    pub fn create_expense(&self, db: &mut Database, req: CreateExpenseRequest) -> (r: Result<
        CreateExpenseResponse,
        AppError,
    >)
        requires
            old(db).wf(),
        ensures
            final(db).wf(),
            create_expense_outcome(*old(db), *final(db), req, r),
    {
        let (_, now) = utc_now();
        self.create_expense_at(db, req, now)
    }

    /// Records an expense, with `now` as the time of the recomputed report.
    pub fn create_expense_at(&self, db: &mut Database, req: CreateExpenseRequest, now: i64) -> (r:
        Result<CreateExpenseResponse, AppError>)
        requires
            old(db).wf(),
        ensures
            final(db).wf(),
            create_expense_outcome(*old(db), *final(db), req, r),
    {
        if !req.expense_date.check_valid() {
            return Err(AppError::bad_request("Invalid date format, expected YYYY-MM-DD"));
        }
        if !check_amount(req.amount) {
            return Err(AppError::bad_request("Invalid amount"));
        }
        if find_by_id(&db.users, req.created_by).is_none() {
            return Err(AppError::not_found("User not found"));
        }
        let month = req.expense_date.first_of_month();
        let ghost before = *db;
        let inserted = db.insert_expense(
            req.description,
            req.label,
            req.amount,
            req.expense_date,
            Some(req.created_by),
            Some(req.created_by),
        );
        let expense = match inserted {
            Ok(expense) => expense,
            Err(e) => {
                return Err(e);
            },
        };
        let ghost with_row = *db;
        let _ = ReportsService::new().generate_monthly_report_at(db, month, now);
        proof {
            let inserted_state = Database {
                expenses: db.expenses,
                next_expense_id: (before.next_expense_id + 1) as i32,
                ..before
            };
            assert(inserted_state == with_row);
        }
        Ok(CreateExpenseResponse::from_expense(&expense))
    }

    /// All expenses, in table order.
    pub fn get_expenses(&self, db: &Database) -> (r: Result<Vec<AllExpensesResponse>, AppError>)
        ensures
            r matches Ok(responses) && responses@ == expense_responses(db.expenses@),
    {
        let mut out: Vec<AllExpensesResponse> = Vec::new();
        let mut i: usize = 0;
        while i < db.expenses.len()
            invariant
                i <= db.expenses@.len(),
                out@ == expense_responses(db.expenses@.take(i as int)),
            decreases db.expenses@.len() - i,
        {
            out.push(AllExpensesResponse::from_expense(&db.expenses[i]));
            proof {
                assert(out@ =~= expense_responses(db.expenses@.take(i + 1)));
            }
            i += 1;
        }
        proof {
            assert(db.expenses@.take(db.expenses@.len() as int) =~= db.expenses@);
        }
        Ok(out)
    }

    /// The expense `expense_id`, or `NotFound` where there is none.
    pub fn get_expense_by_id(&self, db: &Database, expense_id: i32) -> (r: Result<
        GetExpenseResponse,
        AppError,
    >)
        ensures
            match r {
                Ok(response) => exists|k: int|
                    0 <= k < db.expenses@.len() && (#[trigger] db.expenses@[k]).expense_id
                        == expense_id && response == GetExpenseResponse::of(db.expenses@[k]),
                Err(e) => !has_id(db.expenses@, expense_id as int) && e.is_not_found(
                    "Expense not found"@,
                ),
            },
            db.wf() ==> get_expense_outcome(*db, expense_id, r),
    {
        match find_by_id(&db.expenses, expense_id) {
            Some(k) => {
                proof {
                    if db.wf() {
                        lemma_index_of_id(db.expenses@, db.next_expense_id as int, k as int);
                    }
                }
                Ok(GetExpenseResponse::from_expense(&db.expenses[k]))
            },
            None => Err(AppError::not_found("Expense not found")),
        }
    }

    /// Edits the expense `expense_id` on behalf of the user `modified_by`.
    pub fn update_expense(
        &self,
        db: &mut Database,
        expense_id: i32,
        req: UpdateExpenseRequest,
        modified_by: i32,
    ) -> (r: Result<UpdateExpenseResponse, AppError>)
        requires
            old(db).wf(),
        ensures
            final(db).wf(),
            update_expense_outcome(*old(db), *final(db), expense_id, req, modified_by, r),
    {
        let (_, now) = utc_now();
        self.update_expense_at(db, expense_id, req, modified_by, now)
    }

    /// Edits the expense `expense_id` on behalf of the user `modified_by`,
    /// with `now` as the time of the recomputed report.
    pub fn update_expense_at(
        &self,
        db: &mut Database,
        expense_id: i32,
        req: UpdateExpenseRequest,
        modified_by: i32,
        now: i64,
    ) -> (r: Result<UpdateExpenseResponse, AppError>)
        requires
            old(db).wf(),
        ensures
            final(db).wf(),
            update_expense_outcome(*old(db), *final(db), expense_id, req, modified_by, r),
    {
        let k = match find_by_id(&db.expenses, expense_id) {
            Some(k) => k,
            None => {
                return Err(AppError::not_found("Expense not found"));
            },
        };
        proof {
            lemma_index_of_id(db.expenses@, db.next_expense_id as int, k as int);
        }
        let expense_date = match req.expense_date {
            Some(date) => {
                if !date.check_valid() {
                    return Err(
                        AppError::bad_request("Invalid date format, expected YYYY-MM-DD"),
                    );
                }
                date
            },
            None => db.expenses[k].expense_date,
        };
        let amount = match req.amount {
            Some(amount) => {
                if !check_amount(amount) {
                    return Err(AppError::bad_request("Invalid amount"));
                }
                amount
            },
            None => db.expenses[k].amount,
        };
        if find_by_id(&db.users, modified_by).is_none() {
            return Err(AppError::not_found("User not found"));
        }
        let ghost before = *db;
        let expense = Expense {
            expense_id: db.expenses[k].expense_id,
            description: match req.description {
                Some(description) => description,
                None => db.expenses[k].description.clone(),
            },
            label: match req.label {
                Some(label) => label,
                None => db.expenses[k].label.clone(),
            },
            amount,
            expense_date,
            created_by: db.expenses[k].created_by,
            modified_by: Some(modified_by),
        };
        let response = UpdateExpenseResponse::from_expense(&expense);
        db.replace_expense(k, expense);
        let ghost edited = *db;
        let month = expense_date.first_of_month();
        let _ = ReportsService::new().generate_monthly_report_at(db, month, now);
        proof {
            let edited_state = Database { expenses: db.expenses, ..before };
            assert(edited_state == edited);
        }
        Ok(response)
    }

    /// Deletes the expense `expense_id`. No report is recomputed.
    pub fn delete_expense(&self, db: &mut Database, expense_id: i32) -> (r: Result<(), AppError>)
        requires
            old(db).wf(),
        ensures
            final(db).wf(),
            delete_expense_outcome(*old(db), *final(db), expense_id, r),
    {
        match find_by_id(&db.expenses, expense_id) {
            Some(k) => {
                db.delete_expense(k);
                Ok(())
            },
            None => Err(AppError::not_found("Expense not found")),
        }
    }
}

/// A new expense shows in the report of its month at once: unless the
/// month has no report yet and no key is left for one, the report of the
/// month is, after the creation, the one computed from the expenses with
/// the new expense among them. Its expenses are higher by the amount of
/// the expense, its income is that of the month's orders, and the profit
/// is income less expenses.
pub proof fn lemma_created_expense_is_in_its_report(
    before: Database,
    after: Database,
    req: CreateExpenseRequest,
    r: Result<CreateExpenseResponse, AppError>,
)
    requires
        before.wf(),
        create_expense_failure(before, req) is None,
        create_expense_outcome(before, after, req, r),
        !report_keys_used_up(before, req.expense_date.spec_first_of_month()),
    ensures
        has_report_of(after.reports@, req.expense_date.spec_first_of_month()),
        ({
            let month = req.expense_date.spec_first_of_month();
            let report = after.reports@[report_index(after.reports@, month)];
            let earlier = expenses_between(
                before.expenses@,
                month,
                month.spec_last_day_of_month(),
            );
            &&& report.total_expenses == sum_expense_amounts(earlier) + req.amount
            &&& report.total_income == sum_order_amounts(
                orders_between(before.orders@, month, month.spec_last_day_of_month()),
            )
            &&& report.total_orders == orders_between(
                before.orders@,
                month,
                month.spec_last_day_of_month(),
            ).len()
            &&& report.net_profit == report.total_income - report.total_expenses
            &&& report.daily_data.expenses@ == earlier.push(requested_expense(before, req))
        }),
{
    let month = req.expense_date.spec_first_of_month();
    let last = month.spec_last_day_of_month();
    let expense = requested_expense(before, req);
    let inserted = Database {
        expenses: after.expenses,
        next_expense_id: (before.next_expense_id + 1) as i32,
        ..before
    };
    assert(month.is_valid());
    assert(expense.expense_date.spec_between(&month, &last));
    assert(generate_failure(inserted, month) is None);
    let stored = choose|stored: ReportView| #[trigger]
        report_stored(inserted, after, month, stored);
    lemma_upserted_report_is_found(inserted.reports@, after.reports@, stored);
    let earlier = expenses_between(before.expenses@, month, last);
    before.expenses@.lemma_filter_push(expense, expense_in_window(month, last));
    assert(earlier.push(expense).drop_last() =~= earlier);
}

} // verus!
