//! The order requests.

use crate::date::spec_parse_date;
use crate::date::Date;
use crate::db::Database;
use crate::errors::AppError;
use crate::errors::ErrorView;
use crate::middleware::auth::AuthenticatedUser;
use crate::services::orders::create_order_outcome;
use crate::services::orders::delete_order_outcome;
use crate::services::orders::get_order_outcome;
use crate::services::orders::order_responses;
use crate::services::orders::update_order_outcome;
use crate::services::orders::AllOrderResponse;
use crate::services::orders::CreateOrderResponse;
use crate::services::orders::GetOrderResponse;
use crate::services::orders::InvoiceResponse;
use crate::services::orders::OrdersService;
use crate::services::orders::UpdateOrderResponse;
use crate::services::orders::TRANSACTION_ID_LENGTH;
use crate::utils::is_alphanumeric_token;
use vstd::prelude::*;
use vstd::string::StringExecFns;

verus! {

/// The body of a request to create an order. The date is written as
/// `YYYY-MM-DD`, the amount is in cents.
#[derive(Debug)]
pub struct CreateOrderRequest {
    pub patient_name: String,
    pub order_date: String,
    pub total_amount: i64,
    pub description: String,
}

/// The body of a request to edit an order. The date, where there is one,
/// is written as `YYYY-MM-DD`.
#[derive(Debug)]
pub struct UpdateOrderRequest {
    pub patient_name: Option<String>,
    pub order_date: Option<String>,
    pub total_amount: Option<i64>,
    pub description: Option<String>,
}

/// What a date that could not be read is answered with.
pub open spec fn bad_date() -> ErrorView {
    ErrorView::BadRequest("Invalid date format, expected YYYY-MM-DD"@)
}

/// The date that an optional text stands for: `None` where the text is no
/// date, `Some(None)` where there is no text.
pub open spec fn spec_parse_optional_date(text: Option<String>) -> Option<Option<Date>> {
    match text {
        None => Some(None),
        Some(t) => match spec_parse_date(t@) {
            Some(d) => Some(Some(d)),
            None => None,
        },
    }
}

/// Reads an optional date.
pub fn parse_optional_date(text: &Option<String>) -> (r: Result<Option<Date>, AppError>)
    ensures
        match spec_parse_optional_date(*text) {
            Some(date) => r == Ok::<Option<Date>, AppError>(date),
            None => r matches Err(e) && e@ == bad_date(),
        },
        r matches Ok(Some(d)) ==> d.is_valid(),
{
    match text {
        None => Ok(None),
        Some(t) => match Date::parse(t.as_str()) {
            Some(d) => Ok(Some(d)),
            None => Err(AppError::bad_request("Invalid date format, expected YYYY-MM-DD")),
        },
    }
}

/// The order that `payload` asks for on behalf of `user_id`, once its date
/// is read as `order_date`.
pub open spec fn create_request(
    payload: CreateOrderRequest,
    order_date: Date,
    user_id: i32,
) -> crate::services::orders::CreateOrderRequest {
    crate::services::orders::CreateOrderRequest {
        patient_name: payload.patient_name,
        order_date,
        total_amount: payload.total_amount,
        description: payload.description,
        created_by: user_id,
    }
}

/// The edit that `payload` asks for, once its date is read as `order_date`.
pub open spec fn update_request(
    payload: UpdateOrderRequest,
    order_date: Option<Date>,
) -> crate::services::orders::UpdateOrderRequest {
    crate::services::orders::UpdateOrderRequest {
        patient_name: payload.patient_name,
        order_date,
        total_amount: payload.total_amount,
        description: payload.description,
    }
}

/// Creates the order of `payload` for the user who asks, with its invoice.
/// A date that cannot be read is a bad request.
pub fn create_order(db: &mut Database, user: &AuthenticatedUser, payload: CreateOrderRequest) -> (r:
    Result<(CreateOrderResponse, InvoiceResponse), AppError>)
    requires
        old(db).wf(),
    ensures
        final(db).wf(),
        match spec_parse_date(payload.order_date@) {
            None => r matches Err(e) && e@ == bad_date() && *final(db) == *old(db),
            Some(order_date) => exists|transaction_id: String, invoice_date: Date|
                is_alphanumeric_token(transaction_id@, TRANSACTION_ID_LENGTH as int)
                    && invoice_date.is_valid() && #[trigger]
                create_order_outcome(
                    *old(db),
                    *final(db),
                    create_request(payload, order_date, user.user_id),
                    transaction_id,
                    invoice_date,
                    r,
                ),
        },
{
    let order_date = match Date::parse(payload.order_date.as_str()) {
        Some(d) => d,
        None => {
            return Err(AppError::bad_request("Invalid date format, expected YYYY-MM-DD"));
        },
    };
    let req = crate::services::orders::CreateOrderRequest {
        patient_name: payload.patient_name,
        order_date,
        total_amount: payload.total_amount,
        description: payload.description,
        created_by: user.user_id,
    };
    let ghost before = *db;
    let ghost asked = req;
    let r = OrdersService::new().create_order(db, req);
    proof {
        let (transaction_id, invoice_date) = choose|transaction_id: String, invoice_date: Date|
            is_alphanumeric_token(transaction_id@, TRANSACTION_ID_LENGTH as int)
                && invoice_date.is_valid() && #[trigger]
            create_order_outcome(before, *db, asked, transaction_id, invoice_date, r);
        assert(asked == create_request(payload, order_date, user.user_id));
        assert(create_order_outcome(
            before,
            *db,
            create_request(payload, order_date, user.user_id),
            transaction_id,
            invoice_date,
            r,
        ));
    }
    r
}

/// All orders.
pub fn list_orders(db: &Database) -> (r: Result<Vec<AllOrderResponse>, AppError>)
    ensures
        r matches Ok(responses) && responses@ == order_responses(db.orders@),
{
    OrdersService::new().get_orders(db)
}

/// The order `id`.
pub fn get_order(db: &Database, id: i32) -> (r: Result<GetOrderResponse, AppError>)
    requires
        db.wf(),
    ensures
        get_order_outcome(*db, id, r),
{
    OrdersService::new().get_order_by_id(db, id)
}

/// Edits the order `id` for the user who asks. A date that cannot be read
/// is a bad request.
pub fn update_order(
    db: &mut Database,
    user: &AuthenticatedUser,
    id: i32,
    payload: UpdateOrderRequest,
) -> (r: Result<(UpdateOrderResponse, Option<InvoiceResponse>), AppError>)
    requires
        old(db).wf(),
    ensures
        final(db).wf(),
        match spec_parse_optional_date(payload.order_date) {
            None => r matches Err(e) && e@ == bad_date() && *final(db) == *old(db),
            Some(order_date) => update_order_outcome(
                *old(db),
                *final(db),
                id,
                update_request(payload, order_date),
                user.user_id,
                r,
            ),
        },
{
    let order_date = match parse_optional_date(&payload.order_date) {
        Ok(d) => d,
        Err(e) => {
            return Err(e);
        },
    };
    let req = crate::services::orders::UpdateOrderRequest {
        patient_name: payload.patient_name,
        order_date,
        total_amount: payload.total_amount,
        description: payload.description,
    };
    OrdersService::new().update_order(db, id, req, user.user_id)
}

/// What the deletion of the order `id` is answered with.
pub open spec fn delete_order_answer(
    before: Database,
    after: Database,
    id: i32,
    r: Result<String, AppError>,
) -> bool {
    match r {
        Ok(message) => message@ == "Order deleted successfully"@ && delete_order_outcome(
            before,
            after,
            id,
            Ok(()),
        ),
        Err(e) => delete_order_outcome(before, after, id, Err(e)),
    }
}

/// Deletes the order `id` and its invoice.
pub fn delete_order(db: &mut Database, id: i32) -> (r: Result<String, AppError>)
    requires
        old(db).wf(),
    ensures
        final(db).wf(),
        delete_order_answer(*old(db), *final(db), id, r),
{
    match OrdersService::new().delete_order(db, id) {
        Ok(()) => Ok(String::from_str("Order deleted successfully")),
        Err(e) => Err(e),
    }
}

} // verus!
