//! The invoice requests.

use crate::date::spec_parse_date;
use crate::date::Date;
use crate::db::Database;
use crate::errors::AppError;
use crate::handlers::orders::bad_date;
use crate::services::invoices::create_invoice_outcome;
use crate::services::invoices::delete_invoice_outcome;
use crate::services::invoices::invoice_of_order;
use crate::services::invoices::invoice_responses;
use crate::services::invoices::InvoiceResponse;
use crate::services::invoices::InvoicesService;
use crate::table::find_by_id;
use crate::table::has_id;
use crate::table::index_of_id;
use crate::table::lemma_index_of_id;
use vstd::prelude::*;
use vstd::string::StringExecFns;

verus! {

/// The body of a request to bill an order. The date is written as
/// `YYYY-MM-DD`, the amount is in cents.
#[derive(Debug)]
pub struct CreateInvoiceRequest {
    pub order_id: i32,
    pub transaction_id: String,
    pub invoice_date: String,
    pub total_amount: i64,
    pub description: String,
}

/// The invoice that `payload` asks for, once its date is read as
/// `invoice_date`.
pub open spec fn create_request(
    payload: CreateInvoiceRequest,
    invoice_date: Date,
) -> crate::services::invoices::CreateInvoiceRequest {
    crate::services::invoices::CreateInvoiceRequest {
        order_id: payload.order_id,
        transaction_id: payload.transaction_id,
        invoice_date,
        total_amount: payload.total_amount,
        description: payload.description,
    }
}

/// Bills an order as `payload` asks. A date that cannot be read is a bad
/// request.
pub fn create_invoice(db: &mut Database, payload: CreateInvoiceRequest) -> (r: Result<
    InvoiceResponse,
    AppError,
>)
    requires
        old(db).wf(),
    ensures
        final(db).wf(),
        match spec_parse_date(payload.invoice_date@) {
            None => r matches Err(e) && e@ == bad_date() && *final(db) == *old(db),
            Some(invoice_date) => create_invoice_outcome(
                *old(db),
                *final(db),
                create_request(payload, invoice_date),
                r,
            ),
        },
{
    let invoice_date = match Date::parse(payload.invoice_date.as_str()) {
        Some(d) => d,
        None => {
            return Err(AppError::bad_request("Invalid date format, expected YYYY-MM-DD"));
        },
    };
    let req = crate::services::invoices::CreateInvoiceRequest {
        order_id: payload.order_id,
        transaction_id: payload.transaction_id,
        invoice_date,
        total_amount: payload.total_amount,
        description: payload.description,
    };
    InvoicesService::new().create_invoice(db, req)
}

/// All invoices.
pub fn list_invoices(db: &Database) -> (r: Result<Vec<InvoiceResponse>, AppError>)
    ensures
        r matches Ok(responses) && responses@ == invoice_responses(db.invoices@),
{
    InvoicesService::new().get_all_invoices(db)
}

/// The invoice `id`, or `NotFound` where there is none.
pub fn get_invoice(db: &Database, id: i32) -> (r: Result<InvoiceResponse, AppError>)
    requires
        db.wf(),
    ensures
        if has_id(db.invoices@, id as int) {
            r matches Ok(response) && response == InvoiceResponse::of(
                db.invoices@[index_of_id(db.invoices@, id as int)],
            )
        } else {
            r matches Err(e) && e.is_not_found("Invoice not found."@)
        },
{
    match find_by_id(&db.invoices, id) {
        Some(k) => {
            proof {
                lemma_index_of_id(db.invoices@, db.next_invoice_id as int, k as int);
            }
            Ok(InvoiceResponse::from_invoice(&db.invoices[k]))
        },
        None => Err(AppError::not_found("Invoice not found.")),
    }
}

/// The invoices of the order `order_id`.
pub fn get_invoice_by_order(db: &Database, order_id: i32) -> (r: Result<
    Vec<InvoiceResponse>,
    AppError,
>)
    ensures
        r matches Ok(responses) && responses@ == invoice_responses(
            db.invoices@.filter(invoice_of_order(order_id)),
        ),
{
    InvoicesService::new().get_invoices_by_order(db, order_id)
}

/// What the deletion of the invoice `id` is answered with.
pub open spec fn delete_invoice_answer(
    before: Database,
    after: Database,
    id: i32,
    r: Result<String, AppError>,
) -> bool {
    match r {
        Ok(message) => message@ == "Invoice deleted successfully"@ && delete_invoice_outcome(
            before,
            after,
            id,
            Ok(()),
        ),
        Err(e) => delete_invoice_outcome(before, after, id, Err(e)),
    }
}

/// Deletes the invoice `invoice_id`.
pub fn delete_invoice(db: &mut Database, invoice_id: i32) -> (r: Result<String, AppError>)
    requires
        old(db).wf(),
    ensures
        final(db).wf(),
        delete_invoice_answer(*old(db), *final(db), invoice_id, r),
{
    match InvoicesService::new().delete_invoice(db, invoice_id) {
        Ok(()) => Ok(String::from_str("Invoice deleted successfully")),
        Err(e) => Err(e),
    }
}

} // verus!
