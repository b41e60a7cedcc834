//! Invoices: one billing document per order.

use crate::date::Date;
use crate::db::has_invoice_of;
use crate::db::Database;
use crate::entities::amount_in_range;
use crate::entities::check_amount;
use crate::entities::Invoice;
use crate::errors::AppError;
use crate::errors::ErrorView;
use crate::table::find_by_id;
use crate::table::has_id;
use crate::table::without_id;
use vstd::prelude::*;

verus! {

/// What it takes to bill an order.
#[derive(Debug)]
pub struct CreateInvoiceRequest {
    pub order_id: i32,
    pub transaction_id: String,
    pub invoice_date: Date,
    pub total_amount: i64,
    pub description: String,
}

/// An invoice as it is shown to a caller.
#[derive(Debug)]
pub struct InvoiceResponse {
    pub invoice_id: i32,
    pub order_id: i32,
    pub transaction_id: String,
    pub invoice_date: Date,
    pub total_amount: i64,
    pub description: String,
}

impl InvoiceResponse {
    /// The response that shows `invoice`.
    pub open spec fn of(invoice: Invoice) -> InvoiceResponse {
        InvoiceResponse {
            invoice_id: invoice.invoice_id,
            order_id: invoice.order_id,
            transaction_id: invoice.transaction_id,
            invoice_date: invoice.invoice_date,
            total_amount: invoice.total_amount,
            description: invoice.description,
        }
    }

    /// The response that shows `invoice`.
    pub fn from_invoice(invoice: &Invoice) -> (r: InvoiceResponse)
        ensures
            r == InvoiceResponse::of(*invoice),
    {
        InvoiceResponse {
            invoice_id: invoice.invoice_id,
            order_id: invoice.order_id,
            transaction_id: invoice.transaction_id.clone(),
            invoice_date: invoice.invoice_date,
            total_amount: invoice.total_amount,
            description: invoice.description.clone(),
        }
    }
}

/// The responses that show `invoices`, one for one.
pub open spec fn invoice_responses(invoices: Seq<Invoice>) -> Seq<InvoiceResponse> {
    Seq::new(invoices.len(), |i: int| InvoiceResponse::of(invoices[i]))
}

/// The test that an invoice belongs to the order `order_id`.
pub open spec fn invoice_of_order(order_id: i32) -> spec_fn(Invoice) -> bool {
    |invoice: Invoice| invoice.order_id == order_id
}

/// The invoice that `req` asks for, under the next key of `db`.
pub open spec fn requested_invoice(db: Database, req: CreateInvoiceRequest) -> Invoice {
    Invoice {
        invoice_id: db.next_invoice_id,
        order_id: req.order_id,
        transaction_id: req.transaction_id,
        invoice_date: req.invoice_date,
        total_amount: req.total_amount,
        description: req.description,
    }
}

/// Why `req` cannot be carried out, if it cannot. An order that is missing
/// is not found, and an order that is billed already is a conflict.
pub open spec fn create_invoice_failure(db: Database, req: CreateInvoiceRequest) -> Option<
    ErrorView,
> {
    if !has_id(db.orders@, req.order_id as int) {
        Some(ErrorView::NotFound("Order not found"@))
    } else if has_invoice_of(db.invoices@, req.order_id as int) {
        Some(ErrorView::Conflict("Invoice already exists for this order"@))
    } else if !req.invoice_date.is_valid() {
        Some(ErrorView::BadRequest("Invalid date format, expected YYYY-MM-DD"@))
    } else if !amount_in_range(req.total_amount) {
        Some(ErrorView::BadRequest("Invalid amount"@))
    } else if db.next_invoice_id == i32::MAX {
        Some(ErrorView::DbError("invoice keys are used up"@))
    } else {
        None
    }
}

/// What the attempt to bill an order comes to: it fails and changes
/// nothing, or it stores the invoice and shows it.
pub open spec fn create_invoice_outcome(
    before: Database,
    after: Database,
    req: CreateInvoiceRequest,
    r: Result<InvoiceResponse, AppError>,
) -> bool {
    match create_invoice_failure(before, req) {
        Some(failure) => r matches Err(e) && e@ == failure && after == before,
        None => {
            &&& r matches Ok(response)
            &&& response == InvoiceResponse::of(requested_invoice(before, req))
            &&& after.invoices@ == before.invoices@.push(requested_invoice(before, req))
            &&& after == (Database {
                invoices: after.invoices,
                next_invoice_id: (before.next_invoice_id + 1) as i32,
                ..before
            })
        },
    }
}

/// What the attempt to delete the invoice `invoice_id` comes to: an
/// invoice that does not exist is reported and nothing changes; else the
/// invoice is gone and no other row is touched.
pub open spec fn delete_invoice_outcome(
    before: Database,
    after: Database,
    invoice_id: i32,
    r: Result<(), AppError>,
) -> bool {
    if has_id(before.invoices@, invoice_id as int) {
        &&& r is Ok
        &&& after.invoices@ == without_id(before.invoices@, invoice_id as int)
        &&& !has_id(after.invoices@, invoice_id as int)
        &&& after == (Database { invoices: after.invoices, ..before })
    } else {
        r matches Err(e) && e.is_not_found("Invoice not found"@) && after == before
    }
}

/// The invoice operations.
#[derive(Clone, Copy, Debug)]
pub struct InvoicesService {}

impl InvoicesService {
    /// The service. It holds nothing: the store is handed to every call.
    pub fn new() -> (r: InvoicesService) {
        InvoicesService {  }
    }

    /// Bills an order: appends the invoice that `req` asks for, provided
    /// that the order exists and has no invoice yet.
    pub fn create_invoice(&self, db: &mut Database, req: CreateInvoiceRequest) -> (r: Result<
        InvoiceResponse,
        AppError,
    >)
        requires
            old(db).wf(),
        ensures
            final(db).wf(),
            create_invoice_outcome(*old(db), *final(db), req, r),
    {
        if find_by_id(&db.orders, req.order_id).is_none() {
            return Err(AppError::not_found("Order not found"));
        }
        if db.find_invoice_by_order(req.order_id).is_some() {
            return Err(AppError::conflict("Invoice already exists for this order"));
        }
        if !req.invoice_date.check_valid() {
            return Err(AppError::bad_request("Invalid date format, expected YYYY-MM-DD"));
        }
        if !check_amount(req.total_amount) {
            return Err(AppError::bad_request("Invalid amount"));
        }
        match db.insert_invoice(
            req.order_id,
            req.transaction_id,
            req.invoice_date,
            req.total_amount,
            req.description,
        ) {
            Ok(invoice) => Ok(InvoiceResponse::from_invoice(&invoice)),
            Err(e) => Err(e),
        }
    }

    /// All invoices, in table order.
    pub fn get_all_invoices(&self, db: &Database) -> (r: Result<Vec<InvoiceResponse>, AppError>)
        ensures
            r matches Ok(responses) && responses@ == invoice_responses(db.invoices@),
    {
        let mut out: Vec<InvoiceResponse> = Vec::new();
        let mut i: usize = 0;
        while i < db.invoices.len()
            invariant
                i <= db.invoices@.len(),
                out@ == invoice_responses(db.invoices@.take(i as int)),
            decreases db.invoices@.len() - i,
        {
            out.push(InvoiceResponse::from_invoice(&db.invoices[i]));
            proof {
                assert(out@ =~= invoice_responses(db.invoices@.take(i + 1)));
            }
            i += 1;
        }
        proof {
            assert(db.invoices@.take(db.invoices@.len() as int) =~= db.invoices@);
        }
        Ok(out)
    }

    /// The invoices of the order `order_id`, in table order.
    pub fn get_invoices_by_order(&self, db: &Database, order_id: i32) -> (r: Result<
        Vec<InvoiceResponse>,
        AppError,
    >)
        ensures
            r matches Ok(responses) && responses@ == invoice_responses(
                db.invoices@.filter(invoice_of_order(order_id)),
            ),
    {
        let mut out: Vec<InvoiceResponse> = Vec::new();
        let mut i: usize = 0;
        proof {
            reveal(Seq::filter);
            assert(db.invoices@.take(0) =~= Seq::<Invoice>::empty());
        }
        while i < db.invoices.len()
            invariant
                i <= db.invoices@.len(),
                out@ == invoice_responses(
                    db.invoices@.take(i as int).filter(invoice_of_order(order_id)),
                ),
            decreases db.invoices@.len() - i,
        {
            proof {
                assert(db.invoices@.take(i + 1) =~= db.invoices@.take(i as int).push(
                    db.invoices@[i as int],
                ));
                db.invoices@.take(i as int).lemma_filter_push(
                    db.invoices@[i as int],
                    invoice_of_order(order_id),
                );
            }
            if db.invoices[i].order_id == order_id {
                out.push(InvoiceResponse::from_invoice(&db.invoices[i]));
                proof {
                    assert(out@ =~= invoice_responses(
                        db.invoices@.take(i + 1).filter(invoice_of_order(order_id)),
                    ));
                }
            }
            i += 1;
        }
        proof {
            assert(db.invoices@.take(db.invoices@.len() as int) =~= db.invoices@);
        }
        Ok(out)
    }

    /// Removes the invoice `invoice_id`, or reports `NotFound` where there
    /// is none.
    pub fn delete_invoice(&self, db: &mut Database, invoice_id: i32) -> (r: Result<(), AppError>)
        requires
            old(db).wf(),
        ensures
            final(db).wf(),
            delete_invoice_outcome(*old(db), *final(db), invoice_id, r),
    {
        match find_by_id(&db.invoices, invoice_id) {
            Some(k) => {
                db.delete_invoice(k);
                Ok(())
            },
            None => Err(AppError::not_found("Invoice not found")),
        }
    }
}

} // verus!
