//! The order workflow: an order is created together with its invoice,
//! edits of an order reach its invoice, and an order takes its invoice with
//! it when it is deleted. Creating or editing an order recomputes the
//! report of the order's month on the side.

use crate::date::utc_now;
use crate::date::Date;
use crate::db::has_invoice_of;
use crate::db::has_transaction_id;
use crate::db::with_transaction_id;
use crate::db::invoice_index;
use crate::db::invoices_without_order;
use crate::db::Database;
use crate::entities::amount_in_range;
use crate::entities::check_amount;
use crate::entities::Invoice;
use crate::entities::Order;
use crate::entities::Row;
use crate::errors::AppError;
use crate::errors::ErrorView;
use crate::services::invoices::CreateInvoiceRequest;
use crate::services::invoices::invoice_of_order;
use crate::services::invoices::InvoicesService;
use crate::db::has_report_of;
use crate::db::report_index;
use crate::entities::sum_expense_amounts;
use crate::entities::sum_order_amounts;
use crate::entities::ReportView;
use crate::services::reports::expenses_between;
use crate::services::reports::generate_failure;
use crate::services::reports::lemma_upserted_report_is_found;
use crate::services::reports::order_in_window;
use crate::services::reports::orders_between;
use crate::services::reports::report_keys_used_up;
use crate::services::reports::report_refreshed;
use crate::services::reports::report_stored;
use crate::services::reports::ReportsService;
use crate::table::find_by_id;
use crate::table::has_id;
use crate::table::index_of_id;
use crate::table::lemma_has_id_push;
use crate::table::lemma_index_of_id;
use crate::table::without_id;
use crate::utils::is_alphanumeric_token;
use crate::utils::random_alphanumeric;
use vstd::prelude::*;

verus! {

/// The number of letters and digits of a transaction identifier.
pub const TRANSACTION_ID_LENGTH: usize = 12;

/// How often a transaction identifier is drawn at most, where the drawn
/// ones are carried by invoices already.
pub const MAX_DRAWS: usize = 8;

/// What it takes to create an order.
#[derive(Debug)]
pub struct CreateOrderRequest {
    pub patient_name: String,
    pub order_date: Date,
    pub total_amount: i64,
    pub description: String,
    pub created_by: i32,
}

/// The fields of an order to change; a field that is `None` stays as it is.
#[derive(Debug)]
pub struct UpdateOrderRequest {
    pub patient_name: Option<String>,
    pub order_date: Option<Date>,
    pub total_amount: Option<i64>,
    pub description: Option<String>,
}

/// An invoice as it is shown next to its order.
#[derive(Debug)]
pub struct InvoiceResponse {
    pub invoice_id: i32,
    pub order_id: i32,
    pub transaction_id: String,
    pub invoice_date: Date,
    pub total_amount: i64,
    pub description: String,
}

/// A new order as it is shown to its creator.
#[derive(Debug)]
pub struct CreateOrderResponse {
    pub order_id: i32,
    pub patient_name: String,
    pub order_date: Date,
    pub total_amount: i64,
    pub description: String,
    pub created_by: Option<i32>,
}

/// An order as it is shown in the list of all orders.
#[derive(Debug)]
pub struct AllOrderResponse {
    pub order_id: i32,
    pub patient_name: String,
    pub order_date: Date,
    pub total_amount: i64,
    pub description: String,
    pub created_by: Option<i32>,
    pub modified_by: Option<i32>,
}

/// An order as it is shown by itself.
#[derive(Debug)]
pub struct GetOrderResponse {
    pub order_id: i32,
    pub patient_name: String,
    pub order_date: Date,
    pub total_amount: i64,
    pub description: String,
    pub created_by: Option<i32>,
    pub modified_by: Option<i32>,
}

/// An order as it is shown after an edit.
#[derive(Debug)]
pub struct UpdateOrderResponse {
    pub order_id: i32,
    pub patient_name: String,
    pub order_date: Date,
    pub total_amount: i64,
    pub description: String,
    pub created_by: Option<i32>,
    pub modified_by: Option<i32>,
}

impl InvoiceResponse {
    /// The response that shows `invoice`.
    pub open spec fn of(invoice: Invoice) -> InvoiceResponse {
        InvoiceResponse {
            invoice_id: invoice.invoice_id,
            order_id: invoice.order_id,
            transaction_id: invoice.transaction_id,
            invoice_date: invoice.invoice_date,
            total_amount: invoice.total_amount,
            description: invoice.description,
        }
    }

    /// The response that shows `invoice`.
    pub fn from_invoice(invoice: &Invoice) -> (r: InvoiceResponse)
        ensures
            r == InvoiceResponse::of(*invoice),
    {
        InvoiceResponse {
            invoice_id: invoice.invoice_id,
            order_id: invoice.order_id,
            transaction_id: invoice.transaction_id.clone(),
            invoice_date: invoice.invoice_date,
            total_amount: invoice.total_amount,
            description: invoice.description.clone(),
        }
    }
}

impl CreateOrderResponse {
    /// The response that shows `order`.
    pub open spec fn of(order: Order) -> CreateOrderResponse {
        CreateOrderResponse {
            order_id: order.order_id,
            patient_name: order.patient_name,
            order_date: order.order_date,
            total_amount: order.total_amount,
            description: order.description,
            created_by: order.created_by,
        }
    }

    /// The response that shows `order`.
    pub fn from_order(order: &Order) -> (r: CreateOrderResponse)
        ensures
            r == CreateOrderResponse::of(*order),
    {
        CreateOrderResponse {
            order_id: order.order_id,
            patient_name: order.patient_name.clone(),
            order_date: order.order_date,
            total_amount: order.total_amount,
            description: order.description.clone(),
            created_by: order.created_by,
        }
    }
}

impl AllOrderResponse {
    /// The response that shows `order`.
    pub open spec fn of(order: Order) -> AllOrderResponse {
        AllOrderResponse {
            order_id: order.order_id,
            patient_name: order.patient_name,
            order_date: order.order_date,
            total_amount: order.total_amount,
            description: order.description,
            created_by: order.created_by,
            modified_by: order.modified_by,
        }
    }

    /// The response that shows `order`.
    pub fn from_order(order: &Order) -> (r: AllOrderResponse)
        ensures
            r == AllOrderResponse::of(*order),
    {
        AllOrderResponse {
            order_id: order.order_id,
            patient_name: order.patient_name.clone(),
            order_date: order.order_date,
            total_amount: order.total_amount,
            description: order.description.clone(),
            created_by: order.created_by,
            modified_by: order.modified_by,
        }
    }
}

impl GetOrderResponse {
    /// The response that shows `order`.
    pub open spec fn of(order: Order) -> GetOrderResponse {
        GetOrderResponse {
            order_id: order.order_id,
            patient_name: order.patient_name,
            order_date: order.order_date,
            total_amount: order.total_amount,
            description: order.description,
            created_by: order.created_by,
            modified_by: order.modified_by,
        }
    }

    /// The response that shows `order`.
    pub fn from_order(order: &Order) -> (r: GetOrderResponse)
        ensures
            r == GetOrderResponse::of(*order),
    {
        GetOrderResponse {
            order_id: order.order_id,
            patient_name: order.patient_name.clone(),
            order_date: order.order_date,
            total_amount: order.total_amount,
            description: order.description.clone(),
            created_by: order.created_by,
            modified_by: order.modified_by,
        }
    }
}

impl UpdateOrderResponse {
    /// The response that shows `order`.
    pub open spec fn of(order: Order) -> UpdateOrderResponse {
        UpdateOrderResponse {
            order_id: order.order_id,
            patient_name: order.patient_name,
            order_date: order.order_date,
            total_amount: order.total_amount,
            description: order.description,
            created_by: order.created_by,
            modified_by: order.modified_by,
        }
    }

    /// The response that shows `order`.
    pub fn from_order(order: &Order) -> (r: UpdateOrderResponse)
        ensures
            r == UpdateOrderResponse::of(*order),
    {
        UpdateOrderResponse {
            order_id: order.order_id,
            patient_name: order.patient_name.clone(),
            order_date: order.order_date,
            total_amount: order.total_amount,
            description: order.description.clone(),
            created_by: order.created_by,
            modified_by: order.modified_by,
        }
    }
}

/// The responses that show `orders`, one for one.
pub open spec fn order_responses(orders: Seq<Order>) -> Seq<AllOrderResponse> {
    Seq::new(orders.len(), |i: int| AllOrderResponse::of(orders[i]))
}

/// The order that `req` asks for, under the next key of `db`.
pub open spec fn requested_order(db: Database, req: CreateOrderRequest) -> Order {
    Order {
        order_id: db.next_order_id,
        patient_name: req.patient_name,
        order_date: req.order_date,
        total_amount: req.total_amount,
        description: req.description,
        created_by: Some(req.created_by),
        modified_by: None,
    }
}

/// The invoice derived from `order` at its creation, under the next key of
/// `db`: amount and description are those of the order at that time.
pub open spec fn derived_invoice(
    db: Database,
    order: Order,
    transaction_id: String,
    invoice_date: Date,
) -> Invoice {
    Invoice {
        invoice_id: db.next_invoice_id,
        order_id: order.order_id,
        transaction_id,
        invoice_date,
        total_amount: order.total_amount,
        description: order.description,
    }
}

/// Why `req` cannot be carried out, if it cannot.
pub open spec fn create_order_failure(db: Database, req: CreateOrderRequest) -> Option<ErrorView> {
    if !req.order_date.is_valid() {
        Some(ErrorView::BadRequest("Invalid date format, expected YYYY-MM-DD"@))
    } else if !amount_in_range(req.total_amount) {
        Some(ErrorView::BadRequest("Invalid amount"@))
    } else if !has_id(db.users@, req.created_by as int) {
        Some(ErrorView::NotFound("User not found"@))
    } else if db.next_order_id == i32::MAX {
        Some(ErrorView::DbError("order keys are used up"@))
    } else if db.next_invoice_id == i32::MAX {
        Some(ErrorView::DbError("invoice keys are used up"@))
    } else {
        None
    }
}

/// Why `req` cannot be carried out with an invoice that carries
/// `transaction_id` and is dated `invoice_date`, if it cannot. An
/// identifier that an invoice of the store carries already is a conflict.
pub open spec fn create_order_failure_on(
    db: Database,
    req: CreateOrderRequest,
    transaction_id: Seq<char>,
    invoice_date: Date,
) -> Option<ErrorView> {
    if create_order_failure(db, req) is Some {
        create_order_failure(db, req)
    } else if !invoice_date.is_valid() {
        Some(ErrorView::BadRequest("Invalid date format, expected YYYY-MM-DD"@))
    } else if has_transaction_id(db.invoices@, transaction_id) {
        Some(ErrorView::Conflict("Transaction identifier already exists"@))
    } else {
        None
    }
}

/// What creating an order does to the store: the order and the one invoice
/// derived from it are appended, and the report of the order's month is
/// recomputed on the side from the tables that hold the new order.
pub open spec fn order_created(
    before: Database,
    after: Database,
    req: CreateOrderRequest,
    transaction_id: String,
    invoice_date: Date,
) -> bool {
    let order = requested_order(before, req);
    let invoice = derived_invoice(before, order, transaction_id, invoice_date);
    let inserted = Database {
        orders: after.orders,
        invoices: after.invoices,
        next_order_id: (before.next_order_id + 1) as i32,
        next_invoice_id: (before.next_invoice_id + 1) as i32,
        ..before
    };
    &&& after.orders@ == before.orders@.push(order)
    &&& after.invoices@ == before.invoices@.push(invoice)
    &&& report_refreshed(inserted, after, req.order_date.spec_first_of_month())
}

/// The order `existing` after the edit `req` by the user `user_id`: a field
/// that `req` names takes the new value, every other field stays.
pub open spec fn updated_order(existing: Order, req: UpdateOrderRequest, user_id: i32) -> Order {
    Order {
        order_id: existing.order_id,
        patient_name: match req.patient_name {
            Some(name) => name,
            None => existing.patient_name,
        },
        order_date: match req.order_date {
            Some(date) => date,
            None => existing.order_date,
        },
        total_amount: match req.total_amount {
            Some(amount) => amount,
            None => existing.total_amount,
        },
        description: match req.description {
            Some(description) => description,
            None => existing.description,
        },
        created_by: existing.created_by,
        modified_by: Some(user_id),
    }
}

/// The invoice `existing` after the edit `req` of its order: amount and
/// description follow the edit, the rest stays.
pub open spec fn updated_invoice(existing: Invoice, req: UpdateOrderRequest) -> Invoice {
    Invoice {
        invoice_id: existing.invoice_id,
        order_id: existing.order_id,
        transaction_id: existing.transaction_id,
        invoice_date: existing.invoice_date,
        total_amount: match req.total_amount {
            Some(amount) => amount,
            None => existing.total_amount,
        },
        description: match req.description {
            Some(description) => description,
            None => existing.description,
        },
    }
}

/// Why the edit `req` of the order `id` by the user `user_id` cannot be
/// carried out, if it cannot.
pub open spec fn update_order_failure(
    db: Database,
    id: i32,
    req: UpdateOrderRequest,
    user_id: i32,
) -> Option<ErrorView> {
    if !has_id(db.orders@, id as int) {
        Some(ErrorView::NotFound("Order not found"@))
    } else if req.order_date is Some && !req.order_date->0.is_valid() {
        Some(ErrorView::BadRequest("Invalid date format, expected YYYY-MM-DD"@))
    } else if req.total_amount is Some && !amount_in_range(req.total_amount->0) {
        Some(ErrorView::BadRequest("Invalid amount"@))
    } else if !has_id(db.users@, user_id as int) {
        Some(ErrorView::NotFound("User not found"@))
    } else {
        None
    }
}

/// What editing an order does to the store: the order is replaced by its
/// edited form, its invoice, where it has one, follows, no invoice is
/// created where it has none, and the report of the month that the order
/// is now dated in is recomputed on the side.
pub open spec fn order_updated(
    before: Database,
    after: Database,
    id: i32,
    req: UpdateOrderRequest,
    user_id: i32,
) -> bool {
    let k = index_of_id(before.orders@, id as int);
    let order = updated_order(before.orders@[k], req, user_id);
    let edited = Database { orders: after.orders, invoices: after.invoices, ..before };
    &&& after.orders@ == before.orders@.update(k, order)
    &&& if has_invoice_of(before.invoices@, id as int) {
        let j = invoice_index(before.invoices@, id as int);
        after.invoices@ == before.invoices@.update(j, updated_invoice(before.invoices@[j], req))
    } else {
        after.invoices@ == before.invoices@
    }
    &&& report_refreshed(edited, after, order.order_date.spec_first_of_month())
}

/// What the attempt to create the order of `req` comes to, with the
/// transaction identifier and the date of the invoice as given: it fails
/// and changes nothing, or it stores both rows and shows them.
pub open spec fn create_order_outcome(
    before: Database,
    after: Database,
    req: CreateOrderRequest,
    transaction_id: String,
    invoice_date: Date,
    r: Result<(CreateOrderResponse, InvoiceResponse), AppError>,
) -> bool {
    match create_order_failure_on(before, req, transaction_id@, invoice_date) {
        Some(failure) => r matches Err(e) && e@ == failure && after == before,
        None => {
            &&& r matches Ok((order, invoice))
            &&& order == CreateOrderResponse::of(requested_order(before, req))
            &&& invoice == InvoiceResponse::of(
                derived_invoice(before, requested_order(before, req), transaction_id, invoice_date),
            )
            &&& order_created(before, after, req, transaction_id, invoice_date)
        },
    }
}

/// What the attempt to edit the order `id` comes to: it fails and changes
/// nothing, or it stores the edit and shows the order and its invoice as
/// they now are.
pub open spec fn update_order_outcome(
    before: Database,
    after: Database,
    id: i32,
    req: UpdateOrderRequest,
    user_id: i32,
    r: Result<(UpdateOrderResponse, Option<InvoiceResponse>), AppError>,
) -> bool {
    match update_order_failure(before, id, req, user_id) {
        Some(failure) => r matches Err(e) && e@ == failure && after == before,
        None => {
            &&& r matches Ok((order, invoice))
            &&& order == UpdateOrderResponse::of(
                after.orders@[index_of_id(before.orders@, id as int)],
            )
            &&& invoice == if has_invoice_of(before.invoices@, id as int) {
                Some(
                    InvoiceResponse::of(
                        after.invoices@[invoice_index(before.invoices@, id as int)],
                    ),
                )
            } else {
                None
            }
            &&& order_updated(before, after, id, req, user_id)
        },
    }
}

/// What the attempt to delete the order `order_id` comes to: an order that
/// does not exist is reported and nothing changes; else the order is gone
/// and so is its invoice, and no other row is touched.
pub open spec fn delete_order_outcome(
    before: Database,
    after: Database,
    order_id: i32,
    r: Result<(), AppError>,
) -> bool {
    if has_id(before.orders@, order_id as int) {
        &&& r is Ok
        &&& after.orders@ == without_id(before.orders@, order_id as int)
        &&& after.invoices@ == invoices_without_order(before.invoices@, order_id)
        &&& !has_id(after.orders@, order_id as int)
        &&& !has_invoice_of(after.invoices@, order_id as int)
        &&& after == (Database { orders: after.orders, invoices: after.invoices, ..before })
    } else {
        r matches Err(e) && e.is_not_found("Order not found"@) && after == before
    }
}

/// What looking up the order `order_id` comes to.
pub open spec fn get_order_outcome(
    db: Database,
    order_id: i32,
    r: Result<GetOrderResponse, AppError>,
) -> bool {
    if has_id(db.orders@, order_id as int) {
        r matches Ok(response) && response == GetOrderResponse::of(
            db.orders@[index_of_id(db.orders@, order_id as int)],
        )
    } else {
        r matches Err(e) && e.is_not_found("Order not found"@)
    }
}

/// The order operations.
#[derive(Clone, Copy, Debug)]
pub struct OrdersService {}

impl OrdersService {
    /// The service. It holds nothing: the store is handed to every call.
    pub fn new() -> (r: OrdersService) {
        OrdersService {  }
    }

    /// Creates an order and its invoice. The invoice gets the current date
    /// and a random transaction identifier of twelve letters and digits.
    /// An identifier that an invoice carries already is drawn again, eight
    /// times at most; where the last one drawn is carried too, the order is
    /// refused as a conflict.
    pub fn create_order(&self, db: &mut Database, req: CreateOrderRequest) -> (r: Result<
        (CreateOrderResponse, InvoiceResponse),
        AppError,
    >)
        requires
            old(db).wf(),
        ensures
            final(db).wf(),
            exists|transaction_id: String, invoice_date: Date|
                is_alphanumeric_token(transaction_id@, TRANSACTION_ID_LENGTH as int)
                    && invoice_date.is_valid() && #[trigger]
                create_order_outcome(
                    *old(db),
                    *final(db),
                    req,
                    transaction_id,
                    invoice_date,
                    r,
                ),
    {
        let mut transaction_id = random_alphanumeric(TRANSACTION_ID_LENGTH);
        let mut draws: usize = 1;
        while draws < MAX_DRAWS && db.find_invoice_by_transaction_id(&transaction_id).is_some()
            invariant
                draws <= MAX_DRAWS,
                is_alphanumeric_token(transaction_id@, TRANSACTION_ID_LENGTH as int),
            decreases MAX_DRAWS - draws,
        {
            transaction_id = random_alphanumeric(TRANSACTION_ID_LENGTH);
            draws += 1;
        }
        let (today, now) = utc_now();
        let ghost before = *db;
        let r = self.create_order_with(db, req, transaction_id, today, now);
        proof {
            assert(create_order_outcome(before, *db, req, transaction_id, today, r));
        }
        r
    }

    /// Creates an order and its invoice, with the transaction identifier
    /// and the date of the invoice as given, and `now` as the time of the
    /// recomputed report. An identifier that an invoice carries already is
    /// refused. Either both rows are stored or none is.
    pub fn create_order_with(
        &self,
        db: &mut Database,
        req: CreateOrderRequest,
        transaction_id: String,
        invoice_date: Date,
        now: i64,
    ) -> (r: Result<(CreateOrderResponse, InvoiceResponse), AppError>)
        requires
            old(db).wf(),
        ensures
            final(db).wf(),
            create_order_outcome(*old(db), *final(db), req, transaction_id, invoice_date, r),
    {
        if !req.order_date.check_valid() {
            return Err(AppError::bad_request("Invalid date format, expected YYYY-MM-DD"));
        }
        if !check_amount(req.total_amount) {
            return Err(AppError::bad_request("Invalid amount"));
        }
        if find_by_id(&db.users, req.created_by).is_none() {
            return Err(AppError::not_found("User not found"));
        }
        if db.next_order_id == i32::MAX {
            return Err(AppError::db_error("order keys are used up"));
        }
        if db.next_invoice_id == i32::MAX {
            return Err(AppError::db_error("invoice keys are used up"));
        }
        if !invoice_date.check_valid() {
            return Err(AppError::bad_request("Invalid date format, expected YYYY-MM-DD"));
        }
        if db.find_invoice_by_transaction_id(&transaction_id).is_some() {
            return Err(AppError::conflict("Transaction identifier already exists"));
        }
        let month = req.order_date.first_of_month();
        let ghost before = *db;
        let inserted = db.insert_order(
            req.patient_name,
            req.order_date,
            req.total_amount,
            req.description,
            Some(req.created_by),
        );
        let order = match inserted {
            Ok(order) => order,
            Err(e) => {
                return Err(e);
            },
        };
        proof {
            lemma_has_id_push(before.orders@, order, order.order_id as int);
            assert forall|i: int| 0 <= i < before.invoices@.len() implies (
            #[trigger] before.invoices@[i]).order_id != order.order_id by {
                let id = before.invoices@[i].order_id as int;
                assert(has_id(before.orders@, id));
                let j = choose|j: int|
                    0 <= j < before.orders@.len() && (#[trigger] before.orders@[j]).row_id() == id;
                assert(before.orders@[j].row_id() < before.next_order_id);
            }
        }
        let invoice_req = CreateInvoiceRequest {
            order_id: order.order_id,
            transaction_id,
            invoice_date,
            total_amount: order.total_amount,
            description: order.description.clone(),
        };
        let billed = InvoicesService::new().create_invoice(db, invoice_req);
        let invoice = match billed {
            Ok(invoice) => invoice,
            Err(e) => {
                return Err(e);
            },
        };
        let ghost with_rows = *db;
        let _ = ReportsService::new().generate_monthly_report_at(db, month, now);
        proof {
            let inserted_state = Database {
                orders: db.orders,
                invoices: db.invoices,
                next_order_id: (before.next_order_id + 1) as i32,
                next_invoice_id: (before.next_invoice_id + 1) as i32,
                ..before
            };
            assert(inserted_state == with_rows);
        }
        Ok(
            (
                CreateOrderResponse::from_order(&order),
                InvoiceResponse {
                    invoice_id: invoice.invoice_id,
                    order_id: invoice.order_id,
                    transaction_id: invoice.transaction_id,
                    invoice_date: invoice.invoice_date,
                    total_amount: invoice.total_amount,
                    description: invoice.description,
                },
            ),
        )
    }

    /// All orders, in table order.
    pub fn get_orders(&self, db: &Database) -> (r: Result<Vec<AllOrderResponse>, AppError>)
        ensures
            r matches Ok(responses) && responses@ == order_responses(db.orders@),
    {
        let mut out: Vec<AllOrderResponse> = Vec::new();
        let mut i: usize = 0;
        while i < db.orders.len()
            invariant
                i <= db.orders@.len(),
                out@ == order_responses(db.orders@.take(i as int)),
            decreases db.orders@.len() - i,
        {
            out.push(AllOrderResponse::from_order(&db.orders[i]));
            proof {
                assert(out@ =~= order_responses(db.orders@.take(i + 1)));
            }
            i += 1;
        }
        proof {
            assert(db.orders@.take(db.orders@.len() as int) =~= db.orders@);
        }
        Ok(out)
    }

    /// The order `order_id`, or `NotFound` where there is none.
    pub fn get_order_by_id(&self, db: &Database, order_id: i32) -> (r: Result<
        GetOrderResponse,
        AppError,
    >)
        ensures
            match r {
                Ok(response) => exists|k: int|
                    0 <= k < db.orders@.len() && (#[trigger] db.orders@[k]).order_id == order_id
                        && response == GetOrderResponse::of(db.orders@[k]),
                Err(e) => !has_id(db.orders@, order_id as int) && e.is_not_found(
                    "Order not found"@,
                ),
            },
            db.wf() ==> get_order_outcome(*db, order_id, r),
    {
        match find_by_id(&db.orders, order_id) {
            Some(k) => {
                proof {
                    if db.wf() {
                        lemma_index_of_id(db.orders@, db.next_order_id as int, k as int);
                    }
                }
                Ok(GetOrderResponse::from_order(&db.orders[k]))
            },
            None => Err(AppError::not_found("Order not found")),
        }
    }

    /// Edits the order `id` on behalf of the user `user_id`.
    pub fn update_order(
        &self,
        db: &mut Database,
        id: i32,
        req: UpdateOrderRequest,
        user_id: i32,
    ) -> (r: Result<(UpdateOrderResponse, Option<InvoiceResponse>), AppError>)
        requires
            old(db).wf(),
        ensures
            final(db).wf(),
            update_order_outcome(*old(db), *final(db), id, req, user_id, r),
    {
        let (_, now) = utc_now();
        self.update_order_at(db, id, req, user_id, now)
    }

    /// Edits the order `id` on behalf of the user `user_id`, with `now` as
    /// the time of the recomputed report.
    pub fn update_order_at(
        &self,
        db: &mut Database,
        id: i32,
        req: UpdateOrderRequest,
        user_id: i32,
        now: i64,
    ) -> (r: Result<(UpdateOrderResponse, Option<InvoiceResponse>), AppError>)
        requires
            old(db).wf(),
        ensures
            final(db).wf(),
            update_order_outcome(*old(db), *final(db), id, req, user_id, r),
    {
        let k = match find_by_id(&db.orders, id) {
            Some(k) => k,
            None => {
                return Err(AppError::not_found("Order not found"));
            },
        };
        proof {
            lemma_index_of_id(db.orders@, db.next_order_id as int, k as int);
        }
        let order_date = match req.order_date {
            Some(date) => {
                if !date.check_valid() {
                    return Err(
                        AppError::bad_request("Invalid date format, expected YYYY-MM-DD"),
                    );
                }
                date
            },
            None => db.orders[k].order_date,
        };
        let total_amount = match req.total_amount {
            Some(amount) => {
                if !check_amount(amount) {
                    return Err(AppError::bad_request("Invalid amount"));
                }
                amount
            },
            None => db.orders[k].total_amount,
        };
        if find_by_id(&db.users, user_id).is_none() {
            return Err(AppError::not_found("User not found"));
        }
        let ghost before = *db;
        let patient_name = match &req.patient_name {
            Some(name) => name.clone(),
            None => db.orders[k].patient_name.clone(),
        };
        let description = match &req.description {
            Some(description) => description.clone(),
            None => db.orders[k].description.clone(),
        };
        let order = Order {
            order_id: db.orders[k].order_id,
            patient_name,
            order_date,
            total_amount,
            description,
            created_by: db.orders[k].created_by,
            modified_by: Some(user_id),
        };
        let order_response = UpdateOrderResponse::from_order(&order);
        db.replace_order(k, order);
        let invoice_response = match db.find_invoice_by_order(id) {
            Some(j) => {
                let invoice = Invoice {
                    invoice_id: db.invoices[j].invoice_id,
                    order_id: db.invoices[j].order_id,
                    transaction_id: db.invoices[j].transaction_id.clone(),
                    invoice_date: db.invoices[j].invoice_date,
                    total_amount: match req.total_amount {
                        Some(amount) => amount,
                        None => db.invoices[j].total_amount,
                    },
                    description: match &req.description {
                        Some(description) => description.clone(),
                        None => db.invoices[j].description.clone(),
                    },
                };
                let response = InvoiceResponse::from_invoice(&invoice);
                db.replace_invoice(j, invoice);
                Some(response)
            },
            None => None,
        };
        let ghost edited = *db;
        let month = order_date.first_of_month();
        let _ = ReportsService::new().generate_monthly_report_at(db, month, now);
        proof {
            let edited_state = Database { orders: db.orders, invoices: db.invoices, ..before };
            assert(edited_state == edited);
        }
        Ok((order_response, invoice_response))
    }

    /// Deletes the order `order_id` and, with it, its invoice. No report is
    /// recomputed.
    pub fn delete_order(&self, db: &mut Database, order_id: i32) -> (r: Result<(), AppError>)
        requires
            old(db).wf(),
        ensures
            final(db).wf(),
            delete_order_outcome(*old(db), *final(db), order_id, r),
    {
        match find_by_id(&db.orders, order_id) {
            Some(k) => {
                db.delete_order(k);
                Ok(())
            },
            None => Err(AppError::not_found("Order not found")),
        }
    }
}

/// Every order is created with exactly one invoice: a request that
/// nothing speaks against succeeds, the invoice shown belongs to the order
/// shown and has its amount, it is the one row that the invoice table
/// gains, it is the only invoice of that order in the store, and it is the
/// only invoice that carries its transaction identifier.
pub proof fn lemma_created_order_has_one_invoice(
    before: Database,
    after: Database,
    req: CreateOrderRequest,
    transaction_id: String,
    invoice_date: Date,
    r: Result<(CreateOrderResponse, InvoiceResponse), AppError>,
)
    requires
        before.wf(),
        create_order_failure_on(before, req, transaction_id@, invoice_date) is None,
        create_order_outcome(before, after, req, transaction_id, invoice_date, r),
    ensures
        r is Ok,
        r->Ok_0.1.order_id == r->Ok_0.0.order_id,
        r->Ok_0.1.total_amount == r->Ok_0.0.total_amount,
        r->Ok_0.0.total_amount == req.total_amount,
        after.orders@.len() == before.orders@.len() + 1,
        after.invoices@.len() == before.invoices@.len() + 1,
        after.invoices@.last().invoice_id == r->Ok_0.1.invoice_id,
        after.invoices@.last().order_id == after.orders@.last().order_id,
        after.invoices@.last().total_amount == after.orders@.last().total_amount,
        after.invoices@.filter(invoice_of_order(r->Ok_0.0.order_id)).len() == 1,
        r->Ok_0.1.transaction_id == transaction_id,
        after.invoices@.filter(with_transaction_id(transaction_id@)).len() == 1,
{
    let order = requested_order(before, req);
    let invoice = derived_invoice(before, order, transaction_id, invoice_date);
    let owned = invoice_of_order(order.order_id);
    assert forall|i: int| 0 <= i < before.invoices@.len() implies !owned(
        #[trigger] before.invoices@[i],
    ) by {
        let id = before.invoices@[i].order_id as int;
        assert(has_id(before.orders@, id));
        let j = choose|j: int|
            0 <= j < before.orders@.len() && (#[trigger] before.orders@[j]).row_id() == id;
        assert(before.orders@[j].row_id() < before.next_order_id);
    }
    crate::table::lemma_filter_keeps_none(before.invoices@, owned);
    before.invoices@.lemma_filter_push(invoice, owned);
    let carried = with_transaction_id(transaction_id@);
    crate::table::lemma_filter_keeps_none(before.invoices@, carried);
    before.invoices@.lemma_filter_push(invoice, carried);
}

/// Deleting an order removes its invoice with it and nothing else: the
/// order and every invoice of it are gone, every other order and invoice
/// is still there, in its old order. Deleting an order that does not exist
/// reports `NotFound` and changes nothing.
pub proof fn lemma_delete_order_cascades(
    before: Database,
    after: Database,
    order_id: i32,
    r: Result<(), AppError>,
)
    requires
        before.wf(),
        delete_order_outcome(before, after, order_id, r),
    ensures
        has_id(before.orders@, order_id as int) ==> r is Ok,
        !has_id(before.orders@, order_id as int) ==> r is Err && r->Err_0@ == ErrorView::NotFound(
            "Order not found"@,
        ) && after == before,
        !has_id(after.orders@, order_id as int),
        !has_invoice_of(after.invoices@, order_id as int),
        forall|i: int|
            0 <= i < before.orders@.len() && (#[trigger] before.orders@[i]).order_id != order_id
                ==> after.orders@.contains(before.orders@[i]),
        forall|i: int|
            0 <= i < before.invoices@.len() && (#[trigger] before.invoices@[i]).order_id
                != order_id ==> after.invoices@.contains(before.invoices@[i]),
        forall|i: int|
            0 <= i < after.invoices@.len() ==> before.invoices@.contains(
                #[trigger] after.invoices@[i],
            ),
{
    if has_id(before.orders@, order_id as int) {
        let kept_orders = crate::table::other_id::<Order>(order_id as int);
        let kept_invoices = crate::db::of_other_order(order_id);
        assert forall|i: int|
            0 <= i < before.orders@.len() && (#[trigger] before.orders@[i]).order_id
                != order_id implies after.orders@.contains(before.orders@[i]) by {
            assert(kept_orders(before.orders@[i]));
            before.orders@.lemma_filter_contains(kept_orders, i);
        }
        assert forall|i: int|
            0 <= i < before.invoices@.len() && (#[trigger] before.invoices@[i]).order_id
                != order_id implies after.invoices@.contains(before.invoices@[i]) by {
            assert(kept_invoices(before.invoices@[i]));
            before.invoices@.lemma_filter_contains(kept_invoices, i);
        }
        assert forall|i: int| 0 <= i < after.invoices@.len() implies before.invoices@.contains(
            #[trigger] after.invoices@[i],
        ) by {
            assert(after.invoices@.contains(after.invoices@[i]));
            before.invoices@.lemma_filter_contains_rev(kept_invoices, after.invoices@[i]);
        }
    } else {
        assert forall|i: int| 0 <= i < before.invoices@.len() implies (
        #[trigger] before.invoices@[i]).order_id != order_id by {
            assert(has_id(before.orders@, before.invoices@[i].order_id as int));
        }
        assert forall|i: int| 0 <= i < before.orders@.len() implies before.orders@.contains(
            #[trigger] before.orders@[i],
        ) by {}
        assert forall|i: int| 0 <= i < before.invoices@.len() implies before.invoices@.contains(
            #[trigger] before.invoices@[i],
        ) by {}
    }
}

/// A new order shows in the report of its month at once: unless the month
/// has no report yet and no key is left for one, the report of the month
/// is, after the creation, the one computed from the orders with the new
/// order among them. It counts one order more than the month had, its
/// income is higher by the amount of the order, and the order closes its
/// snapshot.
pub proof fn lemma_created_order_is_in_its_report(
    before: Database,
    after: Database,
    req: CreateOrderRequest,
    transaction_id: String,
    invoice_date: Date,
    r: Result<(CreateOrderResponse, InvoiceResponse), AppError>,
)
    requires
        before.wf(),
        create_order_failure_on(before, req, transaction_id@, invoice_date) is None,
        create_order_outcome(before, after, req, transaction_id, invoice_date, r),
        !report_keys_used_up(before, req.order_date.spec_first_of_month()),
    ensures
        has_report_of(after.reports@, req.order_date.spec_first_of_month()),
        ({
            let month = req.order_date.spec_first_of_month();
            let report = after.reports@[report_index(after.reports@, month)];
            let earlier = orders_between(before.orders@, month, month.spec_last_day_of_month());
            &&& report.total_orders == earlier.len() + 1
            &&& report.total_income == sum_order_amounts(earlier) + req.total_amount
            &&& report.total_expenses == sum_expense_amounts(
                expenses_between(before.expenses@, month, month.spec_last_day_of_month()),
            )
            &&& report.net_profit == report.total_income - report.total_expenses
            &&& report.daily_data.orders@ == earlier.push(requested_order(before, req))
        }),
{
    let month = req.order_date.spec_first_of_month();
    let last = month.spec_last_day_of_month();
    let order = requested_order(before, req);
    let inserted = Database {
        orders: after.orders,
        invoices: after.invoices,
        next_order_id: (before.next_order_id + 1) as i32,
        next_invoice_id: (before.next_invoice_id + 1) as i32,
        ..before
    };
    assert(month.is_valid());
    assert(order.order_date.spec_between(&month, &last));
    assert(generate_failure(inserted, month) is None);
    let stored = choose|stored: ReportView| #[trigger]
        report_stored(inserted, after, month, stored);
    lemma_upserted_report_is_found(inserted.reports@, after.reports@, stored);
    let earlier = orders_between(before.orders@, month, last);
    before.orders@.lemma_filter_push(order, order_in_window(month, last));
    assert(earlier.push(order).drop_last() =~= earlier);
}

} // verus!
