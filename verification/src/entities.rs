//! The rows of the relational tables.
//!
//! Amounts are fixed-point numbers with two decimals, held as a whole number
//! of cents. Timestamps are seconds since the Unix epoch.

use crate::date::Date;
use vstd::prelude::*;

verus! {

/// The largest magnitude, in cents, that an amount column of twelve digits
/// with two decimals can hold.
pub const MAX_AMOUNT: i64 = 999_999_999_999;

/// Whether `amount` fits an amount column.
pub open spec fn amount_in_range(amount: i64) -> bool {
    -MAX_AMOUNT <= amount <= MAX_AMOUNT
}

/// Whether `amount` fits an amount column.
pub fn check_amount(amount: i64) -> (r: bool)
    ensures
        r == amount_in_range(amount),
{
    -MAX_AMOUNT <= amount && amount <= MAX_AMOUNT
}

/// A row that is found by an integer primary key.
pub trait Row: Sized {
    /// The primary key of this row.
    spec fn row_id(&self) -> int;

    /// The primary key of this row.
    fn id(&self) -> (r: i32)
        ensures
            r as int == self.row_id(),
    ;
}

/// A registered account.
#[derive(Debug)]
pub struct User {
    pub user_id: i32,
    pub username: String,
    pub password_hash: String,
}

/// A billable patient service record.
#[derive(Debug)]
pub struct Order {
    pub order_id: i32,
    pub patient_name: String,
    pub order_date: Date,
    pub total_amount: i64,
    pub description: String,
    pub created_by: Option<i32>,
    pub modified_by: Option<i32>,
}

/// The billing document derived from one order.
#[derive(Debug)]
pub struct Invoice {
    pub invoice_id: i32,
    pub order_id: i32,
    pub transaction_id: String,
    pub invoice_date: Date,
    pub total_amount: i64,
    pub description: String,
}

/// An outgoing cost entry.
#[derive(Debug)]
pub struct Expense {
    pub expense_id: i32,
    pub description: String,
    pub label: String,
    pub amount: i64,
    pub expense_date: Date,
    pub created_by: Option<i32>,
    pub modified_by: Option<i32>,
}

/// The rows that a report was computed from.
#[derive(Debug)]
pub struct DailyData {
    pub orders: Vec<Order>,
    pub expenses: Vec<Expense>,
}

/// The financial summary of one month.
#[derive(Debug)]
pub struct Report {
    pub report_id: i32,
    pub month: Date,
    pub total_orders: i32,
    pub total_income: i128,
    pub total_expenses: i128,
    pub net_profit: i128,
    pub generated_at: i64,
    pub daily_data: DailyData,
}

/// The shared secret that gates self-service registration.
#[derive(Debug)]
pub struct RegistrationCode {
    pub id: i32,
    pub code_hash: String,
    pub updated_at: i64,
}

/// One issued verification code for rotating the registration code.
#[derive(Debug)]
pub struct RegistrationCodeReset {
    pub id: i32,
    pub email: String,
    pub hashed_verification_code: String,
    pub expires_at: i64,
    pub used: bool,
}

/// What a report says, with its snapshot as sequences.
pub struct ReportView {
    pub report_id: i32,
    pub month: Date,
    pub total_orders: i32,
    pub total_income: i128,
    pub total_expenses: i128,
    pub net_profit: i128,
    pub generated_at: i64,
    pub orders: Seq<Order>,
    pub expenses: Seq<Expense>,
}

/// The sum of the amounts of `orders`, in cents.
pub open spec fn sum_order_amounts(orders: Seq<Order>) -> int
    decreases orders.len(),
{
    if orders.len() == 0 {
        0
    } else {
        sum_order_amounts(orders.drop_last()) + orders.last().total_amount
    }
}

/// The sum of the amounts of `expenses`, in cents.
pub open spec fn sum_expense_amounts(expenses: Seq<Expense>) -> int
    decreases expenses.len(),
{
    if expenses.len() == 0 {
        0
    } else {
        sum_expense_amounts(expenses.drop_last()) + expenses.last().amount
    }
}

impl Order {
    /// The date is a day of the calendar and the amount fits its column.
    pub open spec fn wf(&self) -> bool {
        self.order_date.is_valid() && amount_in_range(self.total_amount)
    }
}

impl Invoice {
    /// The date is a day of the calendar and the amount fits its column.
    pub open spec fn wf(&self) -> bool {
        self.invoice_date.is_valid() && amount_in_range(self.total_amount)
    }
}

impl Expense {
    /// The date is a day of the calendar and the amount fits its column.
    pub open spec fn wf(&self) -> bool {
        self.expense_date.is_valid() && amount_in_range(self.amount)
    }
}

impl ReportView {
    /// The first and last day that this report covers.
    pub open spec fn window(&self) -> (Date, Date) {
        (self.month, self.month.spec_last_day_of_month())
    }

    /// The report is for a month, named by its first day, and its figures
    /// are those of its own snapshot: every row
    /// of the snapshot is dated within the month, the count and the sums are
    /// taken over the snapshot, and the profit is income less expenses.
    pub open spec fn wf(&self) -> bool {
        &&& self.month.is_valid()
        &&& self.month.day == 1
        &&& forall|i: int|
            0 <= i < self.orders.len() ==> (#[trigger] self.orders[i]).wf()
                && self.orders[i].order_date.spec_between(&self.window().0, &self.window().1)
        &&& forall|i: int|
            0 <= i < self.expenses.len() ==> (#[trigger] self.expenses[i]).wf()
                && self.expenses[i].expense_date.spec_between(&self.window().0, &self.window().1)
        &&& self.total_orders == self.orders.len()
        &&& self.total_income == sum_order_amounts(self.orders)
        &&& self.total_expenses == sum_expense_amounts(self.expenses)
        &&& self.net_profit == self.total_income - self.total_expenses
    }
}

impl Row for User {
    open spec fn row_id(&self) -> int {
        self.user_id as int
    }

    fn id(&self) -> (r: i32) {
        self.user_id
    }
}

impl Row for Order {
    open spec fn row_id(&self) -> int {
        self.order_id as int
    }

    fn id(&self) -> (r: i32) {
        self.order_id
    }
}

impl Row for Invoice {
    open spec fn row_id(&self) -> int {
        self.invoice_id as int
    }

    fn id(&self) -> (r: i32) {
        self.invoice_id
    }
}

impl Row for Expense {
    open spec fn row_id(&self) -> int {
        self.expense_id as int
    }

    fn id(&self) -> (r: i32) {
        self.expense_id
    }
}

impl Row for Report {
    open spec fn row_id(&self) -> int {
        self.report_id as int
    }

    fn id(&self) -> (r: i32) {
        self.report_id
    }
}

impl Row for RegistrationCodeReset {
    open spec fn row_id(&self) -> int {
        self.id as int
    }

    fn id(&self) -> (r: i32) {
        self.id
    }
}

impl Clone for User {
    fn clone(&self) -> (r: Self)
        ensures
            r == *self,
    {
        User {
            user_id: self.user_id,
            username: self.username.clone(),
            password_hash: self.password_hash.clone(),
        }
    }
}

impl Clone for Order {
    fn clone(&self) -> (r: Self)
        ensures
            r == *self,
    {
        Order {
            order_id: self.order_id,
            patient_name: self.patient_name.clone(),
            order_date: self.order_date,
            total_amount: self.total_amount,
            description: self.description.clone(),
            created_by: self.created_by,
            modified_by: self.modified_by,
        }
    }
}

impl Clone for Invoice {
    fn clone(&self) -> (r: Self)
        ensures
            r == *self,
    {
        Invoice {
            invoice_id: self.invoice_id,
            order_id: self.order_id,
            transaction_id: self.transaction_id.clone(),
            invoice_date: self.invoice_date,
            total_amount: self.total_amount,
            description: self.description.clone(),
        }
    }
}

impl Clone for Expense {
    fn clone(&self) -> (r: Self)
        ensures
            r == *self,
    {
        Expense {
            expense_id: self.expense_id,
            description: self.description.clone(),
            label: self.label.clone(),
            amount: self.amount,
            expense_date: self.expense_date,
            created_by: self.created_by,
            modified_by: self.modified_by,
        }
    }
}

impl Clone for RegistrationCode {
    fn clone(&self) -> (r: Self)
        ensures
            r == *self,
    {
        RegistrationCode {
            id: self.id,
            code_hash: self.code_hash.clone(),
            updated_at: self.updated_at,
        }
    }
}

impl Clone for RegistrationCodeReset {
    fn clone(&self) -> (r: Self)
        ensures
            r == *self,
    {
        RegistrationCodeReset {
            id: self.id,
            email: self.email.clone(),
            hashed_verification_code: self.hashed_verification_code.clone(),
            expires_at: self.expires_at,
            used: self.used,
        }
    }
}

/// A copy of `rows`, row by row.
pub fn clone_orders(rows: &Vec<Order>) -> (r: Vec<Order>)
    ensures
        r@ == rows@,
{
    let mut out: Vec<Order> = Vec::new();
    let mut i: usize = 0;
    while i < rows.len()
        invariant
            i <= rows.len(),
            out@ == rows@.take(i as int),
        decreases rows.len() - i,
    {
        out.push(rows[i].clone());
        assert(rows@.take(i + 1) =~= rows@.take(i as int).push(rows@[i as int]));
        i += 1;
    }
    assert(rows@.take(rows@.len() as int) =~= rows@);
    out
}

/// A copy of `rows`, row by row.
pub fn clone_expenses(rows: &Vec<Expense>) -> (r: Vec<Expense>)
    ensures
        r@ == rows@,
{
    let mut out: Vec<Expense> = Vec::new();
    let mut i: usize = 0;
    while i < rows.len()
        invariant
            i <= rows.len(),
            out@ == rows@.take(i as int),
        decreases rows.len() - i,
    {
        out.push(rows[i].clone());
        assert(rows@.take(i + 1) =~= rows@.take(i as int).push(rows@[i as int]));
        i += 1;
    }
    assert(rows@.take(rows@.len() as int) =~= rows@);
    out
}

impl View for Report {
    type V = ReportView;

    open spec fn view(&self) -> ReportView {
        ReportView {
            report_id: self.report_id,
            month: self.month,
            total_orders: self.total_orders,
            total_income: self.total_income,
            total_expenses: self.total_expenses,
            net_profit: self.net_profit,
            generated_at: self.generated_at,
            orders: self.daily_data.orders@,
            expenses: self.daily_data.expenses@,
        }
    }
}

impl Clone for Report {
    fn clone(&self) -> (r: Self)
        ensures
            r@ == self@,
    {
        Report {
            report_id: self.report_id,
            month: self.month,
            total_orders: self.total_orders,
            total_income: self.total_income,
            total_expenses: self.total_expenses,
            net_profit: self.net_profit,
            generated_at: self.generated_at,
            daily_data: DailyData {
                orders: clone_orders(&self.daily_data.orders),
                expenses: clone_expenses(&self.daily_data.expenses),
            },
        }
    }
}

} // verus!
