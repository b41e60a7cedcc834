//! The monthly report aggregator: counts and sums the orders and expenses
//! of one month and stores the result as the month's one report.

use crate::date::is_clock_reading;
use crate::date::utc_now;
use crate::date::Date;
use crate::db::has_report_of;
use crate::db::report_id_for;
use crate::db::report_index;
use crate::db::reports_upserted;
use crate::db::Database;
use crate::entities::sum_expense_amounts;
use crate::entities::sum_order_amounts;
use crate::entities::DailyData;
use crate::entities::Expense;
use crate::entities::Order;
use crate::entities::Report;
use crate::entities::ReportView;
use crate::entities::MAX_AMOUNT;
use crate::errors::AppError;
use crate::errors::ErrorView;
use crate::table::lemma_len_below_next_id;
use vstd::prelude::*;

verus! {

/// The test that an order is dated from `from` to `to`, both included.
pub open spec fn order_in_window(from: Date, to: Date) -> spec_fn(Order) -> bool {
    |o: Order| o.order_date.spec_between(&from, &to)
}

/// The test that an expense is dated from `from` to `to`, both included.
pub open spec fn expense_in_window(from: Date, to: Date) -> spec_fn(Expense) -> bool {
    |e: Expense| e.expense_date.spec_between(&from, &to)
}

/// The orders dated from `from` to `to`, in table order.
pub open spec fn orders_between(orders: Seq<Order>, from: Date, to: Date) -> Seq<Order> {
    orders.filter(order_in_window(from, to))
}

/// The expenses dated from `from` to `to`, in table order.
pub open spec fn expenses_between(expenses: Seq<Expense>, from: Date, to: Date) -> Seq<Expense> {
    expenses.filter(expense_in_window(from, to))
}

/// The report of the month that starts at `month`, computed from the two
/// tables: the rows dated from `month` to the last day of its month, their
/// count, their sums, and income less expenses.
pub open spec fn monthly_report(
    orders: Seq<Order>,
    expenses: Seq<Expense>,
    month: Date,
    report_id: i32,
    generated_at: i64,
) -> ReportView {
    let matched_orders = orders_between(orders, month, month.spec_last_day_of_month());
    let matched_expenses = expenses_between(expenses, month, month.spec_last_day_of_month());
    ReportView {
        report_id,
        month,
        total_orders: matched_orders.len() as i32,
        total_income: sum_order_amounts(matched_orders) as i128,
        total_expenses: sum_expense_amounts(matched_expenses) as i128,
        net_profit: (sum_order_amounts(matched_orders) - sum_expense_amounts(
            matched_expenses,
        )) as i128,
        generated_at,
        orders: matched_orders,
        expenses: matched_expenses,
    }
}

/// `after` is `before` with the report of `month` computed anew from the
/// orders and expenses of `before` and stored as `stored`: over the report
/// that the month had, or as a new row. No other table changes.
pub open spec fn report_stored(
    before: Database,
    after: Database,
    month: Date,
    stored: ReportView,
) -> bool {
    &&& stored == monthly_report(
        before.orders@,
        before.expenses@,
        month,
        report_id_for(before.reports@, before.next_report_id, month),
        stored.generated_at,
    )
    &&& stored.wf()
    &&& reports_upserted(before.reports@, after.reports@, stored)
    &&& after == (Database {
        reports: after.reports,
        next_report_id: if has_report_of(before.reports@, month) {
            before.next_report_id
        } else {
            (before.next_report_id + 1) as i32
        },
        ..before
    })
}

/// The month has no report yet and no key is left for a new one.
pub open spec fn report_keys_used_up(db: Database, month: Date) -> bool {
    !has_report_of(db.reports@, month) && db.next_report_id == i32::MAX
}

/// Why a report for `month` cannot be generated, if it cannot.
pub open spec fn generate_failure(db: Database, month: Date) -> Option<ErrorView> {
    if !month.is_valid() {
        Some(ErrorView::BadRequest("Invalid date format, expected YYYY-MM-DD"@))
    } else if month.day != 1 {
        Some(ErrorView::BadRequest("Invalid month, expected its first day"@))
    } else if report_keys_used_up(db, month) {
        Some(ErrorView::DbError("report keys are used up"@))
    } else {
        None
    }
}

/// What generating the report of `month` does: it fails and changes
/// nothing, or it stores the report computed from `before` and returns it.
pub open spec fn report_generated(
    before: Database,
    after: Database,
    month: Date,
    r: Result<Report, AppError>,
) -> bool {
    match generate_failure(before, month) {
        Some(failure) => r matches Err(e) && e@ == failure && after == before,
        None => r matches Ok(report) && report_stored(before, after, month, report@),
    }
}

/// What a recomputation on the side does: as generating the report, but
/// where that fails nothing changes and nobody is told.
pub open spec fn report_refreshed(before: Database, after: Database, month: Date) -> bool {
    if generate_failure(before, month) is Some {
        after == before
    } else {
        exists|stored: ReportView| #[trigger] report_stored(before, after, month, stored)
    }
}

/// The figures of a report without its snapshot.
#[derive(Debug)]
pub struct MonthlyReport {
    pub month: Date,
    pub total_orders: i32,
    pub total_income: i128,
    pub total_expenses: i128,
    pub net_profit: i128,
}

impl MonthlyReport {
    /// The figures of `report`.
    pub fn from_report(report: &Report) -> (r: MonthlyReport)
        ensures
            r.month == report.month,
            r.total_orders == report.total_orders,
            r.total_income == report.total_income,
            r.total_expenses == report.total_expenses,
            r.net_profit == report.net_profit,
    {
        MonthlyReport {
            month: report.month,
            total_orders: report.total_orders,
            total_income: report.total_income,
            total_expenses: report.total_expenses,
            net_profit: report.net_profit,
        }
    }
}

/// The sum of the amounts of valid orders is bounded by their number.
pub proof fn lemma_order_sum_bound(orders: Seq<Order>)
    requires
        forall|i: int| 0 <= i < orders.len() ==> (#[trigger] orders[i]).wf(),
    ensures
        -(orders.len() * MAX_AMOUNT) <= sum_order_amounts(orders) <= orders.len() * MAX_AMOUNT,
    decreases orders.len(),
{
    if orders.len() > 0 {
        let front = orders.drop_last();
        assert forall|i: int| 0 <= i < front.len() implies (#[trigger] front[i]).wf() by {
            assert(front[i] == orders[i]);
        }
        lemma_order_sum_bound(front);
        assert(orders.last().wf());
        assert(orders.len() * MAX_AMOUNT == front.len() * MAX_AMOUNT + MAX_AMOUNT)
            by (nonlinear_arith)
            requires
                orders.len() == front.len() + 1,
        ;
    }
}

/// The sum of the amounts of valid expenses is bounded by their number.
pub proof fn lemma_expense_sum_bound(expenses: Seq<Expense>)
    requires
        forall|i: int| 0 <= i < expenses.len() ==> (#[trigger] expenses[i]).wf(),
    ensures
        -(expenses.len() * MAX_AMOUNT) <= sum_expense_amounts(expenses) <= expenses.len()
            * MAX_AMOUNT,
    decreases expenses.len(),
{
    if expenses.len() > 0 {
        let front = expenses.drop_last();
        assert forall|i: int| 0 <= i < front.len() implies (#[trigger] front[i]).wf() by {
            assert(front[i] == expenses[i]);
        }
        lemma_expense_sum_bound(front);
        assert(expenses.last().wf());
        assert(expenses.len() * MAX_AMOUNT == front.len() * MAX_AMOUNT + MAX_AMOUNT)
            by (nonlinear_arith)
            requires
                expenses.len() == front.len() + 1,
        ;
    }
}

/// The orders of `orders` dated from `from` to `to`, with the sum of their
/// amounts.
pub fn collect_orders(orders: &Vec<Order>, from: Date, to: Date) -> (r: (Vec<Order>, i128))
    requires
        forall|i: int| 0 <= i < orders@.len() ==> (#[trigger] orders@[i]).wf(),
    ensures
        r.0@ == orders_between(orders@, from, to),
        r.1 == sum_order_amounts(r.0@),
        forall|i: int|
            0 <= i < r.0@.len() ==> (#[trigger] r.0@[i]).wf() && r.0@[i].order_date.spec_between(
                &from,
                &to,
            ),
{
    let mut matched: Vec<Order> = Vec::new();
    let mut total: i128 = 0;
    let mut i: usize = 0;
    proof {
        reveal(Seq::filter);
        assert(orders@.take(0) =~= Seq::<Order>::empty());
    }
    while i < orders.len()
        invariant
            i <= orders@.len(),
            forall|j: int| 0 <= j < orders@.len() ==> (#[trigger] orders@[j]).wf(),
            matched@ == orders_between(orders@.take(i as int), from, to),
            matched@.len() <= i,
            total == sum_order_amounts(matched@),
            forall|j: int|
                0 <= j < matched@.len() ==> (#[trigger] matched@[j]).wf()
                    && matched@[j].order_date.spec_between(&from, &to),
        decreases orders@.len() - i,
    {
        proof {
            assert(orders@.take(i + 1) =~= orders@.take(i as int).push(orders@[i as int]));
            orders@.take(i as int).lemma_filter_push(orders@[i as int], order_in_window(from, to));
            lemma_order_sum_bound(matched@);
            assert(matched@.len() * MAX_AMOUNT <= usize::MAX * MAX_AMOUNT) by (nonlinear_arith)
                requires
                    matched@.len() <= usize::MAX,
            ;
            assert(orders@[i as int].wf());
        }
        if orders[i].order_date.between(&from, &to) {
            let ghost before = matched@;
            total = total + orders[i].total_amount as i128;
            matched.push(orders[i].clone());
            proof {
                assert(matched@.drop_last() =~= before);
            }
        }
        i += 1;
    }
    proof {
        assert(orders@.take(orders@.len() as int) =~= orders@);
    }
    (matched, total)
}

/// The expenses of `expenses` dated from `from` to `to`, with the sum of
/// their amounts.
pub fn collect_expenses(expenses: &Vec<Expense>, from: Date, to: Date) -> (r: (Vec<Expense>, i128))
    requires
        forall|i: int| 0 <= i < expenses@.len() ==> (#[trigger] expenses@[i]).wf(),
    ensures
        r.0@ == expenses_between(expenses@, from, to),
        r.1 == sum_expense_amounts(r.0@),
        forall|i: int|
            0 <= i < r.0@.len() ==> (#[trigger] r.0@[i]).wf()
                && r.0@[i].expense_date.spec_between(&from, &to),
{
    let mut matched: Vec<Expense> = Vec::new();
    let mut total: i128 = 0;
    let mut i: usize = 0;
    proof {
        reveal(Seq::filter);
        assert(expenses@.take(0) =~= Seq::<Expense>::empty());
    }
    while i < expenses.len()
        invariant
            i <= expenses@.len(),
            forall|j: int| 0 <= j < expenses@.len() ==> (#[trigger] expenses@[j]).wf(),
            matched@ == expenses_between(expenses@.take(i as int), from, to),
            matched@.len() <= i,
            total == sum_expense_amounts(matched@),
            forall|j: int|
                0 <= j < matched@.len() ==> (#[trigger] matched@[j]).wf()
                    && matched@[j].expense_date.spec_between(&from, &to),
        decreases expenses@.len() - i,
    {
        proof {
            assert(expenses@.take(i + 1) =~= expenses@.take(i as int).push(expenses@[i as int]));
            expenses@.take(i as int).lemma_filter_push(
                expenses@[i as int],
                expense_in_window(from, to),
            );
            lemma_expense_sum_bound(matched@);
            assert(matched@.len() * MAX_AMOUNT <= usize::MAX * MAX_AMOUNT) by (nonlinear_arith)
                requires
                    matched@.len() <= usize::MAX,
            ;
            assert(expenses@[i as int].wf());
        }
        if expenses[i].expense_date.between(&from, &to) {
            let ghost before = matched@;
            total = total + expenses[i].amount as i128;
            matched.push(expenses[i].clone());
            proof {
                assert(matched@.drop_last() =~= before);
            }
        }
        i += 1;
    }
    proof {
        assert(expenses@.take(expenses@.len() as int) =~= expenses@);
    }
    (matched, total)
}

/// The report aggregator.
#[derive(Clone, Copy, Debug)]
pub struct ReportsService {}

impl ReportsService {
    /// The service. It holds nothing: the store is handed to every call.
    pub fn new() -> (r: ReportsService) {
        ReportsService {  }
    }

    /// Generates the report of the month that starts at `month`, stamped
    /// with the time that the clock shows.
    pub fn generate_monthly_report(&self, db: &mut Database, month: Date) -> (r: Result<
        Report,
        AppError,
    >)
        requires
            old(db).wf(),
        ensures
            final(db).wf(),
            report_generated(*old(db), *final(db), month, r),
            r matches Ok(report) ==> is_clock_reading(report.generated_at),
    {
        let (_, now) = utc_now();
        self.generate_monthly_report_at(db, month, now)
    }

    /// Generates the report of the month that starts at `month` as of the
    /// time `now`: counts the orders dated from `month` to the last day of
    /// its month, sums their amounts and those of the expenses in the same
    /// range, and stores the result with a snapshot of the rows as the one
    /// report of that month. A date that is not the first day of a month is
    /// refused.
    pub fn generate_monthly_report_at(&self, db: &mut Database, month: Date, now: i64) -> (r:
        Result<Report, AppError>)
        requires
            old(db).wf(),
        ensures
            final(db).wf(),
            report_generated(*old(db), *final(db), month, r),
            r matches Ok(report) ==> report.generated_at == now,
    {
        if !month.check_valid() {
            return Err(AppError::bad_request("Invalid date format, expected YYYY-MM-DD"));
        }
        if month.day != 1 {
            return Err(AppError::bad_request("Invalid month, expected its first day"));
        }
        let end_of_month = month.last_day_of_month();
        let (orders, total_income) = collect_orders(&db.orders, month, end_of_month);
        let (expenses, total_expenses) = collect_expenses(&db.expenses, month, end_of_month);
        proof {
            lemma_len_below_next_id(db.orders@, db.next_order_id as int);
            db.orders@.lemma_filter_len(order_in_window(month, end_of_month));
            lemma_len_below_next_id(db.expenses@, db.next_expense_id as int);
            db.expenses@.lemma_filter_len(expense_in_window(month, end_of_month));
            lemma_order_sum_bound(orders@);
            lemma_expense_sum_bound(expenses@);
            assert(orders@.len() * MAX_AMOUNT <= usize::MAX * MAX_AMOUNT) by (nonlinear_arith)
                requires
                    orders@.len() <= usize::MAX,
            ;
            assert(expenses@.len() * MAX_AMOUNT <= usize::MAX * MAX_AMOUNT) by (nonlinear_arith)
                requires
                    expenses@.len() <= usize::MAX,
            ;
        }
        let row = Report {
            report_id: 0,
            month,
            total_orders: orders.len() as i32,
            total_income,
            total_expenses,
            net_profit: total_income - total_expenses,
            generated_at: now,
            daily_data: DailyData { orders, expenses },
        };
        db.upsert_report(row)
    }

    /// All reports, in table order.
    pub fn get_all_reports(&self, db: &Database) -> (r: Result<Vec<Report>, AppError>)
        ensures
            r matches Ok(reports) && reports@.len() == db.reports@.len() && forall|i: int|
                0 <= i < reports@.len() ==> (#[trigger] reports@[i])@ == db.reports@[i]@,
    {
        let mut out: Vec<Report> = Vec::new();
        let mut i: usize = 0;
        while i < db.reports.len()
            invariant
                i <= db.reports@.len(),
                out@.len() == i,
                forall|j: int| 0 <= j < i ==> (#[trigger] out@[j])@ == db.reports@[j]@,
            decreases db.reports@.len() - i,
        {
            out.push(db.reports[i].clone());
            i += 1;
        }
        Ok(out)
    }

    /// The report of `month`, or `NotFound` where the month has none.
    pub fn get_report_by_month(&self, db: &Database, month: Date) -> (r: Result<Report, AppError>)
        ensures
            match r {
                Ok(report) => has_report_of(db.reports@, month) && exists|k: int|
                    0 <= k < db.reports@.len() && (#[trigger] db.reports@[k]).month == month
                        && report@ == db.reports@[k]@,
                Err(e) => !has_report_of(db.reports@, month) && e.is_not_found(
                    "Report not found"@,
                ),
            },
            db.wf() ==> (r matches Ok(report) ==> report@ == db.reports@[report_index(
                db.reports@,
                month,
            )]@),
    {
        match db.find_report_by_month(month) {
            Some(k) => Ok(db.reports[k].clone()),
            None => Err(AppError::not_found("Report not found")),
        }
    }
}

/// The figures of a generated report are those of the tables at that time:
/// the count is the number of orders dated within the month, income and
/// expenses are the sums over the orders and expenses dated within the
/// month, and the profit is income less expenses, to the cent.
pub proof fn lemma_report_figures(
    before: Database,
    after: Database,
    month: Date,
    r: Result<Report, AppError>,
)
    requires
        before.wf(),
        report_generated(before, after, month, r),
        r is Ok,
    ensures
        r->Ok_0.month == month,
        r->Ok_0.total_orders == orders_between(
            before.orders@,
            month,
            month.spec_last_day_of_month(),
        ).len(),
        r->Ok_0.total_income == sum_order_amounts(
            orders_between(before.orders@, month, month.spec_last_day_of_month()),
        ),
        r->Ok_0.total_expenses == sum_expense_amounts(
            expenses_between(before.expenses@, month, month.spec_last_day_of_month()),
        ),
        r->Ok_0.net_profit == r->Ok_0.total_income - r->Ok_0.total_expenses,
        r->Ok_0.daily_data.orders@ == orders_between(
            before.orders@,
            month,
            month.spec_last_day_of_month(),
        ),
        r->Ok_0.daily_data.expenses@ == expenses_between(
            before.expenses@,
            month,
            month.spec_last_day_of_month(),
        ),
{
}

/// Once a month has a report, it has one at the same place from then on.
pub proof fn lemma_upserted_report_is_found(
    before: Seq<Report>,
    after: Seq<Report>,
    stored: ReportView,
)
    requires
        crate::db::reports_wf(before),
        reports_upserted(before, after, stored),
    ensures
        has_report_of(after, stored.month),
        after[report_index(after, stored.month)]@ == stored,
        crate::db::reports_distinct(after),
{
    let k = if has_report_of(before, stored.month) {
        report_index(before, stored.month)
    } else {
        before.len() as int
    };
    assert(after[k]@ == stored);
    assert(after[k].month == stored.month);
    assert forall|a: int, b: int| 0 <= a < b < after.len() implies (#[trigger] after[a]).month != (
    #[trigger] after[b]).month by {
        if a != k && b != k {
            assert(after[a] == before[a]);
            assert(after[b] == before[b]);
        } else if a == k {
            assert(after[b] == before[b]);
            if has_report_of(before, stored.month) {
                assert(before[k].month != before[b].month);
            }
        } else {
            assert(after[a] == before[a]);
            if has_report_of(before, stored.month) {
                assert(before[a].month != before[k].month);
            }
        }
    }
    let c = report_index(after, stored.month);
    assert(after[c].month == stored.month);
    if c < k {
        assert(after[c].month != after[k].month);
    } else if k < c {
        assert(after[k].month != after[c].month);
    }
}

/// Generating the report of a month twice in a row, with the orders and
/// expenses untouched in between, gives the same figures and the same
/// snapshot both times, and the second run adds no row: the month keeps
/// its one report, under the key it had.
pub proof fn lemma_regeneration_is_idempotent(
    start: Database,
    middle: Database,
    end: Database,
    month: Date,
    first: Result<Report, AppError>,
    second: Result<Report, AppError>,
)
    requires
        start.wf(),
        middle.wf(),
        report_generated(start, middle, month, first),
        report_generated(middle, end, month, second),
        first is Ok,
    ensures
        second is Ok,
        second->Ok_0.report_id == first->Ok_0.report_id,
        second->Ok_0.total_orders == first->Ok_0.total_orders,
        second->Ok_0.total_income == first->Ok_0.total_income,
        second->Ok_0.total_expenses == first->Ok_0.total_expenses,
        second->Ok_0.net_profit == first->Ok_0.net_profit,
        second->Ok_0.daily_data.orders@ == first->Ok_0.daily_data.orders@,
        second->Ok_0.daily_data.expenses@ == first->Ok_0.daily_data.expenses@,
        end.reports@.len() == middle.reports@.len(),
        end.next_report_id == middle.next_report_id,
        forall|i: int, j: int|
            0 <= i < j < end.reports@.len() ==> (#[trigger] end.reports@[i]).month != (
            #[trigger] end.reports@[j]).month,
{
    lemma_upserted_report_is_found(start.reports@, middle.reports@, first->Ok_0@);
    lemma_upserted_report_is_found(middle.reports@, end.reports@, second->Ok_0@);
}

} // verus!
