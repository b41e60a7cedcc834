//! Checking a store that was put together from rows of unknown origin
//! against the constraints of the schema.

use crate::date::Date;
use crate::db::expenses_wf;
use crate::db::invoices_wf;
use crate::db::orders_wf;
use crate::db::reports_distinct;
use crate::db::reports_wf;
use crate::db::user_ref_ok;
use crate::db::usernames_distinct;
use crate::db::Database;
use crate::entities::check_amount;
use crate::entities::sum_expense_amounts;
use crate::entities::sum_order_amounts;
use crate::entities::Expense;
use crate::entities::Invoice;
use crate::entities::Order;
use crate::entities::Report;
use crate::entities::ReportView;
use crate::entities::Row;
use crate::entities::User;
use crate::entities::MAX_AMOUNT;
use crate::services::reports::lemma_expense_sum_bound;
use crate::services::reports::lemma_order_sum_bound;
use crate::table::find_by_id;
use crate::table::has_id;
use crate::table::ids_wf;
use vstd::prelude::*;

verus! {

/// Whether the keys of `rows` are positive, below `next_id` and distinct.
pub fn check_ids<R: Row>(rows: &Vec<R>, next_id: i32) -> (r: bool)
    ensures
        r == ids_wf(rows@, next_id as int),
{
    if next_id < 1 {
        return false;
    }
    let mut i: usize = 0;
    while i < rows.len()
        invariant
            i <= rows@.len(),
            1 <= next_id,
            forall|a: int| 0 <= a < i ==> 1 <= #[trigger] rows@[a].row_id() < next_id,
            forall|a: int, b: int|
                0 <= a < b < i ==> #[trigger] rows@[a].row_id() != #[trigger] rows@[b].row_id(),
        decreases rows@.len() - i,
    {
        let id: i32 = rows[i].id();
        if id < 1 || id >= next_id {
            return false;
        }
        let mut j: usize = 0;
        while j < i
            invariant
                j <= i,
                i < rows@.len(),
                id as int == rows@[i as int].row_id(),
                forall|a: int| 0 <= a < j ==> #[trigger] rows@[a].row_id() != id,
            decreases i - j,
        {
            if rows[j].id() == id {
                return false;
            }
            j += 1;
        }
        i += 1;
    }
    true
}

/// Whether no two users share a name.
pub fn check_usernames(users: &Vec<User>) -> (r: bool)
    ensures
        r == usernames_distinct(users@),
{
    let mut i: usize = 0;
    while i < users.len()
        invariant
            i <= users@.len(),
            forall|a: int, b: int|
                0 <= a < b < i ==> (#[trigger] users@[a]).username@ != (
                #[trigger] users@[b]).username@,
        decreases users@.len() - i,
    {
        let mut j: usize = 0;
        while j < i
            invariant
                j <= i,
                i < users@.len(),
                forall|a: int|
                    0 <= a < j ==> (#[trigger] users@[a]).username@ != users@[i as int].username@,
            decreases i - j,
        {
            if users[j].username == users[i].username {
                return false;
            }
            j += 1;
        }
        i += 1;
    }
    true
}

/// Whether a nullable reference to a user names a user of the table.
pub fn check_user_ref(users: &Vec<User>, user: Option<i32>) -> (r: bool)
    ensures
        r == user_ref_ok(users@, user),
{
    match user {
        Some(id) => find_by_id(users, id).is_some(),
        None => true,
    }
}

/// Whether every order is a valid row whose authors are users.
pub fn check_orders(orders: &Vec<Order>, users: &Vec<User>) -> (r: bool)
    ensures
        r == orders_wf(orders@, users@),
{
    let mut i: usize = 0;
    while i < orders.len()
        invariant
            i <= orders@.len(),
            orders_wf(orders@.take(i as int), users@),
        decreases orders@.len() - i,
    {
        let order = &orders[i];
        if !(order.order_date.check_valid() && check_amount(order.total_amount) && check_user_ref(
            users,
            order.created_by,
        ) && check_user_ref(users, order.modified_by)) {
            return false;
        }
        proof {
            let next = orders@.take(i + 1);
            assert forall|a: int| 0 <= a < next.len() implies {
                &&& (#[trigger] next[a]).wf()
                &&& user_ref_ok(users@, next[a].created_by)
                &&& user_ref_ok(users@, next[a].modified_by)
            } by {
                if a < i {
                    assert(next[a] == orders@.take(i as int)[a]);
                }
            }
        }
        i += 1;
    }
    proof {
        assert(orders@.take(orders@.len() as int) =~= orders@);
    }
    true
}

/// Whether every expense is a valid row whose authors are users.
pub fn check_expenses(expenses: &Vec<Expense>, users: &Vec<User>) -> (r: bool)
    ensures
        r == expenses_wf(expenses@, users@),
{
    let mut i: usize = 0;
    while i < expenses.len()
        invariant
            i <= expenses@.len(),
            expenses_wf(expenses@.take(i as int), users@),
        decreases expenses@.len() - i,
    {
        let expense = &expenses[i];
        if !(expense.expense_date.check_valid() && check_amount(expense.amount) && check_user_ref(
            users,
            expense.created_by,
        ) && check_user_ref(users, expense.modified_by)) {
            return false;
        }
        proof {
            let next = expenses@.take(i + 1);
            assert forall|a: int| 0 <= a < next.len() implies {
                &&& (#[trigger] next[a]).wf()
                &&& user_ref_ok(users@, next[a].created_by)
                &&& user_ref_ok(users@, next[a].modified_by)
            } by {
                if a < i {
                    assert(next[a] == expenses@.take(i as int)[a]);
                }
            }
        }
        i += 1;
    }
    proof {
        assert(expenses@.take(expenses@.len() as int) =~= expenses@);
    }
    true
}

/// Whether every invoice is a valid row that belongs to an order, and no
/// order has two invoices.
pub fn check_invoices(invoices: &Vec<Invoice>, orders: &Vec<Order>) -> (r: bool)
    ensures
        r == invoices_wf(invoices@, orders@),
{
    let mut i: usize = 0;
    while i < invoices.len()
        invariant
            i <= invoices@.len(),
            forall|a: int|
                0 <= a < i ==> (#[trigger] invoices@[a]).wf() && has_id(
                    orders@,
                    invoices@[a].order_id as int,
                ),
            forall|a: int, b: int|
                0 <= a < b < i ==> (#[trigger] invoices@[a]).order_id != (
                #[trigger] invoices@[b]).order_id,
        decreases invoices@.len() - i,
    {
        let invoice = &invoices[i];
        if !(invoice.invoice_date.check_valid() && check_amount(invoice.total_amount)
            && find_by_id(orders, invoice.order_id).is_some()) {
            return false;
        }
        let mut j: usize = 0;
        while j < i
            invariant
                j <= i,
                i < invoices@.len(),
                forall|a: int|
                    0 <= a < j ==> (#[trigger] invoices@[a]).order_id
                        != invoices@[i as int].order_id,
            decreases i - j,
        {
            if invoices[j].order_id == invoices[i].order_id {
                return false;
            }
            j += 1;
        }
        i += 1;
    }
    true
}

/// Whether every row of `orders` is valid and dated from `from` to `to`,
/// with the sum of the amounts where that is so.
pub fn check_snapshot_orders(orders: &Vec<Order>, from: Date, to: Date) -> (r: Option<i128>)
    ensures
        r is Some <==> forall|i: int|
            0 <= i < orders@.len() ==> (#[trigger] orders@[i]).wf()
                && orders@[i].order_date.spec_between(&from, &to),
        r matches Some(total) ==> total == sum_order_amounts(orders@),
{
    let mut total: i128 = 0;
    let mut i: usize = 0;
    while i < orders.len()
        invariant
            i <= orders@.len(),
            forall|a: int|
                0 <= a < i ==> (#[trigger] orders@[a]).wf() && orders@[a].order_date.spec_between(
                    &from,
                    &to,
                ),
            total == sum_order_amounts(orders@.take(i as int)),
        decreases orders@.len() - i,
    {
        let order = &orders[i];
        if !(order.order_date.check_valid() && check_amount(order.total_amount)
            && order.order_date.between(&from, &to)) {
            return None;
        }
        proof {
            let seen = orders@.take(i as int);
            assert forall|a: int| 0 <= a < seen.len() implies (#[trigger] seen[a]).wf() by {
                assert(seen[a] == orders@[a]);
            }
            lemma_order_sum_bound(seen);
            assert(seen.len() * MAX_AMOUNT <= usize::MAX * MAX_AMOUNT) by (nonlinear_arith)
                requires
                    seen.len() <= usize::MAX,
            ;
            assert(orders@.take(i + 1).drop_last() =~= seen);
        }
        total = total + order.total_amount as i128;
        i += 1;
    }
    proof {
        assert(orders@.take(orders@.len() as int) =~= orders@);
    }
    Some(total)
}

/// Whether every row of `expenses` is valid and dated from `from` to `to`,
/// with the sum of the amounts where that is so.
pub fn check_snapshot_expenses(expenses: &Vec<Expense>, from: Date, to: Date) -> (r: Option<i128>)
    ensures
        r is Some <==> forall|i: int|
            0 <= i < expenses@.len() ==> (#[trigger] expenses@[i]).wf()
                && expenses@[i].expense_date.spec_between(&from, &to),
        r matches Some(total) ==> total == sum_expense_amounts(expenses@),
{
    let mut total: i128 = 0;
    let mut i: usize = 0;
    while i < expenses.len()
        invariant
            i <= expenses@.len(),
            forall|a: int|
                0 <= a < i ==> (#[trigger] expenses@[a]).wf()
                    && expenses@[a].expense_date.spec_between(&from, &to),
            total == sum_expense_amounts(expenses@.take(i as int)),
        decreases expenses@.len() - i,
    {
        let expense = &expenses[i];
        if !(expense.expense_date.check_valid() && check_amount(expense.amount)
            && expense.expense_date.between(&from, &to)) {
            return None;
        }
        proof {
            let seen = expenses@.take(i as int);
            assert forall|a: int| 0 <= a < seen.len() implies (#[trigger] seen[a]).wf() by {
                assert(seen[a] == expenses@[a]);
            }
            lemma_expense_sum_bound(seen);
            assert(seen.len() * MAX_AMOUNT <= usize::MAX * MAX_AMOUNT) by (nonlinear_arith)
                requires
                    seen.len() <= usize::MAX,
            ;
            assert(expenses@.take(i + 1).drop_last() =~= seen);
        }
        total = total + expense.amount as i128;
        i += 1;
    }
    proof {
        assert(expenses@.take(expenses@.len() as int) =~= expenses@);
    }
    Some(total)
}

/// Whether the figures of `report` are those of its own snapshot.
pub fn check_report(report: &Report) -> (r: bool)
    ensures
        r == report@.wf(),
{
    if !report.month.check_valid() || report.month.day != 1 {
        return false;
    }
    let end_of_month = report.month.last_day_of_month();
    let income = match check_snapshot_orders(
        &report.daily_data.orders,
        report.month,
        end_of_month,
    ) {
        Some(total) => total,
        None => {
            return false;
        },
    };
    let expenses = match check_snapshot_expenses(
        &report.daily_data.expenses,
        report.month,
        end_of_month,
    ) {
        Some(total) => total,
        None => {
            return false;
        },
    };
    let order_count: usize = report.daily_data.orders.len();
    let expense_count: usize = report.daily_data.expenses.len();
    proof {
        lemma_order_sum_bound(report.daily_data.orders@);
        lemma_expense_sum_bound(report.daily_data.expenses@);
        assert(expense_count == report.daily_data.expenses@.len());
        assert(report.daily_data.orders@.len() * MAX_AMOUNT <= usize::MAX * MAX_AMOUNT)
            by (nonlinear_arith)
            requires
                report.daily_data.orders@.len() <= usize::MAX,
        ;
        assert(report.daily_data.expenses@.len() * MAX_AMOUNT <= usize::MAX * MAX_AMOUNT)
            by (nonlinear_arith)
            requires
                report.daily_data.expenses@.len() <= usize::MAX,
        ;
    }
    report.total_orders >= 0 && report.total_orders as usize == order_count
        && report.total_income == income && report.total_expenses == expenses
        && report.net_profit == income - expenses
}

/// Whether every report agrees with its snapshot and no month has two
/// reports.
pub fn check_reports(reports: &Vec<Report>) -> (r: bool)
    ensures
        r == reports_wf(reports@),
{
    let mut i: usize = 0;
    while i < reports.len()
        invariant
            i <= reports@.len(),
            forall|a: int| 0 <= a < i ==> (#[trigger] reports@[a])@.wf(),
            forall|a: int, b: int|
                0 <= a < b < i ==> (#[trigger] reports@[a]).month != (#[trigger] reports@[b]).month,
        decreases reports@.len() - i,
    {
        if !check_report(&reports[i]) {
            return false;
        }
        let mut j: usize = 0;
        while j < i
            invariant
                j <= i,
                i < reports@.len(),
                forall|a: int|
                    0 <= a < j ==> (#[trigger] reports@[a]).month != reports@[i as int].month,
            decreases i - j,
        {
            if reports[j].month == reports[i].month {
                assert(!reports_distinct(reports@));
                return false;
            }
            j += 1;
        }
        i += 1;
    }
    true
}

impl Database {
    /// Whether this store meets the constraints of the schema.
    pub fn check_wf(&self) -> (r: bool)
        ensures
            r == self.wf(),
    {
        check_ids(&self.users, self.next_user_id) && check_ids(&self.orders, self.next_order_id)
            && check_ids(&self.invoices, self.next_invoice_id) && check_ids(
            &self.expenses,
            self.next_expense_id,
        ) && check_ids(&self.reports, self.next_report_id) && check_ids(
            &self.registration_code_resets,
            self.next_reset_id,
        ) && check_usernames(&self.users) && check_orders(&self.orders, &self.users)
            && check_invoices(&self.invoices, &self.orders) && check_expenses(
            &self.expenses,
            &self.users,
        ) && check_reports(&self.reports)
    }
}

/// The report at position `j` is the one that counts for its month: every
/// other report of that month was generated before it, or in the same
/// second and stands before it in the table.
pub open spec fn supersedes_its_month(reports: Seq<Report>, j: int) -> bool {
    forall|k: int|
        0 <= k < reports.len() && k != j && (#[trigger] reports[k]).month == reports[j].month
            ==> reports[k].generated_at < reports[j].generated_at || (reports[k].generated_at
            == reports[j].generated_at && k < j)
}

/// What the reports say that count for their months, among the first `n`
/// of the table and in table order.
pub open spec fn latest_reports(reports: Seq<Report>, n: int) -> Seq<ReportView>
    decreases n,
{
    if n <= 0 {
        Seq::empty()
    } else if supersedes_its_month(reports, n - 1) {
        latest_reports(reports, n - 1).push(reports[n - 1]@)
    } else {
        latest_reports(reports, n - 1)
    }
}

/// What the reports of a table say, one for one.
pub open spec fn report_views(reports: Seq<Report>) -> Seq<ReportView> {
    Seq::new(reports.len(), |i: int| reports[i]@)
}

/// Whether the report at position `j` counts for its month.
pub fn is_latest_of_month(reports: &Vec<Report>, j: usize) -> (r: bool)
    requires
        j < reports@.len(),
    ensures
        r == supersedes_its_month(reports@, j as int),
{
    let mut k: usize = 0;
    while k < reports.len()
        invariant
            k <= reports@.len(),
            j < reports@.len(),
            forall|i: int|
                0 <= i < k && i != j && (#[trigger] reports@[i]).month == reports@[j as int].month
                    ==> reports@[i].generated_at < reports@[j as int].generated_at || (
                reports@[i].generated_at == reports@[j as int].generated_at && i < j),
        decreases reports@.len() - k,
    {
        if k != j && reports[k].month == reports[j].month {
            let earlier = reports[k].generated_at < reports[j].generated_at || (
            reports[k].generated_at == reports[j].generated_at && k < j);
            if !earlier {
                return false;
            }
        }
        k += 1;
    }
    true
}

/// Of the reports of each month, the one that was generated last, in table
/// order: a table that was filled with a new row at every generation
/// becomes one with a single report for each month. Of two reports of a
/// month that were generated in the same second, the later row counts.
pub fn supersede_reports(reports: &Vec<Report>) -> (kept: Vec<Report>)
    ensures
        report_views(kept@) == latest_reports(reports@, reports@.len() as int),
        reports_distinct(kept@),
{
    let mut kept: Vec<Report> = Vec::new();
    let ghost mut sources: Seq<int> = Seq::empty();
    let mut j: usize = 0;
    proof {
        assert(report_views(kept@) =~= latest_reports(reports@, 0));
    }
    while j < reports.len()
        invariant
            j <= reports@.len(),
            report_views(kept@) == latest_reports(reports@, j as int),
            sources.len() == kept@.len(),
            forall|i: int|
                0 <= i < sources.len() ==> 0 <= #[trigger] sources[i] < j && supersedes_its_month(
                    reports@,
                    sources[i],
                ) && kept@[i]@ == reports@[sources[i]]@,
            forall|a: int, b: int| 0 <= a < b < sources.len() ==> sources[a] < sources[b],
        decreases reports@.len() - j,
    {
        if is_latest_of_month(reports, j) {
            let ghost before = kept@;
            kept.push(reports[j].clone());
            proof {
                sources = sources.push(j as int);
                assert(report_views(kept@) =~= report_views(before).push(reports@[j as int]@));
            }
        }
        j += 1;
    }
    proof {
        assert forall|a: int, b: int| 0 <= a < b < kept@.len() implies (#[trigger] kept@[a]).month
            != (#[trigger] kept@[b]).month by {
            let ja = sources[a];
            let jb = sources[b];
            assert(kept@[a]@ == reports@[ja]@);
            assert(kept@[b]@ == reports@[jb]@);
            if kept@[a].month == kept@[b].month {
                assert(reports@[ja].month == reports@[jb].month);
                assert(supersedes_its_month(reports@, ja));
                assert(supersedes_its_month(reports@, jb));
            }
        }
    }
    kept
}

} // verus!
