//! The entity store: the relational tables as sequences of rows, the
//! constraints that hold between them, and the operations on single tables
//! that keep those constraints.

use crate::date::Date;
use crate::entities::Expense;
use crate::entities::Invoice;
use crate::entities::Order;
use crate::entities::RegistrationCode;
use crate::entities::RegistrationCodeReset;
use crate::entities::Report;
use crate::entities::ReportView;
use crate::entities::User;
use crate::entities::amount_in_range;
use crate::errors::AppError;
use crate::table::has_id;
use crate::table::ids_wf;
use crate::table::lemma_has_id_push;
use crate::table::lemma_ids_push;
use crate::table::lemma_ids_remove;
use crate::table::lemma_ids_update;
use crate::table::lemma_remove_is_without_id;
use crate::table::without_id;
use vstd::prelude::*;

verus! {

/// A nullable reference to a user names a user of the table.
pub open spec fn user_ref_ok(users: Seq<User>, user: Option<i32>) -> bool {
    user matches Some(id) ==> has_id(users, id as int)
}

/// No two users share a name.
pub open spec fn usernames_distinct(users: Seq<User>) -> bool {
    forall|i: int, j: int|
        0 <= i < j < users.len() ==> (#[trigger] users[i]).username@ != (
        #[trigger] users[j]).username@
}

/// Some user of the table is called `username`.
pub open spec fn has_username(users: Seq<User>, username: Seq<char>) -> bool {
    exists|i: int| 0 <= i < users.len() && (#[trigger] users[i]).username@ == username
}

/// The position of the user called `username`, where the table has one.
pub open spec fn username_index(users: Seq<User>, username: Seq<char>) -> int {
    choose|i: int| 0 <= i < users.len() && (#[trigger] users[i]).username@ == username
}

/// Every order is a valid row whose authors are users of the table.
pub open spec fn orders_wf(orders: Seq<Order>, users: Seq<User>) -> bool {
    forall|i: int|
        0 <= i < orders.len() ==> {
            &&& (#[trigger] orders[i]).wf()
            &&& user_ref_ok(users, orders[i].created_by)
            &&& user_ref_ok(users, orders[i].modified_by)
        }
}

/// Every expense is a valid row whose authors are users of the table.
pub open spec fn expenses_wf(expenses: Seq<Expense>, users: Seq<User>) -> bool {
    forall|i: int|
        0 <= i < expenses.len() ==> {
            &&& (#[trigger] expenses[i]).wf()
            &&& user_ref_ok(users, expenses[i].created_by)
            &&& user_ref_ok(users, expenses[i].modified_by)
        }
}

/// Some invoice of the table belongs to the order `order_id`.
pub open spec fn has_invoice_of(invoices: Seq<Invoice>, order_id: int) -> bool {
    exists|i: int| 0 <= i < invoices.len() && (#[trigger] invoices[i]).order_id == order_id
}

/// The test that an invoice carries the transaction identifier
/// `transaction_id`.
pub open spec fn with_transaction_id(transaction_id: Seq<char>) -> spec_fn(Invoice) -> bool {
    |invoice: Invoice| invoice.transaction_id@ == transaction_id
}

/// Some invoice of the table carries the transaction identifier
/// `transaction_id`.
pub open spec fn has_transaction_id(invoices: Seq<Invoice>, transaction_id: Seq<char>) -> bool {
    exists|i: int|
        0 <= i < invoices.len() && (#[trigger] invoices[i]).transaction_id@ == transaction_id
}

/// Every invoice is a valid row that belongs to an order of the table, and
/// no order has two invoices.
pub open spec fn invoices_wf(invoices: Seq<Invoice>, orders: Seq<Order>) -> bool {
    &&& forall|i: int|
        0 <= i < invoices.len() ==> (#[trigger] invoices[i]).wf() && has_id(
            orders,
            invoices[i].order_id as int,
        )
    &&& forall|i: int, j: int|
        0 <= i < j < invoices.len() ==> (#[trigger] invoices[i]).order_id != (
        #[trigger] invoices[j]).order_id
}

/// Some report of the table is for `month`.
pub open spec fn has_report_of(reports: Seq<Report>, month: Date) -> bool {
    exists|i: int| 0 <= i < reports.len() && (#[trigger] reports[i]).month == month
}

/// No month has two reports.
pub open spec fn reports_distinct(reports: Seq<Report>) -> bool {
    forall|i: int, j: int|
        0 <= i < j < reports.len() ==> (#[trigger] reports[i]).month != (
        #[trigger] reports[j]).month
}

/// Every report agrees with its own snapshot, and no month has two reports.
pub open spec fn reports_wf(reports: Seq<Report>) -> bool {
    &&& forall|i: int| 0 <= i < reports.len() ==> (#[trigger] reports[i])@.wf()
    &&& reports_distinct(reports)
}

/// The test that an invoice belongs to another order than `order_id`.
pub open spec fn of_other_order(order_id: i32) -> spec_fn(Invoice) -> bool {
    |invoice: Invoice| invoice.order_id != order_id
}

/// The invoices that remain once those of the order `order_id` are gone.
pub open spec fn invoices_without_order(invoices: Seq<Invoice>, order_id: i32) -> Seq<Invoice> {
    invoices.filter(of_other_order(order_id))
}

/// The position of the invoice of the order `order_id`, where it has one.
pub open spec fn invoice_index(invoices: Seq<Invoice>, order_id: int) -> int {
    choose|i: int| 0 <= i < invoices.len() && (#[trigger] invoices[i]).order_id == order_id
}

/// The position of the report for `month`, where the table has one.
pub open spec fn report_index(reports: Seq<Report>, month: Date) -> int {
    choose|i: int| 0 <= i < reports.len() && (#[trigger] reports[i]).month == month
}

/// The key of the report that `month` has, or the key that a new report
/// will get.
pub open spec fn report_id_for(reports: Seq<Report>, next_id: i32, month: Date) -> i32 {
    if has_report_of(reports, month) {
        reports[report_index(reports, month)].report_id
    } else {
        next_id
    }
}

/// `after` is `before` with `stored` as the one report of its month: in the
/// place of the report that the month had, or appended where it had none.
/// Every other report keeps its place.
pub open spec fn reports_upserted(
    before: Seq<Report>,
    after: Seq<Report>,
    stored: ReportView,
) -> bool {
    if has_report_of(before, stored.month) {
        &&& after.len() == before.len()
        &&& after[report_index(before, stored.month)]@ == stored
        &&& forall|j: int|
            0 <= j < before.len() && j != report_index(before, stored.month) ==> #[trigger] after[j]
                == before[j]
    } else {
        &&& after.len() == before.len() + 1
        &&& after[before.len() as int]@ == stored
        &&& forall|j: int| 0 <= j < before.len() ==> #[trigger] after[j] == before[j]
    }
}

/// The tables of the store, each with the key that its next row will get.
#[derive(Debug)]
pub struct Database {
    pub users: Vec<User>,
    pub orders: Vec<Order>,
    pub invoices: Vec<Invoice>,
    pub expenses: Vec<Expense>,
    pub reports: Vec<Report>,
    pub registration_code: Option<RegistrationCode>,
    pub registration_code_resets: Vec<RegistrationCodeReset>,
    pub next_user_id: i32,
    pub next_order_id: i32,
    pub next_invoice_id: i32,
    pub next_expense_id: i32,
    pub next_report_id: i32,
    pub next_reset_id: i32,
}

impl Database {
    /// The constraints of the schema: primary keys are unique, user names
    /// are unique, every reference names an existing row, an order has at
    /// most one invoice and a month at most one report, and every row is
    /// valid by itself.
    pub open spec fn wf(&self) -> bool {
        &&& ids_wf(self.users@, self.next_user_id as int)
        &&& ids_wf(self.orders@, self.next_order_id as int)
        &&& ids_wf(self.invoices@, self.next_invoice_id as int)
        &&& ids_wf(self.expenses@, self.next_expense_id as int)
        &&& ids_wf(self.reports@, self.next_report_id as int)
        &&& ids_wf(self.registration_code_resets@, self.next_reset_id as int)
        &&& usernames_distinct(self.users@)
        &&& orders_wf(self.orders@, self.users@)
        &&& invoices_wf(self.invoices@, self.orders@)
        &&& expenses_wf(self.expenses@, self.users@)
        &&& reports_wf(self.reports@)
    }

    /// A store with empty tables and no registration code.
    pub fn new() -> (db: Database)
        ensures
            db.wf(),
            db.users@.len() == 0,
            db.orders@.len() == 0,
            db.invoices@.len() == 0,
            db.expenses@.len() == 0,
            db.reports@.len() == 0,
            db.registration_code is None,
            db.registration_code_resets@.len() == 0,
            db.next_user_id == 1,
            db.next_order_id == 1,
            db.next_invoice_id == 1,
            db.next_expense_id == 1,
            db.next_report_id == 1,
            db.next_reset_id == 1,
    {
        Database {
            users: Vec::new(),
            orders: Vec::new(),
            invoices: Vec::new(),
            expenses: Vec::new(),
            reports: Vec::new(),
            registration_code: None,
            registration_code_resets: Vec::new(),
            next_user_id: 1,
            next_order_id: 1,
            next_invoice_id: 1,
            next_expense_id: 1,
            next_report_id: 1,
            next_reset_id: 1,
        }
    }

    /// Appends an order under the next key. Fails, and changes nothing,
    /// where the keys are used up.
    pub fn insert_order(
        &mut self,
        patient_name: String,
        order_date: Date,
        total_amount: i64,
        description: String,
        created_by: Option<i32>,
    ) -> (r: Result<Order, AppError>)
        requires
            old(self).wf(),
            order_date.is_valid(),
            amount_in_range(total_amount),
            user_ref_ok(old(self).users@, created_by),
        ensures
            final(self).wf(),
            old(self).next_order_id < i32::MAX <==> r is Ok,
            r matches Ok(row) ==> {
                &&& row == (Order {
                    order_id: old(self).next_order_id,
                    patient_name,
                    order_date,
                    total_amount,
                    description,
                    created_by,
                    modified_by: None,
                })
                &&& final(self).orders@ == old(self).orders@.push(row)
                &&& *final(self) == (Database {
                    orders: final(self).orders,
                    next_order_id: (old(self).next_order_id + 1) as i32,
                    ..*old(self)
                })
            },
            r matches Err(e) ==> e.is_db_error("order keys are used up"@) && *final(self) == *old(
                self,
            ),
    {
        if self.next_order_id == i32::MAX {
            return Err(AppError::db_error("order keys are used up"));
        }
        let row = Order {
            order_id: self.next_order_id,
            patient_name,
            order_date,
            total_amount,
            description,
            created_by,
            modified_by: None,
        };
        let stored = row.clone();
        proof {
            lemma_ids_push(self.orders@, self.next_order_id as int, stored);
            assert forall|i: int| 0 <= i < self.invoices@.len() implies has_id(
                self.orders@.push(stored),
                (#[trigger] self.invoices@[i]).order_id as int,
            ) by {
                lemma_has_id_push(self.orders@, stored, self.invoices@[i].order_id as int);
            }
        }
        self.orders.push(stored);
        self.next_order_id = self.next_order_id + 1;
        Ok(row)
    }

    /// Puts `row` in the place of the order at position `k`, which has the
    /// same key.
    pub fn replace_order(&mut self, k: usize, row: Order)
        requires
            old(self).wf(),
            k < old(self).orders@.len(),
            row.order_id == old(self).orders@[k as int].order_id,
            row.wf(),
            user_ref_ok(old(self).users@, row.created_by),
            user_ref_ok(old(self).users@, row.modified_by),
        ensures
            final(self).wf(),
            final(self).orders@ == old(self).orders@.update(k as int, row),
            *final(self) == (Database { orders: final(self).orders, ..*old(self) }),
    {
        proof {
            lemma_ids_update(self.orders@, self.next_order_id as int, k as int, row);
        }
        self.orders.set(k, row);
    }

    /// Takes out the order at position `k` and, with it, its invoice.
    pub fn delete_order(&mut self, k: usize)
        requires
            old(self).wf(),
            k < old(self).orders@.len(),
        ensures
            final(self).wf(),
            final(self).orders@ == old(self).orders@.remove(k as int),
            final(self).orders@ == without_id(
                old(self).orders@,
                old(self).orders@[k as int].order_id as int,
            ),
            final(self).invoices@ == invoices_without_order(
                old(self).invoices@,
                old(self).orders@[k as int].order_id,
            ),
            !has_id(final(self).orders@, old(self).orders@[k as int].order_id as int),
            !has_invoice_of(final(self).invoices@, old(self).orders@[k as int].order_id as int),
            *final(self) == (Database {
                orders: final(self).orders,
                invoices: final(self).invoices,
                ..*old(self)
            }),
    {
        let order_id: i32 = self.orders[k].order_id;
        let ghost kept = of_other_order(order_id);
        let ghost orders_before = self.orders@;
        let ghost invoices_before = self.invoices@;
        proof {
            lemma_ids_remove(orders_before, self.next_order_id as int, k as int);
            lemma_remove_is_without_id(orders_before, self.next_order_id as int, k as int);
        }
        let found = self.find_invoice_by_order(order_id);
        self.orders.remove(k);
        assert forall|i: int| 0 <= i < self.orders@.len() implies {
            &&& (#[trigger] self.orders@[i]).wf()
            &&& user_ref_ok(self.users@, self.orders@[i].created_by)
            &&& user_ref_ok(self.users@, self.orders@[i].modified_by)
        } by {
            let oi = if i < k { i } else { i + 1 };
            assert(self.orders@[i] == orders_before[oi]);
        }
        match found {
            Some(j) => {
                proof {
                    assert forall|i: int|
                        0 <= i < invoices_before.len() && i != j implies kept(
                        #[trigger] invoices_before[i],
                    ) by {
                        if i < j {
                            assert(invoices_before[i].order_id
                                != invoices_before[j as int].order_id);
                        } else {
                            assert(invoices_before[j as int].order_id
                                != invoices_before[i].order_id);
                        }
                    }
                    crate::table::lemma_filter_removes_one(invoices_before, kept, j as int);
                    lemma_ids_remove(invoices_before, self.next_invoice_id as int, j as int);
                }
                self.invoices.remove(j);
                proof {
                    assert forall|i: int| 0 <= i < self.invoices@.len() implies (
                    #[trigger] self.invoices@[i]).order_id != order_id && self.invoices@[i].wf()
                        && has_id(self.orders@, self.invoices@[i].order_id as int) by {
                        let oi = if i < j { i } else { i + 1 };
                        assert(self.invoices@[i] == invoices_before[oi]);
                        assert(kept(invoices_before[oi]));
                    }
                    assert forall|a: int, b: int| 0 <= a < b < self.invoices@.len() implies (
                    #[trigger] self.invoices@[a]).order_id != (
                    #[trigger] self.invoices@[b]).order_id by {
                        let oa = if a < j { a } else { a + 1 };
                        let ob = if b < j { b } else { b + 1 };
                        assert(self.invoices@[a] == invoices_before[oa]);
                        assert(self.invoices@[b] == invoices_before[ob]);
                    }
                }
            },
            None => {
                proof {
                    assert forall|i: int| 0 <= i < invoices_before.len() implies kept(
                        #[trigger] invoices_before[i],
                    ) by {}
                    crate::table::lemma_filter_keeps_all(invoices_before, kept);
                    assert forall|i: int| 0 <= i < self.invoices@.len() implies has_id(
                        self.orders@,
                        (#[trigger] self.invoices@[i]).order_id as int,
                    ) by {
                        assert(kept(invoices_before[i]));
                    }
                }
            },
        }
    }

    /// The position of the invoice of the order `order_id`, or `None` where
    /// the order has none.
    pub fn find_invoice_by_order(&self, order_id: i32) -> (r: Option<usize>)
        ensures
            match r {
                Some(k) => k < self.invoices@.len() && self.invoices@[k as int].order_id
                    == order_id,
                None => !has_invoice_of(self.invoices@, order_id as int),
            },
            self.wf() ==> (r matches Some(k) ==> k == invoice_index(
                self.invoices@,
                order_id as int,
            )),
    {
        let mut i: usize = 0;
        while i < self.invoices.len()
            invariant
                i <= self.invoices@.len(),
                forall|j: int| 0 <= j < i ==> (#[trigger] self.invoices@[j]).order_id != order_id,
            decreases self.invoices@.len() - i,
        {
            if self.invoices[i].order_id == order_id {
                proof {
                    if self.wf() {
                        let c = invoice_index(self.invoices@, order_id as int);
                        assert(self.invoices@[i as int].order_id == order_id);
                        if c < i {
                            assert(self.invoices@[c].order_id != self.invoices@[i as int].order_id);
                        } else if i < c {
                            assert(self.invoices@[i as int].order_id != self.invoices@[c].order_id);
                        }
                    }
                }
                return Some(i);
            }
            i += 1;
        }
        None
    }

    /// The position of an invoice that carries the transaction identifier
    /// `transaction_id`, or `None` where no invoice carries it.
    pub fn find_invoice_by_transaction_id(&self, transaction_id: &String) -> (r: Option<usize>)
        ensures
            match r {
                Some(k) => k < self.invoices@.len() && self.invoices@[k as int].transaction_id@
                    == transaction_id@,
                None => !has_transaction_id(self.invoices@, transaction_id@),
            },
    {
        let mut i: usize = 0;
        while i < self.invoices.len()
            invariant
                i <= self.invoices@.len(),
                forall|j: int|
                    0 <= j < i ==> (#[trigger] self.invoices@[j]).transaction_id@
                        != transaction_id@,
            decreases self.invoices@.len() - i,
        {
            if self.invoices[i].transaction_id == *transaction_id {
                return Some(i);
            }
            i += 1;
        }
        None
    }

    /// Appends an invoice for an order that has none yet, under the next
    /// key. Fails, and changes nothing, where the keys are used up.
    pub fn insert_invoice(
        &mut self,
        order_id: i32,
        transaction_id: String,
        invoice_date: Date,
        total_amount: i64,
        description: String,
    ) -> (r: Result<Invoice, AppError>)
        requires
            old(self).wf(),
            has_id(old(self).orders@, order_id as int),
            !has_invoice_of(old(self).invoices@, order_id as int),
            invoice_date.is_valid(),
            amount_in_range(total_amount),
        ensures
            final(self).wf(),
            old(self).next_invoice_id < i32::MAX <==> r is Ok,
            r matches Ok(row) ==> {
                &&& row == (Invoice {
                    invoice_id: old(self).next_invoice_id,
                    order_id,
                    transaction_id,
                    invoice_date,
                    total_amount,
                    description,
                })
                &&& final(self).invoices@ == old(self).invoices@.push(row)
                &&& *final(self) == (Database {
                    invoices: final(self).invoices,
                    next_invoice_id: (old(self).next_invoice_id + 1) as i32,
                    ..*old(self)
                })
            },
            r matches Err(e) ==> e.is_db_error("invoice keys are used up"@) && *final(self)
                == *old(self),
    {
        if self.next_invoice_id == i32::MAX {
            return Err(AppError::db_error("invoice keys are used up"));
        }
        let row = Invoice {
            invoice_id: self.next_invoice_id,
            order_id,
            transaction_id,
            invoice_date,
            total_amount,
            description,
        };
        let stored = row.clone();
        proof {
            lemma_ids_push(self.invoices@, self.next_invoice_id as int, stored);
        }
        self.invoices.push(stored);
        self.next_invoice_id = self.next_invoice_id + 1;
        Ok(row)
    }

    /// Puts `row` in the place of the invoice at position `k`, which has the
    /// same key and belongs to the same order.
    pub fn replace_invoice(&mut self, k: usize, row: Invoice)
        requires
            old(self).wf(),
            k < old(self).invoices@.len(),
            row.invoice_id == old(self).invoices@[k as int].invoice_id,
            row.order_id == old(self).invoices@[k as int].order_id,
            row.wf(),
        ensures
            final(self).wf(),
            final(self).invoices@ == old(self).invoices@.update(k as int, row),
            *final(self) == (Database { invoices: final(self).invoices, ..*old(self) }),
    {
        proof {
            lemma_ids_update(self.invoices@, self.next_invoice_id as int, k as int, row);
        }
        self.invoices.set(k, row);
    }

    /// Takes out the invoice at position `k`.
    pub fn delete_invoice(&mut self, k: usize)
        requires
            old(self).wf(),
            k < old(self).invoices@.len(),
        ensures
            final(self).wf(),
            final(self).invoices@ == old(self).invoices@.remove(k as int),
            final(self).invoices@ == without_id(
                old(self).invoices@,
                old(self).invoices@[k as int].invoice_id as int,
            ),
            !has_id(final(self).invoices@, old(self).invoices@[k as int].invoice_id as int),
            *final(self) == (Database { invoices: final(self).invoices, ..*old(self) }),
    {
        let ghost before = self.invoices@;
        proof {
            lemma_ids_remove(before, self.next_invoice_id as int, k as int);
            lemma_remove_is_without_id(before, self.next_invoice_id as int, k as int);
        }
        self.invoices.remove(k);
        proof {
            assert forall|i: int| 0 <= i < self.invoices@.len() implies (
            #[trigger] self.invoices@[i]).wf() && has_id(
                self.orders@,
                self.invoices@[i].order_id as int,
            ) by {
                let oi = if i < k { i } else { i + 1 };
                assert(self.invoices@[i] == before[oi]);
            }
            assert forall|a: int, b: int| 0 <= a < b < self.invoices@.len() implies (
            #[trigger] self.invoices@[a]).order_id != (#[trigger] self.invoices@[b]).order_id by {
                let oa = if a < k { a } else { a + 1 };
                let ob = if b < k { b } else { b + 1 };
                assert(self.invoices@[a] == before[oa]);
                assert(self.invoices@[b] == before[ob]);
            }
        }
    }

    /// Appends an expense under the next key. Fails, and changes nothing,
    /// where the keys are used up.
    pub fn insert_expense(
        &mut self,
        description: String,
        label: String,
        amount: i64,
        expense_date: Date,
        created_by: Option<i32>,
        modified_by: Option<i32>,
    ) -> (r: Result<Expense, AppError>)
        requires
            old(self).wf(),
            expense_date.is_valid(),
            amount_in_range(amount),
            user_ref_ok(old(self).users@, created_by),
            user_ref_ok(old(self).users@, modified_by),
        ensures
            final(self).wf(),
            old(self).next_expense_id < i32::MAX <==> r is Ok,
            r matches Ok(row) ==> {
                &&& row == (Expense {
                    expense_id: old(self).next_expense_id,
                    description,
                    label,
                    amount,
                    expense_date,
                    created_by,
                    modified_by,
                })
                &&& final(self).expenses@ == old(self).expenses@.push(row)
                &&& *final(self) == (Database {
                    expenses: final(self).expenses,
                    next_expense_id: (old(self).next_expense_id + 1) as i32,
                    ..*old(self)
                })
            },
            r matches Err(e) ==> e.is_db_error("expense keys are used up"@) && *final(self)
                == *old(self),
    {
        if self.next_expense_id == i32::MAX {
            return Err(AppError::db_error("expense keys are used up"));
        }
        let row = Expense {
            expense_id: self.next_expense_id,
            description,
            label,
            amount,
            expense_date,
            created_by,
            modified_by,
        };
        let stored = row.clone();
        proof {
            lemma_ids_push(self.expenses@, self.next_expense_id as int, stored);
        }
        self.expenses.push(stored);
        self.next_expense_id = self.next_expense_id + 1;
        Ok(row)
    }

    /// Puts `row` in the place of the expense at position `k`, which has the
    /// same key.
    pub fn replace_expense(&mut self, k: usize, row: Expense)
        requires
            old(self).wf(),
            k < old(self).expenses@.len(),
            row.expense_id == old(self).expenses@[k as int].expense_id,
            row.wf(),
            user_ref_ok(old(self).users@, row.created_by),
            user_ref_ok(old(self).users@, row.modified_by),
        ensures
            final(self).wf(),
            final(self).expenses@ == old(self).expenses@.update(k as int, row),
            *final(self) == (Database { expenses: final(self).expenses, ..*old(self) }),
    {
        proof {
            lemma_ids_update(self.expenses@, self.next_expense_id as int, k as int, row);
        }
        self.expenses.set(k, row);
    }

    /// Takes out the expense at position `k`.
    pub fn delete_expense(&mut self, k: usize)
        requires
            old(self).wf(),
            k < old(self).expenses@.len(),
        ensures
            final(self).wf(),
            final(self).expenses@ == old(self).expenses@.remove(k as int),
            final(self).expenses@ == without_id(
                old(self).expenses@,
                old(self).expenses@[k as int].expense_id as int,
            ),
            !has_id(final(self).expenses@, old(self).expenses@[k as int].expense_id as int),
            *final(self) == (Database { expenses: final(self).expenses, ..*old(self) }),
    {
        let ghost before = self.expenses@;
        proof {
            lemma_ids_remove(before, self.next_expense_id as int, k as int);
            lemma_remove_is_without_id(before, self.next_expense_id as int, k as int);
        }
        self.expenses.remove(k);
        proof {
            assert forall|i: int| 0 <= i < self.expenses@.len() implies {
                &&& (#[trigger] self.expenses@[i]).wf()
                &&& user_ref_ok(self.users@, self.expenses@[i].created_by)
                &&& user_ref_ok(self.users@, self.expenses@[i].modified_by)
            } by {
                let oi = if i < k { i } else { i + 1 };
                assert(self.expenses@[i] == before[oi]);
            }
        }
    }

    /// The position of the report for `month`, or `None` where the month
    /// has none.
    pub fn find_report_by_month(&self, month: Date) -> (r: Option<usize>)
        ensures
            match r {
                Some(k) => k < self.reports@.len() && self.reports@[k as int].month == month,
                None => !has_report_of(self.reports@, month),
            },
            self.wf() ==> (r matches Some(k) ==> k == report_index(self.reports@, month)),
    {
        let mut i: usize = 0;
        while i < self.reports.len()
            invariant
                i <= self.reports@.len(),
                forall|j: int| 0 <= j < i ==> (#[trigger] self.reports@[j]).month != month,
            decreases self.reports@.len() - i,
        {
            if self.reports[i].month == month {
                proof {
                    if self.wf() {
                        let c = report_index(self.reports@, month);
                        assert(self.reports@[c].month == month);
                        if c < i {
                            assert(self.reports@[c].month != self.reports@[i as int].month);
                        } else if i < c {
                            assert(self.reports@[i as int].month != self.reports@[c].month);
                        }
                    }
                }
                return Some(i);
            }
            i += 1;
        }
        None
    }

    /// Stores `row` as the one report of its month: over the report that
    /// the month has, whose key it takes, or as a new row under the next
    /// key. Fails, and changes nothing, where a new row is needed and the
    /// keys are used up. The key that `row` comes with is not used.
    pub fn upsert_report(&mut self, row: Report) -> (r: Result<Report, AppError>)
        requires
            old(self).wf(),
            row@.wf(),
        ensures
            final(self).wf(),
            r is Ok <==> has_report_of(old(self).reports@, row.month) || old(self).next_report_id
                < i32::MAX,
            r matches Ok(stored) ==> {
                &&& stored@ == (ReportView {
                    report_id: report_id_for(
                        old(self).reports@,
                        old(self).next_report_id,
                        row.month,
                    ),
                    ..row@
                })
                &&& reports_upserted(old(self).reports@, final(self).reports@, stored@)
                &&& *final(self) == (Database {
                    reports: final(self).reports,
                    next_report_id: if has_report_of(old(self).reports@, row.month) {
                        old(self).next_report_id
                    } else {
                        (old(self).next_report_id + 1) as i32
                    },
                    ..*old(self)
                })
            },
            r matches Err(e) ==> e.is_db_error("report keys are used up"@) && *final(self)
                == *old(self),
    {
        match self.find_report_by_month(row.month) {
            Some(k) => {
                let kept = Report {
                    report_id: self.reports[k].report_id,
                    month: row.month,
                    total_orders: row.total_orders,
                    total_income: row.total_income,
                    total_expenses: row.total_expenses,
                    net_profit: row.net_profit,
                    generated_at: row.generated_at,
                    daily_data: row.daily_data,
                };
                let stored = kept.clone();
                let ghost before = self.reports@;
                proof {
                    lemma_ids_update(before, self.next_report_id as int, k as int, kept);
                }
                self.reports.set(k, kept);
                proof {
                    assert forall|a: int, b: int| 0 <= a < b < self.reports@.len() implies (
                    #[trigger] self.reports@[a]).month != (#[trigger] self.reports@[b]).month by {
                        assert(self.reports@[a].month == before[a].month);
                        assert(self.reports@[b].month == before[b].month);
                    }
                    assert(reports_upserted(before, self.reports@, kept@));
                }
                Ok(stored)
            },
            None => {
                if self.next_report_id == i32::MAX {
                    return Err(AppError::db_error("report keys are used up"));
                }
                let kept = Report {
                    report_id: self.next_report_id,
                    month: row.month,
                    total_orders: row.total_orders,
                    total_income: row.total_income,
                    total_expenses: row.total_expenses,
                    net_profit: row.net_profit,
                    generated_at: row.generated_at,
                    daily_data: row.daily_data,
                };
                let stored = kept.clone();
                let ghost before = self.reports@;
                proof {
                    lemma_ids_push(before, self.next_report_id as int, kept);
                }
                self.reports.push(kept);
                self.next_report_id = self.next_report_id + 1;
                proof {
                    assert forall|a: int, b: int| 0 <= a < b < self.reports@.len() implies (
                    #[trigger] self.reports@[a]).month != (#[trigger] self.reports@[b]).month by {
                        assert(self.reports@[a] == before[a]);
                        if b < before.len() {
                            assert(self.reports@[b] == before[b]);
                        }
                    }
                    assert(reports_upserted(before, self.reports@, kept@));
                }
                Ok(stored)
            },
        }
    }

    /// The position of the user called `username`, or `None` where no user
    /// has that name.
    pub fn find_user_by_username(&self, username: &String) -> (r: Option<usize>)
        ensures
            match r {
                Some(k) => k < self.users@.len() && self.users@[k as int].username@ == username@,
                None => !has_username(self.users@, username@),
            },
            self.wf() ==> (r matches Some(k) ==> k == username_index(self.users@, username@)),
    {
        let mut i: usize = 0;
        while i < self.users.len()
            invariant
                i <= self.users@.len(),
                forall|j: int| 0 <= j < i ==> (#[trigger] self.users@[j]).username@ != username@,
            decreases self.users@.len() - i,
        {
            if self.users[i].username == *username {
                proof {
                    if self.wf() {
                        let c = username_index(self.users@, username@);
                        assert(self.users@[i as int].username@ == username@);
                        if c < i {
                            assert(self.users@[c].username@ != self.users@[i as int].username@);
                        } else if i < c {
                            assert(self.users@[i as int].username@ != self.users@[c].username@);
                        }
                    }
                }
                return Some(i);
            }
            i += 1;
        }
        None
    }

    /// Appends a user with a name that no user has yet, under the next key.
    /// Fails, and changes nothing, where the keys are used up.
    pub fn insert_user(&mut self, username: String, password_hash: String) -> (r: Result<
        User,
        AppError,
    >)
        requires
            old(self).wf(),
            !has_username(old(self).users@, username@),
        ensures
            final(self).wf(),
            old(self).next_user_id < i32::MAX <==> r is Ok,
            r matches Ok(row) ==> {
                &&& row == (User { user_id: old(self).next_user_id, username, password_hash })
                &&& final(self).users@ == old(self).users@.push(row)
                &&& *final(self) == (Database {
                    users: final(self).users,
                    next_user_id: (old(self).next_user_id + 1) as i32,
                    ..*old(self)
                })
            },
            r matches Err(e) ==> e.is_db_error("user keys are used up"@) && *final(self) == *old(
                self,
            ),
    {
        if self.next_user_id == i32::MAX {
            return Err(AppError::db_error("user keys are used up"));
        }
        let row = User { user_id: self.next_user_id, username, password_hash };
        let stored = row.clone();
        let ghost before = self.users@;
        proof {
            lemma_ids_push(before, self.next_user_id as int, stored);
            assert forall|id: int| has_id(before, id) implies has_id(before.push(stored), id) by {
                lemma_has_id_push(before, stored, id);
            }
            lemma_users_grow(before, before.push(stored), self.orders@, self.expenses@);
        }
        self.users.push(stored);
        self.next_user_id = self.next_user_id + 1;
        proof {
            assert forall|a: int, b: int| 0 <= a < b < self.users@.len() implies (
            #[trigger] self.users@[a]).username@ != (#[trigger] self.users@[b]).username@ by {
                assert(self.users@[a] == before[a]);
                if b < before.len() {
                    assert(self.users@[b] == before[b]);
                }
            }
        }
        Ok(row)
    }

    /// Gives the user at position `k` a new password hash.
    pub fn set_password_hash(&mut self, k: usize, password_hash: String)
        requires
            old(self).wf(),
            k < old(self).users@.len(),
        ensures
            final(self).wf(),
            final(self).users@ == old(self).users@.update(
                k as int,
                User {
                    user_id: old(self).users@[k as int].user_id,
                    username: old(self).users@[k as int].username,
                    password_hash,
                },
            ),
            *final(self) == (Database { users: final(self).users, ..*old(self) }),
    {
        let row = User {
            user_id: self.users[k].user_id,
            username: self.users[k].username.clone(),
            password_hash,
        };
        let ghost before = self.users@;
        proof {
            lemma_ids_update(before, self.next_user_id as int, k as int, row);
            lemma_users_grow(before, before.update(k as int, row), self.orders@, self.expenses@);
        }
        self.users.set(k, row);
        proof {
            assert forall|a: int, b: int| 0 <= a < b < self.users@.len() implies (
            #[trigger] self.users@[a]).username@ != (#[trigger] self.users@[b]).username@ by {
                assert(self.users@[a].username@ == before[a].username@);
                assert(self.users@[b].username@ == before[b].username@);
            }
        }
    }

    /// Appends an unused verification code for `email` under the next key.
    /// Fails, and changes nothing, where the keys are used up.
    pub fn insert_reset(
        &mut self,
        email: String,
        hashed_verification_code: String,
        expires_at: i64,
    ) -> (r: Result<RegistrationCodeReset, AppError>)
        requires
            old(self).wf(),
        ensures
            final(self).wf(),
            old(self).next_reset_id < i32::MAX <==> r is Ok,
            r matches Ok(row) ==> {
                &&& row == (RegistrationCodeReset {
                    id: old(self).next_reset_id,
                    email,
                    hashed_verification_code,
                    expires_at,
                    used: false,
                })
                &&& final(self).registration_code_resets@ == old(
                    self,
                ).registration_code_resets@.push(row)
                &&& *final(self) == (Database {
                    registration_code_resets: final(self).registration_code_resets,
                    next_reset_id: (old(self).next_reset_id + 1) as i32,
                    ..*old(self)
                })
            },
            r matches Err(e) ==> e.is_db_error("reset keys are used up"@) && *final(self) == *old(
                self,
            ),
    {
        if self.next_reset_id == i32::MAX {
            return Err(AppError::db_error("reset keys are used up"));
        }
        let row = RegistrationCodeReset {
            id: self.next_reset_id,
            email,
            hashed_verification_code,
            expires_at,
            used: false,
        };
        let stored = row.clone();
        proof {
            lemma_ids_push(self.registration_code_resets@, self.next_reset_id as int, stored);
        }
        self.registration_code_resets.push(stored);
        self.next_reset_id = self.next_reset_id + 1;
        Ok(row)
    }

    /// Marks the verification code at position `k` as used.
    pub fn mark_reset_used(&mut self, k: usize)
        requires
            old(self).wf(),
            k < old(self).registration_code_resets@.len(),
        ensures
            final(self).wf(),
            final(self).registration_code_resets@ == old(self).registration_code_resets@.update(
                k as int,
                RegistrationCodeReset {
                    used: true,
                    ..old(self).registration_code_resets@[k as int]
                },
            ),
            *final(self) == (Database {
                registration_code_resets: final(self).registration_code_resets,
                ..*old(self)
            }),
    {
        let row = RegistrationCodeReset {
            id: self.registration_code_resets[k].id,
            email: self.registration_code_resets[k].email.clone(),
            hashed_verification_code: self.registration_code_resets[k]
                .hashed_verification_code
                .clone(),
            expires_at: self.registration_code_resets[k].expires_at,
            used: true,
        };
        proof {
            lemma_ids_update(
                self.registration_code_resets@,
                self.next_reset_id as int,
                k as int,
                row,
            );
        }
        self.registration_code_resets.set(k, row);
    }
}

/// Orders and expenses whose authors are users of `before` also have their
/// authors among the users of `after`, where every key of `before` is a key
/// of `after`.
pub proof fn lemma_users_grow(
    before: Seq<User>,
    after: Seq<User>,
    orders: Seq<Order>,
    expenses: Seq<Expense>,
)
    requires
        orders_wf(orders, before),
        expenses_wf(expenses, before),
        forall|id: int| has_id(before, id) ==> has_id(after, id),
    ensures
        orders_wf(orders, after),
        expenses_wf(expenses, after),
{
}

} // verus!
