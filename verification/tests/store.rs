use financial_tracker::date::Date;
use financial_tracker::db::Database;
use financial_tracker::entities::check_amount;
use financial_tracker::entities::clone_expenses;
use financial_tracker::entities::clone_orders;
use financial_tracker::entities::Row;
use financial_tracker::errors::AppError;
use financial_tracker::services::orders::CreateOrderRequest;
use financial_tracker::services::orders::OrdersService;
use financial_tracker::table::find_by_id;
use financial_tracker::validate::check_ids;
use financial_tracker::validate::check_report;
use financial_tracker::validate::is_latest_of_month;
use financial_tracker::validate::supersede_reports;

fn ymd(year: i32, month: u32, day: u32) -> Date {
    Date { year, month, day }
}

fn filled() -> Database {
    let mut db = Database::new();
    let user = db.insert_user("alice".to_string(), "hash".to_string()).unwrap().user_id;
    db.insert_user("bob".to_string(), "hash".to_string()).unwrap();
    let orders = OrdersService::new();
    for day in [15, 16] {
        orders
            .create_order(
                &mut db,
                CreateOrderRequest {
                    patient_name: "Jane".to_string(),
                    order_date: ymd(2024, 3, day),
                    total_amount: 100_00,
                    description: "Checkup".to_string(),
                    created_by: user,
                },
            )
            .unwrap();
    }
    db.insert_expense("d".to_string(), "l".to_string(), 5_00, ymd(2024, 3, 1), Some(user), None)
        .unwrap();
    db
}

#[test]
fn a_new_store_is_empty_and_consistent() {
    let db = Database::new();
    assert!(db.users.is_empty());
    assert!(db.orders.is_empty());
    assert!(db.invoices.is_empty());
    assert!(db.expenses.is_empty());
    assert!(db.reports.is_empty());
    assert!(db.registration_code.is_none());
    assert!(db.registration_code_resets.is_empty());
    assert!(db.check_wf());
}

#[test]
fn a_store_filled_through_the_services_is_consistent() {
    let db = filled();
    assert_eq!(db.orders.len(), 2);
    assert_eq!(db.invoices.len(), 2);
    assert_eq!(db.reports.len(), 1);
    assert!(db.check_wf());
}

#[test]
fn a_repeated_key_is_found() {
    let mut db = filled();
    db.orders[1].order_id = 1;
    assert!(!db.check_wf());
    assert!(!check_ids(&db.orders, db.next_order_id));
}

#[test]
fn a_key_at_or_above_the_next_key_is_found() {
    let mut db = filled();
    db.next_order_id = 2;
    assert!(!db.check_wf());
    db.next_order_id = 3;
    assert!(db.check_wf());
    db.next_order_id = 0;
    assert!(!db.check_wf());
    let mut db = filled();
    db.orders[0].order_id = 0;
    assert!(!db.check_wf());
}

#[test]
fn a_repeated_user_name_is_found() {
    let mut db = filled();
    db.users[1].username = "alice".to_string();
    assert!(!db.check_wf());
}

#[test]
fn an_invoice_without_order_is_found() {
    let mut db = filled();
    db.invoices[0].order_id = 9;
    assert!(!db.check_wf());
}

#[test]
fn a_second_invoice_of_an_order_is_found() {
    let mut db = filled();
    db.invoices[1].order_id = 1;
    assert!(!db.check_wf());
}

#[test]
fn an_author_who_is_no_user_is_found() {
    let mut db = filled();
    db.orders[0].modified_by = Some(3);
    assert!(!db.check_wf());
    let mut db = filled();
    db.expenses[0].created_by = Some(0);
    assert!(!db.check_wf());
}

#[test]
fn a_row_that_is_not_valid_is_found() {
    let mut db = filled();
    db.orders[0].order_date = ymd(2024, 2, 30);
    assert!(!db.check_wf());
    let mut db = filled();
    db.invoices[0].total_amount = 1_000_000_000_000;
    assert!(!db.check_wf());
    let mut db = filled();
    db.expenses[0].amount = -1_000_000_000_000;
    assert!(!db.check_wf());
}

#[test]
fn a_report_that_disagrees_with_its_snapshot_is_found() {
    let db = filled();
    assert!(check_report(&db.reports[0]));
    let mut db = filled();
    db.reports[0].total_income += 1;
    assert!(!db.check_wf());
    let mut db = filled();
    db.reports[0].net_profit -= 1;
    assert!(!db.check_wf());
    let mut db = filled();
    db.reports[0].total_orders = 1;
    assert!(!db.check_wf());
    let mut db = filled();
    db.reports[0].daily_data.orders[0].order_date = ymd(2024, 4, 1);
    assert!(!db.check_wf());
    let mut db = filled();
    db.reports[0].month = ymd(2024, 3, 16);
    assert!(!db.check_wf());
}

#[test]
fn a_second_report_of_a_month_is_found() {
    let mut db = filled();
    let mut copy = db.reports[0].clone();
    copy.report_id = 2;
    db.reports.push(copy);
    db.next_report_id = 3;
    assert!(!db.check_wf());
    db.reports[1].month = ymd(2024, 4, 1);
    db.reports[1].daily_data.orders.clear();
    db.reports[1].total_orders = 0;
    db.reports[1].total_income = 0;
    db.reports[1].net_profit = 0;
    assert!(db.check_wf());
}

#[test]
fn rows_are_found_by_key() {
    let db = filled();
    assert_eq!(find_by_id(&db.orders, 2), Some(1));
    assert_eq!(find_by_id(&db.orders, 3), None);
    assert_eq!(db.orders[1].id(), 2);
    assert_eq!(db.users[0].id(), 1);
    assert_eq!(db.invoices[0].id(), 1);
    assert_eq!(db.expenses[0].id(), 1);
    assert_eq!(db.reports[0].id(), 1);
    assert_eq!(db.find_invoice_by_order(2), Some(1));
    assert_eq!(db.find_invoice_by_order(3), None);
    assert_eq!(db.find_report_by_month(ymd(2024, 3, 1)), Some(0));
    assert_eq!(db.find_report_by_month(ymd(2024, 3, 2)), None);
    assert_eq!(db.find_user_by_username(&"bob".to_string()), Some(1));
    assert_eq!(db.find_user_by_username(&"carol".to_string()), None);
}

#[test]
fn rows_are_replaced_and_removed_in_place() {
    let mut db = filled();
    let mut order = db.orders[0].clone();
    order.patient_name = "Janet".to_string();
    db.replace_order(0, order);
    assert_eq!(db.orders[0].patient_name, "Janet");
    assert_eq!(db.orders[1].patient_name, "Jane");
    let mut invoice = db.invoices[1].clone();
    invoice.total_amount = 1;
    db.replace_invoice(1, invoice);
    assert_eq!(db.invoices[1].total_amount, 1);
    let mut expense = db.expenses[0].clone();
    expense.label = "x".to_string();
    db.replace_expense(0, expense);
    assert_eq!(db.expenses[0].label, "x");
    db.set_password_hash(1, "new".to_string());
    assert_eq!(db.users[1].password_hash, "new");
    assert_eq!(db.users[1].username, "bob");
    db.delete_order(0);
    assert_eq!(db.orders.len(), 1);
    assert_eq!(db.invoices.len(), 1);
    assert_eq!(db.invoices[0].order_id, 2);
    db.delete_invoice(0);
    assert!(db.invoices.is_empty());
    db.delete_expense(0);
    assert!(db.expenses.is_empty());
    assert!(db.check_wf());
}

#[test]
fn keys_are_not_handed_out_twice() {
    let mut db = filled();
    db.delete_order(1);
    let order = db
        .insert_order("P".to_string(), ymd(2024, 1, 1), 1, "d".to_string(), None)
        .unwrap();
    assert_eq!(order.order_id, 3);
    assert_eq!(order.modified_by, None);
    db.next_user_id = i32::MAX;
    let err = db.insert_user("carol".to_string(), "h".to_string()).unwrap_err();
    assert!(matches!(err, AppError::DbError(ref m) if m == "user keys are used up"));
}

#[test]
fn verification_codes_are_stored_unused_and_marked_used() {
    let mut db = Database::new();
    let row = db.insert_reset("a@b.c".to_string(), "h".to_string(), 10).unwrap();
    assert_eq!(row.id, 1);
    assert!(!row.used);
    db.mark_reset_used(0);
    assert!(db.registration_code_resets[0].used);
    assert_eq!(db.registration_code_resets[0].email, "a@b.c");
    assert_eq!(db.registration_code_resets[0].hashed_verification_code, "h");
    assert_eq!(db.registration_code_resets[0].expires_at, 10);
    assert_eq!(db.registration_code_resets[0].id(), 1);
}

#[test]
fn amounts_have_twelve_digits() {
    assert!(check_amount(0));
    assert!(check_amount(999_999_999_999));
    assert!(check_amount(-999_999_999_999));
    assert!(!check_amount(1_000_000_000_000));
    assert!(!check_amount(-1_000_000_000_000));
}

#[test]
fn copies_of_rows_are_equal_to_the_rows() {
    let db = filled();
    let orders = clone_orders(&db.orders);
    assert_eq!(orders.len(), 2);
    assert_eq!(orders[1].order_id, db.orders[1].order_id);
    assert_eq!(orders[1].patient_name, db.orders[1].patient_name);
    let expenses = clone_expenses(&db.expenses);
    assert_eq!(expenses.len(), 1);
    assert_eq!(expenses[0].amount, 5_00);
    let user = db.users[0].clone();
    assert_eq!(user.username, "alice");
    let invoice = db.invoices[0].clone();
    assert_eq!(invoice.transaction_id, db.invoices[0].transaction_id);
}

fn report(report_id: i32, month: Date, generated_at: i64) -> financial_tracker::entities::Report {
    financial_tracker::entities::Report {
        report_id,
        month,
        total_orders: 0,
        total_income: 0,
        total_expenses: 0,
        net_profit: 0,
        generated_at,
        daily_data: financial_tracker::entities::DailyData { orders: vec![], expenses: vec![] },
    }
}

#[test]
fn of_the_reports_of_a_month_the_one_generated_last_counts() {
    let march = ymd(2024, 3, 1);
    let april = ymd(2024, 4, 1);
    let may = ymd(2024, 5, 1);
    let rows = vec![
        report(1, march, 10),
        report(2, april, 50),
        report(3, march, 30),
        report(4, march, 20),
        report(5, april, 50),
        report(6, may, 5),
    ];
    let latest: Vec<bool> = (0..rows.len()).map(|j| is_latest_of_month(&rows, j)).collect();
    assert_eq!(latest, vec![false, false, true, false, true, true]);
    let kept = supersede_reports(&rows);
    let ids: Vec<i32> = kept.iter().map(|r| r.report_id).collect();
    assert_eq!(ids, vec![3, 5, 6]);
    assert_eq!(kept[0].generated_at, 30);
    assert_eq!(kept[1].month, april);
}

#[test]
fn a_table_with_one_report_for_each_month_is_kept_as_it_is() {
    let rows = vec![report(1, ymd(2024, 3, 1), 10), report(2, ymd(2024, 4, 1), 5)];
    let kept = supersede_reports(&rows);
    assert_eq!(kept.iter().map(|r| r.report_id).collect::<Vec<_>>(), vec![1, 2]);
    assert!(supersede_reports(&Vec::new()).is_empty());
    let mut db = Database::new();
    db.reports = supersede_reports(&vec![
        report(1, ymd(2024, 3, 1), 10),
        report(2, ymd(2024, 3, 1), 11),
    ]);
    db.next_report_id = 3;
    assert!(db.check_wf());
}
