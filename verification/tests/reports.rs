use financial_tracker::date::Date;
use financial_tracker::db::Database;
use financial_tracker::errors::AppError;
use financial_tracker::services::expenses::CreateExpenseRequest;
use financial_tracker::services::expenses::ExpensesService;
use financial_tracker::services::orders::CreateOrderRequest;
use financial_tracker::services::orders::OrdersService;
use financial_tracker::services::reports::collect_expenses;
use financial_tracker::services::reports::collect_orders;
use financial_tracker::services::reports::MonthlyReport;
use financial_tracker::services::reports::ReportsService;

fn ymd(year: i32, month: u32, day: u32) -> Date {
    Date { year, month, day }
}

fn store() -> (Database, i32) {
    let mut db = Database::new();
    let user = db.insert_user("alice".to_string(), "hash".to_string()).unwrap().user_id;
    (db, user)
}

fn add_order(db: &mut Database, user: i32, date: Date, cents: i64) {
    db.insert_order("P".to_string(), date, cents, "d".to_string(), Some(user)).unwrap();
}

fn add_expense(db: &mut Database, user: i32, date: Date, cents: i64) {
    db.insert_expense("d".to_string(), "l".to_string(), cents, date, Some(user), Some(user))
        .unwrap();
}

#[test]
fn a_report_counts_and_sums_the_rows_of_its_month_only() {
    let (mut db, user) = store();
    add_order(&mut db, user, ymd(2024, 2, 29), 1_00);
    add_order(&mut db, user, ymd(2024, 3, 1), 10_00);
    add_order(&mut db, user, ymd(2024, 3, 15), 20_25);
    add_order(&mut db, user, ymd(2024, 3, 31), 30_50);
    add_order(&mut db, user, ymd(2024, 4, 1), 1_000_00);
    add_expense(&mut db, user, ymd(2024, 3, 31), 5_05);
    add_expense(&mut db, user, ymd(2024, 4, 1), 7_00);
    add_expense(&mut db, user, ymd(2023, 3, 15), 9_00);

    let report =
        ReportsService::new().generate_monthly_report_at(&mut db, ymd(2024, 3, 1), 42).unwrap();
    assert_eq!(report.report_id, 1);
    assert_eq!(report.month, ymd(2024, 3, 1));
    assert_eq!(report.total_orders, 3);
    assert_eq!(report.total_income, 60_75);
    assert_eq!(report.total_expenses, 5_05);
    assert_eq!(report.net_profit, 55_70);
    assert_eq!(report.generated_at, 42);
    let ids: Vec<i32> = report.daily_data.orders.iter().map(|o| o.order_id).collect();
    assert_eq!(ids, vec![2, 3, 4]);
    let ids: Vec<i32> = report.daily_data.expenses.iter().map(|e| e.expense_id).collect();
    assert_eq!(ids, vec![1]);
    assert_eq!(db.reports.len(), 1);
    assert_eq!(db.reports[0].total_income, 60_75);
}

#[test]
fn a_report_may_show_a_loss() {
    let (mut db, user) = store();
    add_order(&mut db, user, ymd(2024, 5, 2), 10_00);
    add_expense(&mut db, user, ymd(2024, 5, 3), 25_50);
    let report =
        ReportsService::new().generate_monthly_report(&mut db, ymd(2024, 5, 1)).unwrap();
    assert_eq!(report.net_profit, -15_50);
}

#[test]
fn a_report_of_an_empty_month_is_all_zero() {
    let (mut db, _) = store();
    let report =
        ReportsService::new().generate_monthly_report(&mut db, ymd(2024, 5, 1)).unwrap();
    assert_eq!(report.total_orders, 0);
    assert_eq!(report.total_income, 0);
    assert_eq!(report.total_expenses, 0);
    assert_eq!(report.net_profit, 0);
    assert!(report.daily_data.orders.is_empty());
    assert!(report.daily_data.expenses.is_empty());
}

#[test]
fn february_ends_on_the_29th_in_a_leap_year_and_on_the_28th_otherwise() {
    let (mut db, user) = store();
    add_order(&mut db, user, ymd(2024, 2, 29), 5_00);
    add_order(&mut db, user, ymd(2023, 2, 28), 7_00);
    add_order(&mut db, user, ymd(2023, 3, 1), 9_00);
    let service = ReportsService::new();
    let leap = service.generate_monthly_report(&mut db, ymd(2024, 2, 1)).unwrap();
    assert_eq!(leap.total_orders, 1);
    assert_eq!(leap.total_income, 5_00);
    let common = service.generate_monthly_report(&mut db, ymd(2023, 2, 1)).unwrap();
    assert_eq!(common.total_orders, 1);
    assert_eq!(common.total_income, 7_00);
}

#[test]
fn december_ends_in_its_own_year() {
    let (mut db, user) = store();
    add_order(&mut db, user, ymd(2023, 12, 31), 5_00);
    add_order(&mut db, user, ymd(2024, 1, 1), 7_00);
    let report =
        ReportsService::new().generate_monthly_report(&mut db, ymd(2023, 12, 1)).unwrap();
    assert_eq!(report.total_orders, 1);
    assert_eq!(report.total_income, 5_00);
}

#[test]
fn generating_twice_gives_the_same_figures_and_one_row() {
    let (mut db, user) = store();
    add_order(&mut db, user, ymd(2024, 3, 15), 100_00);
    add_expense(&mut db, user, ymd(2024, 3, 20), 40_00);
    let service = ReportsService::new();
    let first = service.generate_monthly_report_at(&mut db, ymd(2024, 3, 1), 1).unwrap();
    let second = service.generate_monthly_report_at(&mut db, ymd(2024, 3, 1), 2).unwrap();
    assert_eq!(first.report_id, second.report_id);
    assert_eq!(first.total_orders, second.total_orders);
    assert_eq!(first.total_income, second.total_income);
    assert_eq!(first.total_expenses, second.total_expenses);
    assert_eq!(first.net_profit, second.net_profit);
    assert_eq!(second.generated_at, 2);
    assert_eq!(db.reports.len(), 1);
    assert_eq!(db.reports[0].generated_at, 2);
    assert_eq!(db.next_report_id, 2);
}

#[test]
fn regenerating_overwrites_the_report_of_the_month_and_no_other() {
    let (mut db, user) = store();
    let service = ReportsService::new();
    add_order(&mut db, user, ymd(2024, 3, 15), 100_00);
    add_order(&mut db, user, ymd(2024, 4, 15), 1_00);
    service.generate_monthly_report(&mut db, ymd(2024, 3, 1)).unwrap();
    service.generate_monthly_report(&mut db, ymd(2024, 4, 1)).unwrap();
    add_order(&mut db, user, ymd(2024, 3, 16), 50_00);
    let again = service.generate_monthly_report(&mut db, ymd(2024, 3, 1)).unwrap();
    assert_eq!(again.report_id, 1);
    assert_eq!(again.total_orders, 2);
    assert_eq!(again.total_income, 150_00);
    assert_eq!(db.reports.len(), 2);
    assert_eq!(db.reports[0].total_income, 150_00);
    assert_eq!(db.reports[1].month, ymd(2024, 4, 1));
    assert_eq!(db.reports[1].total_income, 1_00);
}

#[test]
fn a_report_is_stale_until_it_is_generated_again() {
    let (mut db, user) = store();
    let service = ReportsService::new();
    add_order(&mut db, user, ymd(2024, 3, 15), 100_00);
    service.generate_monthly_report(&mut db, ymd(2024, 3, 1)).unwrap();
    add_order(&mut db, user, ymd(2024, 3, 16), 50_00);
    let stored = service.get_report_by_month(&db, ymd(2024, 3, 1)).unwrap();
    assert_eq!(stored.total_income, 100_00);
}

#[test]
fn a_month_without_report_is_not_found() {
    let (mut db, _) = store();
    let service = ReportsService::new();
    service.generate_monthly_report(&mut db, ymd(2024, 3, 1)).unwrap();
    let err = service.get_report_by_month(&db, ymd(2024, 4, 1)).unwrap_err();
    assert!(matches!(err, AppError::NotFound(ref m) if m == "Report not found"));
}

#[test]
fn reports_are_listed_in_the_order_of_their_creation() {
    let (mut db, _) = store();
    let service = ReportsService::new();
    service.generate_monthly_report(&mut db, ymd(2024, 4, 1)).unwrap();
    service.generate_monthly_report(&mut db, ymd(2024, 3, 1)).unwrap();
    service.generate_monthly_report(&mut db, ymd(2024, 4, 1)).unwrap();
    let all = service.get_all_reports(&db).unwrap();
    let months: Vec<Date> = all.iter().map(|r| r.month).collect();
    assert_eq!(months, vec![ymd(2024, 4, 1), ymd(2024, 3, 1)]);
}

#[test]
fn a_month_that_is_no_date_is_a_bad_request() {
    let (mut db, _) = store();
    let err =
        ReportsService::new().generate_monthly_report(&mut db, ymd(2024, 13, 1)).unwrap_err();
    assert!(matches!(err, AppError::BadRequest(_)));
    assert!(db.reports.is_empty());
}

#[test]
fn a_new_report_fails_when_the_keys_are_used_up_but_an_old_one_is_overwritten() {
    let (mut db, user) = store();
    let service = ReportsService::new();
    service.generate_monthly_report(&mut db, ymd(2024, 3, 1)).unwrap();
    db.next_report_id = i32::MAX;
    let err = service.generate_monthly_report(&mut db, ymd(2024, 4, 1)).unwrap_err();
    assert!(matches!(err, AppError::DbError(ref m) if m == "report keys are used up"));
    assert_eq!(db.reports.len(), 1);
    add_order(&mut db, user, ymd(2024, 3, 15), 3_00);
    let again = service.generate_monthly_report(&mut db, ymd(2024, 3, 1)).unwrap();
    assert_eq!(again.total_income, 3_00);
}

#[test]
fn a_month_is_named_by_its_first_day() {
    let (mut db, user) = store();
    add_order(&mut db, user, ymd(2024, 3, 15), 2_00);
    let service = ReportsService::new();
    for day in [2, 15, 31] {
        let err = service.generate_monthly_report(&mut db, ymd(2024, 3, day)).unwrap_err();
        assert!(matches!(
            err,
            AppError::BadRequest(ref m) if m == "Invalid month, expected its first day"
        ));
    }
    assert!(db.reports.is_empty());
    assert!(matches!(
        service.get_report_by_month(&db, ymd(2024, 3, 15)),
        Err(AppError::NotFound(_))
    ));
    let report = service.generate_monthly_report(&mut db, ymd(2024, 3, 1)).unwrap();
    assert_eq!(report.total_orders, 1);
}

#[test]
fn a_report_is_stamped_with_a_time_of_the_clock() {
    let (mut db, _) = store();
    let report =
        ReportsService::new().generate_monthly_report(&mut db, ymd(2024, 3, 1)).unwrap();
    assert!(report.generated_at >= 1_600_000_000);
    assert!(report.generated_at <= 8_210_266_876_799);
}

#[test]
fn sums_stay_exact_at_the_largest_amounts() {
    let (mut db, user) = store();
    for _ in 0..3 {
        add_order(&mut db, user, ymd(2024, 3, 15), 999_999_999_999);
    }
    add_expense(&mut db, user, ymd(2024, 3, 15), -999_999_999_999);
    let report =
        ReportsService::new().generate_monthly_report(&mut db, ymd(2024, 3, 1)).unwrap();
    assert_eq!(report.total_income, 2_999_999_999_997);
    assert_eq!(report.total_expenses, -999_999_999_999);
    assert_eq!(report.net_profit, 3_999_999_999_996);
}

#[test]
fn collecting_keeps_table_order_and_both_ends_of_the_range() {
    let (mut db, user) = store();
    add_order(&mut db, user, ymd(2024, 3, 10), 1);
    add_order(&mut db, user, ymd(2024, 3, 9), 2);
    add_order(&mut db, user, ymd(2024, 3, 20), 4);
    add_order(&mut db, user, ymd(2024, 3, 21), 8);
    add_expense(&mut db, user, ymd(2024, 3, 20), 16);
    add_expense(&mut db, user, ymd(2024, 3, 10), 32);
    let (orders, income) = collect_orders(&db.orders, ymd(2024, 3, 10), ymd(2024, 3, 20));
    assert_eq!(orders.iter().map(|o| o.order_id).collect::<Vec<_>>(), vec![1, 3]);
    assert_eq!(income, 5);
    let (expenses, spent) = collect_expenses(&db.expenses, ymd(2024, 3, 10), ymd(2024, 3, 20));
    assert_eq!(expenses.len(), 2);
    assert_eq!(spent, 48);
}

#[test]
fn the_summary_of_a_report_has_its_figures() {
    let (mut db, user) = store();
    add_order(&mut db, user, ymd(2024, 3, 10), 12_00);
    let report =
        ReportsService::new().generate_monthly_report(&mut db, ymd(2024, 3, 1)).unwrap();
    let summary = MonthlyReport::from_report(&report);
    assert_eq!(summary.month, ymd(2024, 3, 1));
    assert_eq!(summary.total_orders, 1);
    assert_eq!(summary.total_income, 12_00);
    assert_eq!(summary.total_expenses, 0);
    assert_eq!(summary.net_profit, 12_00);
}

#[test]
fn an_order_and_an_expense_through_the_services_refresh_the_report() {
    let (mut db, user) = store();
    OrdersService::new()
        .create_order(
            &mut db,
            CreateOrderRequest {
                patient_name: "Jane".to_string(),
                order_date: ymd(2024, 3, 15),
                total_amount: 100_00,
                description: "Checkup".to_string(),
                created_by: user,
            },
        )
        .unwrap();
    ExpensesService::new()
        .create_expense(
            &mut db,
            CreateExpenseRequest {
                description: "Rent".to_string(),
                label: "fixed".to_string(),
                amount: 40_00,
                expense_date: ymd(2024, 3, 20),
                created_by: user,
            },
        )
        .unwrap();
    assert_eq!(db.reports.len(), 1);
    assert_eq!(db.reports[0].total_orders, 1);
    assert_eq!(db.reports[0].total_income, 100_00);
    assert_eq!(db.reports[0].total_expenses, 40_00);
    assert_eq!(db.reports[0].net_profit, 60_00);
    assert!(db.check_wf());
}
