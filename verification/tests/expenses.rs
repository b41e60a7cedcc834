use financial_tracker::date::Date;
use financial_tracker::db::Database;
use financial_tracker::errors::AppError;
use financial_tracker::services::expenses::CreateExpenseRequest;
use financial_tracker::services::expenses::ExpensesService;
use financial_tracker::services::expenses::UpdateExpenseRequest;

fn store_with_two_users() -> (Database, i32, i32) {
    let mut db = Database::new();
    let a = db.insert_user("alice".to_string(), "hash".to_string()).unwrap().user_id;
    let b = db.insert_user("bob".to_string(), "hash".to_string()).unwrap().user_id;
    (db, a, b)
}

fn rent(created_by: i32) -> CreateExpenseRequest {
    CreateExpenseRequest {
        description: "Rent".to_string(),
        label: "fixed".to_string(),
        amount: 40_00,
        expense_date: Date { year: 2024, month: 3, day: 20 },
        created_by,
    }
}

#[test]
fn a_new_expense_names_its_creator_twice_and_refreshes_the_report() {
    let (mut db, alice, _) = store_with_two_users();
    let created = ExpensesService::new().create_expense_at(&mut db, rent(alice), 7).unwrap();
    assert_eq!(created.expense_id, 1);
    assert_eq!(created.description, "Rent");
    assert_eq!(created.label, "fixed");
    assert_eq!(created.amount, 40_00);
    assert_eq!(created.expense_date, Date { year: 2024, month: 3, day: 20 });
    assert_eq!(created.created_by, Some(alice));
    assert_eq!(created.modified_by, Some(alice));
    assert_eq!(db.expenses.len(), 1);
    assert_eq!(db.reports.len(), 1);
    assert_eq!(db.reports[0].month, Date { year: 2024, month: 3, day: 1 });
    assert_eq!(db.reports[0].total_expenses, 40_00);
    assert_eq!(db.reports[0].net_profit, -40_00);
    assert_eq!(db.reports[0].generated_at, 7);
}

#[test]
fn an_expense_is_refused_for_a_bad_date_amount_or_user() {
    let (mut db, alice, bob) = store_with_two_users();
    let service = ExpensesService::new();
    let mut req = rent(alice);
    req.expense_date = Date { year: 2024, month: 4, day: 31 };
    assert!(matches!(service.create_expense(&mut db, req), Err(AppError::BadRequest(_))));
    let mut req = rent(alice);
    req.amount = -1_000_000_000_000;
    assert!(matches!(
        service.create_expense(&mut db, req),
        Err(AppError::BadRequest(ref m)) if m == "Invalid amount"
    ));
    let req = rent(bob + 1);
    assert!(matches!(
        service.create_expense(&mut db, req),
        Err(AppError::NotFound(ref m)) if m == "User not found"
    ));
    db.next_expense_id = i32::MAX;
    assert!(matches!(
        service.create_expense(&mut db, rent(alice)),
        Err(AppError::DbError(ref m)) if m == "expense keys are used up"
    ));
    assert!(db.expenses.is_empty());
    assert!(db.reports.is_empty());
}

#[test]
fn updating_an_expense_changes_only_the_fields_given() {
    let (mut db, alice, bob) = store_with_two_users();
    let service = ExpensesService::new();
    service.create_expense(&mut db, rent(alice)).unwrap();
    let req = UpdateExpenseRequest {
        description: None,
        label: Some("monthly".to_string()),
        amount: Some(45_00),
        expense_date: None,
    };
    let updated = service.update_expense(&mut db, 1, req, bob).unwrap();
    assert_eq!(updated.expense_id, 1);
    assert_eq!(updated.description, "Rent");
    assert_eq!(updated.label, "monthly");
    assert_eq!(updated.amount, 45_00);
    assert_eq!(updated.expense_date, Date { year: 2024, month: 3, day: 20 });
    assert_eq!(updated.created_by, Some(alice));
    assert_eq!(updated.modified_by, Some(bob));
    assert_eq!(db.expenses[0].amount, 45_00);
    assert_eq!(db.reports.len(), 1);
    assert_eq!(db.reports[0].total_expenses, 45_00);
}

#[test]
fn moving_an_expense_recomputes_the_month_it_moves_to() {
    let (mut db, alice, _) = store_with_two_users();
    let service = ExpensesService::new();
    service.create_expense(&mut db, rent(alice)).unwrap();
    let req = UpdateExpenseRequest {
        description: None,
        label: None,
        amount: None,
        expense_date: Some(Date { year: 2024, month: 5, day: 1 }),
    };
    service.update_expense_at(&mut db, 1, req, alice, 9).unwrap();
    assert_eq!(db.reports.len(), 2);
    assert_eq!(db.reports[1].month, Date { year: 2024, month: 5, day: 1 });
    assert_eq!(db.reports[1].total_expenses, 40_00);
    assert_eq!(db.reports[1].generated_at, 9);
    assert_eq!(db.reports[0].total_expenses, 40_00);
}

#[test]
fn updating_an_expense_is_refused_without_change() {
    let (mut db, alice, bob) = store_with_two_users();
    let service = ExpensesService::new();
    service.create_expense(&mut db, rent(alice)).unwrap();
    let nothing = || UpdateExpenseRequest {
        description: Some("x".to_string()),
        label: None,
        amount: None,
        expense_date: None,
    };
    assert!(matches!(
        service.update_expense(&mut db, 2, nothing(), alice),
        Err(AppError::NotFound(ref m)) if m == "Expense not found"
    ));
    assert!(matches!(
        service.update_expense(&mut db, 1, nothing(), bob + 1),
        Err(AppError::NotFound(ref m)) if m == "User not found"
    ));
    let mut req = nothing();
    req.amount = Some(i64::MAX);
    assert!(matches!(service.update_expense(&mut db, 1, req, alice), Err(AppError::BadRequest(_))));
    let mut req = nothing();
    req.expense_date = Some(Date { year: 2024, month: 0, day: 1 });
    assert!(matches!(service.update_expense(&mut db, 1, req, alice), Err(AppError::BadRequest(_))));
    assert_eq!(db.expenses[0].description, "Rent");
    assert_eq!(db.expenses[0].modified_by, Some(alice));
}

#[test]
fn expenses_are_listed_found_and_deleted() {
    let (mut db, alice, _) = store_with_two_users();
    let service = ExpensesService::new();
    service.create_expense(&mut db, rent(alice)).unwrap();
    let mut second = rent(alice);
    second.description = "Power".to_string();
    service.create_expense(&mut db, second).unwrap();
    let all = service.get_expenses(&db).unwrap();
    assert_eq!(all.len(), 2);
    assert_eq!(all[0].description, "Rent");
    assert_eq!(all[1].description, "Power");
    assert_eq!(service.get_expense_by_id(&db, 2).unwrap().description, "Power");
    assert!(matches!(
        service.get_expense_by_id(&db, 3),
        Err(AppError::NotFound(ref m)) if m == "Expense not found"
    ));
    service.delete_expense(&mut db, 1).unwrap();
    assert_eq!(db.expenses.len(), 1);
    assert_eq!(db.expenses[0].expense_id, 2);
    assert!(matches!(
        service.delete_expense(&mut db, 1),
        Err(AppError::NotFound(ref m)) if m == "Expense not found"
    ));
    assert_eq!(db.reports[0].total_expenses, 80_00);
}
