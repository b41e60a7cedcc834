use financial_tracker::date::Date;
use financial_tracker::db::Database;
use financial_tracker::errors::AppError;
use financial_tracker::services::invoices::CreateInvoiceRequest;
use financial_tracker::services::invoices::InvoicesService;

fn store_with_orders(n: usize) -> Database {
    let mut db = Database::new();
    let user = db.insert_user("alice".to_string(), "hash".to_string()).unwrap().user_id;
    for _ in 0..n {
        db.insert_order(
            "P".to_string(),
            Date { year: 2024, month: 3, day: 15 },
            10_00,
            "d".to_string(),
            Some(user),
        )
        .unwrap();
    }
    db
}

fn bill(order_id: i32) -> CreateInvoiceRequest {
    CreateInvoiceRequest {
        order_id,
        transaction_id: "TXN-1".to_string(),
        invoice_date: Date { year: 2024, month: 3, day: 16 },
        total_amount: 10_00,
        description: "d".to_string(),
    }
}

#[test]
fn an_order_is_billed_once() {
    let mut db = store_with_orders(2);
    let service = InvoicesService::new();
    let invoice = service.create_invoice(&mut db, bill(2)).unwrap();
    assert_eq!(invoice.invoice_id, 1);
    assert_eq!(invoice.order_id, 2);
    assert_eq!(invoice.transaction_id, "TXN-1");
    assert_eq!(invoice.invoice_date, Date { year: 2024, month: 3, day: 16 });
    assert_eq!(invoice.total_amount, 10_00);
    assert_eq!(invoice.description, "d");
    let err = service.create_invoice(&mut db, bill(2)).unwrap_err();
    assert!(
        matches!(err, AppError::Conflict(ref m) if m == "Invoice already exists for this order")
    );
    assert_eq!(err.status_code(), 409);
    assert_eq!(err.message(), "Conflict: Invoice already exists for this order");
    assert_eq!(db.invoices.len(), 1);
}

#[test]
fn an_invoice_needs_an_order_a_date_an_amount_and_a_key() {
    let mut db = store_with_orders(1);
    let service = InvoicesService::new();
    assert!(matches!(
        service.create_invoice(&mut db, bill(2)),
        Err(AppError::NotFound(ref m)) if m == "Order not found"
    ));
    let mut req = bill(1);
    req.invoice_date = Date { year: 2024, month: 2, day: 30 };
    assert!(matches!(service.create_invoice(&mut db, req), Err(AppError::BadRequest(_))));
    let mut req = bill(1);
    req.total_amount = 1_000_000_000_000;
    assert!(matches!(
        service.create_invoice(&mut db, req),
        Err(AppError::BadRequest(ref m)) if m == "Invalid amount"
    ));
    db.next_invoice_id = i32::MAX;
    assert!(matches!(
        service.create_invoice(&mut db, bill(1)),
        Err(AppError::DbError(ref m)) if m == "invoice keys are used up"
    ));
    assert!(db.invoices.is_empty());
}

#[test]
fn invoices_are_listed_by_table_and_by_order() {
    let mut db = store_with_orders(3);
    let service = InvoicesService::new();
    service.create_invoice(&mut db, bill(3)).unwrap();
    service.create_invoice(&mut db, bill(1)).unwrap();
    let all = service.get_all_invoices(&db).unwrap();
    assert_eq!(all.iter().map(|i| i.order_id).collect::<Vec<_>>(), vec![3, 1]);
    let of_one = service.get_invoices_by_order(&db, 1).unwrap();
    assert_eq!(of_one.len(), 1);
    assert_eq!(of_one[0].invoice_id, 2);
    assert!(service.get_invoices_by_order(&db, 2).unwrap().is_empty());
}

#[test]
fn deleting_an_invoice_leaves_its_order() {
    let mut db = store_with_orders(2);
    let service = InvoicesService::new();
    service.create_invoice(&mut db, bill(1)).unwrap();
    service.create_invoice(&mut db, bill(2)).unwrap();
    service.delete_invoice(&mut db, 1).unwrap();
    assert_eq!(db.orders.len(), 2);
    assert_eq!(db.invoices.len(), 1);
    assert_eq!(db.invoices[0].invoice_id, 2);
    assert!(matches!(
        service.delete_invoice(&mut db, 1),
        Err(AppError::NotFound(ref m)) if m == "Invoice not found"
    ));
    assert!(service.create_invoice(&mut db, bill(1)).is_ok());
}
