use ledger_store::database::clients::ClientError;
use ledger_store::database::clients::ClientFilter;
use ledger_store::database::engine::may_change;
use ledger_store::database::engine::must_change;
use ledger_store::database::engine::Cell;
use ledger_store::database::engine::Fault;
use ledger_store::database::relational::client_error_of;
use ledger_store::database::relational::new_client;
use ledger_store::database::relational::transaction_error_of;
use ledger_store::database::rows::aliases_from_rows;
use ledger_store::database::rows::clients_from_rows;
use ledger_store::database::rows::read_client;
use ledger_store::database::rows::read_transaction;
use ledger_store::database::rows::transactions_from_rows;
use ledger_store::database::transactions::TransactionError;
use ledger_store::database::transactions::TransactionFilter;

fn text(s: &str) -> Cell {
    Cell::Text(s.to_string())
}

#[test]
fn outcome_of_a_statement_that_must_change_a_row() {
    assert_eq!(must_change(Ok(1)), Ok(()));
    assert_eq!(must_change(Ok(3)), Ok(()));
    assert_eq!(must_change(Ok(0)), Err(Fault::NotFound));
    assert_eq!(must_change(Err(rusqlite::Error::InvalidQuery)), Err(Fault::Backend));
}

#[test]
fn outcome_of_a_statement_that_may_change_nothing() {
    assert_eq!(may_change(Ok(1)), Ok(()));
    assert_eq!(may_change(Ok(0)), Ok(()));
    assert_eq!(may_change(Err(rusqlite::Error::InvalidQuery)), Err(Fault::Backend));
}

#[test]
fn faults_become_errors_of_the_operation() {
    assert_eq!(client_error_of(Fault::NotFound), ClientError::NotFound);
    assert_eq!(client_error_of(Fault::Backend), ClientError::BackendError);
    assert_eq!(transaction_error_of(Fault::NotFound), TransactionError::NotFound);
    assert_eq!(transaction_error_of(Fault::Backend), TransactionError::BackendError);
}

#[test]
fn new_client_takes_the_row_identity() {
    let c = new_client("ann", "d", 12).unwrap();
    assert_eq!((c.cid, c.balance), (12, 0));
    assert_eq!(c.name, "ann");
    assert_eq!(c.detail, Some("d".to_string()));
    assert_eq!(new_client("ann", "d", 0).unwrap().cid, 0);
    assert_eq!(new_client("ann", "d", -1).err(), Some(ClientError::BackendError));
}

#[test]
fn a_client_row_is_read_field_by_field() {
    let row = vec![Cell::Integer(3), text("ann"), Cell::Integer(-600), Cell::Null];
    let c = read_client(&row).unwrap();
    assert_eq!((c.cid, c.balance), (3, -600));
    assert_eq!(c.name, "ann");
    assert_eq!(c.detail, None);
    let row = vec![Cell::Integer(3), text("ann"), Cell::Integer(2147483647), text("d")];
    let c = read_client(&row).unwrap();
    assert_eq!(c.balance, 2147483647);
    assert_eq!(c.detail, Some("d".to_string()));
}

#[test]
fn a_malformed_client_row_is_no_client() {
    let short = vec![Cell::Integer(3), text("ann"), Cell::Integer(0)];
    assert!(read_client(&short).is_none());
    let long = vec![Cell::Integer(3), text("ann"), Cell::Integer(0), Cell::Null, Cell::Null];
    assert!(read_client(&long).is_none());
    let negative = vec![Cell::Integer(-3), text("ann"), Cell::Integer(0), Cell::Null];
    assert!(read_client(&negative).is_none());
    let unnamed = vec![Cell::Integer(3), Cell::Null, Cell::Integer(0), Cell::Null];
    assert!(read_client(&unnamed).is_none());
    let wide = vec![Cell::Integer(3), text("ann"), Cell::Integer(2147483648), Cell::Null];
    assert!(read_client(&wide).is_none());
    let low = vec![Cell::Integer(3), text("ann"), Cell::Integer(-2147483649), Cell::Null];
    assert!(read_client(&low).is_none());
    let real = vec![Cell::Integer(3), text("ann"), Cell::Real, Cell::Null];
    assert!(read_client(&real).is_none());
    let blob = vec![Cell::Integer(3), text("ann"), Cell::Integer(0), Cell::Blob(vec![1, 2])];
    assert!(read_client(&blob).is_none());
}

#[test]
fn malformed_rows_are_passed_over_and_the_rest_is_kept() {
    let rows = vec![
        Some(vec![Cell::Integer(1), text("ann"), Cell::Integer(5), Cell::Null]),
        None,
        Some(vec![Cell::Integer(2), Cell::Integer(7), Cell::Integer(5), Cell::Null]),
        Some(vec![Cell::Integer(3), text("bob"), Cell::Integer(6), text("d")]),
    ];
    let found = clients_from_rows(&rows, &ClientFilter::new());
    assert_eq!(found.iter().map(|c| c.cid).collect::<Vec<u64>>(), vec![1, 3]);
    let found = clients_from_rows(&rows, &ClientFilter::new().with_name("bob".to_string()));
    assert_eq!(found.iter().map(|c| c.cid).collect::<Vec<u64>>(), vec![3]);
}

#[test]
fn alias_rows_of_another_owner_are_left_out() {
    let rows = vec![
        Some(vec![Cell::Integer(1), Cell::Integer(4), text("a")]),
        Some(vec![Cell::Integer(2), Cell::Integer(5), text("b")]),
        Some(vec![Cell::Integer(3), Cell::Integer(4), Cell::Null]),
        None,
        Some(vec![Cell::Integer(6), Cell::Integer(4), text("c")]),
    ];
    let found = aliases_from_rows(&rows, 4);
    assert_eq!(found.iter().map(|a| a.aid).collect::<Vec<u64>>(), vec![1, 6]);
    assert_eq!(found[1].alias, "c");
    assert_eq!(found[1].uid, 4);
}

#[test]
fn a_transaction_row_may_have_no_owner_and_no_detail() {
    let row = vec![
        Cell::Integer(9),
        Cell::Null,
        Cell::Integer(1700000000),
        Cell::Integer(1000),
        Cell::Integer(400),
        Cell::Null,
    ];
    let t = read_transaction(&row).unwrap();
    assert_eq!((t.tid, t.uid, t.date, t.price, t.payment), (9, None, 1700000000, 1000, 400));
    assert_eq!(t.detail, None);
    let row = vec![
        Cell::Integer(9),
        Cell::Integer(2),
        Cell::Integer(5),
        Cell::Integer(-1),
        Cell::Integer(-2),
        text("d"),
    ];
    let t = read_transaction(&row).unwrap();
    assert_eq!((t.uid, t.price, t.payment), (Some(2), -1, -2));
    assert_eq!(t.detail, Some("d".to_string()));
    let bad_owner = vec![
        Cell::Integer(9),
        text("two"),
        Cell::Integer(5),
        Cell::Integer(1),
        Cell::Integer(1),
        Cell::Null,
    ];
    assert!(read_transaction(&bad_owner).is_none());
    let bad_date = vec![
        Cell::Integer(9),
        Cell::Null,
        Cell::Integer(-5),
        Cell::Integer(1),
        Cell::Integer(1),
        Cell::Null,
    ];
    assert!(read_transaction(&bad_date).is_none());
}

#[test]
fn transaction_rows_are_tested_against_the_filter() {
    let row = |tid: i64, price: i64| {
        Some(vec![
            Cell::Integer(tid),
            Cell::Null,
            Cell::Integer(10),
            Cell::Integer(price),
            Cell::Integer(price),
            Cell::Null,
        ])
    };
    let rows = vec![row(1, 5), row(2, 50), None, row(3, 500)];
    let found = transactions_from_rows(&rows, &TransactionFilter::new().with_price_range(50, 500));
    assert_eq!(found.iter().map(|t| t.tid).collect::<Vec<u64>>(), vec![2, 3]);
}
