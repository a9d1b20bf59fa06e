use ledger_store::database::clients::Alias;
use ledger_store::database::clients::Client;
use ledger_store::database::clients::ClientFilter;
use ledger_store::database::statements;
use ledger_store::database::text::decimal_i64;
use ledger_store::database::text::decimal_u64;
use ledger_store::database::transactions::Transaction;
use ledger_store::database::transactions::TransactionFilter;

#[test]
fn numbers_in_base_ten() {
    assert_eq!(decimal_u64(0), "0");
    assert_eq!(decimal_u64(7), "7");
    assert_eq!(decimal_u64(10), "10");
    assert_eq!(decimal_u64(1234567890), "1234567890");
    assert_eq!(decimal_u64(u64::MAX), "18446744073709551615");
    assert_eq!(decimal_i64(0), "0");
    assert_eq!(decimal_i64(-1), "-1");
    assert_eq!(decimal_i64(-600), "-600");
    assert_eq!(decimal_i64(i64::MAX), "9223372036854775807");
    assert_eq!(decimal_i64(i64::MIN), "-9223372036854775808");
}

#[test]
fn insert_client_quotes_its_texts() {
    assert_eq!(
        statements::insert_client("lul", "1"),
        "INSERT INTO clients (name, detail) VALUES ('lul', '1');"
    );
    assert_eq!(
        statements::insert_client("o'brien", "x'); DROP TABLE clients; --"),
        "INSERT INTO clients (name, detail) VALUES ('o''brien', 'x''); DROP TABLE clients; --');"
    );
}

#[test]
fn update_client_writes_an_absent_detail_as_null() {
    let c = Client { name: "ann".to_string(), detail: Some("d's".to_string()), balance: 5, cid: 12 };
    assert_eq!(
        statements::update_client(&c),
        "UPDATE clients SET name = 'ann', detail = 'd''s' WHERE uid = 12;"
    );
    let c = Client { name: "ann".to_string(), detail: None, balance: 5, cid: 12 };
    assert_eq!(
        statements::update_client(&c),
        "UPDATE clients SET name = 'ann', detail = NULL WHERE uid = 12;"
    );
}

#[test]
fn deletes_name_one_row() {
    assert_eq!(statements::delete_client(5), "DELETE FROM clients WHERE uid = 5;");
    assert_eq!(statements::delete_alias(6), "DELETE FROM aliases WHERE aid = 6;");
    assert_eq!(statements::delete_transaction(7), "DELETE FROM transactions WHERE tid = 7;");
}

#[test]
fn select_clients_has_one_condition_for_each_field_that_is_set() {
    assert_eq!(
        statements::select_clients(&ClientFilter::new()),
        "SELECT uid, name, balance, detail FROM clients;"
    );
    assert_eq!(
        statements::select_clients(&ClientFilter::new().with_name("lul".to_string())),
        "SELECT uid, name, balance, detail FROM clients WHERE name = 'lul';"
    );
    assert_eq!(
        statements::select_clients(&ClientFilter::new().with_uid(3)),
        "SELECT uid, name, balance, detail FROM clients WHERE uid = 3;"
    );
    assert_eq!(
        statements::select_clients(&ClientFilter::new().with_uid(3).with_name("a'b".to_string())),
        "SELECT uid, name, balance, detail FROM clients WHERE (name = 'a''b') AND (uid = 3);"
    );
}

#[test]
fn alias_statements() {
    assert_eq!(
        statements::insert_alias(4, "al'"),
        "INSERT INTO aliases (uid, alias) VALUES (4, 'al''');"
    );
    assert_eq!(
        statements::select_aliases(4),
        "SELECT aid, uid, alias FROM aliases WHERE uid = 4;"
    );
    let a = Alias { alias: "new".to_string(), aid: 9, uid: 4 };
    assert_eq!(statements::update_alias(&a), "UPDATE aliases SET alias = 'new' WHERE aid = 9;");
}

#[test]
fn balance_statements() {
    assert_eq!(
        statements::recompute_balance(8),
        "UPDATE clients SET balance = \
         (SELECT COALESCE(SUM(payment), 0) FROM transactions WHERE uid = 8) - \
         (SELECT COALESCE(SUM(price), 0) FROM transactions WHERE uid = 8) WHERE uid = 8;"
    );
    assert_eq!(
        statements::adjust_balance(8, 25),
        "UPDATE clients SET balance = balance + 25 WHERE uid = 8;"
    );
    assert_eq!(
        statements::adjust_balance(8, -25),
        "UPDATE clients SET balance = balance + -25 WHERE uid = 8;"
    );
}

#[test]
fn transaction_statements() {
    assert_eq!(
        statements::insert_transaction(Some(2), 1700000000, 1000, 400, "pague weeee"),
        "INSERT INTO transactions (uid, date, price, payment, detail) \
         VALUES (2, 1700000000, 1000, 400, 'pague weeee');"
    );
    assert_eq!(
        statements::insert_transaction(None, 0, -5, -5, ""),
        "INSERT INTO transactions (uid, date, price, payment, detail) \
         VALUES (NULL, 0, -5, -5, '');"
    );
    let t = Transaction {
        detail: Some("d".to_string()),
        date: 77,
        uid: Some(3),
        tid: 11,
        price: 1,
        payment: 2,
    };
    assert_eq!(
        statements::update_transaction(&t),
        "UPDATE transactions SET detail = 'd', date = 77, uid = 3 WHERE tid = 11;"
    );
    let t = Transaction { detail: None, date: 77, uid: None, tid: 11, price: 1, payment: 2 };
    assert_eq!(
        statements::update_transaction(&t),
        "UPDATE transactions SET detail = NULL, date = 77, uid = NULL WHERE tid = 11;"
    );
    assert_eq!(
        statements::adjust_payment(11, -30),
        "UPDATE transactions SET payment = payment + -30 WHERE tid = 11;"
    );
    assert_eq!(
        statements::set_price(11, 450),
        "UPDATE transactions SET price = 450 WHERE tid = 11;"
    );
}

#[test]
fn select_transactions_orders_its_conditions() {
    let columns = "SELECT tid, uid, date, price, payment, detail FROM transactions";
    assert_eq!(
        statements::select_transactions(&TransactionFilter::new()),
        format!("{};", columns)
    );
    assert_eq!(
        statements::select_transactions(&TransactionFilter::new().with_tid(4)),
        format!("{} WHERE tid = 4;", columns)
    );
    assert_eq!(
        statements::select_transactions(&TransactionFilter::new().with_date_range(10, 20)),
        format!("{} WHERE (date >= 10) AND (date <= 20);", columns)
    );
    assert_eq!(
        statements::select_transactions(
            &TransactionFilter::new()
                .with_price_range(-5, 500)
                .with_tid(4)
                .with_uid(2)
                .with_date_range(10, 20)
        ),
        format!(
            "{} WHERE (date >= 10) AND (date <= 20) AND (uid = 2) AND (tid = 4) \
             AND (price >= -5) AND (price <= 500);",
            columns
        )
    );
}
