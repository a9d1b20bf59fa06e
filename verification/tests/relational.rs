use ledger_store::database::clients::Alias;
use ledger_store::database::clients::Client;
use ledger_store::database::clients::ClientDB;
use ledger_store::database::clients::ClientError;
use ledger_store::database::clients::ClientFilter;
use ledger_store::database::schema_step;
use ledger_store::database::transactions::Transaction;
use ledger_store::database::transactions::TransactionError;
use ledger_store::database::transactions::TransactionFilter;
use ledger_store::database::transactions::TransactionsDB;
use ledger_store::database::InitializeDB;
use rusqlite::Connection;

fn open() -> Connection {
    let mut conn = Connection::open_in_memory().unwrap();
    conn.initialize().unwrap();
    conn
}

fn client(conn: &Connection, uid: u64) -> Client {
    let mut found = conn.get_clients(ClientFilter::new().with_uid(uid)).unwrap();
    assert_eq!(found.len(), 1);
    found.pop().unwrap()
}

#[test]
fn schema_has_four_steps() {
    assert_eq!(schema_step(0), "PRAGMA foreign_keys = ON;");
    assert!(schema_step(1).contains("CREATE TABLE IF NOT EXISTS clients"));
    assert!(schema_step(2).contains("CREATE TABLE IF NOT EXISTS transactions"));
    assert!(schema_step(2).contains("ON DELETE SET NULL"));
    assert!(schema_step(3).contains("CREATE TABLE IF NOT EXISTS aliases"));
    assert!(schema_step(3).contains("ON DELETE CASCADE"));
}

#[test]
fn initialize_may_be_repeated() {
    let mut conn = open();
    conn.add_client("ann", "d").unwrap();
    assert!(conn.initialize().is_ok());
    assert_eq!(conn.get_clients(ClientFilter::new()).unwrap().len(), 1);
}

#[test]
fn end_to_end_relational() {
    let mut conn = open();
    conn.add_client("lul", "1").unwrap();
    let mut found = conn.get_clients(ClientFilter::new().with_name("lul".to_string())).unwrap();
    assert_eq!(found.len(), 1);
    let c = found.pop().unwrap();
    assert_eq!(c.balance, 0);
    assert_eq!(c.detail, Some("1".to_string()));
    assert_eq!(
        conn.add_transaction(Some(&c), 1000, 400, "pague weeee".to_string(), 1700000000),
        Ok(())
    );
    assert_eq!(conn.update_client_balance(&c), Ok(()));
    let again = conn.get_clients(ClientFilter::new().with_name("lul".to_string())).unwrap();
    assert_eq!(again.len(), 1);
    assert_eq!(again[0].balance, -600);
}

#[test]
fn relational_add_client_hands_back_the_stored_client() {
    let mut conn = open();
    let a = conn.add_client("o'brien", "it's").unwrap();
    let b = conn.add_client("bob", "").unwrap();
    assert_eq!(a.cid, 1);
    assert_eq!(b.cid, 2);
    let stored = client(&conn, 1);
    assert_eq!(stored.name, "o'brien");
    assert_eq!(stored.detail, Some("it's".to_string()));
    assert_eq!(stored.balance, 0);
    assert_eq!(conn.add_client("", "d").err(), Some(ClientError::ValidationError));
    assert_eq!(conn.get_clients(ClientFilter::new()).unwrap().len(), 2);
}

#[test]
fn relational_update_and_not_found() {
    let mut conn = open();
    let a = conn.add_client("ann", "d").unwrap();
    conn.update_client_balance_delta(a.cid, 25).unwrap();
    let change = Client { name: "anna".to_string(), detail: None, balance: 999, cid: a.cid };
    assert_eq!(conn.update_client(&change), Ok(()));
    let stored = client(&conn, a.cid);
    assert_eq!(stored.name, "anna");
    assert_eq!(stored.detail, None);
    assert_eq!(stored.balance, 25);
    let ghost = Client { name: "x".to_string(), detail: None, balance: 0, cid: 42 };
    assert_eq!(conn.update_client(&ghost), Err(ClientError::NotFound));
    assert_eq!(conn.update_client_balance(&ghost), Err(ClientError::NotFound));
    assert_eq!(conn.update_client_balance_delta(42, 1), Err(ClientError::NotFound));
    assert_eq!(conn.add_alias(&ghost, "a"), Err(ClientError::NotFound));
    let blank = Client { name: String::new(), detail: None, balance: 0, cid: a.cid };
    assert_eq!(conn.update_client(&blank), Err(ClientError::ValidationError));
    let alias = Alias { alias: "a".to_string(), aid: 9, uid: a.cid };
    assert_eq!(conn.update_alias(&alias), Err(ClientError::NotFound));
}

#[test]
fn relational_balance_without_transactions_is_zero() {
    let mut conn = open();
    let a = conn.add_client("ann", "d").unwrap();
    assert_eq!(conn.update_client_balance(&a), Ok(()));
    assert_eq!(client(&conn, a.cid).balance, 0);
}

#[test]
fn relational_adjust_and_its_opposite() {
    let mut conn = open();
    let a = conn.add_client("ann", "d").unwrap();
    assert_eq!(conn.update_client_balance_delta(a.cid, -250), Ok(()));
    assert_eq!(client(&conn, a.cid).balance, -250);
    assert_eq!(conn.update_client_balance_delta(a.cid, 250), Ok(()));
    assert_eq!(client(&conn, a.cid).balance, 0);
}

#[test]
fn relational_anonymous_transaction_must_be_paid_in_full() {
    let mut conn = open();
    assert_eq!(conn.add_transaction(None, 100, 100, "ok".to_string(), 1), Ok(()));
    assert_eq!(
        conn.add_transaction(None, 100, 40, "owing".to_string(), 1),
        Err(TransactionError::InvalidPaymentOnAnonClient)
    );
    let all = conn.get_transactions(TransactionFilter::new()).unwrap();
    assert_eq!(all.len(), 1);
    assert_eq!(all[0].uid, None);
    assert_eq!((all[0].price, all[0].payment, all[0].date), (100, 100, 1));
    assert_eq!(all[0].detail, Some("ok".to_string()));
    let ghost = Client { name: "x".to_string(), detail: None, balance: 0, cid: 42 };
    assert_eq!(
        conn.add_transaction(Some(&ghost), 1, 1, "t".to_string(), 1),
        Err(TransactionError::NotFound)
    );
}

#[test]
fn relational_remove_client_cascades() {
    let mut conn = open();
    let a = conn.add_client("ann", "d").unwrap();
    let b = conn.add_client("bob", "d").unwrap();
    conn.add_alias(&a, "annie").unwrap();
    conn.add_alias(&b, "bobby").unwrap();
    conn.add_transaction(Some(&a), 10, 4, "a".to_string(), 1).unwrap();
    conn.add_transaction(Some(&b), 20, 5, "b".to_string(), 2).unwrap();
    assert_eq!(conn.get_aliases(&a).unwrap().len(), 1);
    assert_eq!(conn.remove_client(a.cid), Ok(()));
    assert_eq!(conn.get_aliases(&a).unwrap().len(), 0);
    assert_eq!(conn.get_aliases(&b).unwrap().len(), 1);
    let all = conn.get_transactions(TransactionFilter::new()).unwrap();
    assert_eq!(all.len(), 2);
    assert_eq!(all[0].uid, None);
    assert_eq!((all[0].price, all[0].payment), (10, 4));
    assert_eq!(all[1].uid, Some(b.cid));
    assert_eq!(conn.remove_client(a.cid), Ok(()));
}

#[test]
fn relational_aliases() {
    let mut conn = open();
    let a = conn.add_client("ann", "d").unwrap();
    conn.add_alias(&a, "annie").unwrap();
    conn.add_alias(&a, "an'na").unwrap();
    let mut found = conn.get_aliases(&a).unwrap();
    assert_eq!(found.len(), 2);
    assert_eq!(found[1].alias, "an'na");
    assert_eq!(found[1].uid, a.cid);
    let mut alias = found.remove(0);
    alias.alias = "nan".to_string();
    assert_eq!(conn.update_alias(&alias), Ok(()));
    assert_eq!(conn.get_aliases(&a).unwrap()[0].alias, "nan");
    assert_eq!(conn.remove_alias(alias.aid), Ok(()));
    assert_eq!(conn.remove_alias(alias.aid), Ok(()));
    assert_eq!(conn.get_aliases(&a).unwrap().len(), 1);
}

#[test]
fn relational_transactions() {
    let mut conn = open();
    let a = conn.add_client("ann", "d").unwrap();
    conn.add_transaction(Some(&a), 100, 30, "t".to_string(), 5).unwrap();
    conn.add_transaction(None, 7, 7, "u".to_string(), 50).unwrap();
    let found = conn
        .get_transactions(TransactionFilter::new().with_uid(a.cid).with_date_range(5, 5))
        .unwrap();
    assert_eq!(found.len(), 1);
    let tid = found[0].tid;
    assert_eq!(conn.update_transaction_price(tid, 120), Ok(()));
    assert_eq!(conn.update_transaction_balance(tid, -15), Ok(()));
    let t = conn.get_transactions(TransactionFilter::new().with_tid(tid)).unwrap().remove(0);
    assert_eq!((t.price, t.payment, t.date, t.uid), (120, 15, 5, Some(a.cid)));
    assert_eq!(client(&conn, a.cid).balance, 0);
    let change = Transaction { detail: None, date: 9, uid: None, tid, price: 1, payment: 2 };
    assert_eq!(conn.update_transaction(&change), Ok(()));
    let t = conn.get_transactions(TransactionFilter::new().with_tid(tid)).unwrap().remove(0);
    assert_eq!((t.price, t.payment, t.date, t.uid), (120, 15, 9, None));
    assert_eq!(t.detail, None);
    assert_eq!(conn.update_transaction_price(999, 1), Err(TransactionError::NotFound));
    assert_eq!(conn.update_transaction_balance(999, 1), Err(TransactionError::NotFound));
    let missing = Transaction { detail: None, date: 9, uid: None, tid: 999, price: 1, payment: 2 };
    assert_eq!(conn.update_transaction(&missing), Err(TransactionError::NotFound));
    let by_price = conn
        .get_transactions(TransactionFilter::new().with_price_range(7, 7))
        .unwrap();
    assert_eq!(by_price.len(), 1);
    assert_eq!(by_price[0].detail, Some("u".to_string()));
    assert_eq!(conn.remove_transaction(tid), Ok(()));
    assert_eq!(conn.remove_transaction(tid), Ok(()));
    assert_eq!(conn.get_transactions(TransactionFilter::new()).unwrap().len(), 1);
}

#[test]
fn relational_read_skips_a_malformed_row() {
    let mut conn = open();
    conn.add_client("ann", "d").unwrap();
    conn.execute("INSERT INTO clients (name, balance) VALUES ('odd', 'much')", []).unwrap();
    conn.add_client("bob", "d").unwrap();
    let found = conn.get_clients(ClientFilter::new()).unwrap();
    assert_eq!(found.iter().map(|c| c.name.as_str()).collect::<Vec<&str>>(), vec!["ann", "bob"]);
}

#[test]
fn relational_failure_is_a_backend_error() {
    let mut conn = Connection::open_in_memory().unwrap();
    assert_eq!(conn.add_client("ann", "d").err(), Some(ClientError::BackendError));
    assert_eq!(conn.get_clients(ClientFilter::new()).err(), Some(ClientError::BackendError));
    assert_eq!(conn.remove_client(1), Err(ClientError::BackendError));
    assert_eq!(conn.remove_alias(1), Err(ClientError::BackendError));
    assert_eq!(
        conn.get_transactions(TransactionFilter::new()).err(),
        Some(TransactionError::BackendError)
    );
    assert_eq!(conn.remove_transaction(1), Err(TransactionError::BackendError));
    assert_eq!(
        conn.add_transaction(None, 1, 1, "t".to_string(), 1),
        Err(TransactionError::BackendError)
    );
}
