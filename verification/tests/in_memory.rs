use ledger_store::database::clients::Alias;
use ledger_store::database::clients::Client;
use ledger_store::database::clients::ClientDB;
use ledger_store::database::clients::ClientError;
use ledger_store::database::clients::ClientFilter;
use ledger_store::database::in_memory_database::InMemDB;
use ledger_store::database::sequences::find;
use ledger_store::database::sequences::Identified;
use ledger_store::database::transactions::Transaction;
use ledger_store::database::transactions::TransactionError;
use ledger_store::database::transactions::TransactionFilter;
use ledger_store::database::transactions::TransactionsDB;

fn client(db: &InMemDB, uid: u64) -> Client {
    let mut found = db.get_clients(ClientFilter::new().with_uid(uid)).unwrap();
    assert_eq!(found.len(), 1);
    found.pop().unwrap()
}

fn transaction(db: &InMemDB, tid: u64) -> Transaction {
    let mut found = db.get_transactions(TransactionFilter::new().with_tid(tid)).unwrap();
    assert_eq!(found.len(), 1);
    found.pop().unwrap()
}

#[test]
fn imdb_add_client() {
    let mut imdb = ledger_store::database::in_memory_database::InMemDB::new();

    imdb.add_client("larry", "lolasd").unwrap();

    println!("{:?}", imdb);
}

#[test]
fn imdb_update_client() {
    let mut imdb = ledger_store::database::in_memory_database::InMemDB::new();

    imdb.add_client("larry", "lolasd").unwrap();

    let mut c = imdb
        .get_clients(ClientFilter::new().with_name("larry".to_string()))
        .unwrap()
        .pop()
        .unwrap();
    c.name = "astracalustro".to_string();
    imdb.update_client(&c).unwrap();

    println!("{:?}", imdb);
}

#[test]
fn identities_start_at_one_and_grow() {
    let mut db = InMemDB::new();
    assert_eq!(db.last_uid(), 0);
    assert_eq!(db.get_next_uid(), 1);
    assert_eq!(db.get_next_uid(), 2);
    assert_eq!(db.last_uid(), 2);
    let c = db.add_client("ann", "x").unwrap();
    assert_eq!(c.uid(), 3);
    db.add_alias(&c, "annie").unwrap();
    db.add_transaction(Some(&c), 10, 10, "t".to_string(), 7).unwrap();
    let d = db.add_client("bob", "y").unwrap();
    assert_eq!(d.cid, 6);
    let aliases = db.get_aliases(&c).unwrap();
    assert_eq!(aliases[0].aid, 4);
    assert_eq!(transaction(&db, 5).tid, 5);
}

#[test]
fn added_client_is_handed_back_as_stored() {
    let mut db = InMemDB::new();
    let c = db.add_client("larry", "lolasd").unwrap();
    assert_eq!(c.cid, 1);
    assert_eq!(c.name, "larry");
    assert_eq!(c.detail, Some("lolasd".to_string()));
    assert_eq!(c.balance, 0);
    let stored = client(&db, 1);
    assert_eq!(stored.name, "larry");
    assert_eq!(stored.detail, Some("lolasd".to_string()));
    assert_eq!(stored.balance, 0);
    assert_eq!(db.get_aliases(&c).unwrap().len(), 0);
}

#[test]
fn empty_name_is_refused_and_nothing_is_written() {
    let mut db = InMemDB::new();
    assert_eq!(db.add_client("", "d").err(), Some(ClientError::ValidationError));
    assert_eq!(db.get_clients(ClientFilter::new()).unwrap().len(), 0);
    let c = db.add_client("ann", "d").unwrap();
    assert_eq!(c.cid, 1);
    let blank = Client { name: String::new(), detail: None, balance: 0, cid: 1 };
    assert_eq!(db.update_client(&blank), Err(ClientError::ValidationError));
    assert_eq!(client(&db, 1).name, "ann");
}

#[test]
fn update_client_replaces_name_and_detail_and_keeps_the_balance() {
    let mut db = InMemDB::new();
    let c = db.add_client("ann", "d").unwrap();
    db.update_client_balance_delta(c.cid, 25).unwrap();
    let change = Client { name: "anna".to_string(), detail: None, balance: 999, cid: c.cid };
    assert_eq!(db.update_client(&change), Ok(()));
    let stored = client(&db, c.cid);
    assert_eq!(stored.name, "anna");
    assert_eq!(stored.detail, None);
    assert_eq!(stored.balance, 25);
}

#[test]
fn update_of_a_missing_client_is_not_found() {
    let mut db = InMemDB::new();
    db.add_client("ann", "d").unwrap();
    let ghost = Client { name: "x".to_string(), detail: None, balance: 0, cid: 42 };
    assert_eq!(db.update_client(&ghost), Err(ClientError::NotFound));
    assert_eq!(db.update_client_balance(&ghost), Err(ClientError::NotFound));
    assert_eq!(db.update_client_balance_delta(42, 1), Err(ClientError::NotFound));
    assert_eq!(db.add_alias(&ghost, "a"), Err(ClientError::NotFound));
    let alias = Alias { alias: "a".to_string(), aid: 9, uid: 1 };
    assert_eq!(db.update_alias(&alias), Err(ClientError::NotFound));
}

#[test]
fn filters_combine_with_and() {
    let mut db = InMemDB::new();
    db.add_client("ann", "1").unwrap();
    db.add_client("bob", "2").unwrap();
    db.add_client("ann", "3").unwrap();
    let all = db.get_clients(ClientFilter::new()).unwrap();
    assert_eq!(all.iter().map(|c| c.cid).collect::<Vec<u64>>(), vec![1, 2, 3]);
    let anns = db.get_clients(ClientFilter::new().with_name("ann".to_string())).unwrap();
    assert_eq!(anns.iter().map(|c| c.cid).collect::<Vec<u64>>(), vec![1, 3]);
    let third = db
        .get_clients(ClientFilter::new().with_name("ann".to_string()).with_uid(3))
        .unwrap();
    assert_eq!(third.iter().map(|c| c.cid).collect::<Vec<u64>>(), vec![3]);
    let none = db
        .get_clients(ClientFilter::new().with_name("bob".to_string()).with_uid(3))
        .unwrap();
    assert_eq!(none.len(), 0);
}

#[test]
fn balance_of_a_client_without_transactions_stays_zero() {
    let mut db = InMemDB::new();
    let c = db.add_client("ann", "d").unwrap();
    let other = db.add_client("bob", "d").unwrap();
    assert_eq!(client(&db, c.cid).balance, 0);
    db.add_alias(&c, "annie").unwrap();
    db.add_transaction(Some(&other), 50, 20, "t".to_string(), 1).unwrap();
    db.add_transaction(None, 5, 5, "walk-in".to_string(), 2).unwrap();
    db.update_client_balance(&other).unwrap();
    db.update_client_balance(&c).unwrap();
    assert_eq!(client(&db, c.cid).balance, 0);
    assert_eq!(client(&db, other.cid).balance, -30);
}

#[test]
fn recomputed_balance_is_paid_less_billed_over_own_transactions() {
    let mut db = InMemDB::new();
    let a = db.add_client("ann", "d").unwrap();
    let b = db.add_client("bob", "d").unwrap();
    db.add_transaction(Some(&a), 1000, 400, "one".to_string(), 1).unwrap();
    db.add_transaction(Some(&b), 70, 100, "two".to_string(), 2).unwrap();
    db.add_transaction(Some(&a), 50, 500, "three".to_string(), 3).unwrap();
    db.add_transaction(None, 9, 9, "four".to_string(), 4).unwrap();
    assert_eq!(client(&db, a.cid).balance, 0);
    assert_eq!(db.update_client_balance(&a), Ok(()));
    assert_eq!(client(&db, a.cid).balance, (400 + 500) - (1000 + 50));
    assert_eq!(client(&db, b.cid).balance, 0);
    assert_eq!(db.update_client_balance(&b), Ok(()));
    assert_eq!(client(&db, b.cid).balance, 30);
}

#[test]
fn adjusting_by_an_amount_and_its_opposite_restores_the_balance() {
    let mut db = InMemDB::new();
    let c = db.add_client("ann", "d").unwrap();
    db.update_client_balance_delta(c.cid, 17).unwrap();
    assert_eq!(db.update_client_balance_delta(c.cid, -250), Ok(()));
    assert_eq!(client(&db, c.cid).balance, -233);
    assert_eq!(db.update_client_balance_delta(c.cid, 250), Ok(()));
    assert_eq!(client(&db, c.cid).balance, 17);
}

#[test]
fn adjusting_agrees_with_recomputing() {
    let mut db = InMemDB::new();
    let c = db.add_client("ann", "d").unwrap();
    db.add_transaction(Some(&c), 1000, 400, "t".to_string(), 1).unwrap();
    db.update_client_balance_delta(c.cid, 400 - 1000).unwrap();
    let adjusted = client(&db, c.cid).balance;
    db.update_client_balance(&c).unwrap();
    assert_eq!(client(&db, c.cid).balance, adjusted);
    assert_eq!(adjusted, -600);
}

#[test]
fn a_balance_that_does_not_fit_is_a_backend_error() {
    let mut db = InMemDB::new();
    let c = db.add_client("ann", "d").unwrap();
    assert_eq!(db.update_client_balance_delta(c.cid, 2147483647), Ok(()));
    assert_eq!(db.update_client_balance_delta(c.cid, 1), Err(ClientError::BackendError));
    assert_eq!(client(&db, c.cid).balance, 2147483647);
    assert_eq!(db.update_client_balance_delta(c.cid, i64::MIN), Err(ClientError::BackendError));
    db.add_transaction(Some(&c), 0, i64::MAX, "big".to_string(), 1).unwrap();
    db.add_transaction(Some(&c), i64::MIN, i64::MAX, "bigger".to_string(), 2).unwrap();
    assert_eq!(db.update_client_balance(&c), Err(ClientError::BackendError));
    assert_eq!(client(&db, c.cid).balance, 2147483647);
}

#[test]
fn anonymous_transaction_must_be_paid_in_full() {
    let mut db = InMemDB::new();
    assert_eq!(db.add_transaction(None, 100, 100, "ok".to_string(), 1), Ok(()));
    assert_eq!(
        db.add_transaction(None, 100, 40, "owing".to_string(), 1),
        Err(TransactionError::InvalidPaymentOnAnonClient)
    );
    let all = db.get_transactions(TransactionFilter::new()).unwrap();
    assert_eq!(all.len(), 1);
    assert_eq!(all[0].uid, None);
    assert_eq!(all[0].price, 100);
    assert_eq!(all[0].payment, 100);
    assert_eq!(all[0].detail, Some("ok".to_string()));
    assert_eq!(all[0].date, 1);
}

#[test]
fn transaction_for_a_missing_client_is_not_found() {
    let mut db = InMemDB::new();
    let ghost = Client { name: "x".to_string(), detail: None, balance: 0, cid: 42 };
    assert_eq!(
        db.add_transaction(Some(&ghost), 1, 1, "t".to_string(), 1),
        Err(TransactionError::NotFound)
    );
    assert_eq!(db.update_transaction_price(1, 5), Err(TransactionError::NotFound));
    assert_eq!(db.update_transaction_balance(1, 5), Err(TransactionError::NotFound));
    db.add_transaction(None, 1, 1, "t".to_string(), 1).unwrap();
    let mut t = transaction(&db, 1);
    t.uid = Some(42);
    assert_eq!(db.update_transaction(&t), Err(TransactionError::NotFound));
    t.uid = None;
    t.tid = 77;
    assert_eq!(db.update_transaction(&t), Err(TransactionError::NotFound));
}

#[test]
fn removing_a_client_cascades() {
    let mut db = InMemDB::new();
    let a = db.add_client("ann", "d").unwrap();
    let b = db.add_client("bob", "d").unwrap();
    db.add_alias(&a, "annie").unwrap();
    db.add_alias(&b, "bobby").unwrap();
    db.add_alias(&a, "anna").unwrap();
    db.add_transaction(Some(&a), 10, 4, "a".to_string(), 1).unwrap();
    db.add_transaction(Some(&b), 20, 5, "b".to_string(), 2).unwrap();
    assert_eq!(db.get_aliases(&a).unwrap().len(), 2);
    assert_eq!(db.remove_client(a.cid), Ok(()));
    assert_eq!(db.get_aliases(&a).unwrap().len(), 0);
    assert_eq!(db.get_aliases(&b).unwrap().len(), 1);
    assert_eq!(db.get_clients(ClientFilter::new()).unwrap().len(), 1);
    let all = db.get_transactions(TransactionFilter::new()).unwrap();
    assert_eq!(all.len(), 2);
    assert_eq!(all[0].uid, None);
    assert_eq!(all[0].price, 10);
    assert_eq!(all[0].payment, 4);
    assert_eq!(all[1].uid, Some(b.cid));
    assert_eq!(db.remove_client(a.cid), Ok(()));
    assert_eq!(db.remove_client(9999), Ok(()));
}

#[test]
fn removing_an_alias_twice_is_no_error() {
    let mut db = InMemDB::new();
    let a = db.add_client("ann", "d").unwrap();
    db.add_alias(&a, "annie").unwrap();
    db.add_alias(&a, "anna").unwrap();
    let first = db.get_aliases(&a).unwrap()[0].aid;
    assert_eq!(db.remove_alias(first), Ok(()));
    assert_eq!(db.remove_alias(first), Ok(()));
    let left = db.get_aliases(&a).unwrap();
    assert_eq!(left.len(), 1);
    assert_eq!(left[0].alias, "anna");
    assert_eq!(left[0].uid, a.cid);
}

#[test]
fn update_alias_rewrites_the_text_and_keeps_the_owner() {
    let mut db = InMemDB::new();
    let a = db.add_client("ann", "d").unwrap();
    let b = db.add_client("bob", "d").unwrap();
    db.add_alias(&a, "annie").unwrap();
    let mut alias = db.get_aliases(&a).unwrap().pop().unwrap();
    alias.alias = "nan".to_string();
    alias.uid = b.cid;
    assert_eq!(db.update_alias(&alias), Ok(()));
    let stored = db.get_aliases(&a).unwrap();
    assert_eq!(stored.len(), 1);
    assert_eq!(stored[0].alias, "nan");
    assert_eq!(db.get_aliases(&b).unwrap().len(), 0);
}

#[test]
fn transaction_updates_touch_only_their_fields() {
    let mut db = InMemDB::new();
    let a = db.add_client("ann", "d").unwrap();
    db.add_transaction(Some(&a), 100, 30, "t".to_string(), 5).unwrap();
    let tid = db.get_transactions(TransactionFilter::new()).unwrap()[0].tid;
    assert_eq!(db.update_transaction_price(tid, 120), Ok(()));
    assert_eq!(db.update_transaction_balance(tid, 15), Ok(()));
    let t = transaction(&db, tid);
    assert_eq!((t.price, t.payment, t.date, t.uid), (120, 45, 5, Some(a.cid)));
    assert_eq!(client(&db, a.cid).balance, 0);
    let change = Transaction {
        detail: None,
        date: 9,
        uid: None,
        tid,
        price: 1,
        payment: 2,
    };
    assert_eq!(db.update_transaction(&change), Ok(()));
    let t = transaction(&db, tid);
    assert_eq!((t.price, t.payment, t.date, t.uid), (120, 45, 9, None));
    assert_eq!(t.detail, None);
    assert_eq!(
        db.update_transaction_balance(tid, i64::MAX),
        Err(TransactionError::BackendError)
    );
    assert_eq!(transaction(&db, tid).payment, 45);
    assert_eq!(db.remove_transaction(tid), Ok(()));
    assert_eq!(db.remove_transaction(tid), Ok(()));
    assert_eq!(db.get_transactions(TransactionFilter::new()).unwrap().len(), 0);
}

#[test]
fn transaction_filters_take_inclusive_ranges() {
    let mut db = InMemDB::new();
    let a = db.add_client("ann", "d").unwrap();
    db.add_transaction(Some(&a), 10, 0, "a".to_string(), 100).unwrap();
    db.add_transaction(None, 20, 20, "b".to_string(), 200).unwrap();
    db.add_transaction(Some(&a), 30, 0, "c".to_string(), 300).unwrap();
    let ids = |f: TransactionFilter| {
        db.get_transactions(f).unwrap().iter().map(|t| t.tid).collect::<Vec<u64>>()
    };
    assert_eq!(ids(TransactionFilter::new()), vec![2, 3, 4]);
    assert_eq!(ids(TransactionFilter::new().with_date_range(100, 200)), vec![2, 3]);
    assert_eq!(ids(TransactionFilter::new().with_date_range(101, 199)), Vec::<u64>::new());
    assert_eq!(ids(TransactionFilter::new().with_price_range(20, 30)), vec![3, 4]);
    assert_eq!(ids(TransactionFilter::new().with_uid(a.cid)), vec![2, 4]);
    assert_eq!(ids(TransactionFilter::new().with_uid(a.cid).with_price_range(11, 30)), vec![4]);
    assert_eq!(ids(TransactionFilter::new().with_tid(3)), vec![3]);
    assert_eq!(ids(TransactionFilter::new().with_tid(3).with_uid(a.cid)), Vec::<u64>::new());
}

#[test]
fn end_to_end_in_memory() {
    let mut db = InMemDB::new();
    db.add_client("lul", "1").unwrap();
    let mut found = db.get_clients(ClientFilter::new().with_name("lul".to_string())).unwrap();
    assert_eq!(found.len(), 1);
    let c = found.pop().unwrap();
    assert_eq!(c.balance, 0);
    assert_eq!(
        db.add_transaction(Some(&c), 1000, 400, "pague weeee".to_string(), 1700000000),
        Ok(())
    );
    assert_eq!(db.update_client_balance(&c), Ok(()));
    let again = db.get_clients(ClientFilter::new().with_name("lul".to_string())).unwrap();
    assert_eq!(again.len(), 1);
    assert_eq!(again[0].balance, -600);
}

#[test]
fn clients_are_the_same_by_identity_alone() {
    let a = Client { name: "ann".to_string(), detail: None, balance: 1, cid: 7 };
    let b = Client { name: "bob".to_string(), detail: Some("x".to_string()), balance: 2, cid: 7 };
    let c = Client { name: "ann".to_string(), detail: None, balance: 1, cid: 8 };
    assert!(a == b);
    assert!(a != c);
    assert!(a < c);
    assert_eq!(a.partial_cmp(&b), Some(std::cmp::Ordering::Equal));
    assert_eq!(c.partial_cmp(&a), Some(std::cmp::Ordering::Greater));
    let copy = a.clone();
    assert_eq!(copy.name, "ann");
    assert_eq!(copy.balance, 1);
}

#[test]
fn errors_in_words() {
    assert_eq!(ClientError::ValidationError.message(), "ValidationError");
    assert_eq!(ClientError::NotFound.message(), "NotFound");
    assert_eq!(ClientError::BackendError.message(), "BackendError");
    assert_eq!(
        TransactionError::InvalidPaymentOnAnonClient.message(),
        "Invalid payment on anon client"
    );
    assert_eq!(TransactionError::NotFound.message(), "NotFound");
    assert_eq!(TransactionError::BackendError.message(), "BackendError");
}

#[test]
fn find_halves_its_way_to_the_identity() {
    let clients: Vec<Client> = [2u64, 3, 5, 8, 13, 21]
        .iter()
        .map(|id| Client { name: "c".to_string(), detail: None, balance: 0, cid: *id })
        .collect();
    assert_eq!(clients[4].id(), 13);
    assert_eq!(find(&clients, 2), Some(0));
    assert_eq!(find(&clients, 8), Some(3));
    assert_eq!(find(&clients, 21), Some(5));
    assert_eq!(find(&clients, 1), None);
    assert_eq!(find(&clients, 9), None);
    assert_eq!(find(&clients, 22), None);
    let none: Vec<Client> = Vec::new();
    assert_eq!(find(&none, 1), None);
    let alias = Alias { alias: "a".to_string(), aid: 4, uid: 9 };
    assert_eq!(alias.id(), 4);
}
