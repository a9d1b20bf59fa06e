//! The relational engine behind the storage interface.
//!
//! Every operation builds its statement, sends it, and makes of the answer
//! what `engine` and `rows` say. Nothing is known of what the engine
//! answers, so an operation says which statement it sent and how its
//! result comes from the answer. The store relies on the schema of
//! `InitializeDB`: removing a client removes its aliases and leaves its
//! transactions without an owner because the tables say so.

use rusqlite::Connection;
use vstd::prelude::*;

use crate::database::clients::Alias;
use crate::database::clients::Client;
use crate::database::clients::ClientDB;
use crate::database::clients::ClientError;
use crate::database::clients::ClientView;
use crate::database::clients::Store;
use crate::database::clients::UfilterView;
use crate::database::clients::Ufilter;
use crate::database::builder::rendered;
use crate::database::engine::changed_any;
use crate::database::engine::changed_one;
use crate::database::engine::execute;
use crate::database::engine::last_insert_rowid;
use crate::database::engine::may_change;
use crate::database::engine::must_change;
use crate::database::engine::prepare;
use crate::database::engine::query_rows;
use crate::database::engine::Fault;
use crate::database::engine::Rows;
use crate::database::rows::alias_views;
use crate::database::rows::aliases_from_rows;
use crate::database::rows::aliases_in;
use crate::database::rows::client_views;
use crate::database::rows::clients_from_rows;
use crate::database::rows::clients_in;
use crate::database::rows::transaction_views;
use crate::database::rows::transactions_from_rows;
use crate::database::rows::transactions_in;
use crate::database::statements;
use crate::database::statements::add_to_column_draft;
use crate::database::statements::delete_draft;
use crate::database::statements::insert_alias_draft;
use crate::database::statements::insert_client_draft;
use crate::database::statements::insert_transaction_draft;
use crate::database::statements::recompute_balance_draft;
use crate::database::statements::select_aliases_draft;
use crate::database::statements::select_clients_draft;
use crate::database::statements::select_transactions_draft;
use crate::database::statements::set_price_draft;
use crate::database::statements::update_alias_draft;
use crate::database::statements::update_client_draft;
use crate::database::statements::update_transaction_draft;
use crate::database::transactions::owner_of;
use crate::database::transactions::Tfilter;
use crate::database::transactions::Transaction;
use crate::database::transactions::TransactionError;
use crate::database::transactions::TransactionsDB;

verus! {

/// A fault of the engine as an error of an operation on clients.
pub open spec fn client_fault(f: Fault) -> ClientError {
    match f {
        Fault::NotFound => ClientError::NotFound,
        Fault::Backend => ClientError::BackendError,
    }
}

/// A fault of the engine as an error of an operation on transactions.
pub open spec fn transaction_fault(f: Fault) -> TransactionError {
    match f {
        Fault::NotFound => TransactionError::NotFound,
        Fault::Backend => TransactionError::BackendError,
    }
}

/// What an operation on clients ends in, from what the store made of the
/// answer of the engine.
pub open spec fn client_result(r: Result<(), Fault>) -> Result<(), ClientError> {
    match r {
        Ok(()) => Ok(()),
        Err(f) => Err(client_fault(f)),
    }
}

/// What an operation on transactions ends in, from what the store made of
/// the answer of the engine.
pub open spec fn transaction_result(r: Result<(), Fault>) -> Result<(), TransactionError> {
    match r {
        Ok(()) => Ok(()),
        Err(f) => Err(transaction_fault(f)),
    }
}

/// A fault of the engine as an error of an operation on clients.
pub fn client_error_of(f: Fault) -> (e: ClientError)
    ensures
        e == client_fault(f),
{
    match f {
        Fault::NotFound => ClientError::NotFound,
        Fault::Backend => ClientError::BackendError,
    }
}

/// A fault of the engine as an error of an operation on transactions.
pub fn transaction_error_of(f: Fault) -> (e: TransactionError)
    ensures
        e == transaction_fault(f),
{
    match f {
        Fault::NotFound => TransactionError::NotFound,
        Fault::Backend => TransactionError::BackendError,
    }
}

/// The client that was just stored under the row identity `rowid`. The
/// store has no client with a negative identity: such a row identity is
/// taken for a failure of the engine.
pub fn new_client(name: &str, detail: &str, rowid: i64) -> (res: Result<Client, ClientError>)
    ensures
        stored_as(name@, detail@, rowid, res),
{
    if rowid < 0 {
        Err(ClientError::BackendError)
    } else {
        Ok(
            Client {
                name: name.to_owned(),
                detail: Some(detail.to_owned()),
                balance: 0,
                cid: rowid as u64,
            },
        )
    }
}

/// Whether `res` is the client that was stored under the row identity
/// `rowid`: a failure of the engine for a negative one, and else the client
/// with this identity, name and detail and a balance of zero.
pub open spec fn stored_as(
    name: Seq<char>,
    detail: Seq<char>,
    rowid: i64,
    res: Result<Client, ClientError>,
) -> bool {
    match res {
        Err(e) => rowid < 0 && e == ClientError::BackendError,
        Ok(c) => rowid >= 0 && c@ == (ClientView {
            cid: rowid as nat,
            name,
            detail: Some(detail),
            balance: 0,
        }),
    }
}

/// Whether `rowid` is what the engine reports, through
/// `last_insert_rowid`, as the row identity of the last insertion on
/// `conn`.
pub closed spec fn row_identity(conn: Connection, rowid: i64) -> bool {
    call_ensures(last_insert_rowid, (&conn,), rowid)
}

/// The row identity that the last insertion on `conn` was given.
pub(crate) fn last_row_identity(conn: &Connection) -> (rowid: i64)
    ensures
        row_identity(*conn, rowid),
{
    last_insert_rowid(conn)
}

/// Whether `outcome` is an answer of the engine to the statement `text`,
/// sent on `conn` without parameters through `execute`. This says which
/// call was made and with what; what the engine answers is for the
/// database to say.
pub closed spec fn sent(
    conn: Connection,
    text: Seq<char>,
    outcome: Result<usize, rusqlite::Error>,
) -> bool {
    exists|sql: &str| sql@ == text && #[trigger] call_ensures(execute, (&conn, sql), outcome)
}

/// Sends a statement that answers with no rows.
pub(crate) fn send(conn: &Connection, sql: &str) -> (outcome: Result<usize, rusqlite::Error>)
    ensures
        sent(*conn, sql@, outcome),
{
    execute(conn, sql)
}

/// Whether `answer` is what a query comes to: the query `text` was
/// compiled on `conn` through `prepare` and, where that succeeded, run
/// through `query_rows` for `width` values of each row. A failure of either
/// call is a `Backend` fault, and the rows of a successful run are the
/// rows that `query_rows` handed back.
pub closed spec fn asked(
    conn: Connection,
    text: Seq<char>,
    width: usize,
    answer: Result<Rows, Fault>,
) -> bool {
    exists|sql: &str, compiled: Result<rusqlite::Statement<'_>, rusqlite::Error>|
        sql@ == text && #[trigger] call_ensures(prepare, (&conn, sql), compiled) && match compiled {
            Err(_) => answer == Err::<Rows, Fault>(Fault::Backend),
            Ok(stmt) => exists|read: Result<Rows, rusqlite::Error>| #[trigger]
                call_ensures(query_rows, (stmt, width), read) && answer == match read {
                    Err(_) => Err::<Rows, Fault>(Fault::Backend),
                    Ok(rows) => Ok(rows),
                },
        }
}

/// Sends a query and collects the rows of its answer, `width` values of
/// each.
fn ask(conn: &Connection, sql: &str, width: usize) -> (r: Result<Rows, Fault>)
    ensures
        asked(*conn, sql@, width, r),
        r matches Err(f) ==> f == Fault::Backend,
{
    let compiled = prepare(conn, sql);
    let ghost prepared = compiled;
    match compiled {
        Err(_) => {
            assert(call_ensures(prepare, (conn, sql), prepared));
            Err(Fault::Backend)
        },
        Ok(stmt) => {
            let ghost statement = stmt;
            let read = query_rows(stmt, width);
            assert(call_ensures(query_rows, (statement, width), read));
            assert(call_ensures(prepare, (conn, sql), prepared));
            match read {
                Err(_) => Err(Fault::Backend),
                Ok(rows) => Ok(rows),
            }
        },
    }
}

/// The filter that only the client `uid` passes.
pub open spec fn only(uid: u64) -> UfilterView {
    UfilterView { name: None, uid: Some(uid as nat) }
}

/// Whether `known` is what a look for the client `uid` comes to: the
/// clients with that identity were asked for, and the client is known
/// where the answer has a row. A failed answer is handed on.
pub open spec fn looked_up(conn: Connection, uid: u64, known: Result<bool, Fault>) -> bool {
    exists|answer: Result<Rows, Fault>| #[trigger]
        asked(conn, rendered(select_clients_draft(only(uid))), 4, answer) && known == match answer {
            Err(f) => Err::<bool, Fault>(f),
            Ok(rows) => Ok(rows.len() > 0),
        }
}

/// Whether the engine answers with a row for the client `uid`.
fn holds_client(conn: &Connection, uid: u64) -> (r: Result<bool, Fault>)
    ensures
        looked_up(*conn, uid, r),
        r matches Err(f) ==> f == Fault::Backend,
{
    let wanted = Ufilter::new().with_uid(uid);
    let stm = statements::select_clients(&wanted);
    assert(stm@ == rendered(select_clients_draft(only(uid))));
    let answer = ask(conn, stm.as_str(), 4);
    let ghost asked_for = answer;
    let r = match answer {
        Err(f) => Err(f),
        Ok(rows) => Ok(rows.len() > 0),
    };
    assert(asked(*conn, rendered(select_clients_draft(only(uid))), 4, asked_for));
    r
}

/// Whether `res` is what a statement on clients comes to that may change
/// nothing: the statement `text` was sent, and `res` is made of its answer.
pub open spec fn client_statement_may_change(
    conn: Connection,
    text: Seq<char>,
    res: Result<(), ClientError>,
) -> bool {
    exists|outcome: Result<usize, rusqlite::Error>| #[trigger]
        sent(conn, text, outcome) && res == client_result(changed_any(outcome))
}

/// Whether `res` is what a statement on clients comes to that must change
/// a row: the statement `text` was sent, and `res` is made of its answer.
pub open spec fn client_statement_must_change(
    conn: Connection,
    text: Seq<char>,
    res: Result<(), ClientError>,
) -> bool {
    exists|outcome: Result<usize, rusqlite::Error>| #[trigger]
        sent(conn, text, outcome) && res == client_result(changed_one(outcome))
}

/// Whether `res` is what a statement on transactions comes to that may
/// change nothing.
pub open spec fn transaction_statement_may_change(
    conn: Connection,
    text: Seq<char>,
    res: Result<(), TransactionError>,
) -> bool {
    exists|outcome: Result<usize, rusqlite::Error>| #[trigger]
        sent(conn, text, outcome) && res == transaction_result(changed_any(outcome))
}

/// Whether `res` is what a statement on transactions comes to that must
/// change a row.
pub open spec fn transaction_statement_must_change(
    conn: Connection,
    text: Seq<char>,
    res: Result<(), TransactionError>,
) -> bool {
    exists|outcome: Result<usize, rusqlite::Error>| #[trigger]
        sent(conn, text, outcome) && res == transaction_result(changed_one(outcome))
}

/// Sends a statement on clients that may change nothing.
fn change_any_client(conn: &Connection, sql: &str) -> (res: Result<(), ClientError>)
    ensures
        client_statement_may_change(*conn, sql@, res),
{
    let outcome = send(conn, sql);
    let ghost answer = outcome;
    let res = match may_change(outcome) {
        Err(f) => Err(client_error_of(f)),
        Ok(()) => Ok(()),
    };
    assert(sent(*conn, sql@, answer) && res == client_result(changed_any(answer)));
    res
}

/// Sends a statement on clients that must change a row.
fn change_one_client(conn: &Connection, sql: &str) -> (res: Result<(), ClientError>)
    ensures
        client_statement_must_change(*conn, sql@, res),
{
    let outcome = send(conn, sql);
    let ghost answer = outcome;
    let res = match must_change(outcome) {
        Err(f) => Err(client_error_of(f)),
        Ok(()) => Ok(()),
    };
    assert(sent(*conn, sql@, answer) && res == client_result(changed_one(answer)));
    res
}

/// Sends a statement on transactions that may change nothing.
fn change_any_transaction(conn: &Connection, sql: &str) -> (res: Result<(), TransactionError>)
    ensures
        transaction_statement_may_change(*conn, sql@, res),
{
    let outcome = send(conn, sql);
    let ghost answer = outcome;
    let res = match may_change(outcome) {
        Err(f) => Err(transaction_error_of(f)),
        Ok(()) => Ok(()),
    };
    assert(sent(*conn, sql@, answer) && res == transaction_result(changed_any(answer)));
    res
}

/// Sends a statement on transactions that must change a row.
fn change_one_transaction(conn: &Connection, sql: &str) -> (res: Result<(), TransactionError>)
    ensures
        transaction_statement_must_change(*conn, sql@, res),
{
    let outcome = send(conn, sql);
    let ghost answer = outcome;
    let res = match must_change(outcome) {
        Err(f) => Err(transaction_error_of(f)),
        Ok(()) => Ok(()),
    };
    assert(sent(*conn, sql@, answer) && res == transaction_result(changed_one(answer)));
    res
}

impl Store for Connection {
    /// Nothing is known of a database but what it answers.
    open spec fn wf(&self) -> bool {
        true
    }
}

impl ClientDB for Connection {
    /// Refuses an empty name before anything is sent. Otherwise it sends
    /// the statement of `insert_client_draft`; where the engine fails on
    /// it, so does this, and where it does not, the client is handed back
    /// under the row identity that the engine reports.
    fn add_client(&mut self, name: &str, detail: &str) -> (res: Result<Client, ClientError>)
        ensures
            name@.len() > 0 ==> exists|outcome: Result<usize, rusqlite::Error>| #[trigger]
                sent(*old(self), rendered(insert_client_draft(name@, detail@)), outcome)
                    && match changed_any(outcome) {
                    Err(f) => res matches Err(e) && e == client_fault(f),
                    Ok(()) => exists|rowid: i64| #[trigger]
                        row_identity(*old(self), rowid) && stored_as(name@, detail@, rowid, res),
                },
    {
        if name.is_empty() {
            return Err(ClientError::ValidationError);
        }
        let stm = statements::insert_client(name, detail);
        let outcome = send(self, stm.as_str());
        let ghost answer = outcome;
        let res = match may_change(outcome) {
            Err(f) => Err(client_error_of(f)),
            Ok(()) => {
                let rowid = last_row_identity(self);
                new_client(name, detail, rowid)
            },
        };
        assert(sent(*old(self), rendered(insert_client_draft(name@, detail@)), answer));
        res
    }

    /// Refuses an empty name before anything is sent. Otherwise it sends
    /// the statement of `update_client_draft`; where that changes no row,
    /// the client is not there.
    fn update_client(&mut self, u: &Client) -> (res: Result<(), ClientError>)
        ensures
            u@.name.len() > 0 ==> client_statement_must_change(
                *old(self),
                rendered(update_client_draft(u@.cid, u@.name, u@.detail)),
                res,
            ),
    {
        if u.name.as_str().is_empty() {
            return Err(ClientError::ValidationError);
        }
        let stm = statements::update_client(u);
        change_one_client(self, stm.as_str())
    }

    /// Sends the statement of `delete_draft` for the table of clients; only
    /// a failure of the engine fails it.
    fn remove_client(&mut self, uid: u64) -> (res: Result<(), ClientError>)
        ensures
            client_statement_may_change(
                *old(self),
                rendered(delete_draft("clients"@, "uid"@, uid as nat)),
                res,
            ),
    {
        let stm = statements::delete_client(uid);
        change_any_client(self, stm.as_str())
    }

    /// Asks with the statement of `select_clients_draft`; of the rows of
    /// the answer it hands back the clients that `clients_in` reads.
    fn get_clients(&self, filter: Ufilter) -> (res: Result<Vec<Client>, ClientError>)
        ensures
            exists|answer: Result<Rows, Fault>| #[trigger]
                asked(*self, rendered(select_clients_draft(filter@)), 4, answer) && match answer {
                    Err(_) => res matches Err(ClientError::BackendError),
                    Ok(rows) => match res {
                        Ok(found) => client_views(found@) == clients_in(rows@, filter@),
                        Err(_) => false,
                    },
                },
    {
        let stm = statements::select_clients(&filter);
        let answer = ask(self, stm.as_str(), 4);
        let ghost asked_for = answer;
        let res = match answer {
            Err(f) => Err(client_error_of(f)),
            Ok(rows) => Ok(clients_from_rows(&rows, &filter)),
        };
        assert(asked(*self, rendered(select_clients_draft(filter@)), 4, asked_for));
        res
    }

    /// Looks for the client first: where the look fails, so does this,
    /// and where the client is not known, this is `NotFound`. For a known
    /// client it sends the statement of `insert_alias_draft`.
    fn add_alias<'a>(&mut self, client: &Client, alias: &'a str) -> (res: Result<(), ClientError>)
        ensures
            exists|known: Result<bool, Fault>| #[trigger]
                looked_up(*old(self), client.cid, known) && match known {
                    Err(f) => res == Err::<(), ClientError>(client_fault(f)),
                    Ok(there) => if there {
                        client_statement_may_change(
                            *old(self),
                            rendered(insert_alias_draft(client@.cid, alias@)),
                            res,
                        )
                    } else {
                        res == Err::<(), ClientError>(ClientError::NotFound)
                    },
                },
    {
        let known = holds_client(self, client.cid);
        match known {
            Err(f) => {
                return Err(client_error_of(f));
            },
            Ok(there) => if !there {
                return Err(ClientError::NotFound);
            },
        }
        let stm = statements::insert_alias(client.cid, alias);
        let res = change_any_client(self, stm.as_str());
        assert(looked_up(*old(self), client.cid, known));
        res
    }

    /// Asks with the statement of `select_aliases_draft`; of the rows of
    /// the answer it hands back the aliases that `aliases_in` reads.
    fn get_aliases(&self, client: &Client) -> (res: Result<Vec<Alias>, ClientError>)
        ensures
            exists|answer: Result<Rows, Fault>| #[trigger]
                asked(*self, rendered(select_aliases_draft(client@.cid)), 3, answer)
                    && match answer {
                    Err(_) => res matches Err(ClientError::BackendError),
                    Ok(rows) => match res {
                        Ok(found) => alias_views(found@) == aliases_in(rows@, client@.cid),
                        Err(_) => false,
                    },
                },
    {
        let stm = statements::select_aliases(client.cid);
        let answer = ask(self, stm.as_str(), 3);
        let ghost asked_for = answer;
        let res = match answer {
            Err(f) => Err(client_error_of(f)),
            Ok(rows) => Ok(aliases_from_rows(&rows, client.cid)),
        };
        assert(asked(*self, rendered(select_aliases_draft(client@.cid)), 3, asked_for));
        res
    }

    /// Sends the statement of `delete_draft` for the table of aliases; only
    /// a failure of the engine fails it.
    fn remove_alias(&mut self, aliasid: u64) -> (res: Result<(), ClientError>)
        ensures
            client_statement_may_change(
                *old(self),
                rendered(delete_draft("aliases"@, "aid"@, aliasid as nat)),
                res,
            ),
    {
        let stm = statements::delete_alias(aliasid);
        change_any_client(self, stm.as_str())
    }

    /// Sends the statement of `update_alias_draft`; where it changes no
    /// row, the alias is not there.
    fn update_alias(&mut self, alias: &Alias) -> (res: Result<(), ClientError>)
        ensures
            client_statement_must_change(
                *old(self),
                rendered(update_alias_draft(alias@.aid, alias@.alias)),
                res,
            ),
    {
        let stm = statements::update_alias(alias);
        change_one_client(self, stm.as_str())
    }

    /// Sends the statement of `recompute_balance_draft`, in which the
    /// engine sums the transactions itself; where it changes no row, the
    /// client is not there.
    fn update_client_balance(&mut self, u: &Client) -> (res: Result<(), ClientError>)
        ensures
            client_statement_must_change(
                *old(self),
                rendered(recompute_balance_draft(u@.cid)),
                res,
            ),
    {
        let stm = statements::recompute_balance(u.cid);
        change_one_client(self, stm.as_str())
    }

    /// Sends the statement of `add_to_column_draft` for the balance; where
    /// it changes no row, the client is not there.
    fn update_client_balance_delta(&mut self, uid: u64, balance_delta: i64) -> (res: Result<
        (),
        ClientError,
    >)
        ensures
            client_statement_must_change(
                *old(self),
                rendered(
                    add_to_column_draft(
                        "clients"@,
                        "balance"@,
                        balance_delta as int,
                        "uid"@,
                        uid as nat,
                    ),
                ),
                res,
            ),
    {
        let stm = statements::adjust_balance(uid, balance_delta);
        change_one_client(self, stm.as_str())
    }
}

impl TransactionsDB for Connection {
    /// Refuses a transaction for nobody that is not paid in full before
    /// anything is sent. For a client it looks for the client first:
    /// where the look fails, so does this, and where the client is not
    /// known, this is `NotFound`. Otherwise it sends the statement of
    /// `insert_transaction_draft`; only a failure of the engine fails it.
    fn add_transaction(
        &mut self,
        client: Option<&Client>,
        price: i64,
        payment: i64,
        detail: String,
        date: u64,
    ) -> (res: Result<(), TransactionError>)
        ensures
            match client {
                Some(c) => exists|known: Result<bool, Fault>| #[trigger]
                    looked_up(*old(self), c.cid, known) && match known {
                        Err(f) => res == Err::<(), TransactionError>(transaction_fault(f)),
                        Ok(there) => if there {
                            transaction_statement_may_change(
                                *old(self),
                                rendered(
                                    insert_transaction_draft(
                                        owner_of(client),
                                        date as nat,
                                        price as int,
                                        payment as int,
                                        detail@,
                                    ),
                                ),
                                res,
                            )
                        } else {
                            res == Err::<(), TransactionError>(TransactionError::NotFound)
                        },
                    },
                None => payment == price ==> transaction_statement_may_change(
                    *old(self),
                    rendered(
                        insert_transaction_draft(
                            owner_of(client),
                            date as nat,
                            price as int,
                            payment as int,
                            detail@,
                        ),
                    ),
                    res,
                ),
            },
    {
        let ghost looked: Result<bool, Fault> = Ok(true);
        let owner = match client {
            None => {
                if payment != price {
                    return Err(TransactionError::InvalidPaymentOnAnonClient);
                }
                None
            },
            Some(c) => {
                let known = holds_client(self, c.cid);
                proof {
                    looked = known;
                }
                match known {
                    Err(f) => {
                        return Err(transaction_error_of(f));
                    },
                    Ok(there) => if !there {
                        return Err(TransactionError::NotFound);
                    },
                }
                Some(c.cid)
            },
        };
        let stm = statements::insert_transaction(owner, date, price, payment, detail.as_str());
        let res = change_any_transaction(self, stm.as_str());
        assert(client matches Some(c) ==> looked_up(*old(self), c.cid, looked));
        res
    }

    /// Asks with the statement of `select_transactions_draft`; of the rows
    /// of the answer it hands back the transactions that `transactions_in`
    /// reads.
    fn get_transactions(&self, filter: Tfilter) -> (res: Result<
        Vec<Transaction>,
        TransactionError,
    >)
        ensures
            exists|answer: Result<Rows, Fault>| #[trigger]
                asked(*self, rendered(select_transactions_draft(filter@)), 6, answer)
                    && match answer {
                    Err(_) => res matches Err(TransactionError::BackendError),
                    Ok(rows) => match res {
                        Ok(found) => transaction_views(found@) == transactions_in(rows@, filter@),
                        Err(_) => false,
                    },
                },
    {
        let stm = statements::select_transactions(&filter);
        let answer = ask(self, stm.as_str(), 6);
        let ghost asked_for = answer;
        let res = match answer {
            Err(f) => Err(transaction_error_of(f)),
            Ok(rows) => Ok(transactions_from_rows(&rows, &filter)),
        };
        assert(asked(*self, rendered(select_transactions_draft(filter@)), 6, asked_for));
        res
    }

    /// Where the transaction is to have an owner, looks for that client
    /// first: where the look fails, so does this, and where the client is
    /// not known, this is `NotFound`. Otherwise it sends the statement of
    /// `update_transaction_draft`; where that changes no row, the
    /// transaction is not there.
    fn update_transaction(&mut self, t: &Transaction) -> (res: Result<(), TransactionError>)
        ensures
            match t.uid {
                Some(owner) => exists|known: Result<bool, Fault>| #[trigger]
                    looked_up(*old(self), owner, known) && match known {
                        Err(f) => res == Err::<(), TransactionError>(transaction_fault(f)),
                        Ok(there) => if there {
                            transaction_statement_must_change(
                                *old(self),
                                rendered(
                                    update_transaction_draft(t@.tid, t@.detail, t@.date, t@.uid),
                                ),
                                res,
                            )
                        } else {
                            res == Err::<(), TransactionError>(TransactionError::NotFound)
                        },
                    },
                None => transaction_statement_must_change(
                    *old(self),
                    rendered(update_transaction_draft(t@.tid, t@.detail, t@.date, t@.uid)),
                    res,
                ),
            },
    {
        let ghost looked: Result<bool, Fault> = Ok(true);
        match t.uid {
            Some(owner) => {
                let known = holds_client(self, owner);
                proof {
                    looked = known;
                }
                match known {
                    Err(f) => {
                        return Err(transaction_error_of(f));
                    },
                    Ok(there) => if !there {
                        return Err(TransactionError::NotFound);
                    },
                }
            },
            None => {},
        }
        let stm = statements::update_transaction(t);
        let res = change_one_transaction(self, stm.as_str());
        assert(t.uid matches Some(owner) ==> looked_up(*old(self), owner, looked));
        res
    }

    /// Sends the statement of `add_to_column_draft` for the payment; where
    /// it changes no row, the transaction is not there.
    fn update_transaction_balance(&mut self, tid: u64, balance_delta: i64) -> (res: Result<
        (),
        TransactionError,
    >)
        ensures
            transaction_statement_must_change(
                *old(self),
                rendered(
                    add_to_column_draft(
                        "transactions"@,
                        "payment"@,
                        balance_delta as int,
                        "tid"@,
                        tid as nat,
                    ),
                ),
                res,
            ),
    {
        let stm = statements::adjust_payment(tid, balance_delta);
        change_one_transaction(self, stm.as_str())
    }

    /// Sends the statement of `set_price_draft`; where it changes no row,
    /// the transaction is not there.
    fn update_transaction_price(&mut self, tid: u64, new_price: i64) -> (res: Result<
        (),
        TransactionError,
    >)
        ensures
            transaction_statement_must_change(
                *old(self),
                rendered(set_price_draft(tid as nat, new_price as int)),
                res,
            ),
    {
        let stm = statements::set_price(tid, new_price);
        change_one_transaction(self, stm.as_str())
    }

    /// Sends the statement of `delete_draft` for the table of
    /// transactions; only a failure of the engine fails it.
    fn remove_transaction(&mut self, tid: u64) -> (res: Result<(), TransactionError>)
        ensures
            transaction_statement_may_change(
                *old(self),
                rendered(delete_draft("transactions"@, "tid"@, tid as nat)),
                res,
            ),
    {
        let stm = statements::delete_transaction(tid);
        change_any_transaction(self, stm.as_str())
    }
}

} // verus!
