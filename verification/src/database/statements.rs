//! The statements that the relational engine is sent, one function for each
//! operation of the store.
//!
//! Each function says which statement it builds as a `Draft`: the table,
//! the fields, the values and the conditions. Text handed in by a caller
//! enters a statement only through `quoted`; numbers enter it in base ten.
//! A field of a filter that is set becomes one condition, and a field that
//! is not set becomes none.

use sql_builder::SqlBuilder;
use vstd::prelude::*;

use crate::database::builder::and_where_eq;
use crate::database::builder::and_where_ge;
use crate::database::builder::and_where_le;
use crate::database::builder::delete_from;
use crate::database::builder::draft_of;
use crate::database::builder::escaped;
use crate::database::builder::add_field;
use crate::database::builder::in_brackets;
use crate::database::builder::insert_into;
use crate::database::builder::query_text;
use crate::database::builder::quote;
use crate::database::builder::quoted;
use crate::database::builder::render;
use crate::database::builder::select_from;
use crate::database::builder::add_set;
use crate::database::builder::sql;
use crate::database::builder::subquery;
use crate::database::builder::update_table;
use crate::database::builder::add_values;
use crate::database::builder::bind_number;
use crate::database::builder::bound;
use crate::database::builder::Draft;
use crate::database::builder::Verb;
use crate::database::clients::Alias;
use crate::database::clients::Client;
use crate::database::clients::Ufilter;
use crate::database::clients::UfilterView;
use crate::database::clients::text_of;
use crate::database::text::decimal;
use crate::database::text::decimal_i64;
use crate::database::text::decimal_u64;
use crate::database::text::signed_decimal;
use crate::database::text::texts;
use crate::database::transactions::id_of;
use crate::database::transactions::Tfilter;
use crate::database::transactions::TfilterView;
use crate::database::transactions::Transaction;

verus! {

/// The text that a bare draft with a table, and with what its verb asks
/// for, is rendered to.
fn finish(b: &SqlBuilder) -> (r: String)
    requires
        draft_of(*b).bare,
        render(draft_of(*b)) is Some,
    ensures
        Some(r@) == render(draft_of(*b)),
{
    sql(b).unwrap()
}

/// An optional text as a value of SQL: quoted, or `NULL`.
pub open spec fn text_or_null(t: Option<Seq<char>>) -> Seq<char> {
    match t {
        Some(s) => quoted(s),
        None => "NULL"@,
    }
}

/// An optional identity as a value of SQL: in base ten, or `NULL`.
pub open spec fn id_or_null(id: Option<nat>) -> Seq<char> {
    match id {
        Some(i) => decimal(i),
        None => "NULL"@,
    }
}

fn write_text_or_null(t: &Option<String>) -> (r: String)
    ensures
        r@ == text_or_null(text_of(*t)),
{
    match t {
        Some(s) => quote(s.as_str()),
        None => "NULL".to_owned(),
    }
}

fn write_id_or_null(id: Option<u64>) -> (r: String)
    ensures
        r@ == id_or_null(id_of(id)),
{
    match id {
        Some(i) => decimal_u64(i),
        None => "NULL".to_owned(),
    }
}

/// What SQL reads of a string literal whose opening quote is just behind:
/// the text of the literal and how many characters it takes, closing quote
/// included. Two single quotes stand for one, a single one closes the
/// literal, and a text that ends before that is no literal.
pub open spec fn literal_read(body: Seq<char>) -> Option<(Seq<char>, int)>
    decreases body.len(),
{
    if body.len() == 0 {
        None
    } else if body[0] != '\'' {
        match literal_read(body.skip(1)) {
            Some(r) => Some((seq![body[0]] + r.0, r.1 + 1)),
            None => None,
        }
    } else if body.len() >= 2 && body[1] == '\'' {
        match literal_read(body.skip(2)) {
            Some(r) => Some((seq!['\''] + r.0, r.1 + 2)),
            None => None,
        }
    } else {
        Some((Seq::empty(), 1))
    }
}

/// A quoted text is one string literal and nothing more. Wherever it
/// stands in a statement, followed by anything but a single quote, SQL
/// reads back the very text that was quoted and stops at its closing
/// quote: no text can end its own literal and go on as SQL.
pub proof fn lemma_quoted_reads_back(s: Seq<char>, rest: Seq<char>)
    requires
        rest.len() > 0 ==> rest[0] != '\'',
    ensures
        quoted(s)[0] == '\'',
        literal_read(quoted(s).skip(1) + rest) == Some((s, escaped(s).len() as int + 1)),
    decreases s.len(),
{
    let body = quoted(s).skip(1) + rest;
    assert(body =~= escaped(s) + seq!['\''] + rest);
    if s.len() == 0 {
    } else {
        let tail = quoted(s.skip(1)).skip(1) + rest;
        assert(tail =~= escaped(s.skip(1)) + seq!['\''] + rest);
        lemma_quoted_reads_back(s.skip(1), rest);
        if s[0] == '\'' {
            assert(body.skip(2) =~= tail);
            assert(seq!['\''] + s.skip(1) =~= s);
        } else {
            assert(body.skip(1) =~= tail);
            assert(seq![s[0]] + s.skip(1) =~= s);
        }
    }
}

/// Stores a new client: `INSERT INTO clients (name, detail) VALUES (..)`.
pub open spec fn insert_client_draft(name: Seq<char>, detail: Seq<char>) -> Draft {
    Draft::start(Verb::Insert, "clients"@).with_field("name"@).with_field("detail"@).with_row(
        seq![quoted(name), quoted(detail)],
    )
}

/// The statement that stores a new client with this name and detail.
pub fn insert_client(name: &str, detail: &str) -> (r: String)
    ensures
        Some(r@) == render(insert_client_draft(name@, detail@)),
{
    let mut b = insert_into("clients");
    add_field(&mut b, "name");
    add_field(&mut b, "detail");
    let mut row: Vec<String> = Vec::new();
    row.push(quote(name));
    row.push(quote(detail));
    proof {
        reveal_strlit("clients");
        assert(texts(row@) =~= seq![quoted(name@), quoted(detail@)]);
    }
    add_values(&mut b, &row);
    finish(&b)
}

/// Rewrites the name and the detail of the client `cid`:
/// `UPDATE clients SET name = .., detail = .. WHERE uid = cid`.
pub open spec fn update_client_draft(cid: nat, name: Seq<char>, detail: Option<Seq<char>>) -> Draft {
    Draft::start(Verb::Update, "clients"@).with_set("name"@, quoted(name)).with_set(
        "detail"@,
        text_or_null(detail),
    ).with_where("uid"@, " = "@, decimal(cid))
}

/// The statement that gives the stored client `c.cid` the name and the
/// detail of `c`; a detail that is absent is stored as `NULL`.
pub fn update_client(c: &Client) -> (r: String)
    ensures
        Some(r@) == render(update_client_draft(c@.cid, c@.name, c@.detail)),
{
    let mut b = update_table("clients");
    let name = quote(c.name.as_str());
    add_set(&mut b, "name", name.as_str());
    let detail = write_text_or_null(&c.detail);
    add_set(&mut b, "detail", detail.as_str());
    let id = decimal_u64(c.cid);
    and_where_eq(&mut b, "uid", id.as_str());
    proof {
        reveal_strlit("clients");
    }
    finish(&b)
}

/// Deletes the row `id` of `table`, whose identity is the column `key`:
/// `DELETE FROM table WHERE key = id`.
pub open spec fn delete_draft(table: Seq<char>, key: Seq<char>, id: nat) -> Draft {
    Draft::start(Verb::Delete, table).with_where(key, " = "@, decimal(id))
}

/// The statement that deletes the client `uid`.
pub fn delete_client(uid: u64) -> (r: String)
    ensures
        Some(r@) == render(delete_draft("clients"@, "uid"@, uid as nat)),
{
    let mut b = delete_from("clients");
    let id = decimal_u64(uid);
    and_where_eq(&mut b, "uid", id.as_str());
    proof {
        reveal_strlit("clients");
    }
    finish(&b)
}

/// `d` with the condition `field = value` where `value` is set.
pub open spec fn and_eq(d: Draft, field: Seq<char>, value: Option<Seq<char>>) -> Draft {
    match value {
        Some(v) => d.with_where(field, " = "@, v),
        None => d,
    }
}

/// `d` with the two conditions `field >= least` and `field <= most` where
/// the range is set.
pub open spec fn and_between(d: Draft, field: Seq<char>, range: Option<(Seq<char>, Seq<char>)>) -> Draft {
    match range {
        Some(r) => d.with_where(field, " >= "@, r.0).with_where(field, " <= "@, r.1),
        None => d,
    }
}

/// An optional text, quoted where it is there.
pub open spec fn opt_quoted(t: Option<Seq<char>>) -> Option<Seq<char>> {
    match t {
        Some(s) => Some(quoted(s)),
        None => None,
    }
}

/// An optional identity, in base ten where it is there.
pub open spec fn opt_decimal(id: Option<nat>) -> Option<Seq<char>> {
    match id {
        Some(i) => Some(decimal(i)),
        None => None,
    }
}

/// Reads the clients that pass `f`:
/// `SELECT uid, name, balance, detail FROM clients`, with a condition on the
/// name where `f` asks for one, then one on the identity where it asks for
/// one.
pub open spec fn select_clients_draft(f: UfilterView) -> Draft {
    and_eq(
        and_eq(
            Draft::start(Verb::Select, "clients"@).with_field("uid"@).with_field(
                "name"@,
            ).with_field("balance"@).with_field("detail"@),
            "name"@,
            opt_quoted(f.name),
        ),
        "uid"@,
        opt_decimal(f.uid),
    )
}

/// The statement that reads the clients that pass `filter`.
pub fn select_clients(filter: &Ufilter) -> (r: String)
    ensures
        Some(r@) == render(select_clients_draft(filter@)),
{
    let mut b = select_from("clients");
    add_field(&mut b, "uid");
    add_field(&mut b, "name");
    add_field(&mut b, "balance");
    add_field(&mut b, "detail");
    match &filter.name {
        Some(n) => {
            let name = quote(n.as_str());
            and_where_eq(&mut b, "name", name.as_str());
        },
        None => {},
    }
    match filter.uid {
        Some(id) => {
            let uid = decimal_u64(id);
            and_where_eq(&mut b, "uid", uid.as_str());
        },
        None => {},
    }
    proof {
        reveal_strlit("clients");
    }
    finish(&b)
}

/// Stores a new alias of the client `uid`:
/// `INSERT INTO aliases (uid, alias) VALUES (uid, ..)`.
pub open spec fn insert_alias_draft(uid: nat, alias: Seq<char>) -> Draft {
    Draft::start(Verb::Insert, "aliases"@).with_field("uid"@).with_field("alias"@).with_row(
        seq![decimal(uid), quoted(alias)],
    )
}

/// The statement that stores `alias` as a new alias of the client `uid`.
pub fn insert_alias(uid: u64, alias: &str) -> (r: String)
    ensures
        Some(r@) == render(insert_alias_draft(uid as nat, alias@)),
{
    let mut b = insert_into("aliases");
    add_field(&mut b, "uid");
    add_field(&mut b, "alias");
    let mut row: Vec<String> = Vec::new();
    row.push(decimal_u64(uid));
    row.push(quote(alias));
    proof {
        reveal_strlit("aliases");
        assert(texts(row@) =~= seq![decimal(uid as nat), quoted(alias@)]);
    }
    add_values(&mut b, &row);
    finish(&b)
}

/// Reads the aliases of the client `uid`:
/// `SELECT aid, uid, alias FROM aliases WHERE uid = uid`.
pub open spec fn select_aliases_draft(uid: nat) -> Draft {
    Draft::start(Verb::Select, "aliases"@).with_field("aid"@).with_field("uid"@).with_field(
        "alias"@,
    ).with_where("uid"@, " = "@, decimal(uid))
}

/// The statement that reads the aliases of the client `uid`.
pub fn select_aliases(uid: u64) -> (r: String)
    ensures
        Some(r@) == render(select_aliases_draft(uid as nat)),
{
    let mut b = select_from("aliases");
    add_field(&mut b, "aid");
    add_field(&mut b, "uid");
    add_field(&mut b, "alias");
    let id = decimal_u64(uid);
    and_where_eq(&mut b, "uid", id.as_str());
    proof {
        reveal_strlit("aliases");
    }
    finish(&b)
}

/// The statement that deletes the alias `aid`.
pub fn delete_alias(aid: u64) -> (r: String)
    ensures
        Some(r@) == render(delete_draft("aliases"@, "aid"@, aid as nat)),
{
    let mut b = delete_from("aliases");
    let id = decimal_u64(aid);
    and_where_eq(&mut b, "aid", id.as_str());
    proof {
        reveal_strlit("aliases");
    }
    finish(&b)
}

/// Rewrites the text of the alias `aid`:
/// `UPDATE aliases SET alias = .. WHERE aid = aid`.
pub open spec fn update_alias_draft(aid: nat, alias: Seq<char>) -> Draft {
    Draft::start(Verb::Update, "aliases"@).with_set("alias"@, quoted(alias)).with_where(
        "aid"@,
        " = "@,
        decimal(aid),
    )
}

/// The statement that gives the stored alias `a.aid` the text of `a`. The
/// owner of an alias never changes, so `a.uid` does not enter it.
pub fn update_alias(a: &Alias) -> (r: String)
    ensures
        Some(r@) == render(update_alias_draft(a@.aid, a@.alias)),
{
    let mut b = update_table("aliases");
    let text = quote(a.alias.as_str());
    add_set(&mut b, "alias", text.as_str());
    let id = decimal_u64(a.aid);
    and_where_eq(&mut b, "aid", id.as_str());
    proof {
        reveal_strlit("aliases");
    }
    finish(&b)
}

/// The sum of `column` over the transactions of the client `uid`, zero
/// where it has none, as a value of SQL:
/// `(SELECT COALESCE(SUM(column), 0) FROM transactions WHERE uid = uid)`.
pub open spec fn total_text(column: Seq<char>, uid: nat) -> Seq<char> {
    in_brackets(
        query_text(
            Draft::start(Verb::Select, "transactions"@).with_field(
                "COALESCE(SUM("@ + column + "), 0)"@,
            ).with_where("uid"@, " = "@, decimal(uid)),
        ),
    )
}

fn write_total(column: &str, uid: u64) -> (r: String)
    ensures
        r@ == total_text(column@, uid as nat),
{
    let mut b = select_from("transactions");
    let mut sum = "COALESCE(SUM(".to_owned();
    sum.append(column);
    sum.append("), 0)");
    add_field(&mut b, sum.as_str());
    let id = decimal_u64(uid);
    and_where_eq(&mut b, "uid", id.as_str());
    subquery(&b).unwrap()
}

/// Sets the balance of the client `uid` to what its transactions come to,
/// all that was paid less all that was billed, in one statement:
/// `UPDATE clients SET balance = (paid) - (billed) WHERE uid = uid`.
pub open spec fn recompute_balance_draft(uid: nat) -> Draft {
    Draft::start(Verb::Update, "clients"@).with_set(
        "balance"@,
        total_text("payment"@, uid) + " - "@ + total_text("price"@, uid),
    ).with_where("uid"@, " = "@, decimal(uid))
}

/// The statement that recomputes the balance of the client `uid` from its
/// transactions.
pub fn recompute_balance(uid: u64) -> (r: String)
    ensures
        Some(r@) == render(recompute_balance_draft(uid as nat)),
{
    let mut value = write_total("payment", uid);
    let billed = write_total("price", uid);
    value.append(" - ");
    value.append(billed.as_str());
    let mut b = update_table("clients");
    add_set(&mut b, "balance", value.as_str());
    let id = decimal_u64(uid);
    and_where_eq(&mut b, "uid", id.as_str());
    proof {
        reveal_strlit("clients");
    }
    finish(&b)
}

/// Adds `delta` to the column `column` of the row `id` of `table`:
/// `UPDATE table SET column = column + delta WHERE key = id`.
pub open spec fn add_to_column_draft(
    table: Seq<char>,
    column: Seq<char>,
    delta: int,
    key: Seq<char>,
    id: nat,
) -> Draft {
    Draft::start(Verb::Update, table).with_set(
        column,
        column + " + "@ + signed_decimal(delta),
    ).with_where(key, " = "@, decimal(id))
}

fn add_to_column(table: &str, column: &str, delta: i64, key: &str, id: u64) -> (r: String)
    requires
        table@.len() > 0,
    ensures
        Some(r@) == render(add_to_column_draft(table@, column@, delta as int, key@, id as nat)),
{
    let mut b = update_table(table);
    let mut value = column.to_owned();
    value.append(" + ");
    let amount = decimal_i64(delta);
    value.append(amount.as_str());
    add_set(&mut b, column, value.as_str());
    let row = decimal_u64(id);
    and_where_eq(&mut b, key, row.as_str());
    finish(&b)
}

/// The statement that adds `delta` to the stored balance of the client
/// `uid`.
pub fn adjust_balance(uid: u64, delta: i64) -> (r: String)
    ensures
        Some(r@) == render(
            add_to_column_draft("clients"@, "balance"@, delta as int, "uid"@, uid as nat),
        ),
{
    proof {
        reveal_strlit("clients");
    }
    add_to_column("clients", "balance", delta, "uid", uid)
}

/// Stores a new transaction:
/// `INSERT INTO transactions (uid, date, price, payment, detail) VALUES (..)`,
/// the owner written as `NULL` where there is none.
pub open spec fn insert_transaction_draft(
    owner: Option<nat>,
    date: nat,
    price: int,
    payment: int,
    detail: Seq<char>,
) -> Draft {
    Draft::start(Verb::Insert, "transactions"@).with_field("uid"@).with_field(
        "date"@,
    ).with_field("price"@).with_field("payment"@).with_field("detail"@).with_row(
        seq![
            id_or_null(owner),
            decimal(date),
            signed_decimal(price),
            signed_decimal(payment),
            quoted(detail),
        ],
    )
}

/// The statement that stores a new transaction.
pub fn insert_transaction(
    owner: Option<u64>,
    date: u64,
    price: i64,
    payment: i64,
    detail: &str,
) -> (r: String)
    ensures
        Some(r@) == render(
            insert_transaction_draft(id_of(owner), date as nat, price as int, payment as int, detail@),
        ),
{
    let mut b = insert_into("transactions");
    add_field(&mut b, "uid");
    add_field(&mut b, "date");
    add_field(&mut b, "price");
    add_field(&mut b, "payment");
    add_field(&mut b, "detail");
    let mut row: Vec<String> = Vec::new();
    row.push(write_id_or_null(owner));
    row.push(decimal_u64(date));
    row.push(decimal_i64(price));
    row.push(decimal_i64(payment));
    row.push(quote(detail));
    proof {
        reveal_strlit("transactions");
        assert(texts(row@) =~= seq![
            id_or_null(id_of(owner)),
            decimal(date as nat),
            signed_decimal(price as int),
            signed_decimal(payment as int),
            quoted(detail@),
        ]);
    }
    add_values(&mut b, &row);
    finish(&b)
}

/// A range of dates, each end in base ten.
pub open spec fn opt_dates(range: Option<(nat, nat)>) -> Option<(Seq<char>, Seq<char>)> {
    match range {
        Some(r) => Some((decimal(r.0), decimal(r.1))),
        None => None,
    }
}

/// A range of prices, each end in base ten with its sign.
pub open spec fn opt_prices(range: Option<(int, int)>) -> Option<(Seq<char>, Seq<char>)> {
    match range {
        Some(r) => Some((signed_decimal(r.0), signed_decimal(r.1))),
        None => None,
    }
}

/// Reads the transactions that pass `f`:
/// `SELECT tid, uid, date, price, payment, detail FROM transactions`, with
/// the conditions that `f` asks for, in this order: the two ends of the
/// range of dates, the owner, the identity, the two ends of the range of
/// prices.
pub open spec fn select_transactions_draft(f: TfilterView) -> Draft {
    and_between(
        and_eq(
            and_eq(
                and_between(
                    Draft::start(Verb::Select, "transactions"@).with_field("tid"@).with_field(
                        "uid"@,
                    ).with_field("date"@).with_field("price"@).with_field(
                        "payment"@,
                    ).with_field("detail"@),
                    "date"@,
                    opt_dates(f.date_range),
                ),
                "uid"@,
                opt_decimal(f.uid),
            ),
            "tid"@,
            opt_decimal(f.tid),
        ),
        "price"@,
        opt_prices(f.price_range),
    )
}

/// The statement that reads the transactions that pass `filter`.
pub fn select_transactions(filter: &Tfilter) -> (r: String)
    ensures
        Some(r@) == render(select_transactions_draft(filter@)),
{
    let mut b = select_from("transactions");
    add_field(&mut b, "tid");
    add_field(&mut b, "uid");
    add_field(&mut b, "date");
    add_field(&mut b, "price");
    add_field(&mut b, "payment");
    add_field(&mut b, "detail");
    match filter.date_range {
        Some(r) => {
            let first = decimal_u64(r.0);
            let last = decimal_u64(r.1);
            and_where_ge(&mut b, "date", first.as_str());
            and_where_le(&mut b, "date", last.as_str());
        },
        None => {},
    }
    match filter.uid {
        Some(id) => {
            let uid = decimal_u64(id);
            and_where_eq(&mut b, "uid", uid.as_str());
        },
        None => {},
    }
    match filter.tid {
        Some(id) => {
            let tid = decimal_u64(id);
            and_where_eq(&mut b, "tid", tid.as_str());
        },
        None => {},
    }
    match filter.price_range {
        Some(r) => {
            let least = decimal_i64(r.0);
            let most = decimal_i64(r.1);
            and_where_ge(&mut b, "price", least.as_str());
            and_where_le(&mut b, "price", most.as_str());
        },
        None => {},
    }
    proof {
        reveal_strlit("transactions");
    }
    finish(&b)
}

/// Rewrites the date, the owner and the detail of the transaction `tid`:
/// `UPDATE transactions SET detail = .., date = .., uid = .. WHERE tid = tid`.
pub open spec fn update_transaction_draft(
    tid: nat,
    detail: Option<Seq<char>>,
    date: nat,
    owner: Option<nat>,
) -> Draft {
    Draft::start(Verb::Update, "transactions"@).with_set("detail"@, text_or_null(detail)).with_set(
        "date"@,
        decimal(date),
    ).with_set("uid"@, id_or_null(owner)).with_where("tid"@, " = "@, decimal(tid))
}

/// The statement that gives the stored transaction `t.tid` the date, the
/// owner and the detail of `t`. Its price and its payment do not enter it.
pub fn update_transaction(t: &Transaction) -> (r: String)
    ensures
        Some(r@) == render(update_transaction_draft(t@.tid, t@.detail, t@.date, t@.uid)),
{
    let mut b = update_table("transactions");
    let detail = write_text_or_null(&t.detail);
    add_set(&mut b, "detail", detail.as_str());
    let date = decimal_u64(t.date);
    add_set(&mut b, "date", date.as_str());
    let owner = write_id_or_null(t.uid);
    add_set(&mut b, "uid", owner.as_str());
    let id = decimal_u64(t.tid);
    and_where_eq(&mut b, "tid", id.as_str());
    proof {
        reveal_strlit("transactions");
    }
    finish(&b)
}

/// What binding a number to `column + ?` gives: the column, a plus sign and
/// the number.
proof fn lemma_bound_payment(value: Seq<char>)
    ensures
        bound("payment + ?"@, value) == "payment"@ + " + "@ + value,
{
    reveal_strlit("payment + ?");
    reveal_strlit("payment");
    reveal_strlit(" + ");
    reveal_with_fuel(bound, 12);
    assert(bound("payment + ?"@, value) =~= "payment"@ + " + "@ + value);
}

/// The statement that adds `delta` to what was paid on the transaction
/// `tid`. The amount is bound to the question mark of `payment + ?`.
pub fn adjust_payment(tid: u64, delta: i64) -> (r: String)
    ensures
        Some(r@) == render(
            add_to_column_draft("transactions"@, "payment"@, delta as int, "tid"@, tid as nat),
        ),
{
    let mut b = update_table("transactions");
    let value = bind_number("payment + ?", delta);
    add_set(&mut b, "payment", value.as_str());
    let id = decimal_u64(tid);
    and_where_eq(&mut b, "tid", id.as_str());
    proof {
        reveal_strlit("transactions");
        lemma_bound_payment(signed_decimal(delta as int));
    }
    finish(&b)
}

/// Sets the price of the transaction `tid`:
/// `UPDATE transactions SET price = price WHERE tid = tid`.
pub open spec fn set_price_draft(tid: nat, price: int) -> Draft {
    Draft::start(Verb::Update, "transactions"@).with_set(
        "price"@,
        signed_decimal(price),
    ).with_where("tid"@, " = "@, decimal(tid))
}

/// The statement that sets the price of the transaction `tid`.
pub fn set_price(tid: u64, price: i64) -> (r: String)
    ensures
        Some(r@) == render(set_price_draft(tid as nat, price as int)),
{
    let mut b = update_table("transactions");
    let amount = decimal_i64(price);
    add_set(&mut b, "price", amount.as_str());
    let id = decimal_u64(tid);
    and_where_eq(&mut b, "tid", id.as_str());
    proof {
        reveal_strlit("transactions");
    }
    finish(&b)
}

/// The statement that deletes the transaction `tid`.
pub fn delete_transaction(tid: u64) -> (r: String)
    ensures
        Some(r@) == render(delete_draft("transactions"@, "tid"@, tid as nat)),
{
    let mut b = delete_from("transactions");
    let id = decimal_u64(tid);
    and_where_eq(&mut b, "tid", id.as_str());
    proof {
        reveal_strlit("transactions");
    }
    finish(&b)
}

} // verus!
