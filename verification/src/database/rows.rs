//! From the rows that the relational engine answers with to the entities of
//! the store.
//!
//! A row is well formed when it has the columns that were asked for, each
//! holding a value of the kind that its column takes. A row that is not is
//! passed over and the rest of the answer is kept. Every entity that is
//! handed on is tested against what was asked for, so that no engine makes
//! a read return a record that its filter excludes.

use vstd::prelude::*;

use crate::database::clients::Alias;
use crate::database::clients::AliasView;
use crate::database::clients::Client;
use crate::database::clients::ClientView;
use crate::database::clients::Ufilter;
use crate::database::clients::UfilterView;
use crate::database::engine::amount_in;
use crate::database::engine::id_in;
use crate::database::engine::optional_id_in;
use crate::database::engine::optional_text_in;
use crate::database::engine::read_amount;
use crate::database::engine::read_id;
use crate::database::engine::read_optional_id;
use crate::database::engine::read_optional_text;
use crate::database::engine::read_text;
use crate::database::engine::text_in;
use crate::database::engine::Cell;
use crate::database::engine::Rows;
use crate::database::transactions::Tfilter;
use crate::database::transactions::TfilterView;
use crate::database::transactions::Transaction;
use crate::database::transactions::TransactionView;

verus! {

/// What each client of `s` holds.
pub open spec fn client_views(s: Seq<Client>) -> Seq<ClientView> {
    s.map_values(|c: Client| c@)
}

/// What each alias of `s` holds.
pub open spec fn alias_views(s: Seq<Alias>) -> Seq<AliasView> {
    s.map_values(|a: Alias| a@)
}

/// What each transaction of `s` holds.
pub open spec fn transaction_views(s: Seq<Transaction>) -> Seq<TransactionView> {
    s.map_values(|t: Transaction| t@)
}

/// The client that a row of `uid, name, balance, detail` stands for: the
/// identity is not negative, the name is a text, the balance is a whole
/// number of 32 bits, the detail is a text or empty.
pub open spec fn client_in(cells: Seq<Cell>) -> Option<ClientView> {
    if cells.len() == 4 && id_in(cells[0]) is Some && text_in(cells[1]) is Some && amount_in(
        cells[2],
    ) is Some && i32::MIN <= amount_in(cells[2])->0 <= i32::MAX && optional_text_in(
        cells[3],
    ) is Some {
        Some(
            ClientView {
                cid: id_in(cells[0])->0,
                name: text_in(cells[1])->0,
                balance: amount_in(cells[2])->0,
                detail: optional_text_in(cells[3])->0,
            },
        )
    } else {
        None
    }
}

/// The client that a row stands for, if it is well formed.
pub fn read_client(cells: &Vec<Cell>) -> (r: Option<Client>)
    ensures
        match r {
            Some(c) => client_in(cells@) == Some(c@),
            None => client_in(cells@) is None,
        },
{
    if cells.len() != 4 {
        return None;
    }
    let cid = match read_id(&cells[0]) {
        Some(id) => id,
        None => {
            return None;
        },
    };
    let name = match read_text(&cells[1]) {
        Some(n) => n,
        None => {
            return None;
        },
    };
    let amount = match read_amount(&cells[2]) {
        Some(a) => a,
        None => {
            return None;
        },
    };
    if amount < -2147483648i64 || amount > 2147483647i64 {
        return None;
    }
    let detail = match read_optional_text(&cells[3]) {
        Some(d) => d,
        None => {
            return None;
        },
    };
    Some(Client { name, detail, balance: amount as i32, cid })
}

/// The clients among `rows` that are well formed and pass `f`, in the order
/// of the rows.
pub open spec fn clients_in(rows: Seq<Option<Vec<Cell>>>, f: UfilterView) -> Seq<ClientView>
    decreases rows.len(),
{
    if rows.len() == 0 {
        Seq::empty()
    } else {
        let before = clients_in(rows.drop_last(), f);
        match rows.last() {
            Some(cells) => match client_in(cells@) {
                Some(c) => if f.matches(c) {
                    before.push(c)
                } else {
                    before
                },
                None => before,
            },
            None => before,
        }
    }
}

/// The clients that an answer of the engine holds for a read with `filter`.
pub fn clients_from_rows(rows: &Rows, filter: &Ufilter) -> (out: Vec<Client>)
    ensures
        client_views(out@) == clients_in(rows@, filter@),
        forall|i: int| 0 <= i < out.len() ==> filter@.matches(#[trigger] out[i]@),
{
    let mut out: Vec<Client> = Vec::new();
    let mut i: usize = 0;
    assert(rows@.take(0) =~= Seq::empty());
    while i < rows.len()
        invariant
            i <= rows.len(),
            client_views(out@) =~= clients_in(rows@.take(i as int), filter@),
            forall|j: int| 0 <= j < out.len() ==> filter@.matches(#[trigger] out[j]@),
        decreases rows.len() - i,
    {
        assert(rows@.take(i + 1).drop_last() =~= rows@.take(i as int));
        match &rows[i] {
            Some(cells) => match read_client(cells) {
                Some(c) => if filter.admits(&c) {
                    out.push(c);
                },
                None => {},
            },
            None => {},
        }
        i = i + 1;
    }
    assert(rows@.take(i as int) =~= rows@);
    out
}

/// The alias that a row of `aid, uid, alias` stands for: the two identities
/// are not negative, the alias is a text.
pub open spec fn alias_in(cells: Seq<Cell>) -> Option<AliasView> {
    if cells.len() == 3 && id_in(cells[0]) is Some && id_in(cells[1]) is Some && text_in(
        cells[2],
    ) is Some {
        Some(
            AliasView {
                aid: id_in(cells[0])->0,
                uid: id_in(cells[1])->0,
                alias: text_in(cells[2])->0,
            },
        )
    } else {
        None
    }
}

/// The alias that a row stands for, if it is well formed.
pub fn read_alias(cells: &Vec<Cell>) -> (r: Option<Alias>)
    ensures
        match r {
            Some(a) => alias_in(cells@) == Some(a@),
            None => alias_in(cells@) is None,
        },
{
    if cells.len() != 3 {
        return None;
    }
    let aid = match read_id(&cells[0]) {
        Some(id) => id,
        None => {
            return None;
        },
    };
    let uid = match read_id(&cells[1]) {
        Some(id) => id,
        None => {
            return None;
        },
    };
    let alias = match read_text(&cells[2]) {
        Some(t) => t,
        None => {
            return None;
        },
    };
    Some(Alias { alias, aid, uid })
}

/// The aliases among `rows` that are well formed and owned by the client
/// `uid`, in the order of the rows.
pub open spec fn aliases_in(rows: Seq<Option<Vec<Cell>>>, uid: nat) -> Seq<AliasView>
    decreases rows.len(),
{
    if rows.len() == 0 {
        Seq::empty()
    } else {
        let before = aliases_in(rows.drop_last(), uid);
        match rows.last() {
            Some(cells) => match alias_in(cells@) {
                Some(a) => if a.uid == uid {
                    before.push(a)
                } else {
                    before
                },
                None => before,
            },
            None => before,
        }
    }
}

/// The aliases that an answer of the engine holds for the client `uid`.
pub fn aliases_from_rows(rows: &Rows, uid: u64) -> (out: Vec<Alias>)
    ensures
        alias_views(out@) == aliases_in(rows@, uid as nat),
        forall|i: int| 0 <= i < out.len() ==> (#[trigger] out[i]).uid == uid,
{
    let mut out: Vec<Alias> = Vec::new();
    let mut i: usize = 0;
    assert(rows@.take(0) =~= Seq::empty());
    while i < rows.len()
        invariant
            i <= rows.len(),
            alias_views(out@) =~= aliases_in(rows@.take(i as int), uid as nat),
            forall|j: int| 0 <= j < out.len() ==> (#[trigger] out[j]).uid == uid,
        decreases rows.len() - i,
    {
        assert(rows@.take(i + 1).drop_last() =~= rows@.take(i as int));
        match &rows[i] {
            Some(cells) => match read_alias(cells) {
                Some(a) => if a.uid == uid {
                    out.push(a);
                },
                None => {},
            },
            None => {},
        }
        i = i + 1;
    }
    assert(rows@.take(i as int) =~= rows@);
    out
}

/// The transaction that a row of `tid, uid, date, price, payment, detail`
/// stands for: the identity and the date are not negative, the owner is an
/// identity or empty, the price and the payment are whole numbers, the
/// detail is a text or empty.
pub open spec fn transaction_in(cells: Seq<Cell>) -> Option<TransactionView> {
    if cells.len() == 6 && id_in(cells[0]) is Some && optional_id_in(cells[1]) is Some && id_in(
        cells[2],
    ) is Some && amount_in(cells[3]) is Some && amount_in(cells[4]) is Some && optional_text_in(
        cells[5],
    ) is Some {
        Some(
            TransactionView {
                tid: id_in(cells[0])->0,
                uid: optional_id_in(cells[1])->0,
                date: id_in(cells[2])->0,
                price: amount_in(cells[3])->0,
                payment: amount_in(cells[4])->0,
                detail: optional_text_in(cells[5])->0,
            },
        )
    } else {
        None
    }
}

/// The transaction that a row stands for, if it is well formed.
pub fn read_transaction(cells: &Vec<Cell>) -> (r: Option<Transaction>)
    ensures
        match r {
            Some(t) => transaction_in(cells@) == Some(t@),
            None => transaction_in(cells@) is None,
        },
{
    if cells.len() != 6 {
        return None;
    }
    let tid = match read_id(&cells[0]) {
        Some(id) => id,
        None => {
            return None;
        },
    };
    let uid = match read_optional_id(&cells[1]) {
        Some(id) => id,
        None => {
            return None;
        },
    };
    let date = match read_id(&cells[2]) {
        Some(d) => d,
        None => {
            return None;
        },
    };
    let price = match read_amount(&cells[3]) {
        Some(a) => a,
        None => {
            return None;
        },
    };
    let payment = match read_amount(&cells[4]) {
        Some(a) => a,
        None => {
            return None;
        },
    };
    let detail = match read_optional_text(&cells[5]) {
        Some(d) => d,
        None => {
            return None;
        },
    };
    Some(Transaction { detail, date, uid, tid, price, payment })
}

/// The transactions among `rows` that are well formed and pass `f`, in the
/// order of the rows.
pub open spec fn transactions_in(rows: Seq<Option<Vec<Cell>>>, f: TfilterView) -> Seq<
    TransactionView,
>
    decreases rows.len(),
{
    if rows.len() == 0 {
        Seq::empty()
    } else {
        let before = transactions_in(rows.drop_last(), f);
        match rows.last() {
            Some(cells) => match transaction_in(cells@) {
                Some(t) => if f.matches(t) {
                    before.push(t)
                } else {
                    before
                },
                None => before,
            },
            None => before,
        }
    }
}

/// The transactions that an answer of the engine holds for a read with
/// `filter`.
pub fn transactions_from_rows(rows: &Rows, filter: &Tfilter) -> (out: Vec<Transaction>)
    ensures
        transaction_views(out@) == transactions_in(rows@, filter@),
        forall|i: int| 0 <= i < out.len() ==> filter@.matches(#[trigger] out[i]@),
{
    let mut out: Vec<Transaction> = Vec::new();
    let mut i: usize = 0;
    assert(rows@.take(0) =~= Seq::empty());
    while i < rows.len()
        invariant
            i <= rows.len(),
            transaction_views(out@) =~= transactions_in(rows@.take(i as int), filter@),
            forall|j: int| 0 <= j < out.len() ==> filter@.matches(#[trigger] out[j]@),
        decreases rows.len() - i,
    {
        assert(rows@.take(i + 1).drop_last() =~= rows@.take(i as int));
        match &rows[i] {
            Some(cells) => match read_transaction(cells) {
                Some(t) => if filter.admits(&t) {
                    out.push(t);
                },
                None => {},
            },
            None => {},
        }
        i = i + 1;
    }
    assert(rows@.take(i as int) =~= rows@);
    out
}

} // verus!
