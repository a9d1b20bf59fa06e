//! Transactions, the filter that selects them, and the interface every
//! storage engine offers over them.

use vstd::prelude::*;

use crate::database::clients::copy_text;
use crate::database::clients::text_of;
use crate::database::clients::Client;
use crate::database::clients::Store;
use crate::database::sequences::Identified;

verus! {

/// An amount billed and an amount paid, on a date, for a client or for
/// nobody in particular.
#[derive(Debug)]
pub struct Transaction {
    pub detail: Option<String>,
    pub date: u64,
    pub uid: Option<u64>,
    pub tid: u64,
    pub price: i64,
    pub payment: i64,
}

/// What a `Transaction` holds, as mathematical values. `uid` is the
/// identity of the owning client, `None` for an anonymous transaction;
/// `date` counts the seconds since the Unix epoch.
pub struct TransactionView {
    pub tid: nat,
    pub uid: Option<nat>,
    pub date: nat,
    pub price: int,
    pub payment: int,
    pub detail: Option<Seq<char>>,
}

/// An optional identity as a natural number.
pub open spec fn id_of(id: Option<u64>) -> Option<nat> {
    match id {
        Some(i) => Some(i as nat),
        None => None,
    }
}

impl View for Transaction {
    type V = TransactionView;

    open spec fn view(&self) -> TransactionView {
        TransactionView {
            tid: self.tid as nat,
            uid: id_of(self.uid),
            date: self.date as nat,
            price: self.price as int,
            payment: self.payment as int,
            detail: text_of(self.detail),
        }
    }
}

impl Identified for Transaction {
    open spec fn identity(&self) -> u64 {
        self.tid
    }

    fn id(&self) -> (id: u64) {
        self.tid
    }
}

impl Clone for Transaction {
    fn clone(&self) -> (r: Self)
        ensures
            r == *self,
    {
        Transaction {
            detail: copy_text(&self.detail),
            date: self.date,
            uid: self.uid,
            tid: self.tid,
            price: self.price,
            payment: self.payment,
        }
    }
}

/// Selects transactions: by identity, by owning client, by a range of dates
/// and by a range of prices, both ends of a range included.
#[derive(Debug)]
pub struct Tfilter {
    pub date_range: Option<(u64, u64)>,
    pub tid: Option<u64>,
    pub price_range: Option<(i64, i64)>,
    pub uid: Option<u64>,
}

/// The filter on transactions, under the name that says what it selects.
pub type TransactionFilter = Tfilter;

/// What a `Tfilter` asks for, as mathematical values.
pub struct TfilterView {
    pub date_range: Option<(nat, nat)>,
    pub tid: Option<nat>,
    pub price_range: Option<(int, int)>,
    pub uid: Option<nat>,
}

impl TfilterView {
    /// Whether the transaction `t` passes: every field that is set must
    /// hold of it, and a field that is not set asks for nothing.
    pub open spec fn matches(self, t: TransactionView) -> bool {
        &&& self.date_range matches Some(r) ==> r.0 <= t.date <= r.1
        &&& self.uid matches Some(id) ==> t.uid == Some(id)
        &&& self.tid matches Some(id) ==> t.tid == id
        &&& self.price_range matches Some(r) ==> r.0 <= t.price <= r.1
    }
}

impl View for Tfilter {
    type V = TfilterView;

    open spec fn view(&self) -> TfilterView {
        TfilterView {
            date_range: match self.date_range {
                Some(r) => Some((r.0 as nat, r.1 as nat)),
                None => None,
            },
            tid: id_of(self.tid),
            price_range: match self.price_range {
                Some(r) => Some((r.0 as int, r.1 as int)),
                None => None,
            },
            uid: id_of(self.uid),
        }
    }
}

impl Tfilter {
    /// The filter that every transaction passes.
    pub fn new() -> (f: Tfilter)
        ensures
            f@ == (TfilterView { date_range: None, tid: None, price_range: None, uid: None }),
    {
        Tfilter { date_range: None, tid: None, price_range: None, uid: None }
    }

    /// This filter, asking in addition for a date from `first` to `last`.
    pub fn with_date_range(self, first: u64, last: u64) -> (f: Tfilter)
        ensures
            f@ == (TfilterView { date_range: Some((first as nat, last as nat)), ..self@ }),
    {
        let mut f = self;
        f.date_range = Some((first, last));
        f
    }

    /// This filter, asking in addition for the identity `tid`.
    pub fn with_tid(self, tid: u64) -> (f: Tfilter)
        ensures
            f@ == (TfilterView { tid: Some(tid as nat), ..self@ }),
    {
        let mut f = self;
        f.tid = Some(tid);
        f
    }

    /// This filter, asking in addition for a price from `least` to `most`.
    pub fn with_price_range(self, least: i64, most: i64) -> (f: Tfilter)
        ensures
            f@ == (TfilterView { price_range: Some((least as int, most as int)), ..self@ }),
    {
        let mut f = self;
        f.price_range = Some((least, most));
        f
    }

    /// This filter, asking in addition for the owning client `uid`.
    pub fn with_uid(self, uid: u64) -> (f: Tfilter)
        ensures
            f@ == (TfilterView { uid: Some(uid as nat), ..self@ }),
    {
        let mut f = self;
        f.uid = Some(uid);
        f
    }

    /// Whether the transaction `t` passes this filter.
    pub fn admits(&self, t: &Transaction) -> (r: bool)
        ensures
            r == self@.matches(t@),
    {
        let date_ok = match self.date_range {
            Some(r) => r.0 <= t.date && t.date <= r.1,
            None => true,
        };
        let uid_ok = match self.uid {
            Some(id) => match t.uid {
                Some(owner) => owner == id,
                None => false,
            },
            None => true,
        };
        let tid_ok = match self.tid {
            Some(id) => id == t.tid,
            None => true,
        };
        let price_ok = match self.price_range {
            Some(r) => r.0 <= t.price && t.price <= r.1,
            None => true,
        };
        date_ok && uid_ok && tid_ok && price_ok
    }
}

/// Why an operation on transactions failed.
#[derive(Debug, Clone, Copy, PartialEq, Eq, Structural)]
pub enum TransactionError {
    /// A transaction for nobody in particular must be paid in full: its
    /// payment differs from its price. Nothing was written.
    InvalidPaymentOnAnonClient,
    /// The operation names a transaction or a client that the store does
    /// not hold.
    NotFound,
    /// The engine under the store refused the operation or failed on it.
    BackendError,
}

/// The worded form of `e`.
pub open spec fn transaction_error_text(e: TransactionError) -> Seq<char> {
    match e {
        TransactionError::InvalidPaymentOnAnonClient => "Invalid payment on anon client"@,
        TransactionError::NotFound => "NotFound"@,
        TransactionError::BackendError => "BackendError"@,
    }
}

impl TransactionError {
    /// This error in words.
    pub fn message(&self) -> (s: String)
        ensures
            s@ == transaction_error_text(*self),
    {
        match self {
            TransactionError::InvalidPaymentOnAnonClient => {
                "Invalid payment on anon client".to_owned()
            },
            TransactionError::NotFound => "NotFound".to_owned(),
            TransactionError::BackendError => "BackendError".to_owned(),
        }
    }
}

/// The identity of the client that a new transaction is for, if it is for
/// one.
pub open spec fn owner_of(client: Option<&Client>) -> Option<nat> {
    match client {
        Some(c) => Some(c.cid as nat),
        None => None,
    }
}

/// Whether a new transaction with this owner, price and payment is
/// refused: one for nobody in particular that is not paid in full.
pub open spec fn unpaid_anonymous(owner: Option<&Client>, price: i64, payment: i64) -> bool {
    owner is None && payment != price
}

/// What every storage engine offers over transactions.
///
/// No operation here touches the stored balance of a client: after a
/// change to its transactions the caller has the balance recomputed, or
/// adjusts it by the same amount.
pub trait TransactionsDB: Store {
    /// Stores a new transaction. One without a client must be paid in
    /// full: otherwise it is refused before anything is written.
    fn add_transaction(
        &mut self,
        client: Option<&Client>,
        price: i64,
        payment: i64,
        detail: String,
        date: u64,
    ) -> (res: Result<(), TransactionError>)
        requires
            old(self).wf(),
        ensures
            final(self).wf(),
            unpaid_anonymous(client, price, payment) <==> (res matches Err(
                TransactionError::InvalidPaymentOnAnonClient,
            )),
            client is None ==> !(res matches Err(TransactionError::NotFound)),
    ;

    /// The transactions that pass `filter`.
    fn get_transactions(&self, filter: Tfilter) -> (res: Result<Vec<Transaction>, TransactionError>)
        requires
            self.wf(),
        ensures
            res matches Err(e) ==> e == TransactionError::BackendError,
            res matches Ok(found) ==> forall|i: int|
                0 <= i < found.len() ==> filter@.matches(#[trigger] found[i]@),
    ;

    /// Gives the stored transaction `t.tid` the date, the owner and the
    /// detail of `t`. Its price and its payment stay as they are stored.
    fn update_transaction(&mut self, t: &Transaction) -> (res: Result<(), TransactionError>)
        requires
            old(self).wf(),
        ensures
            final(self).wf(),
            !(res matches Err(TransactionError::InvalidPaymentOnAnonClient)),
    ;

    /// Adds `balance_delta` to what was paid on the transaction `tid`.
    fn update_transaction_balance(&mut self, tid: u64, balance_delta: i64) -> (res: Result<
        (),
        TransactionError,
    >)
        requires
            old(self).wf(),
        ensures
            final(self).wf(),
            !(res matches Err(TransactionError::InvalidPaymentOnAnonClient)),
    ;

    /// Sets the price of the transaction `tid`.
    fn update_transaction_price(&mut self, tid: u64, new_price: i64) -> (res: Result<
        (),
        TransactionError,
    >)
        requires
            old(self).wf(),
        ensures
            final(self).wf(),
            !(res matches Err(TransactionError::InvalidPaymentOnAnonClient)),
    ;

    /// Removes the transaction `tid`. Removing a transaction that is not
    /// there is no error.
    fn remove_transaction(&mut self, tid: u64) -> (res: Result<(), TransactionError>)
        requires
            old(self).wf(),
        ensures
            final(self).wf(),
            res matches Err(e) ==> e == TransactionError::BackendError,
    ;
}

} // verus!
