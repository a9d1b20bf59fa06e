//! The store as a mathematical value, and each operation as a function from
//! one such value to the next.
//!
//! This is what an engine whose state is known is held to. The balance of a
//! client is a stored number: it follows the transactions only when it is
//! recomputed or adjusted.

use vstd::prelude::*;

use crate::database::clients::AliasView;
use crate::database::clients::ClientView;
use crate::database::clients::UfilterView;
use crate::database::sequences::ascending;
use crate::database::sequences::lemma_filter_ascending;
use crate::database::transactions::TfilterView;
use crate::database::transactions::TransactionView;

verus! {

/// All that a store holds: the last identity that was given out, and the
/// clients, aliases and transactions, each kind in the order in which its
/// records were added.
pub struct Ledger {
    pub last_uid: nat,
    pub clients: Seq<ClientView>,
    pub aliases: Seq<AliasView>,
    pub transactions: Seq<TransactionView>,
}

/// All that was paid on the transactions of `txs` that the client `uid`
/// owns.
pub open spec fn total_paid(txs: Seq<TransactionView>, uid: nat) -> int
    decreases txs.len(),
{
    if txs.len() == 0 {
        0
    } else {
        total_paid(txs.drop_last(), uid) + if txs.last().uid == Some(uid) {
            txs.last().payment
        } else {
            0
        }
    }
}

/// All that was billed on the transactions of `txs` that the client `uid`
/// owns.
pub open spec fn total_billed(txs: Seq<TransactionView>, uid: nat) -> int
    decreases txs.len(),
{
    if txs.len() == 0 {
        0
    } else {
        total_billed(txs.drop_last(), uid) + if txs.last().uid == Some(uid) {
            txs.last().price
        } else {
            0
        }
    }
}

/// The balance that the transactions `txs` give the client `uid`: all that
/// was paid less all that was billed.
pub open spec fn owed_balance(txs: Seq<TransactionView>, uid: nat) -> int {
    total_paid(txs, uid) - total_billed(txs, uid)
}

/// Passes every client but `uid`.
pub open spec fn other_client(uid: nat) -> spec_fn(ClientView) -> bool {
    |c: ClientView| c.cid != uid
}

/// Passes the aliases that the client `uid` owns.
pub open spec fn alias_of(uid: nat) -> spec_fn(AliasView) -> bool {
    |a: AliasView| a.uid == uid
}

/// Passes the aliases that the client `uid` does not own.
pub open spec fn alias_of_other(uid: nat) -> spec_fn(AliasView) -> bool {
    |a: AliasView| a.uid != uid
}

/// Passes every alias but `aid`.
pub open spec fn other_alias(aid: nat) -> spec_fn(AliasView) -> bool {
    |a: AliasView| a.aid != aid
}

/// Passes every transaction but `tid`.
pub open spec fn other_transaction(tid: nat) -> spec_fn(TransactionView) -> bool {
    |t: TransactionView| t.tid != tid
}

/// Passes the clients that pass the filter `f`.
pub open spec fn client_passes(f: UfilterView) -> spec_fn(ClientView) -> bool {
    |c: ClientView| f.matches(c)
}

/// Passes the transactions that pass the filter `f`.
pub open spec fn transaction_passes(f: TfilterView) -> spec_fn(TransactionView) -> bool {
    |t: TransactionView| f.matches(t)
}

/// The client `c`, renamed where it is the client `uid`.
pub open spec fn renamed(uid: nat, name: Seq<char>, detail: Option<Seq<char>>) -> spec_fn(
    ClientView,
) -> ClientView {
    |c: ClientView|
        if c.cid == uid {
            ClientView { name, detail, ..c }
        } else {
            c
        }
}

/// The client `c`, with the balance `balance` where it is the client `uid`.
pub open spec fn rebalanced(uid: nat, balance: int) -> spec_fn(ClientView) -> ClientView {
    |c: ClientView|
        if c.cid == uid {
            ClientView { balance, ..c }
        } else {
            c
        }
}

/// The client `c`, with `delta` more on its balance where it is the client
/// `uid`.
pub open spec fn credited(uid: nat, delta: int) -> spec_fn(ClientView) -> ClientView {
    |c: ClientView|
        if c.cid == uid {
            ClientView { balance: c.balance + delta, ..c }
        } else {
            c
        }
}

/// The alias `a`, with the text `alias` where it is the alias `aid`.
pub open spec fn reworded(aid: nat, alias: Seq<char>) -> spec_fn(AliasView) -> AliasView {
    |a: AliasView|
        if a.aid == aid {
            AliasView { alias, ..a }
        } else {
            a
        }
}

/// The transaction `t`, without an owner where the client `uid` owned it.
pub open spec fn disowned(uid: nat) -> spec_fn(TransactionView) -> TransactionView {
    |t: TransactionView|
        if t.uid == Some(uid) {
            TransactionView { uid: None, ..t }
        } else {
            t
        }
}

/// The transaction `t`, with this date, owner and detail where it is the
/// transaction `tid`.
pub open spec fn redated(
    tid: nat,
    date: nat,
    owner: Option<nat>,
    detail: Option<Seq<char>>,
) -> spec_fn(TransactionView) -> TransactionView {
    |t: TransactionView|
        if t.tid == tid {
            TransactionView { date, uid: owner, detail, ..t }
        } else {
            t
        }
}

/// The transaction `t`, with `delta` more paid where it is the transaction
/// `tid`.
pub open spec fn paid_more(tid: nat, delta: int) -> spec_fn(TransactionView) -> TransactionView {
    |t: TransactionView|
        if t.tid == tid {
            TransactionView { payment: t.payment + delta, ..t }
        } else {
            t
        }
}

/// The transaction `t`, with the price `price` where it is the transaction
/// `tid`.
pub open spec fn repriced(tid: nat, price: int) -> spec_fn(TransactionView) -> TransactionView {
    |t: TransactionView|
        if t.tid == tid {
            TransactionView { price, ..t }
        } else {
            t
        }
}

/// Whether the client `uid` is one of `clients`.
pub open spec fn client_among(clients: Seq<ClientView>, uid: nat) -> bool {
    exists|i: int| 0 <= i < clients.len() && (#[trigger] clients[i]).cid == uid
}

/// The identity of a client.
pub open spec fn client_key() -> spec_fn(ClientView) -> nat {
    |c: ClientView| c.cid
}

/// The identity of an alias.
pub open spec fn alias_key() -> spec_fn(AliasView) -> nat {
    |a: AliasView| a.aid
}

/// The identity of a transaction.
pub open spec fn transaction_key() -> spec_fn(TransactionView) -> nat {
    |t: TransactionView| t.tid
}

impl Ledger {
    /// The store that holds nothing and has given out no identity.
    pub open spec fn empty() -> Ledger {
        Ledger {
            last_uid: 0,
            clients: Seq::empty(),
            aliases: Seq::empty(),
            transactions: Seq::empty(),
        }
    }

    /// Whether the store holds the client `uid`.
    pub open spec fn has_client(self, uid: nat) -> bool {
        client_among(self.clients, uid)
    }

    /// Whether the store holds the alias `aid`.
    pub open spec fn has_alias(self, aid: nat) -> bool {
        exists|i: int| 0 <= i < self.aliases.len() && (#[trigger] self.aliases[i]).aid == aid
    }

    /// Whether the store holds the transaction `tid`.
    pub open spec fn has_transaction(self, tid: nat) -> bool {
        exists|i: int|
            0 <= i < self.transactions.len() && (#[trigger] self.transactions[i]).tid == tid
    }

    /// The stored client `uid`, where the store holds it.
    pub open spec fn client(self, uid: nat) -> ClientView {
        self.clients[choose|i: int|
            0 <= i < self.clients.len() && (#[trigger] self.clients[i]).cid == uid]
    }

    /// The stored transaction `tid`, where the store holds it.
    pub open spec fn transaction(self, tid: nat) -> TransactionView {
        self.transactions[choose|i: int|
            0 <= i < self.transactions.len() && (#[trigger] self.transactions[i]).tid == tid]
    }

    /// What a store must fulfil. Identities start at one, none is beyond
    /// the last that was given out, and within a kind they grow from each
    /// record to the next, so that none occurs twice. Every client has a
    /// name. The owner of an alias is a client of the store, and so is the
    /// owner of a transaction that has one.
    pub open spec fn wf(self) -> bool {
        &&& forall|i: int|
            0 <= i < self.clients.len() ==> 1 <= (#[trigger] self.clients[i]).cid <= self.last_uid
        &&& forall|i: int, j: int|
            0 <= i < j < self.clients.len() ==> (#[trigger] self.clients[i]).cid < (
            #[trigger] self.clients[j]).cid
        &&& forall|i: int| 0 <= i < self.clients.len() ==> (#[trigger] self.clients[i]).name.len() > 0
        &&& forall|i: int|
            0 <= i < self.aliases.len() ==> 1 <= (#[trigger] self.aliases[i]).aid <= self.last_uid
        &&& forall|i: int, j: int|
            0 <= i < j < self.aliases.len() ==> (#[trigger] self.aliases[i]).aid < (
            #[trigger] self.aliases[j]).aid
        &&& forall|i: int|
            0 <= i < self.aliases.len() ==> self.has_client((#[trigger] self.aliases[i]).uid)
        &&& forall|i: int|
            0 <= i < self.transactions.len() ==> 1 <= (#[trigger] self.transactions[i]).tid
                <= self.last_uid
        &&& forall|i: int, j: int|
            0 <= i < j < self.transactions.len() ==> (#[trigger] self.transactions[i]).tid < (
            #[trigger] self.transactions[j]).tid
        &&& forall|i: int|
            0 <= i < self.transactions.len() ==> ((#[trigger] self.transactions[i]).uid matches Some(
                owner,
            ) ==> self.has_client(owner))
    }

    /// The store after the next identity was given out and left unused.
    pub open spec fn skip_uid(self) -> Ledger {
        Ledger { last_uid: self.last_uid + 1, ..self }
    }

    /// The store after a client with this name and detail was added: it has
    /// the next identity and a balance of zero.
    pub open spec fn add_client(self, name: Seq<char>, detail: Seq<char>) -> Ledger {
        Ledger {
            last_uid: self.last_uid + 1,
            clients: self.clients.push(
                ClientView { cid: self.last_uid + 1, name, detail: Some(detail), balance: 0 },
            ),
            ..self
        }
    }

    /// The store after the client `uid` was given this name and detail.
    pub open spec fn update_client(self, uid: nat, name: Seq<char>, detail: Option<Seq<char>>) -> Ledger {
        Ledger { clients: self.clients.map_values(renamed(uid, name, detail)), ..self }
    }

    /// The store after the client `uid` was removed: its aliases are gone
    /// with it, and its transactions are all there, without an owner.
    pub open spec fn remove_client(self, uid: nat) -> Ledger {
        Ledger {
            clients: self.clients.filter(other_client(uid)),
            aliases: self.aliases.filter(alias_of_other(uid)),
            transactions: self.transactions.map_values(disowned(uid)),
            ..self
        }
    }

    /// The clients that pass `f`, in the order of the store.
    pub open spec fn get_clients(self, f: UfilterView) -> Seq<ClientView> {
        self.clients.filter(client_passes(f))
    }

    /// The store after the client `uid` was given the alias `alias`, under
    /// the next identity.
    pub open spec fn add_alias(self, uid: nat, alias: Seq<char>) -> Ledger {
        Ledger {
            last_uid: self.last_uid + 1,
            aliases: self.aliases.push(AliasView { aid: self.last_uid + 1, uid, alias }),
            ..self
        }
    }

    /// The aliases that the client `uid` owns, in the order of the store.
    pub open spec fn get_aliases(self, uid: nat) -> Seq<AliasView> {
        self.aliases.filter(alias_of(uid))
    }

    /// The store after the alias `aid` was removed.
    pub open spec fn remove_alias(self, aid: nat) -> Ledger {
        Ledger { aliases: self.aliases.filter(other_alias(aid)), ..self }
    }

    /// The store after the alias `aid` was given the text `alias`.
    pub open spec fn update_alias(self, aid: nat, alias: Seq<char>) -> Ledger {
        Ledger { aliases: self.aliases.map_values(reworded(aid, alias)), ..self }
    }

    /// The store after the balance of the client `uid` was set to what its
    /// transactions come to.
    pub open spec fn recompute_balance(self, uid: nat) -> Ledger {
        Ledger {
            clients: self.clients.map_values(
                rebalanced(uid, owed_balance(self.transactions, uid)),
            ),
            ..self
        }
    }

    /// The store after `delta` was added to the balance of the client
    /// `uid`.
    pub open spec fn adjust_balance(self, uid: nat, delta: int) -> Ledger {
        Ledger { clients: self.clients.map_values(credited(uid, delta)), ..self }
    }

    /// The store after a transaction was added, under the next identity.
    pub open spec fn add_transaction(
        self,
        owner: Option<nat>,
        price: int,
        payment: int,
        detail: Seq<char>,
        date: nat,
    ) -> Ledger {
        Ledger {
            last_uid: self.last_uid + 1,
            transactions: self.transactions.push(
                TransactionView {
                    tid: self.last_uid + 1,
                    uid: owner,
                    date,
                    price,
                    payment,
                    detail: Some(detail),
                },
            ),
            ..self
        }
    }

    /// The transactions that pass `f`, in the order of the store.
    pub open spec fn get_transactions(self, f: TfilterView) -> Seq<TransactionView> {
        self.transactions.filter(transaction_passes(f))
    }

    /// The store after the transaction `tid` was given this date, owner and
    /// detail.
    pub open spec fn update_transaction(
        self,
        tid: nat,
        date: nat,
        owner: Option<nat>,
        detail: Option<Seq<char>>,
    ) -> Ledger {
        Ledger {
            transactions: self.transactions.map_values(redated(tid, date, owner, detail)),
            ..self
        }
    }

    /// The store after `delta` was added to what was paid on the
    /// transaction `tid`.
    pub open spec fn adjust_payment(self, tid: nat, delta: int) -> Ledger {
        Ledger { transactions: self.transactions.map_values(paid_more(tid, delta)), ..self }
    }

    /// The store after the price of the transaction `tid` was set.
    pub open spec fn set_price(self, tid: nat, price: int) -> Ledger {
        Ledger { transactions: self.transactions.map_values(repriced(tid, price)), ..self }
    }

    /// The store after the transaction `tid` was removed.
    pub open spec fn remove_transaction(self, tid: nat) -> Ledger {
        Ledger { transactions: self.transactions.filter(other_transaction(tid)), ..self }
    }
}

/// Two lists of clients with the same identities, place by place, hold the
/// same clients.
pub proof fn lemma_same_identities(a: Seq<ClientView>, b: Seq<ClientView>, uid: nat)
    requires
        a.len() == b.len(),
        forall|i: int| 0 <= i < a.len() ==> (#[trigger] a[i]).cid == (#[trigger] b[i]).cid,
    ensures
        client_among(a, uid) == client_among(b, uid),
{
    if client_among(a, uid) {
        let i = choose|i: int| 0 <= i < a.len() && (#[trigger] a[i]).cid == uid;
        assert(b[i].cid == uid);
    }
    if client_among(b, uid) {
        let i = choose|i: int| 0 <= i < b.len() && (#[trigger] b[i]).cid == uid;
        assert(a[i].cid == uid);
    }
}

/// The empty store is well formed.
pub proof fn lemma_empty_wf()
    ensures
        Ledger::empty().wf(),
{
}

/// Giving out an identity keeps the store well formed.
pub proof fn lemma_skip_uid_wf(s: Ledger)
    requires
        s.wf(),
    ensures
        s.skip_uid().wf(),
{
    let n = s.skip_uid();
    assert(n.clients == s.clients);
}

/// Adding a client that has a name keeps the store well formed.
pub proof fn lemma_add_client_wf(s: Ledger, name: Seq<char>, detail: Seq<char>)
    requires
        s.wf(),
        name.len() > 0,
    ensures
        s.add_client(name, detail).wf(),
{
    let n = s.add_client(name, detail);
    assert forall|uid: nat| s.has_client(uid) implies n.has_client(uid) by {
        let i = choose|i: int| 0 <= i < s.clients.len() && (#[trigger] s.clients[i]).cid == uid;
        assert(n.clients[i].cid == uid);
    }
    assert forall|i: int, j: int| 0 <= i < j < n.clients.len() implies (
    #[trigger] n.clients[i]).cid < (#[trigger] n.clients[j]).cid by {
        assert(n.clients[i] == s.clients[i]);
        if j < s.clients.len() {
            assert(n.clients[j] == s.clients[j]);
        }
    }
    assert forall|i: int| 0 <= i < n.clients.len() implies 1 <= (#[trigger] n.clients[i]).cid
        <= n.last_uid && n.clients[i].name.len() > 0 by {
        if i < s.clients.len() {
            assert(n.clients[i] == s.clients[i]);
        }
    }
}

/// Renaming a client keeps the store well formed, if the new name is not
/// empty.
pub proof fn lemma_update_client_wf(
    s: Ledger,
    uid: nat,
    name: Seq<char>,
    detail: Option<Seq<char>>,
)
    requires
        s.wf(),
        name.len() > 0,
    ensures
        s.update_client(uid, name, detail).wf(),
{
    let n = s.update_client(uid, name, detail);
    assert forall|owner: nat| s.has_client(owner) == n.has_client(owner) by {
        lemma_same_identities(s.clients, n.clients, owner);
    }
    assert forall|i: int| 0 <= i < n.clients.len() implies 1 <= (#[trigger] n.clients[i]).cid
        <= n.last_uid && n.clients[i].name.len() > 0 by {
        assert(n.clients[i].cid == s.clients[i].cid);
    }
    assert forall|i: int, j: int| 0 <= i < j < n.clients.len() implies (
    #[trigger] n.clients[i]).cid < (#[trigger] n.clients[j]).cid by {
        assert(n.clients[i].cid == s.clients[i].cid);
        assert(n.clients[j].cid == s.clients[j].cid);
    }
}

/// Setting the balance of a client keeps the store well formed.
pub proof fn lemma_set_balance_wf(s: Ledger, uid: nat, balance: int)
    requires
        s.wf(),
    ensures
        (Ledger { clients: s.clients.map_values(rebalanced(uid, balance)), ..s }).wf(),
{
    let n = Ledger { clients: s.clients.map_values(rebalanced(uid, balance)), ..s };
    assert forall|owner: nat| s.has_client(owner) == n.has_client(owner) by {
        lemma_same_identities(s.clients, n.clients, owner);
    }
    assert forall|i: int| 0 <= i < n.clients.len() implies 1 <= (#[trigger] n.clients[i]).cid
        <= n.last_uid && n.clients[i].name.len() > 0 by {
        assert(n.clients[i].cid == s.clients[i].cid);
        assert(n.clients[i].name == s.clients[i].name);
    }
    assert forall|i: int, j: int| 0 <= i < j < n.clients.len() implies (
    #[trigger] n.clients[i]).cid < (#[trigger] n.clients[j]).cid by {
        assert(n.clients[i].cid == s.clients[i].cid);
        assert(n.clients[j].cid == s.clients[j].cid);
    }
}

/// Recomputing the balance of a client keeps the store well formed.
pub proof fn lemma_recompute_balance_wf(s: Ledger, uid: nat)
    requires
        s.wf(),
    ensures
        s.recompute_balance(uid).wf(),
{
    lemma_set_balance_wf(s, uid, owed_balance(s.transactions, uid));
}

/// Adjusting the balance of a client keeps the store well formed.
pub proof fn lemma_adjust_balance_wf(s: Ledger, uid: nat, delta: int)
    requires
        s.wf(),
    ensures
        s.adjust_balance(uid, delta).wf(),
{
    let n = s.adjust_balance(uid, delta);
    assert forall|owner: nat| s.has_client(owner) == n.has_client(owner) by {
        lemma_same_identities(s.clients, n.clients, owner);
    }
    assert forall|i: int| 0 <= i < n.clients.len() implies 1 <= (#[trigger] n.clients[i]).cid
        <= n.last_uid && n.clients[i].name.len() > 0 by {
        assert(n.clients[i].cid == s.clients[i].cid);
        assert(n.clients[i].name == s.clients[i].name);
    }
    assert forall|i: int, j: int| 0 <= i < j < n.clients.len() implies (
    #[trigger] n.clients[i]).cid < (#[trigger] n.clients[j]).cid by {
        assert(n.clients[i].cid == s.clients[i].cid);
        assert(n.clients[j].cid == s.clients[j].cid);
    }
}

/// Removing a client keeps the store well formed: no alias and no
/// transaction is left that names it.
pub proof fn lemma_remove_client_wf(s: Ledger, uid: nat)
    requires
        s.wf(),
    ensures
        s.remove_client(uid).wf(),
{
    let n = s.remove_client(uid);
    assert(ascending(s.clients, client_key()));
    assert(ascending(s.aliases, alias_key()));
    lemma_filter_ascending(s.clients, other_client(uid), client_key());
    lemma_filter_ascending(s.aliases, alias_of_other(uid), alias_key());
    assert forall|owner: nat| owner != uid && s.has_client(owner) implies n.has_client(owner) by {
        let i = choose|i: int| 0 <= i < s.clients.len() && (#[trigger] s.clients[i]).cid == owner;
        assert(other_client(uid)(s.clients[i]));
        assert(n.clients.contains(s.clients[i]));
        let k = choose|k: int| 0 <= k < n.clients.len() && n.clients[k] == s.clients[i];
        assert(n.clients[k].cid == owner);
    }
    assert forall|i: int| 0 <= i < n.clients.len() implies 1 <= (#[trigger] n.clients[i]).cid
        <= n.last_uid && n.clients[i].name.len() > 0 by {
        assert(s.clients.contains(n.clients[i]));
        let k = choose|k: int| 0 <= k < s.clients.len() && s.clients[k] == n.clients[i];
        assert(1 <= s.clients[k].cid);
    }
    assert forall|i: int, j: int| 0 <= i < j < n.clients.len() implies (
    #[trigger] n.clients[i]).cid < (#[trigger] n.clients[j]).cid by {
        assert(client_key()(n.clients[i]) < client_key()(n.clients[j]));
    }
    assert forall|i: int| 0 <= i < n.aliases.len() implies 1 <= (#[trigger] n.aliases[i]).aid
        <= n.last_uid && n.has_client(n.aliases[i].uid) by {
        assert(s.aliases.contains(n.aliases[i]));
        let k = choose|k: int| 0 <= k < s.aliases.len() && s.aliases[k] == n.aliases[i];
        assert(s.has_client(s.aliases[k].uid));
        assert(alias_of_other(uid)(n.aliases[i]));
    }
    assert forall|i: int, j: int| 0 <= i < j < n.aliases.len() implies (
    #[trigger] n.aliases[i]).aid < (#[trigger] n.aliases[j]).aid by {
        assert(alias_key()(n.aliases[i]) < alias_key()(n.aliases[j]));
    }
    assert forall|i: int| 0 <= i < n.transactions.len() implies 1 <= (
    #[trigger] n.transactions[i]).tid <= n.last_uid && (n.transactions[i].uid matches Some(owner)
        ==> n.has_client(owner)) by {
        assert(n.transactions[i].tid == s.transactions[i].tid);
        if n.transactions[i].uid is Some {
            assert(n.transactions[i].uid == s.transactions[i].uid);
            assert(s.has_client(s.transactions[i].uid->0));
        }
    }
    assert forall|i: int, j: int| 0 <= i < j < n.transactions.len() implies (
    #[trigger] n.transactions[i]).tid < (#[trigger] n.transactions[j]).tid by {
        assert(n.transactions[i].tid == s.transactions[i].tid);
        assert(n.transactions[j].tid == s.transactions[j].tid);
    }
}

/// Adding an alias for a client of the store keeps it well formed.
pub proof fn lemma_add_alias_wf(s: Ledger, uid: nat, alias: Seq<char>)
    requires
        s.wf(),
        s.has_client(uid),
    ensures
        s.add_alias(uid, alias).wf(),
{
    let n = s.add_alias(uid, alias);
    assert(n.clients == s.clients);
    assert forall|i: int| 0 <= i < n.aliases.len() implies 1 <= (#[trigger] n.aliases[i]).aid
        <= n.last_uid && n.has_client(n.aliases[i].uid) by {
        if i < s.aliases.len() {
            assert(n.aliases[i] == s.aliases[i]);
        }
    }
    assert forall|i: int, j: int| 0 <= i < j < n.aliases.len() implies (
    #[trigger] n.aliases[i]).aid < (#[trigger] n.aliases[j]).aid by {
        assert(n.aliases[i] == s.aliases[i]);
        if j < s.aliases.len() {
            assert(n.aliases[j] == s.aliases[j]);
        }
    }
}

/// Removing an alias keeps the store well formed.
pub proof fn lemma_remove_alias_wf(s: Ledger, aid: nat)
    requires
        s.wf(),
    ensures
        s.remove_alias(aid).wf(),
{
    let n = s.remove_alias(aid);
    assert(n.clients == s.clients);
    assert(ascending(s.aliases, alias_key()));
    lemma_filter_ascending(s.aliases, other_alias(aid), alias_key());
    assert forall|i: int| 0 <= i < n.aliases.len() implies 1 <= (#[trigger] n.aliases[i]).aid
        <= n.last_uid && n.has_client(n.aliases[i].uid) by {
        assert(s.aliases.contains(n.aliases[i]));
        let k = choose|k: int| 0 <= k < s.aliases.len() && s.aliases[k] == n.aliases[i];
        assert(s.has_client(s.aliases[k].uid));
    }
    assert forall|i: int, j: int| 0 <= i < j < n.aliases.len() implies (
    #[trigger] n.aliases[i]).aid < (#[trigger] n.aliases[j]).aid by {
        assert(alias_key()(n.aliases[i]) < alias_key()(n.aliases[j]));
    }
}

/// Rewording an alias keeps the store well formed.
pub proof fn lemma_update_alias_wf(s: Ledger, aid: nat, alias: Seq<char>)
    requires
        s.wf(),
    ensures
        s.update_alias(aid, alias).wf(),
{
    let n = s.update_alias(aid, alias);
    assert(n.clients == s.clients);
    assert forall|i: int| 0 <= i < n.aliases.len() implies 1 <= (#[trigger] n.aliases[i]).aid
        <= n.last_uid && n.has_client(n.aliases[i].uid) by {
        assert(n.aliases[i].aid == s.aliases[i].aid);
        assert(n.aliases[i].uid == s.aliases[i].uid);
    }
    assert forall|i: int, j: int| 0 <= i < j < n.aliases.len() implies (
    #[trigger] n.aliases[i]).aid < (#[trigger] n.aliases[j]).aid by {
        assert(n.aliases[i].aid == s.aliases[i].aid);
        assert(n.aliases[j].aid == s.aliases[j].aid);
    }
}

/// Adding a transaction without an owner, or with one that is a client of
/// the store, keeps it well formed.
pub proof fn lemma_add_transaction_wf(
    s: Ledger,
    owner: Option<nat>,
    price: int,
    payment: int,
    detail: Seq<char>,
    date: nat,
)
    requires
        s.wf(),
        owner matches Some(o) ==> s.has_client(o),
    ensures
        s.add_transaction(owner, price, payment, detail, date).wf(),
{
    let n = s.add_transaction(owner, price, payment, detail, date);
    assert(n.clients == s.clients);
    assert forall|i: int| 0 <= i < n.transactions.len() implies 1 <= (
    #[trigger] n.transactions[i]).tid <= n.last_uid && (n.transactions[i].uid matches Some(o)
        ==> n.has_client(o)) by {
        if i < s.transactions.len() {
            assert(n.transactions[i] == s.transactions[i]);
        }
    }
    assert forall|i: int, j: int| 0 <= i < j < n.transactions.len() implies (
    #[trigger] n.transactions[i]).tid < (#[trigger] n.transactions[j]).tid by {
        assert(n.transactions[i] == s.transactions[i]);
        if j < s.transactions.len() {
            assert(n.transactions[j] == s.transactions[j]);
        }
    }
}

/// Rewriting a transaction keeps the store well formed, if its new owner is
/// nobody or a client of the store.
pub proof fn lemma_update_transaction_wf(
    s: Ledger,
    tid: nat,
    date: nat,
    owner: Option<nat>,
    detail: Option<Seq<char>>,
)
    requires
        s.wf(),
        owner matches Some(o) ==> s.has_client(o),
    ensures
        s.update_transaction(tid, date, owner, detail).wf(),
{
    let n = s.update_transaction(tid, date, owner, detail);
    assert(n.clients == s.clients);
    assert forall|i: int| 0 <= i < n.transactions.len() implies 1 <= (
    #[trigger] n.transactions[i]).tid <= n.last_uid && (n.transactions[i].uid matches Some(o)
        ==> n.has_client(o)) by {
        assert(n.transactions[i].tid == s.transactions[i].tid);
        assert(n.transactions[i].uid == owner || n.transactions[i].uid == s.transactions[i].uid);
    }
    assert forall|i: int, j: int| 0 <= i < j < n.transactions.len() implies (
    #[trigger] n.transactions[i]).tid < (#[trigger] n.transactions[j]).tid by {
        assert(n.transactions[i].tid == s.transactions[i].tid);
        assert(n.transactions[j].tid == s.transactions[j].tid);
    }
}

/// Adding to what was paid on a transaction keeps the store well formed.
pub proof fn lemma_adjust_payment_wf(s: Ledger, tid: nat, delta: int)
    requires
        s.wf(),
    ensures
        s.adjust_payment(tid, delta).wf(),
{
    let n = s.adjust_payment(tid, delta);
    assert(n.clients == s.clients);
    assert forall|i: int| 0 <= i < n.transactions.len() implies 1 <= (
    #[trigger] n.transactions[i]).tid <= n.last_uid && (n.transactions[i].uid matches Some(o)
        ==> n.has_client(o)) by {
        assert(n.transactions[i].tid == s.transactions[i].tid);
        assert(n.transactions[i].uid == s.transactions[i].uid);
    }
    assert forall|i: int, j: int| 0 <= i < j < n.transactions.len() implies (
    #[trigger] n.transactions[i]).tid < (#[trigger] n.transactions[j]).tid by {
        assert(n.transactions[i].tid == s.transactions[i].tid);
        assert(n.transactions[j].tid == s.transactions[j].tid);
    }
}

/// Setting the price of a transaction keeps the store well formed.
pub proof fn lemma_set_price_wf(s: Ledger, tid: nat, price: int)
    requires
        s.wf(),
    ensures
        s.set_price(tid, price).wf(),
{
    let n = s.set_price(tid, price);
    assert(n.clients == s.clients);
    assert forall|i: int| 0 <= i < n.transactions.len() implies 1 <= (
    #[trigger] n.transactions[i]).tid <= n.last_uid && (n.transactions[i].uid matches Some(o)
        ==> n.has_client(o)) by {
        assert(n.transactions[i].tid == s.transactions[i].tid);
        assert(n.transactions[i].uid == s.transactions[i].uid);
    }
    assert forall|i: int, j: int| 0 <= i < j < n.transactions.len() implies (
    #[trigger] n.transactions[i]).tid < (#[trigger] n.transactions[j]).tid by {
        assert(n.transactions[i].tid == s.transactions[i].tid);
        assert(n.transactions[j].tid == s.transactions[j].tid);
    }
}

/// Removing a transaction keeps the store well formed.
pub proof fn lemma_remove_transaction_wf(s: Ledger, tid: nat)
    requires
        s.wf(),
    ensures
        s.remove_transaction(tid).wf(),
{
    let n = s.remove_transaction(tid);
    assert(n.clients == s.clients);
    assert(ascending(s.transactions, transaction_key()));
    lemma_filter_ascending(s.transactions, other_transaction(tid), transaction_key());
    assert forall|i: int| 0 <= i < n.transactions.len() implies 1 <= (
    #[trigger] n.transactions[i]).tid <= n.last_uid && (n.transactions[i].uid matches Some(o)
        ==> n.has_client(o)) by {
        assert(s.transactions.contains(n.transactions[i]));
        let k = choose|k: int|
            0 <= k < s.transactions.len() && s.transactions[k] == n.transactions[i];
        assert(1 <= s.transactions[k].tid);
    }
    assert forall|i: int, j: int| 0 <= i < j < n.transactions.len() implies (
    #[trigger] n.transactions[i]).tid < (#[trigger] n.transactions[j]).tid by {
        assert(transaction_key()(n.transactions[i]) < transaction_key()(n.transactions[j]));
    }
}

/// In a well-formed store the client at a place is the one that its
/// identity names.
pub proof fn lemma_client_at(s: Ledger, i: int)
    requires
        s.wf(),
        0 <= i < s.clients.len(),
    ensures
        s.has_client(s.clients[i].cid),
        s.client(s.clients[i].cid) == s.clients[i],
{
    let uid = s.clients[i].cid;
    let k = choose|k: int| 0 <= k < s.clients.len() && (#[trigger] s.clients[k]).cid == uid;
    if k < i {
        assert(s.clients[k].cid < s.clients[i].cid);
    }
    if i < k {
        assert(s.clients[i].cid < s.clients[k].cid);
    }
}

/// In a well-formed store the transaction at a place is the one that its
/// identity names.
pub proof fn lemma_transaction_at(s: Ledger, i: int)
    requires
        s.wf(),
        0 <= i < s.transactions.len(),
    ensures
        s.has_transaction(s.transactions[i].tid),
        s.transaction(s.transactions[i].tid) == s.transactions[i],
{
    let tid = s.transactions[i].tid;
    let k = choose|k: int|
        0 <= k < s.transactions.len() && (#[trigger] s.transactions[k]).tid == tid;
    if k < i {
        assert(s.transactions[k].tid < s.transactions[i].tid);
    }
    if i < k {
        assert(s.transactions[i].tid < s.transactions[k].tid);
    }
}

} // verus!
