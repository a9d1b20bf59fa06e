//! What holds of the store whatever is done to it.
//!
//! Every operation is a `Step`; a step that the store does not accept
//! leaves it as it is.

use vstd::prelude::*;

use crate::database::clients::AliasView;
use crate::database::ledger::alias_of;
use crate::database::ledger::alias_of_other;
use crate::database::ledger::client_key;
use crate::database::ledger::alias_key;
use crate::database::ledger::transaction_key;
use crate::database::ledger::credited;
use crate::database::ledger::disowned;
use crate::database::ledger::lemma_add_alias_wf;
use crate::database::ledger::lemma_add_client_wf;
use crate::database::ledger::lemma_add_transaction_wf;
use crate::database::ledger::lemma_adjust_balance_wf;
use crate::database::ledger::lemma_adjust_payment_wf;
use crate::database::ledger::lemma_client_at;
use crate::database::ledger::lemma_recompute_balance_wf;
use crate::database::ledger::lemma_remove_alias_wf;
use crate::database::ledger::lemma_remove_client_wf;
use crate::database::ledger::lemma_remove_transaction_wf;
use crate::database::ledger::lemma_set_price_wf;
use crate::database::ledger::lemma_update_alias_wf;
use crate::database::ledger::lemma_update_client_wf;
use crate::database::ledger::lemma_update_transaction_wf;
use crate::database::ledger::other_alias;
use crate::database::ledger::other_client;
use crate::database::ledger::other_transaction;
use crate::database::ledger::owed_balance;
use crate::database::ledger::rebalanced;
use crate::database::ledger::total_billed;
use crate::database::ledger::total_paid;
use crate::database::ledger::Ledger;
use crate::database::sequences::ascending;
use crate::database::sequences::lemma_filter_all;
use crate::database::sequences::lemma_filter_ascending;
use crate::database::sequences::lemma_filter_twice;
use crate::database::transactions::TransactionView;

verus! {

/// One operation on the store, with what it is given.
#[allow(inconsistent_fields)]
pub enum Step {
    AddClient { name: Seq<char>, detail: Seq<char> },
    UpdateClient { uid: nat, name: Seq<char>, detail: Option<Seq<char>> },
    RemoveClient { uid: nat },
    AddAlias { uid: nat, alias: Seq<char> },
    RemoveAlias { aid: nat },
    UpdateAlias { aid: nat, alias: Seq<char> },
    RecomputeBalance { uid: nat },
    AdjustBalance { uid: nat, delta: int },
    AddTransaction { owner: Option<nat>, price: int, payment: int, detail: Seq<char>, date: nat },
    UpdateTransaction { tid: nat, date: nat, owner: Option<nat>, detail: Option<Seq<char>> },
    AdjustPayment { tid: nat, delta: int },
    SetPrice { tid: nat, price: int },
    RemoveTransaction { tid: nat },
}

impl Step {
    /// Whether the step, where the store takes it, makes the client `uid`
    /// the owner of a transaction.
    pub open spec fn gives_transaction_to(self, uid: nat) -> bool {
        match self {
            Step::AddTransaction { owner, price, payment, detail, date } => owner == Some(uid),
            Step::UpdateTransaction { tid, date, owner, detail } => owner == Some(uid),
            _ => false,
        }
    }
}

impl Ledger {
    /// Whether the store takes the step: the data is valid and the records
    /// that the step names are there. A removal is always taken.
    pub open spec fn accepts(self, step: Step) -> bool {
        match step {
            Step::AddClient { name, detail } => name.len() > 0,
            Step::UpdateClient { uid, name, detail } => name.len() > 0 && self.has_client(uid),
            Step::RemoveClient { uid } => true,
            Step::AddAlias { uid, alias } => self.has_client(uid),
            Step::RemoveAlias { aid } => true,
            Step::UpdateAlias { aid, alias } => self.has_alias(aid),
            Step::RecomputeBalance { uid } => self.has_client(uid),
            Step::AdjustBalance { uid, delta } => self.has_client(uid),
            Step::AddTransaction { owner, price, payment, detail, date } => match owner {
                Some(o) => self.has_client(o),
                None => payment == price,
            },
            Step::UpdateTransaction { tid, date, owner, detail } => self.has_transaction(tid) && (
            owner matches Some(o) ==> self.has_client(o)),
            Step::AdjustPayment { tid, delta } => self.has_transaction(tid),
            Step::SetPrice { tid, price } => self.has_transaction(tid),
            Step::RemoveTransaction { tid } => true,
        }
    }

    /// The store after the step, which changes it only where the store
    /// accepts it.
    pub open spec fn after(self, step: Step) -> Ledger {
        if !self.accepts(step) {
            self
        } else {
            match step {
                Step::AddClient { name, detail } => self.add_client(name, detail),
                Step::UpdateClient { uid, name, detail } => self.update_client(uid, name, detail),
                Step::RemoveClient { uid } => self.remove_client(uid),
                Step::AddAlias { uid, alias } => self.add_alias(uid, alias),
                Step::RemoveAlias { aid } => self.remove_alias(aid),
                Step::UpdateAlias { aid, alias } => self.update_alias(aid, alias),
                Step::RecomputeBalance { uid } => self.recompute_balance(uid),
                Step::AdjustBalance { uid, delta } => self.adjust_balance(uid, delta),
                Step::AddTransaction { owner, price, payment, detail, date } => self.add_transaction(
                    owner,
                    price,
                    payment,
                    detail,
                    date,
                ),
                Step::UpdateTransaction { tid, date, owner, detail } => self.update_transaction(
                    tid,
                    date,
                    owner,
                    detail,
                ),
                Step::AdjustPayment { tid, delta } => self.adjust_payment(tid, delta),
                Step::SetPrice { tid, price } => self.set_price(tid, price),
                Step::RemoveTransaction { tid } => self.remove_transaction(tid),
            }
        }
    }

    /// Whether no transaction of the store is owned by the client `uid`.
    pub open spec fn owns_none(self, uid: nat) -> bool {
        forall|i: int|
            0 <= i < self.transactions.len() ==> (#[trigger] self.transactions[i]).uid != Some(uid)
    }
}

/// No step takes a well-formed store to one that is not.
pub proof fn lemma_step_keeps_wf(s: Ledger, step: Step)
    requires
        s.wf(),
    ensures
        s.after(step).wf(),
{
    if s.accepts(step) {
        match step {
            Step::AddClient { name, detail } => lemma_add_client_wf(s, name, detail),
            Step::UpdateClient { uid, name, detail } => lemma_update_client_wf(
                s,
                uid,
                name,
                detail,
            ),
            Step::RemoveClient { uid } => lemma_remove_client_wf(s, uid),
            Step::AddAlias { uid, alias } => lemma_add_alias_wf(s, uid, alias),
            Step::RemoveAlias { aid } => lemma_remove_alias_wf(s, aid),
            Step::UpdateAlias { aid, alias } => lemma_update_alias_wf(s, aid, alias),
            Step::RecomputeBalance { uid } => lemma_recompute_balance_wf(s, uid),
            Step::AdjustBalance { uid, delta } => lemma_adjust_balance_wf(s, uid, delta),
            Step::AddTransaction { owner, price, payment, detail, date } => lemma_add_transaction_wf(
                s,
                owner,
                price,
                payment,
                detail,
                date,
            ),
            Step::UpdateTransaction { tid, date, owner, detail } => lemma_update_transaction_wf(
                s,
                tid,
                date,
                owner,
                detail,
            ),
            Step::AdjustPayment { tid, delta } => lemma_adjust_payment_wf(s, tid, delta),
            Step::SetPrice { tid, price } => lemma_set_price_wf(s, tid, price),
            Step::RemoveTransaction { tid } => lemma_remove_transaction_wf(s, tid),
        }
    }
}

/// Transactions of which the client `uid` owns none come to nothing for it.
pub proof fn lemma_nothing_owed(txs: Seq<TransactionView>, uid: nat)
    requires
        forall|i: int| 0 <= i < txs.len() ==> (#[trigger] txs[i]).uid != Some(uid),
    ensures
        total_paid(txs, uid) == 0,
        total_billed(txs, uid) == 0,
        owed_balance(txs, uid) == 0,
    decreases txs.len(),
{
    if txs.len() > 0 {
        assert(txs.last() == txs[txs.len() - 1]);
        assert forall|i: int| 0 <= i < txs.drop_last().len() implies (
        #[trigger] txs.drop_last()[i]).uid != Some(uid) by {
            assert(txs.drop_last()[i] == txs[i]);
        }
        lemma_nothing_owed(txs.drop_last(), uid);
    }
}

/// A client that was just added has a balance of zero and owns no
/// transaction.
pub proof fn lemma_new_client_starts_at_zero(s: Ledger, name: Seq<char>, detail: Seq<char>)
    requires
        s.wf(),
        name.len() > 0,
    ensures
        s.add_client(name, detail).has_client(s.last_uid + 1),
        s.add_client(name, detail).client(s.last_uid + 1).balance == 0,
        s.add_client(name, detail).owns_none(s.last_uid + 1),
        owed_balance(s.add_client(name, detail).transactions, s.last_uid + 1) == 0,
{
    let n = s.add_client(name, detail);
    let uid = s.last_uid + 1;
    lemma_add_client_wf(s, name, detail);
    let at = n.clients.len() - 1;
    assert(n.clients[at].cid == uid);
    lemma_client_at(n, at);
    assert forall|i: int| 0 <= i < n.transactions.len() implies (#[trigger] n.transactions[i]).uid
        != Some(uid) by {
        if s.transactions[i].uid == Some(uid) {
            assert(s.has_client(uid));
            let k = choose|k: int| 0 <= k < s.clients.len() && (#[trigger] s.clients[k]).cid == uid;
            assert(s.clients[k].cid <= s.last_uid);
        }
    }
    lemma_nothing_owed(n.transactions, uid);
}

/// The balance of a client that owns no transaction stays at zero through
/// every step but one that adjusts this very balance by an amount other
/// than zero: an adjustment is taken on the word of the caller. And the
/// client goes on owning no transaction until a step gives it one.
pub proof fn lemma_balance_stays_zero(s: Ledger, uid: nat, step: Step)
    requires
        s.wf(),
        s.has_client(uid),
        s.client(uid).balance == 0,
        s.owns_none(uid),
        !(step matches Step::AdjustBalance { uid: adjusted, delta } && adjusted == uid && delta
            != 0),
    ensures
        s.after(step).has_client(uid) ==> s.after(step).client(uid).balance == 0,
        !step.gives_transaction_to(uid) ==> s.after(step).owns_none(uid),
{
    let n = s.after(step);
    lemma_step_keeps_wf(s, step);
    if !step.gives_transaction_to(uid) {
        assert forall|i: int| 0 <= i < n.transactions.len() implies (
        #[trigger] n.transactions[i]).uid != Some(uid) by {
            if s.accepts(step) {
                match step {
                    Step::RemoveClient { uid: removed } => {
                        assert(n.transactions[i] == disowned(removed)(s.transactions[i]));
                    },
                    Step::AddTransaction { owner, price, payment, detail, date } => {
                        if i < s.transactions.len() {
                            assert(n.transactions[i] == s.transactions[i]);
                        }
                    },
                    Step::UpdateTransaction { tid, date, owner, detail } => {
                        assert(n.transactions[i].uid == owner || n.transactions[i].uid
                            == s.transactions[i].uid);
                    },
                    Step::AdjustPayment { tid, delta } => {
                        assert(n.transactions[i].uid == s.transactions[i].uid);
                    },
                    Step::SetPrice { tid, price } => {
                        assert(n.transactions[i].uid == s.transactions[i].uid);
                    },
                    Step::RemoveTransaction { tid } => {
                        lemma_filter_ascending(
                            s.transactions,
                            other_transaction(tid),
                            transaction_key(),
                        );
                        assert(s.transactions.contains(n.transactions[i]));
                    },
                    _ => {
                        assert(n.transactions == s.transactions);
                    },
                }
            }
        }
    }
    let i = choose|i: int| 0 <= i < s.clients.len() && (#[trigger] s.clients[i]).cid == uid;
    lemma_client_at(s, i);
    if n.has_client(uid) {
        let k = choose|k: int| 0 <= k < n.clients.len() && (#[trigger] n.clients[k]).cid == uid;
        lemma_client_at(n, k);
        if s.accepts(step) {
            match step {
                Step::AddClient { name, detail } => {
                    assert(n.clients[i] == s.clients[i]);
                    lemma_client_at(n, i);
                },
                Step::UpdateClient { uid: renamed, name, detail } => {
                    assert(n.clients[i].cid == uid);
                    lemma_client_at(n, i);
                },
                Step::RemoveClient { uid: removed } => {
                    lemma_filter_ascending(
                        s.clients,
                        other_client(removed),
                        client_key(),
                    );
                    assert(s.clients.contains(n.clients[k]));
                    let j = choose|j: int| 0 <= j < s.clients.len() && s.clients[j] == n.clients[k];
                    lemma_client_at(s, j);
                },
                Step::RecomputeBalance { uid: recomputed } => {
                    lemma_nothing_owed(s.transactions, uid);
                    assert(n.clients[i].cid == uid);
                    lemma_client_at(n, i);
                },
                Step::AdjustBalance { uid: adjusted, delta } => {
                    assert(n.clients[i].cid == uid);
                    lemma_client_at(n, i);
                },
                _ => {
                    assert(n.clients == s.clients);
                },
            }
        }
    }
}

/// After its balance was recomputed, a client has what its transactions
/// come to: all that was paid on the transactions it owns, less all that
/// was billed on them. Every other balance, and every transaction, is as it
/// was.
pub proof fn lemma_recompute_balance(s: Ledger, uid: nat)
    requires
        s.wf(),
        s.has_client(uid),
    ensures
        s.recompute_balance(uid).has_client(uid),
        s.recompute_balance(uid).client(uid).balance == total_paid(s.transactions, uid)
            - total_billed(s.transactions, uid),
        s.recompute_balance(uid).transactions == s.transactions,
        forall|other: nat|
            other != uid && s.has_client(other) ==> s.recompute_balance(uid).client(other)
                == s.client(other),
{
    let n = s.recompute_balance(uid);
    lemma_recompute_balance_wf(s, uid);
    let i = choose|i: int| 0 <= i < s.clients.len() && (#[trigger] s.clients[i]).cid == uid;
    assert(n.clients[i].cid == uid);
    lemma_client_at(n, i);
    assert forall|other: nat| other != uid && s.has_client(other) implies n.client(other)
        == s.client(other) by {
        let j = choose|j: int| 0 <= j < s.clients.len() && (#[trigger] s.clients[j]).cid == other;
        lemma_client_at(s, j);
        assert(n.clients[j] == s.clients[j]);
        lemma_client_at(n, j);
    }
}

/// Adjusting a balance by an amount and then by the opposite amount leaves
/// the store as it was. The second adjustment leads back to the balance
/// before the first, so it never leaves the numbers of 32 bits.
pub proof fn lemma_adjust_balance_inverse(s: Ledger, uid: nat, delta: int)
    requires
        s.wf(),
        s.has_client(uid),
        i32::MIN <= s.client(uid).balance <= i32::MAX,
    ensures
        s.adjust_balance(uid, delta).has_client(uid),
        s.adjust_balance(uid, delta).client(uid).balance == s.client(uid).balance + delta,
        i32::MIN <= s.adjust_balance(uid, delta).client(uid).balance + (-delta) <= i32::MAX,
        s.adjust_balance(uid, delta).adjust_balance(uid, -delta) == s,
{
    let n = s.adjust_balance(uid, delta);
    lemma_adjust_balance_wf(s, uid, delta);
    let i = choose|i: int| 0 <= i < s.clients.len() && (#[trigger] s.clients[i]).cid == uid;
    lemma_client_at(s, i);
    assert(n.clients[i].cid == uid);
    lemma_client_at(n, i);
    assert(n.adjust_balance(uid, -delta).clients =~= s.clients);
}

/// The two ways to keep a balance agree. Where the balance of a client is
/// what its transactions come to, and a transaction is added for it, then
/// adjusting the balance by what was paid less what was billed gives the
/// store that recomputing the balance gives.
pub proof fn lemma_adjusting_agrees_with_recomputing(
    s: Ledger,
    uid: nat,
    price: int,
    payment: int,
    detail: Seq<char>,
    date: nat,
)
    requires
        s.wf(),
        s.has_client(uid),
        s.client(uid).balance == owed_balance(s.transactions, uid),
    ensures
        s.add_transaction(Some(uid), price, payment, detail, date).adjust_balance(
            uid,
            payment - price,
        ) == s.add_transaction(Some(uid), price, payment, detail, date).recompute_balance(uid),
{
    let added = s.add_transaction(Some(uid), price, payment, detail, date);
    assert(added.transactions.drop_last() =~= s.transactions);
    assert(owed_balance(added.transactions, uid) == owed_balance(s.transactions, uid) + payment
        - price);
    let i = choose|i: int| 0 <= i < s.clients.len() && (#[trigger] s.clients[i]).cid == uid;
    lemma_client_at(s, i);
    assert forall|j: int| 0 <= j < s.clients.len() implies credited(uid, payment - price)(
        s.clients[j],
    ) == rebalanced(uid, owed_balance(added.transactions, uid))(s.clients[j]) by {
        if s.clients[j].cid == uid {
            lemma_client_at(s, j);
        }
    }
    assert(added.adjust_balance(uid, payment - price).clients =~= added.recompute_balance(
        uid,
    ).clients);
}

/// Removing a client takes its aliases with it and keeps its transactions:
/// the store no longer holds the client, a read of its aliases finds none,
/// and every transaction is where it was, without an owner where the
/// client owned it and unchanged where it did not.
pub proof fn lemma_remove_client_cascades(s: Ledger, uid: nat)
    requires
        s.wf(),
    ensures
        !s.remove_client(uid).has_client(uid),
        s.remove_client(uid).get_aliases(uid) == Seq::<AliasView>::empty(),
        s.remove_client(uid).transactions.len() == s.transactions.len(),
        forall|i: int|
            0 <= i < s.transactions.len() ==> #[trigger] s.remove_client(uid).transactions[i] == (
            if s.transactions[i].uid == Some(uid) {
                TransactionView { uid: None, ..s.transactions[i] }
            } else {
                s.transactions[i]
            }),
        s.remove_client(uid).owns_none(uid),
{
    let n = s.remove_client(uid);
    assert(ascending(s.clients, client_key()));
    lemma_filter_ascending(s.clients, other_client(uid), client_key());
    if n.has_client(uid) {
        let k = choose|k: int| 0 <= k < n.clients.len() && (#[trigger] n.clients[k]).cid == uid;
        assert(other_client(uid)(n.clients[k]));
    }
    assert(ascending(s.aliases, alias_key()));
    lemma_filter_ascending(s.aliases, alias_of_other(uid), alias_key());
    assert forall|i: int| 0 <= i < n.aliases.len() implies !alias_of(uid)(
        #[trigger] n.aliases[i],
    ) by {
        assert(alias_of_other(uid)(n.aliases[i]));
    }
    n.aliases.lemma_all_neg_filter_empty(alias_of(uid));
    assert(n.get_aliases(uid) =~= Seq::<AliasView>::empty());
    assert forall|i: int| 0 <= i < s.transactions.len() implies #[trigger] n.transactions[i] == (
    if s.transactions[i].uid == Some(uid) {
        TransactionView { uid: None, ..s.transactions[i] }
    } else {
        s.transactions[i]
    }) by {
        assert(n.transactions[i] == disowned(uid)(s.transactions[i]));
    }
}

/// Removing is idempotent: a second removal of the same client, alias or
/// transaction finds the store as the first has left it and leaves it so.
pub proof fn lemma_removal_idempotent(s: Ledger, id: nat)
    ensures
        s.remove_alias(id).remove_alias(id) == s.remove_alias(id),
        s.remove_transaction(id).remove_transaction(id) == s.remove_transaction(id),
        s.remove_client(id).remove_client(id) == s.remove_client(id),
{
    lemma_filter_twice(s.aliases, other_alias(id));
    lemma_filter_twice(s.transactions, other_transaction(id));
    lemma_filter_twice(s.clients, other_client(id));
    lemma_filter_twice(s.aliases, alias_of_other(id));
    let once = s.remove_client(id);
    assert(once.remove_client(id).transactions =~= once.transactions);
}

/// An identity is given out once. No step lowers the last identity that was
/// given out, and a record that is in the store after a step, under an
/// identity that was given out before it, was in the store before.
pub proof fn lemma_identities_not_reused(s: Ledger, step: Step, id: nat)
    requires
        s.wf(),
        id <= s.last_uid,
    ensures
        s.after(step).last_uid >= s.last_uid,
        s.after(step).has_client(id) ==> s.has_client(id),
        s.after(step).has_alias(id) ==> s.has_alias(id),
        s.after(step).has_transaction(id) ==> s.has_transaction(id),
{
    let n = s.after(step);
    if n.has_client(id) {
        let k = choose|k: int| 0 <= k < n.clients.len() && (#[trigger] n.clients[k]).cid == id;
        if s.accepts(step) {
            match step {
                Step::AddClient { name, detail } => {
                    assert(s.clients[k] == n.clients[k]);
                },
                Step::RemoveClient { uid } => {
                    lemma_filter_ascending(s.clients, other_client(uid), client_key());
                    assert(s.clients.contains(n.clients[k]));
                    let j = choose|j: int| 0 <= j < s.clients.len() && s.clients[j] == n.clients[k];
                    assert(s.clients[j].cid == id);
                },
                _ => {
                    assert(s.clients[k].cid == n.clients[k].cid);
                },
            }
        }
    }
    if n.has_alias(id) {
        let k = choose|k: int| 0 <= k < n.aliases.len() && (#[trigger] n.aliases[k]).aid == id;
        if s.accepts(step) {
            match step {
                Step::AddAlias { uid, alias } => {
                    assert(s.aliases[k] == n.aliases[k]);
                },
                Step::RemoveClient { uid } => {
                    lemma_filter_ascending(s.aliases, alias_of_other(uid), alias_key());
                    assert(s.aliases.contains(n.aliases[k]));
                    let j = choose|j: int| 0 <= j < s.aliases.len() && s.aliases[j] == n.aliases[k];
                    assert(s.aliases[j].aid == id);
                },
                Step::RemoveAlias { aid } => {
                    lemma_filter_ascending(s.aliases, other_alias(aid), alias_key());
                    assert(s.aliases.contains(n.aliases[k]));
                    let j = choose|j: int| 0 <= j < s.aliases.len() && s.aliases[j] == n.aliases[k];
                    assert(s.aliases[j].aid == id);
                },
                _ => {
                    assert(s.aliases[k].aid == n.aliases[k].aid);
                },
            }
        }
    }
    if n.has_transaction(id) {
        let k = choose|k: int|
            0 <= k < n.transactions.len() && (#[trigger] n.transactions[k]).tid == id;
        if s.accepts(step) {
            match step {
                Step::AddTransaction { owner, price, payment, detail, date } => {
                    assert(s.transactions[k] == n.transactions[k]);
                },
                Step::RemoveTransaction { tid } => {
                    lemma_filter_ascending(s.transactions, other_transaction(tid), transaction_key());
                    assert(s.transactions.contains(n.transactions[k]));
                    let j = choose|j: int|
                        0 <= j < s.transactions.len() && s.transactions[j] == n.transactions[k];
                    assert(s.transactions[j].tid == id);
                },
                _ => {
                    assert(s.transactions[k].tid == n.transactions[k].tid);
                },
            }
        }
    }
}

/// Removing what is not there changes nothing.
pub proof fn lemma_removing_the_missing_changes_nothing(s: Ledger, id: nat)
    requires
        s.wf(),
    ensures
        !s.has_client(id) ==> s.remove_client(id) == s,
        !s.has_alias(id) ==> s.remove_alias(id) == s,
        !s.has_transaction(id) ==> s.remove_transaction(id) == s,
{
    if !s.has_client(id) {
        assert forall|i: int| 0 <= i < s.clients.len() implies other_client(id)(
            #[trigger] s.clients[i],
        ) by {}
        lemma_filter_all(s.clients, other_client(id));
        assert forall|i: int| 0 <= i < s.aliases.len() implies alias_of_other(id)(
            #[trigger] s.aliases[i],
        ) by {
            assert(s.has_client(s.aliases[i].uid));
        }
        lemma_filter_all(s.aliases, alias_of_other(id));
        assert forall|i: int| 0 <= i < s.transactions.len() implies disowned(id)(
            #[trigger] s.transactions[i],
        ) == s.transactions[i] by {
            if s.transactions[i].uid is Some {
                assert(s.has_client(s.transactions[i].uid->0));
            }
        }
        assert(s.remove_client(id).transactions =~= s.transactions);
    }
    if !s.has_alias(id) {
        assert forall|i: int| 0 <= i < s.aliases.len() implies other_alias(id)(
            #[trigger] s.aliases[i],
        ) by {}
        lemma_filter_all(s.aliases, other_alias(id));
    }
    if !s.has_transaction(id) {
        assert forall|i: int| 0 <= i < s.transactions.len() implies other_transaction(id)(
            #[trigger] s.transactions[i],
        ) by {}
        lemma_filter_all(s.transactions, other_transaction(id));
    }
}

} // verus!
