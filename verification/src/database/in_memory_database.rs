//! The store kept in memory: three lists in the order of their identities,
//! and a counter that gives the identities out.

use vstd::prelude::*;

use crate::database::clients::copy_text;
use crate::database::clients::Alias;
use crate::database::clients::Client;
use crate::database::clients::ClientDB;
use crate::database::clients::ClientError;
use crate::database::clients::ClientView;
use crate::database::clients::Store;
use crate::database::clients::Ufilter;
use crate::database::ledger;
use crate::database::ledger::Ledger;
use crate::database::rows::alias_views;
use crate::database::rows::client_views;
use crate::database::rows::transaction_views;
use crate::database::sequences::find;
use crate::database::sequences::in_order;
use crate::database::sequences::lemma_filter_next;
use crate::database::sequences::lemma_filter_none;
use crate::database::sequences::Identified;
use crate::database::transactions::owner_of;
use crate::database::transactions::unpaid_anonymous;
use crate::database::transactions::Tfilter;
use crate::database::transactions::Transaction;
use crate::database::transactions::TransactionError;
use crate::database::transactions::TransactionsDB;

verus! {

/// A store in memory.
#[derive(Debug)]
pub struct InMemDB {
    last_uid: u64,
    clients: Vec<Client>,
    aliases: Vec<Alias>,
    transactions: Vec<Transaction>,
}

impl View for InMemDB {
    type V = Ledger;

    closed spec fn view(&self) -> Ledger {
        Ledger {
            last_uid: self.last_uid as nat,
            clients: client_views(self.clients@),
            aliases: alias_views(self.aliases@),
            transactions: transaction_views(self.transactions@),
        }
    }
}

impl InMemDB {
    /// The store that holds nothing.
    pub fn new() -> (db: InMemDB)
        ensures
            db@ == Ledger::empty(),
            db@.wf(),
    {
        let db = InMemDB {
            last_uid: 0,
            clients: Vec::new(),
            aliases: Vec::new(),
            transactions: Vec::new(),
        };
        proof {
            ledger::lemma_empty_wf();
        }
        assert(db@.clients =~= Seq::empty());
        assert(db@.aliases =~= Seq::empty());
        assert(db@.transactions =~= Seq::empty());
        db
    }

    /// The last identity that was given out, zero before the first.
    pub fn last_uid(&self) -> (uid: u64)
        ensures
            uid == self@.last_uid,
    {
        self.last_uid
    }

    /// Gives out the next identity. Identities start at one and none is
    /// given out twice; they end with the greatest number of 64 bits.
    pub fn get_next_uid(&mut self) -> (uid: u64)
        requires
            old(self)@.wf(),
            old(self)@.last_uid < u64::MAX,
        ensures
            uid == old(self)@.last_uid + 1,
            final(self)@ == old(self)@.skip_uid(),
            final(self)@.wf(),
    {
        proof {
            ledger::lemma_skip_uid_wf(self@);
        }
        self.last_uid += 1;
        self.last_uid
    }

    /// Where the client `uid` stands in the list.
    fn find_client(&self, uid: u64) -> (r: Option<usize>)
        requires
            self@.wf(),
        ensures
            match r {
                Some(i) => i < self.clients.len() && self.clients[i as int].cid == uid
                    && self@.has_client(uid as nat),
                None => !self@.has_client(uid as nat),
            },
    {
        assert(in_order(self.clients@)) by {
            assert forall|i: int, j: int| 0 <= i < j < self.clients.len() implies (
            #[trigger] self.clients[i]).identity() < (#[trigger] self.clients[j]).identity() by {
                assert(self@.clients[i].cid < self@.clients[j].cid);
            }
        }
        let r = find(&self.clients, uid);
        proof {
            match r {
                Some(i) => {
                    assert(self@.clients[i as int].cid == uid as nat);
                },
                None => {
                    if self@.has_client(uid as nat) {
                        let j = choose|j: int|
                            0 <= j < self@.clients.len() && (#[trigger] self@.clients[j]).cid
                                == uid as nat;
                        assert(self.clients[j].identity() == uid);
                    }
                },
            }
        }
        r
    }
}

impl InMemDB {
    /// Where the alias `aid` stands in the list.
    fn find_alias(&self, aid: u64) -> (r: Option<usize>)
        requires
            self@.wf(),
        ensures
            match r {
                Some(i) => i < self.aliases.len() && self.aliases[i as int].aid == aid
                    && self@.has_alias(aid as nat),
                None => !self@.has_alias(aid as nat),
            },
    {
        assert(in_order(self.aliases@)) by {
            assert forall|i: int, j: int| 0 <= i < j < self.aliases.len() implies (
            #[trigger] self.aliases[i]).identity() < (#[trigger] self.aliases[j]).identity() by {
                assert(self@.aliases[i].aid < self@.aliases[j].aid);
            }
        }
        let r = find(&self.aliases, aid);
        proof {
            match r {
                Some(i) => {
                    assert(self@.aliases[i as int].aid == aid as nat);
                },
                None => {
                    if self@.has_alias(aid as nat) {
                        let j = choose|j: int|
                            0 <= j < self@.aliases.len() && (#[trigger] self@.aliases[j]).aid
                                == aid as nat;
                        assert(self.aliases[j].identity() == aid);
                    }
                },
            }
        }
        r
    }

    /// What the transactions of the client `uid` come to, where that is a
    /// number of 32 bits.
    fn owed(&self, uid: u64) -> (r: Option<i32>)
        ensures
            match r {
                Some(b) => b == ledger::owed_balance(self@.transactions, uid as nat),
                None => !(i32::MIN <= ledger::owed_balance(self@.transactions, uid as nat)
                    <= i32::MAX),
            },
    {
        let mut paid: i128 = 0;
        let mut billed: i128 = 0;
        let mut i: usize = 0;
        assert(self@.transactions.take(0) =~= Seq::empty());
        while i < self.transactions.len()
            invariant
                i <= self.transactions.len(),
                paid == ledger::total_paid(self@.transactions.take(i as int), uid as nat),
                billed == ledger::total_billed(self@.transactions.take(i as int), uid as nat),
                -(i as int) * 0x8000_0000_0000_0000 <= paid <= (i as int) * 0x8000_0000_0000_0000,
                -(i as int) * 0x8000_0000_0000_0000 <= billed <= (i as int)
                    * 0x8000_0000_0000_0000,
            decreases self.transactions.len() - i,
        {
            assert(self@.transactions.take(i + 1).drop_last() =~= self@.transactions.take(i as int));
            assert(self@.transactions.take(i + 1).last() == self.transactions[i as int]@);
            assert((i as int) * 0x8000_0000_0000_0000 <= 0xffff_ffff_ffff_ffff
                * 0x8000_0000_0000_0000) by (nonlinear_arith)
                requires
                    0 <= i <= 0xffff_ffff_ffff_ffff,
            ;
            let t = &self.transactions[i];
            let own = match t.uid {
                Some(o) => o == uid,
                None => false,
            };
            if own {
                paid = paid + t.payment as i128;
                billed = billed + t.price as i128;
            }
            i = i + 1;
        }
        assert(self@.transactions.take(i as int) =~= self@.transactions);
        let balance: i128 = match paid.checked_sub(billed) {
            Some(b) => b,
            None => {
                return None;
            },
        };
        if balance < -2147483648i128 || balance > 2147483647i128 {
            None
        } else {
            Some(balance as i32)
        }
    }

    /// Stores `balance` as the balance of the client at place `i`.
    fn put_balance(&mut self, i: usize, balance: i32)
        requires
            i < old(self).clients.len(),
        ensures
            final(self).last_uid == old(self).last_uid,
            final(self).aliases == old(self).aliases,
            final(self).transactions == old(self).transactions,
            final(self).clients@.len() == old(self).clients@.len(),
            forall|j: int|
                0 <= j < old(self).clients@.len() && j != i ==> final(self).clients@[j] == old(
                    self,
                ).clients@[j],
            final(self).clients@[i as int]@ == (ClientView {
                balance: balance as int,
                ..old(self).clients@[i as int]@
            }),
    {
        let c = &self.clients[i];
        let changed = Client {
            cid: c.cid,
            name: c.name.clone(),
            detail: copy_text(&c.detail),
            balance,
        };
        self.clients.set(i, changed);
    }
}

impl Store for InMemDB {
    /// The store is well formed.
    open spec fn wf(&self) -> bool {
        self@.wf()
    }
}

impl ClientDB for InMemDB {
    /// Fails with `ValidationError` on an empty name and with
    /// `BackendError` once every identity is given out, and changes
    /// nothing then.
    fn add_client(&mut self, name: &str, detail: &str) -> (res: Result<Client, ClientError>)
        ensures
            match res {
                Ok(c) => {
                    &&& name@.len() > 0
                    &&& old(self)@.last_uid < u64::MAX
                    &&& final(self)@ == old(self)@.add_client(name@, detail@)
                    &&& c@ == final(self)@.clients.last()
                },
                Err(e) => {
                    &&& final(self)@ == old(self)@
                    &&& e == ClientError::ValidationError <==> name@.len() == 0
                    &&& e == ClientError::BackendError <==> name@.len() > 0 && old(self)@.last_uid
                        == u64::MAX
                },
            },
    {
        if name.is_empty() {
            return Err(ClientError::ValidationError);
        }
        if self.last_uid == u64::MAX {
            return Err(ClientError::BackendError);
        }
        proof {
            ledger::lemma_add_client_wf(self@, name@, detail@);
        }
        let uid = self.get_next_uid();
        let c = Client {
            cid: uid,
            name: name.to_owned(),
            detail: Some(detail.to_owned()),
            balance: 0,
        };
        self.clients.push(c.clone());
        assert(self@.clients =~= old(self)@.add_client(name@, detail@).clients);
        Ok(c)
    }

    /// Fails with `ValidationError` on an empty name and with `NotFound`
    /// where the store does not hold the client, and changes nothing
    /// then. It fails in no other way: a stored client is always renamed.
    fn update_client(&mut self, u: &Client) -> (res: Result<(), ClientError>)
        ensures
            match res {
                Ok(()) => {
                    &&& u@.name.len() > 0
                    &&& old(self)@.has_client(u@.cid)
                    &&& final(self)@ == old(self)@.update_client(u@.cid, u@.name, u@.detail)
                },
                Err(e) => {
                    &&& final(self)@ == old(self)@
                    &&& e != ClientError::BackendError
                    &&& e == ClientError::ValidationError <==> u@.name.len() == 0
                    &&& e == ClientError::NotFound <==> u@.name.len() > 0 && !old(self)@.has_client(
                        u@.cid,
                    )
                },
            },
    {
        if u.name.as_str().is_empty() {
            return Err(ClientError::ValidationError);
        }
        let i = match self.find_client(u.cid) {
            Some(i) => i,
            None => {
                return Err(ClientError::NotFound);
            },
        };
        proof {
            ledger::lemma_update_client_wf(self@, u@.cid, u@.name, u@.detail);
        }
        let renamed = Client {
            cid: u.cid,
            name: u.name.clone(),
            detail: copy_text(&u.detail),
            balance: self.clients[i].balance,
        };
        self.clients.set(i, renamed);
        proof {
            let before = old(self)@;
            assert(before.clients[i as int].cid == u@.cid);
            assert(self@.clients =~= before.update_client(u@.cid, u@.name, u@.detail).clients) by {
                assert forall|j: int| 0 <= j < before.clients.len() implies self@.clients[j]
                    == ledger::renamed(u@.cid, u@.name, u@.detail)(before.clients[j]) by {
                    if j != i {
                        assert(before.clients[j].cid != before.clients[i as int].cid);
                    }
                }
            }
        }
        Ok(())
    }

    /// Never fails.
    fn remove_client(&mut self, uid: u64) -> (res: Result<(), ClientError>)
        ensures
            res is Ok,
            final(self)@ == old(self)@.remove_client(uid as nat),
    {
        proof {
            ledger::lemma_remove_client_wf(self@, uid as nat);
        }
        let ghost before = self@;
        let mut clients: Vec<Client> = Vec::new();
        let mut i: usize = 0;
        proof {
            lemma_filter_none(before.clients, ledger::other_client(uid as nat));
        }
        while i < self.clients.len()
            invariant
                i <= self.clients.len(),
                self@ == before,
                client_views(clients@) =~= before.clients.take(i as int).filter(
                    ledger::other_client(uid as nat),
                ),
            decreases self.clients.len() - i,
        {
            proof {
                lemma_filter_next(before.clients, i as int, ledger::other_client(uid as nat));
            }
            if self.clients[i].cid != uid {
                clients.push(self.clients[i].clone());
            }
            i = i + 1;
        }
        assert(before.clients.take(i as int) =~= before.clients);
        let mut aliases: Vec<Alias> = Vec::new();
        let mut k: usize = 0;
        proof {
            lemma_filter_none(before.aliases, ledger::alias_of_other(uid as nat));
        }
        while k < self.aliases.len()
            invariant
                k <= self.aliases.len(),
                self@ == before,
                alias_views(aliases@) =~= before.aliases.take(k as int).filter(
                    ledger::alias_of_other(uid as nat),
                ),
            decreases self.aliases.len() - k,
        {
            proof {
                lemma_filter_next(before.aliases, k as int, ledger::alias_of_other(uid as nat));
            }
            if self.aliases[k].uid != uid {
                aliases.push(self.aliases[k].clone());
            }
            k = k + 1;
        }
        assert(before.aliases.take(k as int) =~= before.aliases);
        let mut transactions: Vec<Transaction> = Vec::new();
        let mut n: usize = 0;
        while n < self.transactions.len()
            invariant
                n <= self.transactions.len(),
                self@ == before,
                transactions.len() == n,
                forall|j: int|
                    0 <= j < n ==> (#[trigger] transactions[j])@ == ledger::disowned(uid as nat)(
                        before.transactions[j],
                    ),
            decreases self.transactions.len() - n,
        {
            let t = &self.transactions[n];
            let owner = match t.uid {
                Some(o) => if o == uid {
                    None
                } else {
                    Some(o)
                },
                None => None,
            };
            transactions.push(
                Transaction {
                    detail: copy_text(&t.detail),
                    date: t.date,
                    uid: owner,
                    tid: t.tid,
                    price: t.price,
                    payment: t.payment,
                },
            );
            n = n + 1;
        }
        self.clients = clients;
        self.aliases = aliases;
        self.transactions = transactions;
        assert(self@.transactions =~= before.remove_client(uid as nat).transactions);
        Ok(())
    }

    /// Never fails: hands back the clients that pass, in the order of their
    /// identities.
    fn get_clients(&self, filter: Ufilter) -> (res: Result<Vec<Client>, ClientError>)
        ensures
            res matches Ok(found) && client_views(found@) == self@.get_clients(filter@),
    {
        let mut found: Vec<Client> = Vec::new();
        let mut i: usize = 0;
        proof {
            lemma_filter_none(self@.clients, ledger::client_passes(filter@));
        }
        while i < self.clients.len()
            invariant
                i <= self.clients.len(),
                client_views(found@) =~= self@.clients.take(i as int).filter(
                    ledger::client_passes(filter@),
                ),
                forall|j: int| 0 <= j < found.len() ==> filter@.matches(#[trigger] found[j]@),
            decreases self.clients.len() - i,
        {
            proof {
                lemma_filter_next(self@.clients, i as int, ledger::client_passes(filter@));
            }
            if filter.admits(&self.clients[i]) {
                found.push(self.clients[i].clone());
            }
            i = i + 1;
        }
        assert(self@.clients.take(i as int) =~= self@.clients);
        Ok(found)
    }

    /// Fails with `NotFound` where the store does not hold the client and
    /// with `BackendError` once every identity is given out, and changes
    /// nothing then.
    fn add_alias<'a>(&mut self, client: &Client, alias: &'a str) -> (res: Result<(), ClientError>)
        ensures
            match res {
                Ok(()) => {
                    &&& old(self)@.has_client(client@.cid)
                    &&& old(self)@.last_uid < u64::MAX
                    &&& final(self)@ == old(self)@.add_alias(client@.cid, alias@)
                },
                Err(e) => {
                    &&& final(self)@ == old(self)@
                    &&& e == ClientError::NotFound <==> !old(self)@.has_client(client@.cid)
                    &&& e == ClientError::BackendError <==> old(self)@.has_client(client@.cid)
                        && old(self)@.last_uid == u64::MAX
                },
            },
    {
        if self.find_client(client.cid).is_none() {
            return Err(ClientError::NotFound);
        }
        if self.last_uid == u64::MAX {
            return Err(ClientError::BackendError);
        }
        proof {
            ledger::lemma_add_alias_wf(self@, client@.cid, alias@);
        }
        let aid = self.get_next_uid();
        self.aliases.push(Alias { alias: alias.to_owned(), aid, uid: client.cid });
        assert(self@.aliases =~= old(self)@.add_alias(client@.cid, alias@).aliases);
        Ok(())
    }

    /// Never fails: hands back the aliases of the client, in the order of
    /// their identities.
    fn get_aliases(&self, client: &Client) -> (res: Result<Vec<Alias>, ClientError>)
        ensures
            res matches Ok(found) && alias_views(found@) == self@.get_aliases(client@.cid),
    {
        let mut found: Vec<Alias> = Vec::new();
        let mut i: usize = 0;
        proof {
            lemma_filter_none(self@.aliases, ledger::alias_of(client@.cid));
        }
        while i < self.aliases.len()
            invariant
                i <= self.aliases.len(),
                alias_views(found@) =~= self@.aliases.take(i as int).filter(
                    ledger::alias_of(client@.cid),
                ),
                forall|j: int| 0 <= j < found.len() ==> (#[trigger] found[j]).uid == client.cid,
            decreases self.aliases.len() - i,
        {
            proof {
                lemma_filter_next(self@.aliases, i as int, ledger::alias_of(client@.cid));
            }
            if self.aliases[i].uid == client.cid {
                found.push(self.aliases[i].clone());
            }
            i = i + 1;
        }
        assert(self@.aliases.take(i as int) =~= self@.aliases);
        Ok(found)
    }

    /// Never fails.
    fn remove_alias(&mut self, aliasid: u64) -> (res: Result<(), ClientError>)
        ensures
            res is Ok,
            final(self)@ == old(self)@.remove_alias(aliasid as nat),
    {
        proof {
            ledger::lemma_remove_alias_wf(self@, aliasid as nat);
        }
        let ghost before = self@;
        let mut aliases: Vec<Alias> = Vec::new();
        let mut i: usize = 0;
        proof {
            lemma_filter_none(before.aliases, ledger::other_alias(aliasid as nat));
        }
        while i < self.aliases.len()
            invariant
                i <= self.aliases.len(),
                self@ == before,
                alias_views(aliases@) =~= before.aliases.take(i as int).filter(
                    ledger::other_alias(aliasid as nat),
                ),
            decreases self.aliases.len() - i,
        {
            proof {
                lemma_filter_next(before.aliases, i as int, ledger::other_alias(aliasid as nat));
            }
            if self.aliases[i].aid != aliasid {
                aliases.push(self.aliases[i].clone());
            }
            i = i + 1;
        }
        assert(before.aliases.take(i as int) =~= before.aliases);
        self.aliases = aliases;
        Ok(())
    }

    /// Fails with `NotFound` where the store does not hold the alias, and
    /// changes nothing then.
    fn update_alias(&mut self, alias: &Alias) -> (res: Result<(), ClientError>)
        ensures
            match res {
                Ok(()) => {
                    &&& old(self)@.has_alias(alias@.aid)
                    &&& final(self)@ == old(self)@.update_alias(alias@.aid, alias@.alias)
                },
                Err(e) => {
                    &&& final(self)@ == old(self)@
                    &&& e == ClientError::NotFound
                    &&& !old(self)@.has_alias(alias@.aid)
                },
            },
    {
        let i = match self.find_alias(alias.aid) {
            Some(i) => i,
            None => {
                return Err(ClientError::NotFound);
            },
        };
        proof {
            ledger::lemma_update_alias_wf(self@, alias@.aid, alias@.alias);
        }
        let reworded = Alias {
            alias: alias.alias.clone(),
            aid: alias.aid,
            uid: self.aliases[i].uid,
        };
        self.aliases.set(i, reworded);
        proof {
            let before = old(self)@;
            assert(before.aliases[i as int].aid == alias@.aid);
            assert(self@.aliases =~= before.update_alias(alias@.aid, alias@.alias).aliases) by {
                assert forall|j: int| 0 <= j < before.aliases.len() implies self@.aliases[j]
                    == ledger::reworded(alias@.aid, alias@.alias)(before.aliases[j]) by {
                    if j != i {
                        assert(before.aliases[j].aid != before.aliases[i as int].aid);
                    }
                }
            }
        }
        Ok(())
    }

    /// Fails with `NotFound` where the store does not hold the client, and
    /// with `BackendError` where what its transactions come to is no
    /// number of 32 bits; it changes nothing then.
    fn update_client_balance(&mut self, u: &Client) -> (res: Result<(), ClientError>)
        ensures
            match res {
                Ok(()) => {
                    &&& old(self)@.has_client(u@.cid)
                    &&& i32::MIN <= ledger::owed_balance(old(self)@.transactions, u@.cid)
                        <= i32::MAX
                    &&& final(self)@ == old(self)@.recompute_balance(u@.cid)
                },
                Err(e) => {
                    &&& final(self)@ == old(self)@
                    &&& e == ClientError::NotFound <==> !old(self)@.has_client(u@.cid)
                    &&& e == ClientError::BackendError <==> old(self)@.has_client(u@.cid) && !(
                    i32::MIN <= ledger::owed_balance(old(self)@.transactions, u@.cid) <= i32::MAX)
                },
            },
    {
        let i = match self.find_client(u.cid) {
            Some(i) => i,
            None => {
                return Err(ClientError::NotFound);
            },
        };
        let balance = match self.owed(u.cid) {
            Some(b) => b,
            None => {
                return Err(ClientError::BackendError);
            },
        };
        proof {
            ledger::lemma_recompute_balance_wf(self@, u@.cid);
        }
        self.put_balance(i, balance);
        proof {
            let before = old(self)@;
            assert(self@.clients =~= before.recompute_balance(u@.cid).clients) by {
                assert forall|j: int| 0 <= j < before.clients.len() implies self@.clients[j]
                    == ledger::rebalanced(u@.cid, balance as int)(before.clients[j]) by {
                    if j != i {
                        assert(before.clients[j].cid != before.clients[i as int].cid);
                    }
                }
            }
        }
        Ok(())
    }

    /// Fails with `NotFound` where the store does not hold the client, and
    /// with `BackendError` where the new balance is no number of 32 bits;
    /// it changes nothing then.
    fn update_client_balance_delta(&mut self, uid: u64, balance_delta: i64) -> (res: Result<
        (),
        ClientError,
    >)
        ensures
            match res {
                Ok(()) => {
                    &&& old(self)@.has_client(uid as nat)
                    &&& i32::MIN <= old(self)@.client(uid as nat).balance + balance_delta
                        <= i32::MAX
                    &&& final(self)@ == old(self)@.adjust_balance(uid as nat, balance_delta as int)
                },
                Err(e) => {
                    &&& final(self)@ == old(self)@
                    &&& e == ClientError::NotFound <==> !old(self)@.has_client(uid as nat)
                    &&& e == ClientError::BackendError <==> old(self)@.has_client(uid as nat) && !(
                    i32::MIN <= old(self)@.client(uid as nat).balance + balance_delta <= i32::MAX)
                },
            },
    {
        let i = match self.find_client(uid) {
            Some(i) => i,
            None => {
                return Err(ClientError::NotFound);
            },
        };
        proof {
            ledger::lemma_client_at(self@, i as int);
        }
        let sum: i128 = self.clients[i].balance as i128 + balance_delta as i128;
        if sum < -2147483648i128 || sum > 2147483647i128 {
            return Err(ClientError::BackendError);
        }
        proof {
            ledger::lemma_adjust_balance_wf(self@, uid as nat, balance_delta as int);
        }
        self.put_balance(i, sum as i32);
        proof {
            let before = old(self)@;
            assert(self@.clients =~= before.adjust_balance(uid as nat, balance_delta as int).clients)
                by {
                assert forall|j: int| 0 <= j < before.clients.len() implies self@.clients[j]
                    == ledger::credited(uid as nat, balance_delta as int)(before.clients[j]) by {
                    if j != i {
                        assert(before.clients[j].cid != before.clients[i as int].cid);
                    }
                }
            }
        }
        Ok(())
    }
}

impl InMemDB {
    /// Where the transaction `tid` stands in the list.
    fn find_transaction(&self, tid: u64) -> (r: Option<usize>)
        requires
            self@.wf(),
        ensures
            match r {
                Some(i) => i < self.transactions.len() && self.transactions[i as int].tid == tid
                    && self@.has_transaction(tid as nat),
                None => !self@.has_transaction(tid as nat),
            },
    {
        assert(in_order(self.transactions@)) by {
            assert forall|i: int, j: int| 0 <= i < j < self.transactions.len() implies (
            #[trigger] self.transactions[i]).identity() < (#[trigger] self.transactions[j]).identity() by {
                assert(self@.transactions[i].tid < self@.transactions[j].tid);
            }
        }
        let r = find(&self.transactions, tid);
        proof {
            match r {
                Some(i) => {
                    assert(self@.transactions[i as int].tid == tid as nat);
                },
                None => {
                    if self@.has_transaction(tid as nat) {
                        let j = choose|j: int|
                            0 <= j < self@.transactions.len() && (#[trigger] self@.transactions[j]).tid
                                == tid as nat;
                        assert(self.transactions[j].identity() == tid);
                    }
                },
            }
        }
        r
    }
}

impl TransactionsDB for InMemDB {
    /// Fails with `InvalidPaymentOnAnonClient` for nobody in particular and
    /// a payment that is not the price, with `NotFound` for a client that
    /// the store does not hold, with `BackendError` once every identity is
    /// given out; it changes nothing then, and no balance in any case.
    fn add_transaction(
        &mut self,
        client: Option<&Client>,
        price: i64,
        payment: i64,
        detail: String,
        date: u64,
    ) -> (res: Result<(), TransactionError>)
        ensures
            match res {
                Ok(()) => {
                    &&& !unpaid_anonymous(client, price, payment)
                    &&& owner_of(client) matches Some(o) ==> old(self)@.has_client(o)
                    &&& old(self)@.last_uid < u64::MAX
                    &&& final(self)@ == old(self)@.add_transaction(
                        owner_of(client),
                        price as int,
                        payment as int,
                        detail@,
                        date as nat,
                    )
                },
                Err(e) => {
                    &&& final(self)@ == old(self)@
                    &&& e == TransactionError::InvalidPaymentOnAnonClient <==> unpaid_anonymous(
                        client,
                        price,
                        payment,
                    )
                    &&& e == TransactionError::NotFound <==> (owner_of(client) matches Some(o)
                        && !old(self)@.has_client(o))
                    &&& e == TransactionError::BackendError <==> {
                        &&& !unpaid_anonymous(client, price, payment)
                        &&& owner_of(client) matches Some(o) ==> old(self)@.has_client(o)
                        &&& old(self)@.last_uid == u64::MAX
                    }
                },
            },
    {
        let owner = match client {
            None => {
                if payment != price {
                    return Err(TransactionError::InvalidPaymentOnAnonClient);
                }
                None
            },
            Some(c) => {
                if self.find_client(c.cid).is_none() {
                    return Err(TransactionError::NotFound);
                }
                Some(c.cid)
            },
        };
        if self.last_uid == u64::MAX {
            return Err(TransactionError::BackendError);
        }
        proof {
            ledger::lemma_add_transaction_wf(
                self@,
                owner_of(client),
                price as int,
                payment as int,
                detail@,
                date as nat,
            );
        }
        let tid = self.get_next_uid();
        self.transactions.push(
            Transaction { detail: Some(detail), date, uid: owner, tid, price, payment },
        );
        assert(self@.transactions =~= old(self)@.add_transaction(
            owner_of(client),
            price as int,
            payment as int,
            detail@,
            date as nat,
        ).transactions);
        Ok(())
    }

    /// Never fails: hands back the transactions that pass, in the order of
    /// their identities.
    fn get_transactions(&self, filter: Tfilter) -> (res: Result<Vec<Transaction>, TransactionError>)
        ensures
            res matches Ok(found) && transaction_views(found@) == self@.get_transactions(filter@),
    {
        let mut found: Vec<Transaction> = Vec::new();
        let mut i: usize = 0;
        proof {
            lemma_filter_none(self@.transactions, ledger::transaction_passes(filter@));
        }
        while i < self.transactions.len()
            invariant
                i <= self.transactions.len(),
                transaction_views(found@) =~= self@.transactions.take(i as int).filter(
                    ledger::transaction_passes(filter@),
                ),
                forall|j: int| 0 <= j < found.len() ==> filter@.matches(#[trigger] found[j]@),
            decreases self.transactions.len() - i,
        {
            proof {
                lemma_filter_next(
                    self@.transactions,
                    i as int,
                    ledger::transaction_passes(filter@),
                );
            }
            if filter.admits(&self.transactions[i]) {
                found.push(self.transactions[i].clone());
            }
            i = i + 1;
        }
        assert(self@.transactions.take(i as int) =~= self@.transactions);
        Ok(found)
    }

    /// Fails with `NotFound` where the store does not hold the transaction,
    /// or not the client that is to own it, and changes nothing then.
    fn update_transaction(&mut self, t: &Transaction) -> (res: Result<(), TransactionError>)
        ensures
            match res {
                Ok(()) => {
                    &&& old(self)@.has_transaction(t@.tid)
                    &&& t@.uid matches Some(o) ==> old(self)@.has_client(o)
                    &&& final(self)@ == old(self)@.update_transaction(
                        t@.tid,
                        t@.date,
                        t@.uid,
                        t@.detail,
                    )
                },
                Err(e) => {
                    &&& final(self)@ == old(self)@
                    &&& e == TransactionError::NotFound
                    &&& !old(self)@.has_transaction(t@.tid) || (t@.uid matches Some(o) && !old(
                        self,
                    )@.has_client(o))
                },
            },
    {
        let i = match self.find_transaction(t.tid) {
            Some(i) => i,
            None => {
                return Err(TransactionError::NotFound);
            },
        };
        match t.uid {
            Some(o) => if self.find_client(o).is_none() {
                return Err(TransactionError::NotFound);
            },
            None => {},
        }
        proof {
            ledger::lemma_update_transaction_wf(self@, t@.tid, t@.date, t@.uid, t@.detail);
        }
        let stored = &self.transactions[i];
        let redated = Transaction {
            detail: copy_text(&t.detail),
            date: t.date,
            uid: t.uid,
            tid: t.tid,
            price: stored.price,
            payment: stored.payment,
        };
        self.transactions.set(i, redated);
        proof {
            let before = old(self)@;
            let after = before.update_transaction(t@.tid, t@.date, t@.uid, t@.detail);
            assert(self@.transactions =~= after.transactions) by {
                assert forall|j: int| 0 <= j < before.transactions.len() implies self@.transactions[j]
                    == ledger::redated(t@.tid, t@.date, t@.uid, t@.detail)(
                    before.transactions[j],
                ) by {
                    if j != i {
                        assert(before.transactions[j].tid != before.transactions[i as int].tid);
                    }
                }
            }
        }
        Ok(())
    }

    /// Fails with `NotFound` where the store does not hold the transaction,
    /// and with `BackendError` where the new payment is no number of 64
    /// bits; it changes nothing then, and no balance in any case.
    fn update_transaction_balance(&mut self, tid: u64, balance_delta: i64) -> (res: Result<
        (),
        TransactionError,
    >)
        ensures
            match res {
                Ok(()) => {
                    &&& old(self)@.has_transaction(tid as nat)
                    &&& i64::MIN <= old(self)@.transaction(tid as nat).payment + balance_delta
                        <= i64::MAX
                    &&& final(self)@ == old(self)@.adjust_payment(tid as nat, balance_delta as int)
                },
                Err(e) => {
                    &&& final(self)@ == old(self)@
                    &&& e == TransactionError::NotFound <==> !old(self)@.has_transaction(tid as nat)
                    &&& e == TransactionError::BackendError <==> old(self)@.has_transaction(
                        tid as nat,
                    ) && !(i64::MIN <= old(self)@.transaction(tid as nat).payment + balance_delta
                        <= i64::MAX)
                },
            },
    {
        let i = match self.find_transaction(tid) {
            Some(i) => i,
            None => {
                return Err(TransactionError::NotFound);
            },
        };
        proof {
            ledger::lemma_transaction_at(self@, i as int);
        }
        let stored = &self.transactions[i];
        let payment = match stored.payment.checked_add(balance_delta) {
            Some(p) => p,
            None => {
                return Err(TransactionError::BackendError);
            },
        };
        proof {
            ledger::lemma_adjust_payment_wf(self@, tid as nat, balance_delta as int);
        }
        let paid = Transaction {
            detail: copy_text(&stored.detail),
            date: stored.date,
            uid: stored.uid,
            tid: stored.tid,
            price: stored.price,
            payment,
        };
        self.transactions.set(i, paid);
        proof {
            let before = old(self)@;
            let after = before.adjust_payment(tid as nat, balance_delta as int);
            assert(self@.transactions =~= after.transactions) by {
                assert forall|j: int| 0 <= j < before.transactions.len() implies self@.transactions[j]
                    == ledger::paid_more(tid as nat, balance_delta as int)(
                    before.transactions[j],
                ) by {
                    if j != i {
                        assert(before.transactions[j].tid != before.transactions[i as int].tid);
                    }
                }
            }
        }
        Ok(())
    }

    /// Fails with `NotFound` where the store does not hold the transaction,
    /// and changes nothing then, and no balance in any case.
    fn update_transaction_price(&mut self, tid: u64, new_price: i64) -> (res: Result<
        (),
        TransactionError,
    >)
        ensures
            match res {
                Ok(()) => {
                    &&& old(self)@.has_transaction(tid as nat)
                    &&& final(self)@ == old(self)@.set_price(tid as nat, new_price as int)
                },
                Err(e) => {
                    &&& final(self)@ == old(self)@
                    &&& e == TransactionError::NotFound
                    &&& !old(self)@.has_transaction(tid as nat)
                },
            },
    {
        let i = match self.find_transaction(tid) {
            Some(i) => i,
            None => {
                return Err(TransactionError::NotFound);
            },
        };
        proof {
            ledger::lemma_set_price_wf(self@, tid as nat, new_price as int);
        }
        let stored = &self.transactions[i];
        let repriced = Transaction {
            detail: copy_text(&stored.detail),
            date: stored.date,
            uid: stored.uid,
            tid: stored.tid,
            price: new_price,
            payment: stored.payment,
        };
        self.transactions.set(i, repriced);
        proof {
            let before = old(self)@;
            let after = before.set_price(tid as nat, new_price as int);
            assert(self@.transactions =~= after.transactions) by {
                assert forall|j: int| 0 <= j < before.transactions.len() implies self@.transactions[j]
                    == ledger::repriced(tid as nat, new_price as int)(before.transactions[j]) by {
                    if j != i {
                        assert(before.transactions[j].tid != before.transactions[i as int].tid);
                    }
                }
            }
        }
        Ok(())
    }

    /// Never fails, and changes no balance.
    fn remove_transaction(&mut self, tid: u64) -> (res: Result<(), TransactionError>)
        ensures
            res is Ok,
            final(self)@ == old(self)@.remove_transaction(tid as nat),
    {
        proof {
            ledger::lemma_remove_transaction_wf(self@, tid as nat);
        }
        let ghost before = self@;
        let mut transactions: Vec<Transaction> = Vec::new();
        let mut i: usize = 0;
        proof {
            lemma_filter_none(before.transactions, ledger::other_transaction(tid as nat));
        }
        while i < self.transactions.len()
            invariant
                i <= self.transactions.len(),
                self@ == before,
                transaction_views(transactions@) =~= before.transactions.take(i as int).filter(
                    ledger::other_transaction(tid as nat),
                ),
            decreases self.transactions.len() - i,
        {
            proof {
                lemma_filter_next(
                    before.transactions,
                    i as int,
                    ledger::other_transaction(tid as nat),
                );
            }
            if self.transactions[i].tid != tid {
                transactions.push(self.transactions[i].clone());
            }
            i = i + 1;
        }
        assert(before.transactions.take(i as int) =~= before.transactions);
        self.transactions = transactions;
        Ok(())
    }
}

} // verus!
