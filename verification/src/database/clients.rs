//! Clients, their aliases, the filter that selects clients, and the
//! interface every storage engine offers over them.

use std::cmp::Ordering;
use vstd::prelude::*;

use crate::database::sequences::Identified;
use vstd::std_specs::cmp::PartialEqSpecImpl;
use vstd::std_specs::cmp::PartialOrdSpecImpl;

verus! {

/// A payer with a running balance.
#[derive(Debug)]
pub struct Client {
    pub name: String,
    pub detail: Option<String>,
    pub balance: i32,
    pub cid: u64,
}

/// What a `Client` holds, as mathematical values.
pub struct ClientView {
    pub cid: nat,
    pub name: Seq<char>,
    pub detail: Option<Seq<char>>,
    pub balance: int,
}

/// The text of an optional string.
pub open spec fn text_of(s: Option<String>) -> Option<Seq<char>> {
    match s {
        Some(t) => Some(t@),
        None => None,
    }
}

impl View for Client {
    type V = ClientView;

    open spec fn view(&self) -> ClientView {
        ClientView {
            cid: self.cid as nat,
            name: self.name@,
            detail: text_of(self.detail),
            balance: self.balance as int,
        }
    }
}

/// Copies an optional string.
pub fn copy_text(s: &Option<String>) -> (r: Option<String>)
    ensures
        r == *s,
{
    match s {
        Some(t) => Some(t.clone()),
        None => None,
    }
}

impl Client {
    /// The identity of this client.
    pub fn uid(&self) -> (id: u64)
        ensures
            id == self.cid,
    {
        self.cid
    }
}

impl Identified for Client {
    open spec fn identity(&self) -> u64 {
        self.cid
    }

    fn id(&self) -> (id: u64) {
        self.cid
    }
}

impl Clone for Client {
    fn clone(&self) -> (r: Self)
        ensures
            r == *self,
    {
        Client {
            name: self.name.clone(),
            detail: copy_text(&self.detail),
            balance: self.balance,
            cid: self.cid,
        }
    }
}

impl PartialEq for Client {
    /// Two clients are the same client when their identities agree,
    /// whatever their other fields hold.
    fn eq(&self, other: &Self) -> (r: bool) {
        self.cid == other.cid
    }
}

impl PartialEqSpecImpl for Client {
    open spec fn obeys_eq_spec() -> bool {
        true
    }

    open spec fn eq_spec(&self, other: &Self) -> bool {
        self.cid == other.cid
    }
}

impl Eq for Client {

}

impl PartialOrd for Client {
    /// Clients are ordered by identity alone.
    fn partial_cmp(&self, other: &Self) -> (r: Option<Ordering>) {
        if self.cid < other.cid {
            Some(Ordering::Less)
        } else if self.cid == other.cid {
            Some(Ordering::Equal)
        } else {
            Some(Ordering::Greater)
        }
    }
}

impl PartialOrdSpecImpl for Client {
    open spec fn obeys_partial_cmp_spec() -> bool {
        true
    }

    open spec fn partial_cmp_spec(&self, other: &Self) -> Option<Ordering> {
        if self.cid < other.cid {
            Some(Ordering::Less)
        } else if self.cid == other.cid {
            Some(Ordering::Equal)
        } else {
            Some(Ordering::Greater)
        }
    }
}

/// An alternate name of one client.
#[derive(Debug)]
pub struct Alias {
    pub alias: String,
    pub aid: u64,
    pub uid: u64,
}

/// What an `Alias` holds, as mathematical values: its text, its own
/// identity `aid` and the identity `uid` of the client that owns it.
pub struct AliasView {
    pub aid: nat,
    pub uid: nat,
    pub alias: Seq<char>,
}

impl View for Alias {
    type V = AliasView;

    open spec fn view(&self) -> AliasView {
        AliasView { aid: self.aid as nat, uid: self.uid as nat, alias: self.alias@ }
    }
}

impl Identified for Alias {
    open spec fn identity(&self) -> u64 {
        self.aid
    }

    fn id(&self) -> (id: u64) {
        self.aid
    }
}

impl Clone for Alias {
    fn clone(&self) -> (r: Self)
        ensures
            r == *self,
    {
        Alias { alias: self.alias.clone(), aid: self.aid, uid: self.uid }
    }
}

/// Selects clients: by name, by identity, by both, or all of them.
#[derive(Debug)]
pub struct Ufilter {
    pub name: Option<String>,
    pub uid: Option<u64>,
}

/// The filter on clients, under the name that says what it selects.
pub type ClientFilter = Ufilter;

/// What a `Ufilter` asks for, as mathematical values.
pub struct UfilterView {
    pub name: Option<Seq<char>>,
    pub uid: Option<nat>,
}

impl UfilterView {
    /// Whether the client `c` passes: every field that is set must agree,
    /// and a field that is not set asks for nothing.
    pub open spec fn matches(self, c: ClientView) -> bool {
        &&& self.name matches Some(n) ==> c.name == n
        &&& self.uid matches Some(id) ==> c.cid == id
    }
}

impl View for Ufilter {
    type V = UfilterView;

    open spec fn view(&self) -> UfilterView {
        UfilterView {
            name: text_of(self.name),
            uid: match self.uid {
                Some(id) => Some(id as nat),
                None => None,
            },
        }
    }
}

impl Ufilter {
    /// The filter that every client passes.
    pub fn new() -> (f: Ufilter)
        ensures
            f@ == (UfilterView { name: None, uid: None }),
    {
        Ufilter { name: None, uid: None }
    }

    /// This filter, asking in addition for the name `name`.
    pub fn with_name(self, name: String) -> (f: Ufilter)
        ensures
            f@ == (UfilterView { name: Some(name@), uid: self@.uid }),
    {
        let mut f = self;
        f.name = Some(name);
        f
    }

    /// This filter, asking in addition for the identity `uid`.
    pub fn with_uid(self, uid: u64) -> (f: Ufilter)
        ensures
            f@ == (UfilterView { name: self@.name, uid: Some(uid as nat) }),
    {
        let mut f = self;
        f.uid = Some(uid);
        f
    }

    /// Whether the client `c` passes this filter.
    pub fn admits(&self, c: &Client) -> (r: bool)
        ensures
            r == self@.matches(c@),
    {
        let name_ok = match &self.name {
            Some(n) => *n == c.name,
            None => true,
        };
        let uid_ok = match self.uid {
            Some(id) => id == c.cid,
            None => true,
        };
        name_ok && uid_ok
    }
}

/// Why an operation on clients or aliases failed.
#[derive(Debug, Clone, Copy, PartialEq, Eq, Structural)]
pub enum ClientError {
    /// The data handed in breaks a rule of the store: a client's name is
    /// empty. Nothing was written.
    ValidationError,
    /// The operation names a client or an alias that the store does not
    /// hold.
    NotFound,
    /// The engine under the store refused the operation or failed on it.
    BackendError,
}

/// The worded form of `e`.
pub open spec fn client_error_text(e: ClientError) -> Seq<char> {
    match e {
        ClientError::ValidationError => "ValidationError"@,
        ClientError::NotFound => "NotFound"@,
        ClientError::BackendError => "BackendError"@,
    }
}

impl ClientError {
    /// This error in words: the name of its kind.
    pub fn message(&self) -> (s: String)
        ensures
            s@ == client_error_text(*self),
    {
        match self {
            ClientError::ValidationError => "ValidationError".to_owned(),
            ClientError::NotFound => "NotFound".to_owned(),
            ClientError::BackendError => "BackendError".to_owned(),
        }
    }
}

/// A storage engine.
pub trait Store {
    /// Whether the store is in a state that its operations can work from.
    spec fn wf(&self) -> bool;
}

/// What every storage engine offers over clients and aliases.
///
/// The clauses here hold of every engine: which data is refused, which
/// errors an operation can end in, and that a read hands back nothing that
/// was not asked for. An engine whose state is known says more on its own
/// operations.
pub trait ClientDB: Store {
    /// Stores a new client with a balance of zero and hands it back with
    /// the identity it was given. A client must have a name: an empty one
    /// is refused before anything is written.
    fn add_client(&mut self, name: &str, detail: &str) -> (res: Result<Client, ClientError>)
        requires
            old(self).wf(),
        ensures
            final(self).wf(),
            (name@.len() == 0) <==> (res matches Err(ClientError::ValidationError)),
            !(res matches Err(ClientError::NotFound)),
            res matches Ok(c) ==> c@.name == name@ && c@.detail == Some(detail@) && c@.balance
                == 0,
    ;

    /// Gives the stored client `u.cid` the name and the detail of `u`. Its
    /// balance stays as it is stored. An empty name is refused before
    /// anything is written.
    fn update_client(&mut self, u: &Client) -> (res: Result<(), ClientError>)
        requires
            old(self).wf(),
        ensures
            final(self).wf(),
            (u@.name.len() == 0) <==> (res matches Err(ClientError::ValidationError)),
    ;

    /// Removes the client `uid` together with its aliases; its transactions
    /// stay and lose their owner. Removing a client that is not there is no
    /// error.
    fn remove_client(&mut self, uid: u64) -> (res: Result<(), ClientError>)
        requires
            old(self).wf(),
        ensures
            final(self).wf(),
            res matches Err(e) ==> e == ClientError::BackendError,
    ;

    /// The clients that pass `filter`.
    fn get_clients(&self, filter: Ufilter) -> (res: Result<Vec<Client>, ClientError>)
        requires
            self.wf(),
        ensures
            res matches Err(e) ==> e == ClientError::BackendError,
            res matches Ok(found) ==> forall|i: int|
                0 <= i < found.len() ==> filter@.matches(#[trigger] found[i]@),
    ;

    /// Stores `alias` as a new alias of `client`, which the store must
    /// hold.
    fn add_alias<'a>(&mut self, client: &Client, alias: &'a str) -> (res: Result<(), ClientError>)
        requires
            old(self).wf(),
        ensures
            final(self).wf(),
            !(res matches Err(ClientError::ValidationError)),
    ;

    /// The aliases that `client` owns.
    fn get_aliases(&self, client: &Client) -> (res: Result<Vec<Alias>, ClientError>)
        requires
            self.wf(),
        ensures
            res matches Err(e) ==> e == ClientError::BackendError,
            res matches Ok(found) ==> forall|i: int|
                0 <= i < found.len() ==> (#[trigger] found[i]).uid == client.cid,
    ;

    /// Removes the alias `aliasid`. Removing an alias that is not there is
    /// no error.
    fn remove_alias(&mut self, aliasid: u64) -> (res: Result<(), ClientError>)
        requires
            old(self).wf(),
        ensures
            final(self).wf(),
            res matches Err(e) ==> e == ClientError::BackendError,
    ;

    /// Gives the stored alias `alias.aid` the text of `alias`. The owner of
    /// an alias never changes.
    fn update_alias(&mut self, alias: &Alias) -> (res: Result<(), ClientError>)
        requires
            old(self).wf(),
        ensures
            final(self).wf(),
            !(res matches Err(ClientError::ValidationError)),
    ;

    /// Sets the stored balance of the client `u.cid` to what its
    /// transactions come to: all that was paid less all that was billed.
    fn update_client_balance(&mut self, u: &Client) -> (res: Result<(), ClientError>)
        requires
            old(self).wf(),
        ensures
            final(self).wf(),
            !(res matches Err(ClientError::ValidationError)),
    ;

    /// Adds `balance_delta` to the stored balance of the client `uid`,
    /// without looking at its transactions.
    fn update_client_balance_delta(&mut self, uid: u64, balance_delta: i64) -> (res: Result<
        (),
        ClientError,
    >)
        requires
            old(self).wf(),
        ensures
            final(self).wf(),
            !(res matches Err(ClientError::ValidationError)),
    ;
}

} // verus!
