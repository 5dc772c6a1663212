//! The connection registry: an ordered store of live connections, one per
//! key, that routes requests by matching file paths against each
//! connection's rule.

use crate::address::{Address, AddressView};
use crate::error::{ConnectError, DisconnectError, EvalError};
use crate::rule::{rule_accepts, MatchRule};
use crate::text::same_text;
use vstd::prelude::*;

verus! {

/// One connection as plain values: its key, where it leads, which files it
/// serves, and the link that the registry owns for it.
pub struct Entry<L> {
    pub key: Seq<char>,
    pub addr: AddressView,
    pub rule: Seq<char>,
    pub link: L,
}

/// Whether some entry of `s` is registered under `key`.
pub open spec fn has_key<L>(s: Seq<Entry<L>>, key: Seq<char>) -> bool {
    exists|i: int| 0 <= i < s.len() && (#[trigger] s[i]).key == key
}

/// No two entries share a key.
pub open spec fn distinct_keys<L>(s: Seq<Entry<L>>) -> bool {
    forall|i: int, j: int|
        0 <= i < j < s.len() ==> (#[trigger] s[i]).key != (#[trigger] s[j]).key
}

/// An index at which `key` is registered, if there is one.
pub open spec fn position<L>(s: Seq<Entry<L>>, key: Seq<char>) -> int {
    choose|i: int| 0 <= i < s.len() && (#[trigger] s[i]).key == key
}

/// The keys of `s`, in order.
pub open spec fn keys<L>(s: Seq<Entry<L>>) -> Seq<Seq<char>> {
    Seq::new(s.len(), |i: int| s[i].key)
}

/// What `connect` answers for `key` and the outcome `link` of dialing, on a
/// registry that holds `s`.
pub open spec fn connect_result<L>(s: Seq<Entry<L>>, key: Seq<char>, link: Option<L>) -> Result<
    (),
    ConnectError,
> {
    if has_key(s, key) {
        Err(ConnectError::DuplicateKey)
    } else if link is None {
        Err(ConnectError::Unreachable)
    } else {
        Ok(())
    }
}

/// What the registry holds after that `connect`: the new entry behind all
/// others if the call succeeds, and `s` as it was if it fails.
pub open spec fn after_connect<L>(
    s: Seq<Entry<L>>,
    key: Seq<char>,
    addr: AddressView,
    rule: Seq<char>,
    link: Option<L>,
) -> Seq<Entry<L>> {
    if connect_result(s, key, link) is Ok {
        s.push(Entry { key, addr, rule, link: link->0 })
    } else {
        s
    }
}

/// What `disconnect` answers for `key` on a registry that holds `s`.
pub open spec fn disconnect_result<L>(s: Seq<Entry<L>>, key: Seq<char>) -> Result<
    (),
    DisconnectError,
> {
    if has_key(s, key) {
        Ok(())
    } else {
        Err(DisconnectError::UnknownKey)
    }
}

/// What the registry holds after that `disconnect`: `s` without the entry
/// under `key`, the others in their order.
pub open spec fn after_disconnect<L>(s: Seq<Entry<L>>, key: Seq<char>) -> Seq<Entry<L>> {
    if has_key(s, key) {
        s.remove(position(s, key))
    } else {
        s
    }
}

/// Whether the entry's rule claims `path`.
pub open spec fn claims<L>(e: Entry<L>, path: Seq<char>) -> bool {
    rule_accepts(e.rule, path)
}

/// Whether any entry of `s` claims `path`.
pub open spec fn any_claims<L>(s: Seq<Entry<L>>, path: Seq<char>) -> bool {
    exists|i: int| 0 <= i < s.len() && claims(#[trigger] s[i], path)
}

/// Whether entry `i` is the earliest registered entry of `s` that claims
/// `path`.
pub open spec fn first_claim_at<L>(s: Seq<Entry<L>>, path: Seq<char>, i: int) -> bool {
    &&& 0 <= i < s.len()
    &&& claims(s[i], path)
    &&& forall|j: int| 0 <= j < i ==> !claims(#[trigger] s[j], path)
}

/// The index of the earliest `true` among `hits`, or `None` if all are
/// `false`.
pub open spec fn earliest(hits: Seq<bool>) -> Option<int>
    decreases hits.len(),
{
    if hits.len() == 0 {
        None
    } else {
        match earliest(hits.drop_last()) {
            Some(i) => Some(i),
            None => if hits.last() {
                Some(hits.len() - 1)
            } else {
                None
            },
        }
    }
}

/// Whether `hits[i]` is the earliest `true` among `hits`.
pub open spec fn earliest_at(hits: Seq<bool>, i: int) -> bool {
    &&& 0 <= i < hits.len()
    &&& hits[i]
    &&& forall|j: int| 0 <= j < i ==> !#[trigger] hits[j]
}

/// What `earliest` answers is a hit with no hit before it, and it answers
/// `None` only where there is no hit.
pub proof fn lemma_earliest(hits: Seq<bool>)
    ensures
        earliest(hits) matches Some(i) ==> earliest_at(hits, i),
        earliest(hits) is None ==> forall|j: int| 0 <= j < hits.len() ==> !#[trigger] hits[j],
    decreases hits.len(),
{
    if hits.len() > 0 {
        let front = hits.drop_last();
        lemma_earliest(front);
        assert(forall|j: int| 0 <= j < front.len() ==> front[j] == hits[j]);
    }
}

/// For each entry of `s`, in order, whether its rule claims `path`.
pub open spec fn claim_flags<L>(s: Seq<Entry<L>>, path: Seq<char>) -> Seq<bool> {
    Seq::new(s.len(), |i: int| claims(s[i], path))
}

/// The index of the entry that serves `path`: the earliest registered entry
/// whose rule claims it, or `None` if no rule does.
pub open spec fn route<L>(s: Seq<Entry<L>>, path: Seq<char>) -> Option<int> {
    earliest(claim_flags(s, path))
}

/// `route` picks the earliest claiming entry, and finds none only if there is
/// none.
pub proof fn lemma_route_first<L>(s: Seq<Entry<L>>, path: Seq<char>)
    ensures
        route(s, path) matches Some(i) ==> first_claim_at(s, path, i),
        route(s, path) is None ==> !any_claims(s, path),
{
    let flags = claim_flags(s, path);
    lemma_earliest(flags);
    match route(s, path) {
        Some(i) => {
            assert(flags[i]);
            assert forall|j: int| 0 <= j < i implies !claims(#[trigger] s[j], path) by {
                assert(!flags[j]);
            }
        },
        None => {
            assert forall|j: int| 0 <= j < s.len() implies !claims(#[trigger] s[j], path) by {
                assert(!flags[j]);
            }
        },
    }
}

/// The earliest claiming entry is the one that `route` picks.
pub proof fn lemma_first_is_route<L>(s: Seq<Entry<L>>, path: Seq<char>, i: int)
    requires
        first_claim_at(s, path, i),
    ensures
        route(s, path) == Some(i),
{
    lemma_route_first(s, path);
}

/// The index of the earliest `true` among `hits`, or `None` if all are
/// `false`.
pub fn earliest_hit(hits: &Vec<bool>) -> (first: Option<usize>)
    ensures
        first matches Some(i) ==> earliest_at(hits@, i as int) && earliest(hits@) == Some(i as int),
        first is None ==> earliest(hits@) is None && forall|j: int|
            0 <= j < hits@.len() ==> !#[trigger] hits@[j],
{
    let mut i: usize = 0;
    while i < hits.len()
        invariant
            i <= hits@.len(),
            forall|j: int| 0 <= j < i ==> !#[trigger] hits@[j],
        decreases hits@.len() - i,
    {
        if hits[i] {
            proof {
                lemma_earliest(hits@);
            }
            return Some(i);
        }
        i += 1;
    }
    proof {
        lemma_earliest(hits@);
    }
    None
}

/// With distinct keys, a key is registered at one index only.
pub proof fn lemma_position_unique<L>(s: Seq<Entry<L>>, key: Seq<char>, i: int)
    requires
        distinct_keys(s),
        0 <= i < s.len(),
        s[i].key == key,
    ensures
        has_key(s, key),
        position(s, key) == i,
{
}

/// What a request asks of the backend.
#[derive(Clone, Copy, Debug, PartialEq, Eq, Structural)]
pub enum RequestKind {
    /// Evaluate the text as code.
    Eval,
    /// Look up the documentation of the name in the text.
    Doc,
}

/// A request on its way to a backend: which connection takes it, and what
/// is to be sent.
#[derive(Debug, PartialEq, Eq)]
pub struct Request {
    /// The index of the connection in registration order.
    pub target: usize,
    /// The key of that connection.
    pub key: String,
    pub kind: RequestKind,
    pub text: String,
}

/// A request as plain values.
pub struct RequestView {
    pub target: int,
    pub key: Seq<char>,
    pub kind: RequestKind,
    pub text: Seq<char>,
}

impl View for Request {
    type V = RequestView;

    open spec fn view(&self) -> RequestView {
        RequestView { target: self.target as int, key: self.key@, kind: self.kind, text: self.text@ }
    }
}

/// The request that a registry holding `s` makes of `text` for the file at
/// `path`: it goes to the connection that `route` picks, and there is none
/// to make if no rule claims the path.
pub open spec fn request_for<L>(
    s: Seq<Entry<L>>,
    kind: RequestKind,
    text: Seq<char>,
    path: Seq<char>,
) -> Result<RequestView, EvalError> {
    match route(s, path) {
        Some(i) => Ok(RequestView { target: i, key: s[i].key, kind, text }),
        None => Err(EvalError::NoMatch),
    }
}

/// The answer to a request as plain values.
pub open spec fn request_result_view(made: Result<Request, EvalError>) -> Result<
    RequestView,
    EvalError,
> {
    match made {
        Ok(request) => Ok(request@),
        Err(e) => Err(e),
    }
}

/// How a request ends once the link has been tried: well if the text went
/// out, and with `ConnectionUnavailable` if the link would not take it.
pub open spec fn delivery_result(sent: bool) -> Result<(), EvalError> {
    if sent {
        Ok(())
    } else {
        Err(EvalError::ConnectionUnavailable)
    }
}

impl Request {
    /// Concludes the request from what became of the attempt to send it.
    pub fn conclude(&self, sent: bool) -> (end: Result<(), EvalError>)
        ensures
            end == delivery_result(sent),
    {
        if sent {
            Ok(())
        } else {
            Err(EvalError::ConnectionUnavailable)
        }
    }
}

/// A live connection: the key it is registered under, the address it leads
/// to, the rule that says which files it serves, and the link to the backend.
pub struct Connection<L> {
    key: String,
    addr: Address,
    rule: MatchRule,
    link: L,
}

impl<L> View for Connection<L> {
    type V = Entry<L>;

    closed spec fn view(&self) -> Entry<L> {
        Entry { key: self.key@, addr: self.addr@, rule: self.rule@, link: self.link }
    }
}

impl<L> Connection<L> {
    /// The key the connection is registered under.
    pub fn key(&self) -> (key: &str)
        ensures
            key@ == self@.key,
    {
        self.key.as_str()
    }

    /// The address the connection leads to.
    pub fn addr(&self) -> (addr: &Address)
        ensures
            addr@ == self@.addr,
    {
        &self.addr
    }

    /// The rule that says which files the connection serves.
    pub fn rule(&self) -> (rule: &MatchRule)
        ensures
            rule@ == self@.rule,
    {
        &self.rule
    }

    /// The link to the backend.
    pub fn link(&self) -> (link: &L)
        ensures
            *link == self@.link,
    {
        &self.link
    }
}

/// The registry of live connections, in the order in which they were
/// registered. It owns every link; a link leaves it only through
/// `disconnect`.
pub struct Registry<L> {
    entries: Vec<Connection<L>>,
}

impl<L> View for Registry<L> {
    type V = Seq<Entry<L>>;

    closed spec fn view(&self) -> Seq<Entry<L>> {
        Seq::new(self.entries@.len(), |i: int| self.entries@[i]@)
    }
}

impl<L> Registry<L> {
    #[verifier::type_invariant]
    spec fn keys_are_distinct(&self) -> bool {
        distinct_keys(self@)
    }

    /// A registry without connections.
    pub fn new() -> (registry: Registry<L>)
        ensures
            registry@ == Seq::<Entry<L>>::empty(),
    {
        Registry { entries: Vec::new() }
    }

    /// The number of connections. No two of them share a key.
    pub fn len(&self) -> (n: usize)
        ensures
            n == self@.len(),
            distinct_keys(self@),
    {
        proof {
            use_type_invariant(self);
        }
        self.entries.len()
    }

    /// Whether there is any connection.
    pub fn has_connections(&self) -> (any: bool)
        ensures
            any == (self@.len() > 0),
    {
        self.entries.len() > 0
    }

    /// The connection at `index` in registration order, if there is one.
    pub fn get(&self, index: usize) -> (found: Option<&Connection<L>>)
        ensures
            found is Some <==> index < self@.len(),
            found matches Some(c) ==> c@ == self@[index as int],
    {
        if index < self.entries.len() {
            Some(&self.entries[index])
        } else {
            None
        }
    }

    /// The index under which `key` is registered, if it is.
    pub fn find(&self, key: &str) -> (found: Option<usize>)
        ensures
            found is Some <==> has_key(self@, key@),
            found matches Some(i) ==> i == position(self@, key@) && i < self@.len(),
    {
        proof {
            use_type_invariant(self);
        }
        let mut i: usize = 0;
        while i < self.entries.len()
            invariant
                i <= self.entries@.len(),
                distinct_keys(self@),
                forall|j: int| 0 <= j < i ==> (#[trigger] self@[j]).key != key@,
            decreases self.entries@.len() - i,
        {
            if same_text(self.entries[i].key.as_str(), key) {
                proof {
                    lemma_position_unique(self@, key@, i as int);
                }
                return Some(i);
            }
            i += 1;
        }
        None
    }

    /// Whether a connection is registered under `key`.
    pub fn contains_key(&self, key: &str) -> (present: bool)
        ensures
            present == has_key(self@, key@),
    {
        self.find(key).is_some()
    }

    /// Registers a connection under `key`. `link` is what dialing `addr`
    /// gave: the link to the backend, or `None` if the address could not be
    /// reached. A key that is already registered is refused, whatever `link`
    /// holds; an unreachable address is refused next. On success the
    /// connection stands behind all others and the registry owns its link.
    /// On failure the registry is unchanged and a link that was handed in is
    /// released.
    pub fn connect(&mut self, key: String, addr: Address, rule: MatchRule, link: Option<L>) -> (done:
        Result<(), ConnectError>)
        ensures
            done == connect_result(old(self)@, key@, link),
            final(self)@ == after_connect(old(self)@, key@, addr@, rule@, link),
            distinct_keys(final(self)@),
    {
        proof {
            use_type_invariant(&*self);
        }
        if self.contains_key(key.as_str()) {
            return Err(ConnectError::DuplicateKey);
        }
        match link {
            None => Err(ConnectError::Unreachable),
            Some(link) => {
                let ghost before = self@;
                let connection = Connection { key, addr, rule, link };
                let mut entries: Vec<Connection<L>> = Vec::new();
                core::mem::swap(&mut self.entries, &mut entries);
                entries.push(connection);
                proof {
                    let after = Seq::new(entries@.len(), |i: int| entries@[i]@);
                    assert(after =~= before.push(connection@));
                }
                self.entries = entries;
                Ok(())
            },
        }
    }

    /// Removes the connection under `key` and releases its link. The other
    /// connections keep their order. Without such a connection the registry
    /// is unchanged.
    pub fn disconnect(&mut self, key: &str) -> (done: Result<(), DisconnectError>)
        ensures
            done == disconnect_result(old(self)@, key@),
            final(self)@ == after_disconnect(old(self)@, key@),
            distinct_keys(final(self)@),
    {
        proof {
            use_type_invariant(&*self);
        }
        match self.find(key) {
            None => Err(DisconnectError::UnknownKey),
            Some(i) => {
                let ghost before = self@;
                let mut entries: Vec<Connection<L>> = Vec::new();
                core::mem::swap(&mut self.entries, &mut entries);
                let _ = entries.remove(i);
                proof {
                    let after = Seq::new(entries@.len(), |i: int| entries@[i]@);
                    assert(after =~= before.remove(i as int));
                }
                self.entries = entries;
                Ok(())
            },
        }
    }

    /// For each connection, in registration order, whether its rule claims
    /// `path`.
    pub fn claims(&self, path: &str) -> (flags: Vec<bool>)
        ensures
            flags@ == claim_flags(self@, path@),
    {
        let mut flags: Vec<bool> = Vec::new();
        let mut i: usize = 0;
        while i < self.entries.len()
            invariant
                i <= self.entries@.len(),
                flags@.len() == i,
                forall|j: int| 0 <= j < i ==> #[trigger] flags@[j] == claims(self@[j], path@),
            decreases self.entries@.len() - i,
        {
            flags.push(self.entries[i].rule.matches(path));
            i += 1;
        }
        assert(flags@ =~= claim_flags(self@, path@));
        flags
    }

    /// The index of the connection that serves the file at `path`: the
    /// earliest registered connection whose rule claims the path.
    pub fn route(&self, path: &str) -> (target: Option<usize>)
        ensures
            target matches Some(i) ==> route(self@, path@) == Some(i as int) && first_claim_at(
                self@,
                path@,
                i as int,
            ),
            target is None ==> route(self@, path@) is None && !any_claims(self@, path@),
    {
        let flags = self.claims(path);
        proof {
            lemma_route_first(self@, path@);
        }
        earliest_hit(&flags)
    }

    /// Makes the request `text` of kind `kind` for the file at `path`.
    fn request(&self, kind: RequestKind, text: &str, path: &str) -> (made: Result<Request, EvalError>)
        ensures
            request_result_view(made) == request_for(self@, kind, text@, path@),
            made is Err <==> !any_claims(self@, path@),
            made matches Ok(request) ==> first_claim_at(self@, path@, request.target as int),
    {
        match self.route(path) {
            None => Err(EvalError::NoMatch),
            Some(i) => Ok(
                Request {
                    target: i,
                    key: self.entries[i].key.clone(),
                    kind,
                    text: text.to_owned(),
                },
            ),
        }
    }

    /// Routes `code` to the connection that serves the file at `path`. The
    /// answer is the request to send, or `NoMatch` with nothing to send if
    /// no rule claims the path. Nothing is sent here: the caller sends the
    /// request over the target's link and concludes it with
    /// `Request::conclude`.
    pub fn eval(&self, code: &str, path: &str) -> (made: Result<Request, EvalError>)
        ensures
            request_result_view(made) == request_for(self@, RequestKind::Eval, code@, path@),
            made is Err <==> !any_claims(self@, path@),
            made matches Ok(request) ==> first_claim_at(self@, path@, request.target as int),
    {
        self.request(RequestKind::Eval, code, path)
    }

    /// Routes a documentation lookup for `name` as `eval` routes code.
    pub fn doc(&self, name: &str, path: &str) -> (made: Result<Request, EvalError>)
        ensures
            request_result_view(made) == request_for(self@, RequestKind::Doc, name@, path@),
            made is Err <==> !any_claims(self@, path@),
            made matches Ok(request) ==> first_claim_at(self@, path@, request.target as int),
    {
        self.request(RequestKind::Doc, name, path)
    }

    /// The connections in registration order. No two of them share a key.
    pub fn list(&self) -> (all: Vec<&Connection<L>>)
        ensures
            all@.len() == self@.len(),
            forall|i: int| 0 <= i < all@.len() ==> (#[trigger] all@[i])@ == self@[i],
            distinct_keys(self@),
    {
        proof {
            use_type_invariant(self);
        }
        let mut all: Vec<&Connection<L>> = Vec::new();
        let mut i: usize = 0;
        while i < self.entries.len()
            invariant
                i <= self.entries@.len(),
                all@.len() == i,
                forall|j: int| 0 <= j < i ==> (#[trigger] all@[j])@ == self@[j],
            decreases self.entries@.len() - i,
        {
            all.push(&self.entries[i]);
            i += 1;
        }
        all
    }
}

} // verus!
