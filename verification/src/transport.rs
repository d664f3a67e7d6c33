//! Transport correlation: the pending-request table that matches every
//! inbound reply to the caller that sent the request with that identifier,
//! and the open/closed state of the connection.
//!
//! The table is a mapping from identifier to waiter — never a stack — so
//! replies arriving in any order reach their own callers.

use vstd::prelude::*;
use vstd::string::StringExecFns;
use crate::error::OgmiosError;

verus! {

/// The mapping a sequence of identifier/waiter entries stands for.
pub open spec fn entries_map<W>(s: Seq<(u64, W)>) -> Map<u64, W>
    decreases s.len(),
{
    if s.len() == 0 {
        Map::empty()
    } else {
        entries_map(s.drop_last()).insert(s.last().0, s.last().1)
    }
}

/// No two entries share an identifier.
pub open spec fn no_dup<W>(s: Seq<(u64, W)>) -> bool {
    forall|a: int, b: int| 0 <= a < b < s.len() ==> (#[trigger] s[a]).0 != (#[trigger] s[b]).0
}

/// An identifier is in the mapping exactly when some entry carries it.
proof fn lemma_entries_dom<W>(s: Seq<(u64, W)>, id: u64)
    ensures
        entries_map(s).dom().contains(id) <==> exists|k: int| 0 <= k < s.len()
            && (#[trigger] s[k]).0 == id,
    decreases s.len(),
{
    if s.len() > 0 {
        lemma_entries_dom(s.drop_last(), id);
        if entries_map(s).dom().contains(id) {
            if s.last().0 == id {
                assert(s[s.len() - 1].0 == id);
            } else {
                let k = choose|k: int| 0 <= k < s.drop_last().len()
                    && (#[trigger] s.drop_last()[k]).0 == id;
                assert(s[k].0 == id);
            }
        }
        if exists|k: int| 0 <= k < s.len() && (#[trigger] s[k]).0 == id {
            let k = choose|k: int| 0 <= k < s.len() && (#[trigger] s[k]).0 == id;
            if k < s.len() - 1 {
                assert(s.drop_last()[k].0 == id);
            }
        }
    }
}

/// Without repeated identifiers, the entry carrying `id` gives its value in
/// the mapping.
proof fn lemma_entries_index<W>(s: Seq<(u64, W)>, k: int)
    requires
        no_dup(s),
        0 <= k < s.len(),
    ensures
        entries_map(s).dom().contains(s[k].0),
        entries_map(s)[s[k].0] == s[k].1,
    decreases s.len(),
{
    lemma_entries_dom(s, s[k].0);
    if k == s.len() - 1 {
    } else {
        assert(forall|a: int, b: int| 0 <= a < b < s.drop_last().len()
            ==> (#[trigger] s.drop_last()[a]).0 != (#[trigger] s.drop_last()[b]).0);
        lemma_entries_index(s.drop_last(), k);
        assert(s[k].0 != s.last().0);
    }
}

/// Removing the entry at `k` removes exactly its identifier from the
/// mapping.
proof fn lemma_entries_remove<W>(s: Seq<(u64, W)>, k: int)
    requires
        no_dup(s),
        0 <= k < s.len(),
    ensures
        entries_map(s.remove(k)) =~= entries_map(s).remove(s[k].0),
        no_dup(s.remove(k)),
    decreases s.len(),
{
    assert(forall|a: int, b: int| 0 <= a < b < s.remove(k).len()
        ==> (#[trigger] s.remove(k)[a]).0 != (#[trigger] s.remove(k)[b]).0) by {
        assert forall|a: int, b: int| 0 <= a < b < s.remove(k).len() implies
            (#[trigger] s.remove(k)[a]).0 != (#[trigger] s.remove(k)[b]).0 by {
            let a2: int = if a < k { a } else { a + 1 };
            let b2: int = if b < k { b } else { b + 1 };
            assert(s.remove(k)[a] == s[a2]);
            assert(s.remove(k)[b] == s[b2]);
        }
    }
    if k == s.len() - 1 {
        assert(s.remove(k) =~= s.drop_last());
        lemma_entries_dom(s.drop_last(), s[k].0);
        assert forall|a: int| 0 <= a < s.drop_last().len() implies
            (#[trigger] s.drop_last()[a]).0 != s[k].0 by {
            assert(s[a].0 != s[k].0);
        }
        assert(!entries_map(s.drop_last()).dom().contains(s[k].0));
        assert(entries_map(s.drop_last()) =~= entries_map(s.drop_last()).insert(
            s.last().0,
            s.last().1,
        ).remove(s[k].0));
    } else {
        let s0 = s.drop_last();
        assert(forall|a: int, b: int| 0 <= a < b < s0.len()
            ==> (#[trigger] s0[a]).0 != (#[trigger] s0[b]).0);
        lemma_entries_remove(s0, k);
        assert(s.remove(k) =~= s0.remove(k).push(s.last()));
        assert(s.remove(k).drop_last() =~= s0.remove(k));
        assert(entries_map(s.remove(k)) == entries_map(s0.remove(k)).insert(
            s.last().0,
            s.last().1,
        ));
        assert(s[k].0 != s.last().0);
        assert(entries_map(s0.remove(k)).insert(s.last().0, s.last().1) =~= entries_map(
            s0,
        ).remove(s[k].0).insert(s.last().0, s.last().1));
        assert(entries_map(s0).remove(s[k].0).insert(s.last().0, s.last().1) =~= entries_map(
            s0,
        ).insert(s.last().0, s.last().1).remove(s[k].0));
    }
}

/// The pending-request table: waiters keyed by request identifier.
pub struct PendingMap<W> {
    entries: Vec<(u64, W)>,
}

impl<W> PendingMap<W> {
    /// The mapping the table stands for.
    pub closed spec fn view(&self) -> Map<u64, W> {
        entries_map(self.entries@)
    }

    /// No two entries share an identifier.
    pub closed spec fn wf(&self) -> bool {
        no_dup(self.entries@)
    }

    /// An empty table.
    pub fn new() -> (r: Self)
        ensures
            r.wf(),
            r@ == Map::<u64, W>::empty(),
    {
        PendingMap { entries: Vec::new() }
    }

    /// How many requests are pending.
    pub fn len(&self) -> (r: usize)
        ensures
            (r == 0) == (self@ == Map::<u64, W>::empty()),
    {
        proof {
            if self.entries@.len() > 0 {
                lemma_entries_dom(self.entries@, self.entries@.last().0);
                assert(self@.dom().contains(self.entries@.last().0));
                assert(self@ != Map::<u64, W>::empty());
            } else {
                assert(self@ =~= Map::<u64, W>::empty());
            }
        }
        self.entries.len()
    }

    /// Whether a request with this identifier is pending.
    pub fn contains(&self, id: u64) -> (r: bool)
        requires
            self.wf(),
        ensures
            r == self@.dom().contains(id),
    {
        let ghost s = self.entries@;
        let n = self.entries.len();
        let mut k: usize = 0;
        while k < n
            invariant
                0 <= k <= n == s.len(),
                s == self.entries@,
                forall|m: int| 0 <= m < k ==> (#[trigger] s[m]).0 != id,
            decreases n - k,
        {
            if self.entries[k].0 == id {
                proof {
                    lemma_entries_dom(s, id);
                }
                return true;
            }
            k = k + 1;
        }
        proof {
            lemma_entries_dom(s, id);
        }
        false
    }

    /// Register a waiter under a fresh identifier.
    pub fn insert(&mut self, id: u64, w: W)
        requires
            old(self).wf(),
            !old(self)@.dom().contains(id),
        ensures
            final(self).wf(),
            final(self)@ == old(self)@.insert(id, w),
    {
        proof {
            lemma_entries_dom(old(self).entries@, id);
        }
        self.entries.push((id, w));
        proof {
            assert(self.entries@.drop_last() =~= old(self).entries@);
            assert forall|a: int, b: int| 0 <= a < b < self.entries@.len() implies
                (#[trigger] self.entries@[a]).0 != (#[trigger] self.entries@[b]).0 by {
                if b < self.entries@.len() - 1 {
                    assert(old(self).entries@[a].0 != old(self).entries@[b].0);
                } else {
                    assert(old(self).entries@[a].0 == self.entries@[a].0);
                }
            }
        }
    }

    /// Take out the waiter registered under `id`, if any: the one delivery
    /// of a reply with that identifier.
    pub fn remove(&mut self, id: u64) -> (r: Option<W>)
        requires
            old(self).wf(),
        ensures
            final(self).wf(),
            old(self)@.dom().contains(id) ==> (r == Some(old(self)@[id])
                && final(self)@ == old(self)@.remove(id)),
            !old(self)@.dom().contains(id) ==> r is None && *final(self) == *old(self),
    {
        let ghost s = old(self).entries@;
        let n = self.entries.len();
        let mut k: usize = 0;
        while k < n
            invariant
                0 <= k <= n == s.len(),
                *self == *old(self),
                s == self.entries@,
                no_dup(s),
                forall|m: int| 0 <= m < k ==> (#[trigger] s[m]).0 != id,
            decreases n - k,
        {
            if self.entries[k].0 == id {
                proof {
                    lemma_entries_index(s, k as int);
                    lemma_entries_remove(s, k as int);
                }
                let (_, w) = self.entries.remove(k);
                return Some(w);
            }
            k = k + 1;
        }
        proof {
            lemma_entries_dom(s, id);
        }
        None
    }

    /// Take out every waiter: teardown resolves all of them, leaking none.
    pub fn drain(&mut self) -> (r: Vec<(u64, W)>)
        requires
            old(self).wf(),
        ensures
            final(self).wf(),
            final(self)@ == Map::<u64, W>::empty(),
            no_dup(r@),
            entries_map(r@) == old(self)@,
    {
        let mut taken = Vec::new();
        core::mem::swap(&mut taken, &mut self.entries);
        proof {
            assert(self.entries@ =~= Seq::<(u64, W)>::empty());
            assert(self@ =~= Map::<u64, W>::empty());
        }
        taken
    }
}

/// What each arriving reply is delivered to, for replies arriving in the
/// order given: the waiter registered under the reply's own identifier,
/// each delivered at most once.
pub open spec fn deliveries<W>(m: Map<u64, W>, order: Seq<u64>) -> Seq<Option<W>>
    decreases order.len(),
{
    if order.len() == 0 {
        Seq::empty()
    } else {
        let first: Option<W> = if m.dom().contains(order[0]) {
            Some(m[order[0]])
        } else {
            None
        };
        seq![first] + deliveries(m.remove(order[0]), order.drop_first())
    }
}

/// A delivery schedule has one slot per arriving reply.
pub proof fn lemma_deliveries_len<W>(m: Map<u64, W>, order: Seq<u64>)
    ensures
        deliveries(m, order).len() == order.len(),
    decreases order.len(),
{
    if order.len() > 0 {
        lemma_deliveries_len(m.remove(order[0]), order.drop_first());
    }
}

/// Correlation is independent of arrival order: with pending requests `m`
/// and replies arriving under distinct identifiers in any order, each reply
/// is delivered to the waiter registered under its own identifier.
pub proof fn lemma_correlation<W>(m: Map<u64, W>, order: Seq<u64>, i: int)
    requires
        forall|a: int, b: int| 0 <= a < b < order.len() ==> order[a] != order[b],
        0 <= i < order.len(),
        m.dom().contains(order[i]),
    ensures
        deliveries(m, order)[i] == Some(m[order[i]]),
    decreases i,
{
    if i == 0 {
    } else {
        assert(order[i] != order[0]);
        assert(m.remove(order[0]).dom().contains(order[i]));
        assert(forall|a: int, b: int| 0 <= a < b < order.drop_first().len()
            ==> order.drop_first()[a] != order.drop_first()[b]) by {
            assert forall|a: int, b: int| 0 <= a < b < order.drop_first().len() implies
                order.drop_first()[a] != order.drop_first()[b] by {
                assert(order.drop_first()[a] == order[a + 1]);
                assert(order.drop_first()[b] == order[b + 1]);
            }
        }
        lemma_correlation(m.remove(order[0]), order.drop_first(), i - 1);
        lemma_deliveries_len(m, order);
        lemma_deliveries_len(m.remove(order[0]), order.drop_first());
        assert(deliveries(m, order)[i] == deliveries(m.remove(order[0]), order.drop_first())[i - 1]);
    }
}

/// The transport's shared state: the open flag, the identifier counter, and
/// the pending-request table.
pub struct TransportState<W> {
    /// Whether the socket is open.
    open: bool,
    /// The next request identifier to assign.
    next_id: u64,
    /// Waiters keyed by request identifier.
    pending: PendingMap<W>,
}

impl<W> TransportState<W> {
    /// Identifiers are distinct and every pending identifier was assigned
    /// before the counter's current value.
    pub closed spec fn wf(&self) -> bool {
        &&& self.pending.wf()
        &&& forall|id: u64| #[trigger] self.pending@.dom().contains(id) ==> id < self.next_id
        &&& !self.open ==> self.pending@ == Map::<u64, W>::empty()
    }

    /// The pending mapping.
    pub closed spec fn pending_map(&self) -> Map<u64, W> {
        self.pending@
    }

    /// Whether the socket is open.
    pub closed spec fn spec_is_open(&self) -> bool {
        self.open
    }

    /// The next request identifier the transport will assign.
    pub closed spec fn spec_next_id(&self) -> u64 {
        self.next_id
    }

    /// A fresh transport: open, no pending requests, identifiers from one.
    pub fn new() -> (r: Self)
        ensures
            r.wf(),
            r.spec_is_open(),
            r.pending_map() == Map::<u64, W>::empty(),
            r.spec_next_id() == 1u64,
    {
        TransportState { open: true, next_id: 1, pending: PendingMap::new() }
    }

    /// Non-blocking snapshot of connection liveness.
    pub fn is_open(&self) -> (r: bool)
        ensures
            r == self.spec_is_open(),
    {
        self.open
    }

    /// Register a request: assign the next identifier and remember the
    /// waiter under it.  Fails without touching anything where the socket
    /// is closed.
    pub fn register(&mut self, w: W) -> (r: Result<u64, OgmiosError>)
        requires
            old(self).wf(),
            old(self).spec_next_id() < u64::MAX,
        ensures
            final(self).wf(),
            !old(self).spec_is_open() ==> (r matches Err(e) && e is SocketNotOpen
                && *final(self) == *old(self)),
            old(self).spec_is_open() ==> (r matches Ok(id) && id == old(self).spec_next_id()
                && !old(self).pending_map().dom().contains(id)
                && final(self).pending_map() == old(self).pending_map().insert(id, w)
                && final(self).spec_next_id() == old(self).spec_next_id() + 1
                && final(self).spec_is_open()),
    {
        if !self.open {
            return Err(OgmiosError::SocketNotOpen { state: "closed".to_owned() });
        }
        let id = self.next_id;
        self.next_id = self.next_id + 1;
        self.pending.insert(id, w);
        Ok(id)
    }

    /// Deliver an inbound reply: take out the waiter registered under the
    /// reply's identifier.  An unmatched identifier is delivered to nobody
    /// and changes nothing.
    pub fn on_response(&mut self, id: u64) -> (r: Option<W>)
        requires
            old(self).wf(),
        ensures
            final(self).wf(),
            old(self).pending_map().dom().contains(id) ==> (r == Some(old(self).pending_map()[id])
                && final(self).pending_map() == old(self).pending_map().remove(id)),
            !old(self).pending_map().dom().contains(id) ==> (r is None
                && final(self).pending_map() == old(self).pending_map()),
            final(self).spec_is_open() == old(self).spec_is_open(),
            final(self).spec_next_id() == old(self).spec_next_id(),
    {
        self.pending.remove(id)
    }

    /// Close the transport: mark it closed and hand back every pending
    /// waiter so each resolves with a connection-closed failure rather than
    /// hang.  Closing an already-closed transport is a no-op that returns
    /// no waiters.
    pub fn close(&mut self) -> (r: Vec<(u64, W)>)
        requires
            old(self).wf(),
        ensures
            final(self).wf(),
            !final(self).spec_is_open(),
            final(self).pending_map() == Map::<u64, W>::empty(),
            no_dup(r@),
            entries_map(r@) == old(self).pending_map(),
            final(self).spec_next_id() == old(self).spec_next_id(),
            !old(self).spec_is_open() ==> r@.len() == 0 && *final(self) == *old(self),
    {
        if !self.open {
            let r = Vec::new();
            proof {
                assert(entries_map(r@) =~= Map::<u64, W>::empty());
            }
            return r;
        }
        self.open = false;
        self.pending.drain()
    }
}

/// Prepare a request on the transport: fail fast where the socket is
/// closed — never touching the state — and otherwise register the waiter
/// under a fresh identifier and build the envelope to write, carrying that
/// identifier.
pub fn prepare_request<W>(
    t: &mut TransportState<W>,
    w: W,
    method: &str,
    params: Option<String>,
) -> (r: Result<(u64, String), OgmiosError>)
    requires
        old(t).wf(),
        old(t).spec_next_id() < u64::MAX,
    ensures
        final(t).wf(),
        !old(t).spec_is_open() ==> (r matches Err(e) && e is SocketNotOpen
            && *final(t) == *old(t)),
        old(t).spec_is_open() ==> (r matches Ok((id, payload))
            && id == old(t).spec_next_id()
            && !old(t).pending_map().dom().contains(id)
            && final(t).pending_map() == old(t).pending_map().insert(id, w)
            && final(t).spec_next_id() == old(t).spec_next_id() + 1
            && final(t).spec_is_open()
            && payload@ == crate::jsonrpc::request_enc(method@, match params {
                Option::Some(p) => Some(p@),
                Option::None => None,
            }, Some(id))),
{
    match t.register(w) {
        Result::Ok(id) => {
            let req = crate::jsonrpc::JsonRpcRequest::with_id(method, params, id);
            let payload = crate::jsonrpc::encode_request(&req);
            Ok((id, payload))
        }
        Result::Err(e) => Err(e),
    }
}

/// Prepare a notification on the transport: fail fast where the socket is
/// closed, and otherwise build the envelope to write, carrying no identifier
/// and registering no waiter.
pub fn prepare_notify<W>(t: &TransportState<W>, method: &str, params: Option<String>) -> (r:
    Result<String, OgmiosError>)
    ensures
        !t.spec_is_open() ==> (r matches Err(e) && e is SocketNotOpen),
        t.spec_is_open() ==> (r matches Ok(payload)
            && payload@ == crate::jsonrpc::request_enc(method@, match params {
                Option::Some(p) => Some(p@),
                Option::None => None,
            }, None)),
{
    match ensure_socket_is_open(t) {
        Result::Ok(_) => {
            let req = crate::jsonrpc::JsonRpcRequest::new(method, params);
            Ok(crate::jsonrpc::encode_request(&req))
        }
        Result::Err(e) => Err(e),
    }
}

/// Reject use of a closed transport, as the request path does before
/// sending anything.
pub fn ensure_socket_is_open<W>(t: &TransportState<W>) -> (r: Result<(), OgmiosError>)
    ensures
        t.spec_is_open() ==> r is Ok,
        !t.spec_is_open() ==> (r matches Err(e) && e matches OgmiosError::SocketNotOpen { state }
            && state@ == "closed"@),
{
    if t.is_open() {
        Ok(())
    } else {
        Err(OgmiosError::SocketNotOpen { state: "closed".to_owned() })
    }
}

} // verus!
