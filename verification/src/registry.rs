//! The registry of live connections.
//!
//! The acceptor inserts a connection's identity when it hands the
//! connection to a worker; the worker removes it, matching by identity,
//! when it terminates. The surrounding process guards the registry with
//! one mutual-exclusion lock and holds the lock only across a single
//! method call, never across I/O. Connections are named by an opaque
//! 64-bit identity the process derives from the transport endpoint (the
//! peer); identities of simultaneously live connections are distinct.

use vstd::prelude::*;

verus! {

/// The shared collection of identities of currently served connections.
pub struct Registry {
    entries: Vec<u64>,
}

impl View for Registry {
    type V = Seq<u64>;

    closed spec fn view(&self) -> Seq<u64> {
        self.entries@
    }
}

impl Registry {
    /// An empty registry: no worker has started.
    pub fn new() -> (r: Registry)
        ensures
            r@ == Seq::<u64>::empty(),
    {
        let r = Registry { entries: Vec::new() };
        proof {
            assert(r@ =~= Seq::<u64>::empty());
        }
        r
    }

    /// Record a newly accepted connection.
    pub fn insert(&mut self, id: u64)
        ensures
            final(self)@ == old(self)@.push(id),
    {
        self.entries.push(id);
    }

    /// Remove every entry matching the terminating connection's identity.
    pub fn remove(&mut self, id: u64)
        ensures
            final(self)@ == old(self)@.filter(|e: u64| e != id),
    {
        let mut kept: Vec<u64> = Vec::new();
        let mut i: usize = 0;
        proof {
            reveal(Seq::filter);
            assert(old(self)@.subrange(0, 0).filter(|e: u64| e != id) =~= Seq::<u64>::empty());
        }
        while i < self.entries.len()
            invariant
                i <= self.entries@.len(),
                self.entries@ == old(self)@,
                kept@ == old(self)@.subrange(0, i as int).filter(|e: u64| e != id),
            decreases self.entries@.len() - i,
        {
            let e = self.entries[i];
            proof {
                reveal(Seq::filter);
                let pre = old(self)@.subrange(0, i as int);
                let cur = old(self)@.subrange(0, i as int + 1);
                assert(cur.drop_last() =~= pre);
                assert(cur.last() == e);
            }
            if e != id {
                kept.push(e);
            }
            i = i + 1;
        }
        proof {
            assert(old(self)@.subrange(0, old(self)@.len() as int) =~= old(self)@);
        }
        self.entries = kept;
    }

    /// The count of registered entries.
    pub fn len(&self) -> (n: usize)
        ensures
            n == self@.len(),
    {
        self.entries.len()
    }

    /// Whether a connection of this identity is registered.
    pub fn contains(&self, id: u64) -> (b: bool)
        ensures
            b == self@.contains(id),
    {
        let mut i: usize = 0;
        while i < self.entries.len()
            invariant
                i <= self.entries@.len(),
                forall|j: int| 0 <= j < i ==> self.entries@[j] != id,
            decreases self.entries@.len() - i,
        {
            if self.entries[i] == id {
                return true;
            }
            i = i + 1;
        }
        false
    }

    /// A copy of the registered identities, in insertion order.
    pub fn snapshot(&self) -> (r: Vec<u64>)
        ensures
            r@ == self@,
    {
        vstd::slice::slice_to_vec(self.entries.as_slice())
    }
}

/// One lifecycle event the registry observes.
pub ghost enum ConnEvent {
    /// The acceptor registered connection `id` and started its worker.
    Started { id: u64 },
    /// The worker of connection `id` terminated and deregistered it.
    Finished { id: u64 },
}

/// The registry contents after a run of events, by the semantics of
/// `Registry::insert` and `Registry::remove`.
pub open spec fn registry_after(es: Seq<ConnEvent>) -> Seq<u64>
    decreases es.len(),
{
    if es.len() == 0 {
        Seq::empty()
    } else {
        let prev = registry_after(es.drop_last());
        match es.last() {
            ConnEvent::Started { id } => prev.push(id),
            ConnEvent::Finished { id } => prev.filter(|e: u64| e != id),
        }
    }
}

/// The set of connections whose workers have started and not finished.
pub open spec fn live_after(es: Seq<ConnEvent>) -> Set<u64>
    decreases es.len(),
{
    if es.len() == 0 {
        Set::empty()
    } else {
        match es.last() {
            ConnEvent::Started { id } => live_after(es.drop_last()).insert(id),
            ConnEvent::Finished { id } => live_after(es.drop_last()).remove(id),
        }
    }
}

/// A history the service can produce: a worker starts only under an
/// identity that is not currently live, and only the worker of a live
/// connection finishes (each worker starts once and finishes once).
pub open spec fn wf_history(es: Seq<ConnEvent>) -> bool {
    forall|i: int|
        0 <= i < es.len() ==> match #[trigger] es[i] {
            ConnEvent::Started { id } => !live_after(es.subrange(0, i)).contains(id),
            ConnEvent::Finished { id } => live_after(es.subrange(0, i)).contains(id),
        }
}

/// Filtering keeps a sequence free of duplicates and restricts the set of
/// its elements to those the predicate admits.
proof fn lemma_filter_exact(s: Seq<u64>, pred: spec_fn(u64) -> bool)
    requires
        s.no_duplicates(),
    ensures
        s.filter(pred).no_duplicates(),
        forall|x: u64| #[trigger]
            s.filter(pred).contains(x) <==> s.contains(x) && pred(x),
    decreases s.len(),
{
    broadcast use vstd::seq_lib::group_seq_properties;

    reveal(Seq::filter);
    if s.len() > 0 {
        let pre = s.drop_last();
        let last = s.last();
        lemma_filter_exact(pre, pred);
        assert(pre.push(last) =~= s);
        assert(!pre.contains(last));
        if pred(last) {
            assert(!pre.filter(pred).contains(last));
            assert(s.filter(pred) == pre.filter(pred).push(last));
        }
    }
}

/// The registry is exact: after any history the service can produce, its
/// entries are free of duplicates and are precisely the identities of the
/// connections whose workers have started and not yet terminated. Opening
/// `n` connections and closing `m` of them leaves `n - m` entries.
pub proof fn lemma_registry_exact(es: Seq<ConnEvent>)
    requires
        wf_history(es),
    ensures
        registry_after(es).no_duplicates(),
        registry_after(es).to_set() == live_after(es),
    decreases es.len(),
{
    if es.len() > 0 {
        let pre = es.drop_last();
        assert(wf_history(pre)) by {
            assert(forall|i: int| 0 <= i < pre.len() ==> #[trigger] pre[i] == es[i]);
            assert(forall|i: int|
                0 <= i < pre.len() ==> #[trigger] pre.subrange(0, i) =~= es.subrange(0, i));
        }
        lemma_registry_exact(pre);
        let reg = registry_after(pre);
        let live = live_after(pre);
        assert(es.subrange(0, es.len() - 1) =~= pre);
        match es.last() {
            ConnEvent::Started { id } => {
                broadcast use vstd::seq_lib::group_seq_properties;

                assert(!live.contains(id));
                assert(!reg.contains(id));
                assert(reg.push(id).no_duplicates());
                assert(reg.push(id).to_set() =~= live.insert(id));
            },
            ConnEvent::Finished { id } => {
                lemma_filter_exact(reg, |e: u64| e != id);
                assert(reg.filter(|e: u64| e != id).to_set() =~= live.remove(id));
            },
        }
    } else {
        assert(registry_after(es).to_set() =~= Set::<u64>::empty());
    }
}

} // verus!
