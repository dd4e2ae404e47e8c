use std::collections::HashMap;
use vstd::prelude::*;

verus! {

broadcast use vstd::std_specs::hash::group_hash_axioms;

/// Time, in milliseconds, after which a pending entry no longer counts.
pub const DEFAULT_PENDING_TTL_MS: u64 = 5000;

/// Most entries that the table holds at once, unless configured otherwise.
pub const DEFAULT_PENDING_CAPACITY: usize = 8192;

/// The client that sent a forwarded query, and when it was forwarded.
pub struct PendingEntry<A> {
    pub addr: A,
    pub inserted_at: u64,
}

/// What became of an insertion.
#[derive(Clone, Copy, Debug, PartialEq, Eq, Structural)]
pub enum InsertOutcome {
    Inserted,
    /// An entry that has not expired already holds the ID.
    Collision,
    /// The table is at its capacity.
    Full,
}

/// Whether `e` has outlived `ttl` at time `now`.
pub open spec fn expired<A>(e: PendingEntry<A>, now: u64, ttl: u64) -> bool {
    now >= e.inserted_at && now - e.inserted_at >= ttl
}

/// Whether `m` holds an entry for `id` that has not expired at `now`.
pub open spec fn live<A>(m: Map<u16, PendingEntry<A>>, id: u16, now: u64, ttl: u64) -> bool {
    m.contains_key(id) && !expired(m[id], now, ttl)
}

/// The outcome of inserting `e` under `id` at `now`, and the table after it.
pub open spec fn insert_result<A>(
    m: Map<u16, PendingEntry<A>>,
    capacity: usize,
    ttl: u64,
    id: u16,
    e: PendingEntry<A>,
    now: u64,
) -> (InsertOutcome, Map<u16, PendingEntry<A>>) {
    if live(m, id, now, ttl) {
        (InsertOutcome::Collision, m)
    } else if !m.contains_key(id) && m.len() >= capacity {
        (InsertOutcome::Full, m)
    } else {
        (InsertOutcome::Inserted, m.insert(id, e))
    }
}

/// The client found by taking `id` at `now`, and the table after it. An expired entry
/// counts as absent, and is removed too.
pub open spec fn take_result<A>(m: Map<u16, PendingEntry<A>>, ttl: u64, id: u16, now: u64) -> (
    Option<A>,
    Map<u16, PendingEntry<A>>,
) {
    if live(m, id, now, ttl) {
        (Some(m[id].addr), m.remove(id))
    } else {
        (None, m.remove(id))
    }
}

/// The table without the entries expired at `now`.
pub open spec fn sweep_result<A>(m: Map<u16, PendingEntry<A>>, ttl: u64, now: u64) -> Map<
    u16,
    PendingEntry<A>,
> {
    m.restrict(m.dom().filter(|id: u16| !expired(m[id], now, ttl)))
}

/// The forwarded queries that wait for an upstream reply, keyed by transaction ID.
pub struct PendingTable<A> {
    entries: HashMap<u16, PendingEntry<A>>,
    capacity: usize,
    ttl: u64,
}

impl<A> View for PendingTable<A> {
    type V = Map<u16, PendingEntry<A>>;

    closed spec fn view(&self) -> Map<u16, PendingEntry<A>> {
        self.entries@
    }
}

impl<A> PendingTable<A> {
    pub closed spec fn spec_capacity(&self) -> usize {
        self.capacity
    }

    pub closed spec fn spec_ttl(&self) -> u64 {
        self.ttl
    }

    /// The table never holds more entries than its capacity.
    pub open spec fn wf(&self) -> bool {
        self@.len() <= self.spec_capacity() && self@.dom().finite()
    }

    /// An empty table with the given capacity and entry lifetime in milliseconds.
    pub fn new(capacity: usize, ttl: u64) -> (r: Self)
        ensures
            r.wf(),
            r@ == Map::<u16, PendingEntry<A>>::empty(),
            r.spec_capacity() == capacity,
            r.spec_ttl() == ttl,
    {
        PendingTable { entries: HashMap::new(), capacity, ttl }
    }

    /// An empty table with room for 8,192 entries that live 5 seconds.
    pub fn with_defaults() -> (r: Self)
        ensures
            r.wf(),
            r@ == Map::<u16, PendingEntry<A>>::empty(),
            r.spec_capacity() == DEFAULT_PENDING_CAPACITY,
            r.spec_ttl() == DEFAULT_PENDING_TTL_MS,
    {
        Self::new(DEFAULT_PENDING_CAPACITY, DEFAULT_PENDING_TTL_MS)
    }

    /// Number of entries, expired ones included.
    pub fn len(&self) -> (r: usize)
        requires
            self.wf(),
        ensures
            r == self@.len(),
    {
        self.entries.len()
    }

    pub fn capacity(&self) -> (r: usize)
        ensures
            r == self.spec_capacity(),
    {
        self.capacity
    }

    pub fn ttl(&self) -> (r: u64)
        ensures
            r == self.spec_ttl(),
    {
        self.ttl
    }

    /// Whether an entry for `id` is there and has not expired at `now`.
    pub fn is_live(&self, id: u16, now: u64) -> (r: bool)
        ensures
            r == live(self@, id, now, self.spec_ttl()),
    {
        match self.entries.get(&id) {
            Some(e) => !(now >= e.inserted_at && now - e.inserted_at >= self.ttl),
            None => false,
        }
    }

    /// Records that the query with ID `id` came from `addr` at `now`. Refused while an
    /// unexpired entry holds `id`, or when a new entry would exceed the capacity.
    pub fn insert(&mut self, id: u16, addr: A, now: u64) -> (r: InsertOutcome)
        requires
            old(self).wf(),
        ensures
            final(self).wf(),
            final(self).spec_capacity() == old(self).spec_capacity(),
            final(self).spec_ttl() == old(self).spec_ttl(),
            (r, final(self)@) == insert_result(
                old(self)@,
                old(self).spec_capacity(),
                old(self).spec_ttl(),
                id,
                PendingEntry { addr, inserted_at: now },
                now,
            ),
    {
        if self.is_live(id, now) {
            return InsertOutcome::Collision;
        }
        let present = self.entries.contains_key(&id);
        if !present && self.entries.len() >= self.capacity {
            return InsertOutcome::Full;
        }
        self.entries.insert(id, PendingEntry { addr, inserted_at: now });
        proof {
            if present {
                assert(self@.dom() =~= old(self)@.dom());
            } else {
                assert(self@.len() == old(self)@.len() + 1);
            }
        }
        InsertOutcome::Inserted
    }

    /// Removes the entry for `id` and hands back its client, where it has not expired
    /// at `now`.
    pub fn take(&mut self, id: u16, now: u64) -> (r: Option<A>)
        requires
            old(self).wf(),
        ensures
            final(self).wf(),
            final(self).spec_capacity() == old(self).spec_capacity(),
            final(self).spec_ttl() == old(self).spec_ttl(),
            (r, final(self)@) == take_result(old(self)@, old(self).spec_ttl(), id, now),
    {
        let was_live = self.is_live(id, now);
        let removed = self.entries.remove(&id);
        proof {
            if old(self)@.contains_key(id) {
                assert(self@.len() == old(self)@.len() - 1);
            } else {
                assert(self@ =~= old(self)@);
            }
        }
        if was_live {
            match removed {
                Some(e) => Some(e.addr),
                None => None,
            }
        } else {
            None
        }
    }

    /// Removes every entry that has expired at `now`.
    #[verifier::rlimit(40)]
    pub fn sweep(&mut self, now: u64)
        requires
            old(self).wf(),
        ensures
            final(self).wf(),
            final(self).spec_capacity() == old(self).spec_capacity(),
            final(self).spec_ttl() == old(self).spec_ttl(),
            final(self)@ == sweep_result(old(self)@, old(self).spec_ttl(), now),
    {
        let ghost m0 = self@;
        let mut id: u32 = 0;
        while id <= 0xffff
            invariant
                id <= 0x10000,
                self.wf(),
                self.capacity == old(self).capacity,
                self.ttl == old(self).ttl,
                forall|k: u16|
                    (k as u32) < id ==> (#[trigger] self@.contains_key(k) <==> m0.contains_key(k)
                        && !expired(m0[k], now, self.ttl)),
                forall|k: u16|
                    (k as u32) >= id ==> (#[trigger] self@.contains_key(k) <==> m0.contains_key(k)),
                forall|k: u16| #[trigger] self@.contains_key(k) ==> self@[k] == m0[k],
            decreases 0x10000 - id,
        {
            let k = id as u16;
            let stale = match self.entries.get(&k) {
                Some(e) => now >= e.inserted_at && now - e.inserted_at >= self.ttl,
                None => false,
            };
            if stale {
                let ghost before = self@;
                self.entries.remove(&k);
                proof {
                    assert(self@.len() == before.len() - 1);
                }
            }
            id = id + 1;
        }
        assert(self@ =~= sweep_result(m0, self.ttl, now));
    }
}

/// A live entry is never displaced: inserting under an ID that an unexpired entry holds
/// leaves the table as it was, so each ID maps to at most one client at any time.
pub proof fn lemma_live_entry_kept<A>(
    m: Map<u16, PendingEntry<A>>,
    capacity: usize,
    ttl: u64,
    id: u16,
    e: PendingEntry<A>,
    now: u64,
)
    requires
        live(m, id, now, ttl),
    ensures
        insert_result(m, capacity, ttl, id, e, now) == (InsertOutcome::Collision, m),
{
}

} // verus!
