use vstd::prelude::*;

use crate::block_list::blocks;
use crate::pending::{
    expired, insert_result, live, sweep_result, take_result, InsertOutcome, PendingEntry,
    PendingTable,
};
use crate::question::{be16, decode_outcome, question_name, read_be16, DNSQueryQuestion, DecodeError};
use crate::service::{sinkhole_bytes, QueryService, Ready, Response};
use vstd::slice::slice_to_vec;

verus! {

/// Largest datagram a client may send.
pub const MAX_DATAGRAM_LEN: usize = 4096;

/// In-flight datagram tasks allowed per worker, unless configured otherwise.
pub const DEFAULT_MAX_IN_FLIGHT: usize = 1024;

/// Why a datagram gets no further.
#[derive(Clone, Copy, Debug, PartialEq, Eq, Structural)]
pub enum DropReason {
    /// The datagram is not a query that can be read.
    Malformed(DecodeError),
    /// Another forwarded query with the same ID is still waiting.
    PendingCollision,
    /// Too many forwarded queries are waiting.
    PendingFull,
    /// The worker already runs as many datagram tasks as it may.
    Saturated,
    /// A reply came from somewhere other than the upstream resolver.
    NotFromUpstream,
    /// No waiting query has the reply's ID, or it waited too long.
    Unmatched,
}

/// What to do with a client datagram.
pub enum ClientAction<A> {
    /// Send `bytes` to the client `to`.
    Reply { bytes: Vec<u8>, to: A },
    /// Send `bytes`, the client's own datagram, to the upstream resolver.
    Forward { bytes: Vec<u8> },
    /// Send nothing.
    Drop(DropReason),
}

/// What to do with a datagram from the upstream side.
pub enum UpstreamAction<A> {
    /// Send `bytes`, the upstream datagram as it came, to the client `to`.
    Relay { bytes: Vec<u8>, to: A },
    /// Send nothing.
    Drop(DropReason),
}

/// The transaction ID of a message.
pub open spec fn txid(b: Seq<u8>) -> u16 {
    be16(b, 0)
}

/// Whether a query message asks for a name that `names` blocks.
pub open spec fn query_blocked(names: Set<Seq<u8>>, b: Seq<u8>) -> bool {
    blocks(names, question_name(b)->Ok_0.0)
}

/// Decides what becomes of a client datagram `bytes` from `client` at time `now`:
/// a malformed one is dropped; a blocked name is answered at once; any other query is
/// recorded in `table` and forwarded unchanged, unless the table refuses it.
#[verifier::rlimit(40)]
pub fn handle_query<A, H>(
    service: &QueryService<Ready, H>,
    table: &mut PendingTable<A>,
    bytes: &[u8],
    client: A,
    now: u64,
) -> (r: ClientAction<A>)
    requires
        service.wf(),
        old(table).wf(),
    ensures
        final(table).wf(),
        final(table).spec_capacity() == old(table).spec_capacity(),
        final(table).spec_ttl() == old(table).spec_ttl(),
        decode_outcome(bytes@) matches Err(e) ==> r == ClientAction::<A>::Drop(
            DropReason::Malformed(e),
        ) && final(table)@ == old(table)@,
        decode_outcome(bytes@) is Ok && query_blocked(service.names(), bytes@) ==> {
            &&& final(table)@ == old(table)@
            &&& r matches ClientAction::Reply { bytes: reply, to } && to == client && exists|
                q: DNSQueryQuestion,
            |
                q.decodes_from(bytes@) && reply@ == sinkhole_bytes(
                    q,
                    service.spec_r_code(),
                    service.spec_ttl(),
                )
        },
        decode_outcome(bytes@) is Ok && !query_blocked(service.names(), bytes@) ==> {
            let (outcome, m) = insert_result(
                old(table)@,
                old(table).spec_capacity(),
                old(table).spec_ttl(),
                txid(bytes@),
                PendingEntry { addr: client, inserted_at: now },
                now,
            );
            &&& final(table)@ == m
            &&& outcome == InsertOutcome::Inserted ==> (r matches ClientAction::Forward {
                bytes: fwd,
            } && fwd@ == bytes@)
            &&& outcome == InsertOutcome::Collision ==> r == ClientAction::<A>::Drop(
                DropReason::PendingCollision,
            )
            &&& outcome == InsertOutcome::Full ==> r == ClientAction::<A>::Drop(
                DropReason::PendingFull,
            )
        },
{
    match service.process_bytes(bytes) {
        Err(e) => ClientAction::Drop(DropReason::Malformed(e)),
        Ok(Response::Hit(reply)) => ClientAction::Reply { bytes: reply, to: client },
        Ok(Response::Miss(id)) => match table.insert(id, client, now) {
            InsertOutcome::Inserted => ClientAction::Forward { bytes: slice_to_vec(bytes) },
            InsertOutcome::Collision => ClientAction::Drop(DropReason::PendingCollision),
            InsertOutcome::Full => ClientAction::Drop(DropReason::PendingFull),
        },
    }
}

/// Decides what becomes of a datagram `bytes` that came to the upstream socket at
/// `now`: one from the upstream resolver whose ID a live entry holds goes, unchanged,
/// to that entry's client, and the entry is removed.
pub fn handle_upstream_reply<A>(
    table: &mut PendingTable<A>,
    bytes: &[u8],
    from_upstream: bool,
    now: u64,
) -> (r: UpstreamAction<A>)
    requires
        old(table).wf(),
    ensures
        final(table).wf(),
        final(table).spec_capacity() == old(table).spec_capacity(),
        final(table).spec_ttl() == old(table).spec_ttl(),
        !from_upstream ==> r == UpstreamAction::<A>::Drop(DropReason::NotFromUpstream)
            && final(table)@ == old(table)@,
        from_upstream && bytes@.len() < 2 ==> r == UpstreamAction::<A>::Drop(
            DropReason::Malformed(DecodeError::TooShort),
        ) && final(table)@ == old(table)@,
        from_upstream && bytes@.len() >= 2 ==> {
            let (found, m) = take_result(old(table)@, old(table).spec_ttl(), txid(bytes@), now);
            &&& final(table)@ == m
            &&& found matches Some(c) ==> (r matches UpstreamAction::Relay { bytes: out, to } && to
                == c && out@ == bytes@)
            &&& found is None ==> r == UpstreamAction::<A>::Drop(DropReason::Unmatched)
        },
{
    if !from_upstream {
        return UpstreamAction::Drop(DropReason::NotFromUpstream);
    }
    if bytes.len() < 2 {
        return UpstreamAction::Drop(DropReason::Malformed(DecodeError::TooShort));
    }
    let id = read_be16(bytes, 0);
    match table.take(id, now) {
        Some(client) => UpstreamAction::Relay { bytes: slice_to_vec(bytes), to: client },
        None => UpstreamAction::Drop(DropReason::Unmatched),
    }
}

/// Counts the datagram tasks that a worker runs, up to a fixed capacity.
pub struct InFlight {
    count: usize,
    capacity: usize,
}

impl InFlight {
    pub closed spec fn spec_count(&self) -> usize {
        self.count
    }

    pub closed spec fn spec_capacity(&self) -> usize {
        self.capacity
    }

    /// The count never exceeds the capacity.
    pub open spec fn wf(&self) -> bool {
        self.spec_count() <= self.spec_capacity()
    }

    /// No task running, room for `capacity`.
    pub fn new(capacity: usize) -> (r: Self)
        ensures
            r.wf(),
            r.spec_count() == 0,
            r.spec_capacity() == capacity,
    {
        InFlight { count: 0, capacity }
    }

    pub fn count(&self) -> (r: usize)
        ensures
            r == self.spec_count(),
    {
        self.count
    }

    /// Takes a place for a new task; refused, with nothing queued, when all are taken.
    pub fn try_acquire(&mut self) -> (r: bool)
        requires
            old(self).wf(),
        ensures
            final(self).wf(),
            final(self).spec_capacity() == old(self).spec_capacity(),
            r == (old(self).spec_count() < old(self).spec_capacity()),
            r ==> final(self).spec_count() == old(self).spec_count() + 1,
            !r ==> final(self).spec_count() == old(self).spec_count(),
    {
        if self.count < self.capacity {
            self.count = self.count + 1;
            true
        } else {
            false
        }
    }

    /// Gives back the place of a finished task.
    pub fn release(&mut self)
        requires
            old(self).wf(),
        ensures
            final(self).wf(),
            final(self).spec_capacity() == old(self).spec_capacity(),
            final(self).spec_count() == if old(self).spec_count() > 0 {
                old(self).spec_count() - 1
            } else {
                0
            },
    {
        if self.count > 0 {
            self.count = self.count - 1;
        }
    }
}

/// A query forwarded at `t` and an upstream reply with its ID at `t2`, within the
/// entry's lifetime and with nothing else done to that ID between, sends the reply to
/// the query's client and frees the ID.
pub proof fn lemma_forward_then_relay<A>(
    m: Map<u16, PendingEntry<A>>,
    capacity: usize,
    ttl: u64,
    id: u16,
    client: A,
    t: u64,
    t2: u64,
)
    requires
        insert_result(m, capacity, ttl, id, PendingEntry { addr: client, inserted_at: t }, t).0
            == InsertOutcome::Inserted,
        t <= t2,
        t2 - t < ttl,
    ensures
        ({
            let m1 = insert_result(
                m,
                capacity,
                ttl,
                id,
                PendingEntry { addr: client, inserted_at: t },
                t,
            ).1;
            take_result(m1, ttl, id, t2) == (Some(client), m1.remove(id))
        }),
{
}

/// Sweeping never removes an entry that is live.
pub proof fn lemma_sweep_keeps_live<A>(m: Map<u16, PendingEntry<A>>, ttl: u64, id: u16, now: u64)
    requires
        live(m, id, now, ttl),
    ensures
        sweep_result(m, ttl, now).contains_key(id),
        sweep_result(m, ttl, now)[id] == m[id],
{
    assert(m.dom().filter(|k: u16| !expired(m[k], now, ttl)).contains(id));
}

/// A reply to an ID whose entry expired is dropped, and the entry is gone after it.
pub proof fn lemma_expired_reply_dropped<A>(
    m: Map<u16, PendingEntry<A>>,
    ttl: u64,
    id: u16,
    now: u64,
)
    requires
        m.contains_key(id) ==> expired(m[id], now, ttl),
    ensures
        take_result(m, ttl, id, now) == (None::<A>, m.remove(id)),
{
}

} // verus!
