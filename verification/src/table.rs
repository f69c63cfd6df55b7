//! Connection table: identity model and demultiplexing.
//!
//! Every connection is named by its 4-tuple. The table owns one TCB per
//! identity, keys stay unique, and an inbound segment is routed to the
//! TCB of its identity, or through the passive open when there is none.

use vstd::prelude::*;
use crate::segment::{IpView, TcpView, MAX_DATAGRAM_SIZE};
use crate::tcb::{
    accept_reply, accept_result, on_packet_reply, on_packet_result, reply_view, PacketOutcome, TCB,
};

verus! {

/// Immutable 4-tuple naming a connection. Any difference in any field —
/// even the remote port alone — names a distinct connection.
#[derive(Clone, Copy, PartialEq, Eq, Structural, Debug)]
pub struct ConnectionId {
    pub local_addr: u32,
    pub local_port: u16,
    pub remote_addr: u32,
    pub remote_port: u16,
}

/// The identity under which an inbound datagram routes: the datagram's
/// source is the connection's remote endpoint.
pub open spec fn connection_id_of(ip_hdr: IpView, tcp_hdr: TcpView) -> ConnectionId {
    ConnectionId {
        local_addr: ip_hdr.dst,
        local_port: tcp_hdr.dst_port,
        remote_addr: ip_hdr.src,
        remote_port: tcp_hdr.src_port,
    }
}

/// One table entry: an identity and the TCB it owns.
pub struct ConnectionEntry {
    pub id: ConnectionId,
    pub tcb: TCB,
}

/// Mapping from connection identity to TCB; keys unique, insertion order
/// irrelevant.
pub struct ConnectionTable {
    pub entries: Vec<ConnectionEntry>,
}

/// What `on_packet` dispatching reports for one routed segment.
#[derive(Clone, Copy, PartialEq, Eq, Structural, Debug)]
pub enum ProcessOutcome {
    /// No entry matched and the segment carried SYN: a connection was
    /// created by passive open and a SYN+ACK emitted.
    Accepted,
    /// No entry matched and the segment carried no SYN: dropped silently.
    Ignored,
    /// An entry matched and its TCB handled the segment.
    Existing(PacketOutcome),
}

impl ConnectionTable {
    /// Some entry carries `id`.
    pub open spec fn contains_id(self, id: ConnectionId) -> bool {
        exists|i: int| 0 <= i < self.entries@.len() && self.entries@[i].id == id
    }

    /// The index of the entry carrying `id` (unique when the table is
    /// well-formed).
    pub open spec fn index_of(self, id: ConnectionId) -> int {
        choose|i: int| 0 <= i < self.entries@.len() && self.entries@[i].id == id
    }

    /// The TCB owned by the entry carrying `id`.
    pub open spec fn tcb_for(self, id: ConnectionId) -> TCB {
        self.entries@[self.index_of(id)].tcb
    }

    /// No two entries carry the same identity.
    pub open spec fn ids_unique(self) -> bool {
        forall|i: int, j: int|
            0 <= i < j < self.entries@.len() ==> self.entries@[i].id != self.entries@[j].id
    }

    /// Well-formedness: unique keys, every TCB well-formed.
    pub open spec fn wf(self) -> bool {
        &&& self.ids_unique()
        &&& forall|i: int| 0 <= i < self.entries@.len() ==> (#[trigger] self.entries@[i]).tcb.wf()
    }

    /// An empty table.
    pub fn new() -> (t: ConnectionTable)
        ensures
            t.wf(),
            t.entries@.len() == 0,
            forall|q: ConnectionId| !t.contains_id(q),
    {
        ConnectionTable { entries: Vec::new() }
    }

    /// Number of live connections.
    pub fn len(&self) -> (n: usize)
        ensures
            n == self.entries@.len(),
    {
        self.entries.len()
    }

    /// The index of the entry carrying `id`, if any.
    fn find(&self, id: ConnectionId) -> (r: Option<usize>)
        ensures
            match r {
                Some(i) => i < self.entries@.len() && self.entries@[i as int].id == id,
                None => !self.contains_id(id),
            },
    {
        let mut i: usize = 0;
        while i < self.entries.len()
            invariant
                i <= self.entries@.len(),
                forall|j: int| 0 <= j < i ==> self.entries@[j].id != id,
            decreases self.entries@.len() - i,
        {
            if self.entries[i].id == id {
                return Some(i);
            }
            i = i + 1;
        }
        None
    }

    /// Whether the table holds a connection under `id`.
    pub fn contains(&self, id: ConnectionId) -> (r: bool)
        requires
            self.wf(),
        ensures
            r == self.contains_id(id),
    {
        match self.find(id) {
            Some(i) => {
                proof {
                    lemma_entry_at(*self, id, i as int);
                }
                true
            },
            None => false,
        }
    }

    /// A copy of the TCB held under `id`, if any.
    pub fn get(&self, id: ConnectionId) -> (r: Option<TCB>)
        requires
            self.wf(),
        ensures
            r is Some <==> self.contains_id(id),
            r is Some ==> r.unwrap() == self.tcb_for(id),
    {
        match self.find(id) {
            Some(i) => {
                proof {
                    lemma_entry_at(*self, id, i as int);
                }
                Some(self.entries[i].tcb)
            },
            None => None,
        }
    }

    /// Add a connection under a fresh identity.
    pub fn insert(&mut self, id: ConnectionId, tcb: TCB)
        requires
            old(self).wf(),
            !old(self).contains_id(id),
            tcb.wf(),
        ensures
            final(self).wf(),
            table_extended(*old(self), *final(self), id, tcb),
    {
        self.entries.push(ConnectionEntry { id, tcb });
        proof {
            lemma_push_extends(*old(self), *self, id, tcb);
        }
    }

    /// Remove the connection under `id`, handing its TCB back. Entries are
    /// never removed in the handshake scope; this is the forward-compatible
    /// teardown hook.
    pub fn remove_conn(&mut self, id: ConnectionId) -> (r: Option<TCB>)
        requires
            old(self).wf(),
        ensures
            final(self).wf(),
            r is Some <==> old(self).contains_id(id),
            r is Some ==> r.unwrap() == old(self).tcb_for(id),
            !final(self).contains_id(id),
            forall|q: ConnectionId|
                q != id ==> final(self).contains_id(q) == old(self).contains_id(q),
            forall|q: ConnectionId|
                q != id && old(self).contains_id(q) ==> final(self).tcb_for(q) == old(self).tcb_for(
                    q,
                ),
    {
        match self.find(id) {
            Some(i) => {
                proof {
                    lemma_entry_at(*old(self), id, i as int);
                }
                let entry = self.entries.remove(i);
                proof {
                    lemma_remove_shrinks(*old(self), *self, id, i as int);
                }
                Some(entry.tcb)
            },
            None => None,
        }
    }

    /// Route one parsed inbound segment: to the TCB of its identity when
    /// one exists, through the passive open when none does.
    pub fn process(&mut self, ip_hdr: &IpView, tcp_hdr: &TcpView, payload: &[u8]) -> (r: (
        ProcessOutcome,
        Option<Vec<u8>>,
    ))
        requires
            old(self).wf(),
            payload@.len() <= MAX_DATAGRAM_SIZE,
        ensures
            final(self).wf(),
            process_post(
                *old(self),
                *final(self),
                *ip_hdr,
                *tcp_hdr,
                payload@.len(),
                r.0,
                reply_view(r.1),
            ),
    {
        let id = ConnectionId {
            local_addr: ip_hdr.dst,
            local_port: tcp_hdr.dst_port,
            remote_addr: ip_hdr.src,
            remote_port: tcp_hdr.src_port,
        };
        match self.find(id) {
            Some(i) => {
                proof {
                    lemma_entry_at(*old(self), id, i as int);
                }
                let mut entry = self.entries.remove(i);
                let (outcome, reply) = entry.tcb.on_packet(tcp_hdr, payload);
                let ghost updated = entry;
                self.entries.insert(i, entry);
                proof {
                    assert(self.entries@ =~= old(self).entries@.update(i as int, updated));
                    lemma_update_replaces(*old(self), *self, id, i as int, updated);
                }
                (ProcessOutcome::Existing(outcome), reply)
            },
            None => {
                match TCB::accept(ip_hdr, tcp_hdr, payload) {
                    Some((tcb, dgram)) => {
                        self.insert(id, tcb);
                        (ProcessOutcome::Accepted, Some(dgram))
                    },
                    None => (ProcessOutcome::Ignored, None),
                }
            },
        }
    }
}

/// `post` is `pre` with one more connection: `tcb` reachable under `id`,
/// every other identity exactly as it was.
pub open spec fn table_extended(
    pre: ConnectionTable,
    post: ConnectionTable,
    id: ConnectionId,
    tcb: TCB,
) -> bool {
    &&& post.contains_id(id)
    &&& post.tcb_for(id) == tcb
    &&& post.entries@.len() == pre.entries@.len() + 1
    &&& forall|q: ConnectionId| q != id ==> post.contains_id(q) == pre.contains_id(q)
    &&& forall|q: ConnectionId|
        q != id && pre.contains_id(q) ==> post.tcb_for(q) == pre.tcb_for(q)
}

/// `post` is `pre` with the connection under `id` replaced by `tcb`,
/// every other identity exactly as it was.
pub open spec fn table_updated(
    pre: ConnectionTable,
    post: ConnectionTable,
    id: ConnectionId,
    tcb: TCB,
) -> bool {
    &&& post.contains_id(id)
    &&& post.tcb_for(id) == tcb
    &&& post.entries@.len() == pre.entries@.len()
    &&& forall|q: ConnectionId| post.contains_id(q) == pre.contains_id(q)
    &&& forall|q: ConnectionId|
        q != id && pre.contains_id(q) ==> post.tcb_for(q) == pre.tcb_for(q)
}

/// What `process` does for one parsed segment, from the perspective of
/// the table: dispatch to the existing TCB, passive open on a fresh SYN,
/// or a silent drop — and nothing else changes.
pub open spec fn process_post(
    pre: ConnectionTable,
    post: ConnectionTable,
    ip_hdr: IpView,
    tcp_hdr: TcpView,
    plen: nat,
    outcome: ProcessOutcome,
    reply: Option<Seq<u8>>,
) -> bool {
    let id = connection_id_of(ip_hdr, tcp_hdr);
    if pre.contains_id(id) {
        &&& outcome == ProcessOutcome::Existing(
            on_packet_result(pre.tcb_for(id), tcp_hdr, plen).1,
        )
        &&& table_updated(pre, post, id, on_packet_result(pre.tcb_for(id), tcp_hdr, plen).0)
        &&& reply == on_packet_reply(pre.tcb_for(id), tcp_hdr, plen)
    } else if tcp_hdr.syn {
        &&& outcome == ProcessOutcome::Accepted
        &&& table_extended(pre, post, id, accept_result(ip_hdr, tcp_hdr))
        &&& reply == Some(accept_reply(ip_hdr, tcp_hdr))
    } else {
        &&& outcome == ProcessOutcome::Ignored
        &&& post == pre
        &&& reply is None
    }
}

/// In a table with unique keys, an entry that carries `id` is the one and
/// only entry `index_of` names.
proof fn lemma_entry_at(t: ConnectionTable, id: ConnectionId, i: int)
    requires
        t.ids_unique(),
        0 <= i < t.entries@.len(),
        t.entries@[i].id == id,
    ensures
        t.contains_id(id),
        t.index_of(id) == i,
        t.tcb_for(id) == t.entries@[i].tcb,
{
    assert(t.contains_id(id));
    let j = t.index_of(id);
    assert(0 <= j < t.entries@.len() && t.entries@[j].id == id);
    if i != j {
        if i < j {
            assert(t.entries@[i].id != t.entries@[j].id);
        } else {
            assert(t.entries@[j].id != t.entries@[i].id);
        }
    }
}

/// Pushing an entry with a fresh identity extends the table.
proof fn lemma_push_extends(pre: ConnectionTable, post: ConnectionTable, id: ConnectionId, tcb: TCB)
    requires
        pre.wf(),
        !pre.contains_id(id),
        tcb.wf(),
        post.entries@ == pre.entries@.push(ConnectionEntry { id, tcb }),
    ensures
        post.wf(),
        table_extended(pre, post, id, tcb),
{
    let n = pre.entries@.len() as int;
    assert forall|i: int| 0 <= i < n implies pre.entries@[i].id != id by {
        if pre.entries@[i].id == id {
            assert(pre.contains_id(id));
        }
    }
    assert(post.ids_unique());
    assert(forall|i: int| 0 <= i < post.entries@.len() ==> (#[trigger] post.entries@[i]).tcb.wf());
    lemma_entry_at(post, id, n);
    assert forall|q: ConnectionId| q != id implies post.contains_id(q) == pre.contains_id(q) by {
        if pre.contains_id(q) {
            let i = pre.index_of(q);
            assert(post.entries@[i].id == q);
        }
        if post.contains_id(q) {
            let i = post.index_of(q);
            assert(0 <= i < post.entries@.len() && post.entries@[i].id == q);
            assert(i < n);
            assert(pre.contains_id(q));
        }
    }
    assert forall|q: ConnectionId| q != id && pre.contains_id(q) implies post.tcb_for(q)
        == pre.tcb_for(q) by {
        let i = pre.index_of(q);
        assert(0 <= i < n && pre.entries@[i].id == q);
        lemma_entry_at(pre, q, i);
        lemma_entry_at(post, q, i);
    }
}

/// Replacing the entry at `id`'s index by one carrying the same identity
/// updates the table at `id` and nowhere else.
proof fn lemma_update_replaces(
    pre: ConnectionTable,
    post: ConnectionTable,
    id: ConnectionId,
    i: int,
    entry: ConnectionEntry,
)
    requires
        pre.wf(),
        0 <= i < pre.entries@.len(),
        pre.entries@[i].id == id,
        entry.id == id,
        entry.tcb.wf(),
        post.entries@ == pre.entries@.update(i, entry),
    ensures
        post.wf(),
        table_updated(pre, post, id, entry.tcb),
{
    assert(post.ids_unique());
    assert(forall|j: int| 0 <= j < post.entries@.len() ==> (#[trigger] post.entries@[j]).tcb.wf());
    lemma_entry_at(post, id, i);
    assert forall|q: ConnectionId| post.contains_id(q) == pre.contains_id(q) by {
        if pre.contains_id(q) {
            let j = pre.index_of(q);
            assert(post.entries@[j].id == q);
            assert(post.contains_id(q));
        }
        if post.contains_id(q) {
            let j = post.index_of(q);
            assert(pre.entries@[j].id == q);
            assert(pre.contains_id(q));
        }
    }
    assert forall|q: ConnectionId| q != id && pre.contains_id(q) implies post.tcb_for(q)
        == pre.tcb_for(q) by {
        let j = pre.index_of(q);
        lemma_entry_at(pre, q, j);
        assert(j != i);
        lemma_entry_at(post, q, j);
    }
}

/// Removing the entry at `id`'s index takes `id` out of the table and
/// leaves every other identity as it was.
proof fn lemma_remove_shrinks(pre: ConnectionTable, post: ConnectionTable, id: ConnectionId, i: int)
    requires
        pre.wf(),
        0 <= i < pre.entries@.len(),
        pre.entries@[i].id == id,
        post.entries@ == pre.entries@.remove(i),
    ensures
        post.wf(),
        !post.contains_id(id),
        forall|q: ConnectionId| q != id ==> post.contains_id(q) == pre.contains_id(q),
        forall|q: ConnectionId|
            q != id && pre.contains_id(q) ==> post.tcb_for(q) == pre.tcb_for(q),
{
    let n = pre.entries@.len() as int;
    assert forall|j: int, k: int|
        0 <= j < k < post.entries@.len() implies post.entries@[j].id != post.entries@[k].id by {
        let j0 = if j < i { j } else { j + 1 };
        let k0 = if k < i { k } else { k + 1 };
        assert(post.entries@[j] == pre.entries@[j0]);
        assert(post.entries@[k] == pre.entries@[k0]);
    }
    assert forall|j: int| 0 <= j < post.entries@.len() implies (#[trigger] post.entries@[j]).tcb.wf() by {
        let j0 = if j < i { j } else { j + 1 };
        assert(post.entries@[j] == pre.entries@[j0]);
    }
    if post.contains_id(id) {
        let j = post.index_of(id);
        let j0 = if j < i { j } else { j + 1 };
        assert(post.entries@[j] == pre.entries@[j0]);
        lemma_entry_at(pre, id, j0);
    }
    assert forall|q: ConnectionId| q != id implies post.contains_id(q) == pre.contains_id(q) by {
        if pre.contains_id(q) {
            let j = pre.index_of(q);
            assert(0 <= j < n && pre.entries@[j].id == q);
            assert(j != i);
            if j < i {
                assert(post.entries@[j] == pre.entries@[j]);
            } else {
                assert(post.entries@[j - 1] == pre.entries@[j]);
            }
        }
        if post.contains_id(q) {
            let j = post.index_of(q);
            let j0 = if j < i { j } else { j + 1 };
            assert(post.entries@[j] == pre.entries@[j0]);
            assert(pre.contains_id(q));
        }
    }
    assert forall|q: ConnectionId| q != id && pre.contains_id(q) implies post.tcb_for(q)
        == pre.tcb_for(q) by {
        let j = pre.index_of(q);
        lemma_entry_at(pre, q, j);
        assert(j != i);
        if j < i {
            assert(post.entries@[j] == pre.entries@[j]);
            lemma_entry_at(post, q, j);
        } else {
            assert(post.entries@[j - 1] == pre.entries@[j]);
            lemma_entry_at(post, q, j - 1);
        }
    }
}

/// Demultiplexing: two identities that differ in the remote port name two
/// distinct connections; inserting a TCB under each leaves both present,
/// each reachable under its own key with its own TCB.
pub proof fn lemma_demux_independent(
    t0: ConnectionTable,
    t1: ConnectionTable,
    t2: ConnectionTable,
    id1: ConnectionId,
    id2: ConnectionId,
    tcb1: TCB,
    tcb2: TCB,
)
    requires
        id1.remote_port != id2.remote_port,
        !t0.contains_id(id1),
        !t0.contains_id(id2),
        table_extended(t0, t1, id1, tcb1),
        table_extended(t1, t2, id2, tcb2),
    ensures
        id1 != id2,
        t2.contains_id(id1),
        t2.contains_id(id2),
        t2.tcb_for(id1) == tcb1,
        t2.tcb_for(id2) == tcb2,
        t2.entries@.len() == t0.entries@.len() + 2,
{
}

} // verus!
