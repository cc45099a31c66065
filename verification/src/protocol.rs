//! Id assignment and the partition of the declared events by direction and
//! channel.
//!
//! The id of an event is its position in the full list of declarations,
//! counted from 1. Ids are assigned before any filtering: the events that one
//! decode loop accepts keep their global ids, so the ids of one channel may
//! have gaps. Every backend must number this way, or modules generated for
//! the two ends of a connection disagree on the wire.

use vstd::prelude::*;
use crate::config::{Config, ConfigView, EvDecl, EvDeclView, EvSource, EvType};

verus! {

/// The id of the declaration at position `index`.
pub open spec fn event_id(index: int) -> int {
    index + 1
}

impl EvDeclView {
    /// `peer` sends this event.
    pub open spec fn outgoing(self, peer: EvSource) -> bool {
        self.from == peer
    }

    /// `peer` receives this event, on the channel `evty`.
    pub open spec fn incoming(self, peer: EvSource, evty: EvType) -> bool {
        self.from != peer && self.evty == evty
    }

    /// `peer` receives this event.
    pub open spec fn listened(self, peer: EvSource) -> bool {
        self.from != peer
    }

    /// `peer` receives this event and keeps a list of handlers for it.
    pub open spec fn keeps_list(self, peer: EvSource) -> bool {
        self.listened(peer) && !self.call.is_single()
    }
}

/// An id that names no event of the set that was asked for.
#[derive(Clone, Copy, Debug, PartialEq, Eq, Structural)]
pub struct UnknownId {
    pub id: usize,
}

impl ConfigView {
    /// `id` names a declared event.
    pub open spec fn declares(self, id: int) -> bool {
        1 <= id <= self.evdecls.len()
    }

    /// The declaration that `id` names.
    pub open spec fn event(self, id: int) -> EvDeclView
        recommends
            self.declares(id),
    {
        self.evdecls[id - 1]
    }

    /// The decode loop of `peer` for the channel `evty` has a branch for `id`.
    pub open spec fn decodes(self, peer: EvSource, evty: EvType, id: int) -> bool {
        self.declares(id) && self.event(id).incoming(peer, evty)
    }

    /// `peer` has a send operation for `id`.
    pub open spec fn sends(self, peer: EvSource, id: int) -> bool {
        self.declares(id) && self.event(id).outgoing(peer)
    }

    /// `peer` has a registration operation for `id`.
    pub open spec fn listens(self, peer: EvSource, id: int) -> bool {
        self.declares(id) && self.event(id).listened(peer)
    }

    /// Some declaration among the first `n` is received by `peer` on `evty`.
    pub open spec fn any_incoming(self, peer: EvSource, evty: EvType, n: int) -> bool {
        exists|i: int| 0 <= i < n && i < self.evdecls.len() && (#[trigger] self.evdecls[i]).incoming(peer, evty)
    }
}

/// The ids of those among the first `n` declarations that `keep` holds of, in
/// declaration order. Each keeps its global id: a declaration that is left
/// out leaves a gap.
pub open spec fn ids_where(c: ConfigView, keep: spec_fn(EvDeclView) -> bool, n: nat) -> Seq<int>
    decreases n,
{
    if n == 0 {
        Seq::empty()
    } else if keep(c.evdecls[n - 1]) {
        ids_where(c, keep, (n - 1) as nat).push(event_id(n - 1))
    } else {
        ids_where(c, keep, (n - 1) as nat)
    }
}

/// The ids that the decode loop of `peer` for the channel `evty` accepts among
/// the first `n` declarations, in declaration order.
pub open spec fn decode_ids(c: ConfigView, peer: EvSource, evty: EvType, n: nat) -> Seq<int> {
    ids_where(c, |e: EvDeclView| e.incoming(peer, evty), n)
}

/// The ids of the events that `peer` sends among the first `n` declarations,
/// in declaration order.
pub open spec fn send_ids(c: ConfigView, peer: EvSource, n: nat) -> Seq<int> {
    ids_where(c, |e: EvDeclView| e.outgoing(peer), n)
}

/// The ids of the events that `peer` receives among the first `n`
/// declarations, in declaration order.
pub open spec fn listen_ids(c: ConfigView, peer: EvSource, n: nat) -> Seq<int> {
    ids_where(c, |e: EvDeclView| e.listened(peer), n)
}

/// The ids of the events for which `peer` keeps a list of handlers among the
/// first `n` declarations, in declaration order.
pub open spec fn list_ids(c: ConfigView, peer: EvSource, n: nat) -> Seq<int> {
    ids_where(c, |e: EvDeclView| e.keeps_list(peer), n)
}

impl EvDecl {
    /// Whether `peer` sends this event.
    pub fn is_outgoing(&self, peer: EvSource) -> (b: bool)
        ensures
            b == self@.outgoing(peer),
    {
        self.from == peer
    }

    /// Whether `peer` receives this event on the channel `evty`.
    pub fn is_incoming(&self, peer: EvSource, evty: EvType) -> (b: bool)
        ensures
            b == self@.incoming(peer, evty),
    {
        self.from != peer && self.evty == evty
    }

    /// Whether `peer` receives this event.
    pub fn is_listened(&self, peer: EvSource) -> (b: bool)
        ensures
            b == self@.listened(peer),
    {
        self.from != peer
    }
}

impl Config {
    /// The id of the declaration at position `index`.
    pub fn id_at(&self, index: usize) -> (id: usize)
        requires
            index < self@.evdecls.len(),
        ensures
            id == event_id(index as int),
            self@.declares(id as int),
            self@.event(id as int) == self@.evdecls[index as int],
    {
        assert(self@.evdecls.len() == self.evdecls.len());
        index + 1
    }

    /// The declaration that `id` names, by its position.
    pub fn find(&self, id: usize) -> (r: Result<usize, UnknownId>)
        ensures
            (match r {
                Ok(index) => self@.declares(id as int) && event_id(index as int) == id,
                Err(e) => !self@.declares(id as int) && e.id == id,
            }),
    {
        if 1 <= id && id <= self.evdecls.len() {
            Ok(id - 1)
        } else {
            Err(UnknownId { id })
        }
    }

    /// The branch that the decode loop of `peer` for the channel `evty`
    /// takes on `id`: the position of the declaration to decode, or the
    /// failure that ends the handling of the message. An id is accepted only
    /// if it names an event that `peer` receives on that channel.
    pub fn decode(&self, peer: EvSource, evty: EvType, id: usize) -> (r: Result<usize, UnknownId>)
        ensures
            (match r {
                Ok(index) => self@.decodes(peer, evty, id as int) && event_id(index as int) == id,
                Err(e) => !self@.decodes(peer, evty, id as int) && e.id == id,
            }),
    {
        match self.find(id) {
            Ok(index) => {
                if self.evdecls[index].is_incoming(peer, evty) {
                    Ok(index)
                } else {
                    Err(UnknownId { id })
                }
            },
            Err(e) => Err(e),
        }
    }

    /// The channel on which `peer` sends the event `id`, where `peer` sends
    /// it at all.
    pub fn channel(&self, peer: EvSource, id: usize) -> (r: Result<EvType, UnknownId>)
        ensures
            (match r {
                Ok(evty) => self@.sends(peer, id as int) && evty == self@.event(id as int).evty,
                Err(e) => !self@.sends(peer, id as int) && e.id == id,
            }),
    {
        match self.find(id) {
            Ok(index) => {
                if self.evdecls[index].is_outgoing(peer) {
                    Ok(self.evdecls[index].evty)
                } else {
                    Err(UnknownId { id })
                }
            },
            Err(e) => Err(e),
        }
    }

    /// Whether `peer` receives any event on the channel `evty`.
    pub fn has_incoming(&self, peer: EvSource, evty: EvType) -> (b: bool)
        ensures
            b == self@.any_incoming(peer, evty, self@.evdecls.len() as int),
    {
        let mut i: usize = 0;
        while i < self.evdecls.len()
            invariant
                i <= self.evdecls.len(),
                !self@.any_incoming(peer, evty, i as int),
            decreases self.evdecls.len() - i,
        {
            if self.evdecls[i].is_incoming(peer, evty) {
                assert(self@.evdecls[i as int].incoming(peer, evty));
                return true;
            }
            i += 1;
        }
        false
    }
}

/// The id of a declaration is its position, whatever its direction and
/// channel: every declaration has an id, the id names that declaration, and
/// no two declarations share one.
pub proof fn lemma_ids_are_positions(c: ConfigView, i: int, j: int)
    requires
        0 <= i < c.evdecls.len(),
        0 <= j < c.evdecls.len(),
    ensures
        c.declares(event_id(i)),
        c.event(event_id(i)) == c.evdecls[i],
        event_id(i) == event_id(j) <==> i == j,
{
}

/// Ids depend on the number of declarations alone: two schemas that differ
/// in names, directions, channels, dispatch modes or payloads declare the
/// same ids.
pub proof fn lemma_ids_ignore_content(c: ConfigView, d: ConfigView, id: int)
    requires
        c.evdecls.len() == d.evdecls.len(),
    ensures
        c.declares(id) == d.declares(id),
{
}

/// Every declared event is in exactly one place at each peer: among the
/// events that the peer sends, or in its reliable decode loop, or in its
/// unreliable decode loop. What one peer sends, the other receives.
pub proof fn lemma_partition(c: ConfigView, peer: EvSource, other: EvSource, id: int)
    requires
        c.declares(id),
        peer != other,
    ensures
        c.sends(peer, id) || c.decodes(peer, EvType::Reliable, id) || c.decodes(
            peer,
            EvType::Unreliable,
            id,
        ),
        !(c.sends(peer, id) && c.listens(peer, id)),
        !(c.decodes(peer, EvType::Reliable, id) && c.decodes(peer, EvType::Unreliable, id)),
        c.listens(peer, id) <==> c.decodes(peer, EvType::Reliable, id) || c.decodes(
            peer,
            EvType::Unreliable,
            id,
        ),
        c.sends(peer, id) <==> c.listens(other, id),
{
}

/// A selection of ids holds the id of a declaration exactly where the
/// declaration was selected. The ids keep their global numbering and come in
/// rising order, so none comes twice.
pub proof fn lemma_ids_where(c: ConfigView, keep: spec_fn(EvDeclView) -> bool, n: nat)
    requires
        n <= c.evdecls.len(),
    ensures
        forall|id: int|
            #[trigger] ids_where(c, keep, n).contains(id) <==> 1 <= id <= n && keep(
                c.evdecls[id - 1],
            ),
        forall|k: int|
            0 <= k < ids_where(c, keep, n).len() ==> 1 <= #[trigger] ids_where(c, keep, n)[k]
                <= n,
        forall|j: int, k: int|
            0 <= j < k < ids_where(c, keep, n).len() ==> ids_where(c, keep, n)[j] < ids_where(
                c,
                keep,
                n,
            )[k],
    decreases n,
{
    let ids = ids_where(c, keep, n);
    if n > 0 {
        let m = (n - 1) as nat;
        let rest = ids_where(c, keep, m);
        lemma_ids_where(c, keep, m);
        if keep(c.evdecls[n - 1]) {
            assert(ids[rest.len() as int] == n);
            assert forall|id: int| #[trigger] ids.contains(id) <==> 1 <= id <= n && keep(
                c.evdecls[id - 1],
            ) by {
                if ids.contains(id) {
                    let k = choose|k: int| 0 <= k < ids.len() && ids[k] == id;
                    if k < rest.len() {
                        assert(rest[k] == id);
                        assert(rest.contains(id));
                    }
                }
                if 1 <= id <= n && keep(c.evdecls[id - 1]) {
                    if id == n {
                        assert(ids[rest.len() as int] == id);
                    } else {
                        assert(rest.contains(id));
                        let k = choose|k: int| 0 <= k < rest.len() && rest[k] == id;
                        assert(ids[k] == id);
                    }
                }
            }
        } else {
            assert forall|id: int| #[trigger] ids.contains(id) <==> 1 <= id <= n && keep(
                c.evdecls[id - 1],
            ) by {
                if ids.contains(id) {
                    assert(rest.contains(id));
                }
            }
        }
    }
}

/// The ids of a decode loop are exactly the ids of the events that the peer
/// receives on that channel, in rising order, and there is one at all
/// exactly where some declared event arrives on that channel.
pub proof fn lemma_decode_ids(c: ConfigView, peer: EvSource, evty: EvType, n: nat)
    requires
        n <= c.evdecls.len(),
    ensures
        forall|id: int|
            #[trigger] decode_ids(c, peer, evty, n).contains(id) <==> id <= n && c.decodes(
                peer,
                evty,
                id,
            ),
        forall|j: int, k: int|
            0 <= j < k < decode_ids(c, peer, evty, n).len() ==> decode_ids(c, peer, evty, n)[j]
                < decode_ids(c, peer, evty, n)[k],
        decode_ids(c, peer, evty, n).len() > 0 <==> c.any_incoming(peer, evty, n as int),
{
    let keep = |e: EvDeclView| e.incoming(peer, evty);
    let ids = decode_ids(c, peer, evty, n);
    lemma_ids_where(c, keep, n);
    if ids.len() > 0 {
        assert(ids.contains(ids[0]));
        assert(c.evdecls[ids[0] - 1].incoming(peer, evty));
    }
    if c.any_incoming(peer, evty, n as int) {
        let i = choose|i: int|
            0 <= i < n && i < c.evdecls.len() && (#[trigger] c.evdecls[i]).incoming(peer, evty);
        assert(ids.contains(i + 1));
    }
}

/// The send operations of a peer are for exactly the ids of the events that
/// the peer sends, in rising order.
pub proof fn lemma_send_ids(c: ConfigView, peer: EvSource, n: nat)
    requires
        n <= c.evdecls.len(),
    ensures
        forall|id: int|
            #[trigger] send_ids(c, peer, n).contains(id) <==> id <= n && c.sends(peer, id),
        forall|j: int, k: int|
            0 <= j < k < send_ids(c, peer, n).len() ==> send_ids(c, peer, n)[j] < send_ids(
                c,
                peer,
                n,
            )[k],
{
    lemma_ids_where(c, |e: EvDeclView| e.outgoing(peer), n);
}

/// The registration operations of a peer are for exactly the ids of the
/// events that the peer receives, in rising order; and the peer keeps a list
/// of handlers for exactly those among them that keep many.
pub proof fn lemma_listen_ids(c: ConfigView, peer: EvSource, n: nat)
    requires
        n <= c.evdecls.len(),
    ensures
        forall|id: int|
            #[trigger] listen_ids(c, peer, n).contains(id) <==> id <= n && c.listens(peer, id),
        forall|j: int, k: int|
            0 <= j < k < listen_ids(c, peer, n).len() ==> listen_ids(c, peer, n)[j] < listen_ids(
                c,
                peer,
                n,
            )[k],
        forall|id: int|
            #[trigger] list_ids(c, peer, n).contains(id) <==> id <= n && c.listens(peer, id)
                && !c.event(id).call.is_single(),
{
    lemma_ids_where(c, |e: EvDeclView| e.listened(peer), n);
    lemma_ids_where(c, |e: EvDeclView| e.keeps_list(peer), n);
}

/// The two peers agree on the wire: the id under which one peer sends a
/// declared event is accepted by the decode loop of the other peer for the
/// channel of that event, there it names the same declaration, and the decode
/// loop for the other channel refuses it.
pub proof fn lemma_peers_agree(c: ConfigView, sender: EvSource, receiver: EvSource, i: int)
    requires
        0 <= i < c.evdecls.len(),
        sender != receiver,
        c.evdecls[i].from == sender,
    ensures
        c.sends(sender, event_id(i)),
        c.decodes(receiver, c.evdecls[i].evty, event_id(i)),
        c.event(event_id(i)) == c.evdecls[i],
        forall|evty: EvType|
            evty != c.evdecls[i].evty ==> !c.decodes(receiver, evty, event_id(i)),
        !c.sends(receiver, event_id(i)),
{
}

/// An id outside the declared range is in no decode loop and in no send
/// operation of either peer.
pub proof fn lemma_undeclared(c: ConfigView, peer: EvSource, evty: EvType, id: int)
    requires
        !c.declares(id),
    ensures
        !c.decodes(peer, evty, id),
        !c.sends(peer, id),
        !c.listens(peer, id),
{
}

} // verus!
