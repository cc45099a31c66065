//! The two channels of the server. A send on the reliable channel is kept
//! with what is pending for its peer, and a flush turns what is pending into
//! one packet for each peer. A send on the unreliable channel leaves at once
//! as a packet of its own.
//!
//! A message is the bytes of one call: the id, then the payload as the type
//! codec wrote it. It is encoded once, and every recipient gets these same
//! bytes. Instance references cannot be encoded: they travel in a list beside
//! the bytes, in step with them.

use vstd::prelude::*;
use crate::config::{Config, ConfigView, EvSource, EvType};
use crate::protocol::UnknownId;

verus! {

/// The capacity of the buffer of a peer for which nothing is pending.
pub const INITIAL_CAPACITY: usize = 64;

/// Bytes and instance references for one peer: a packet, or what is pending
/// for the next one.
#[derive(Debug)]
pub struct Packet {
    pub player: u64,
    pub buff: Vec<u8>,
    pub inst: Vec<u64>,
}

pub struct PacketView {
    pub player: u64,
    pub buff: Seq<u8>,
    pub inst: Seq<u64>,
}

impl View for Packet {
    type V = PacketView;

    open spec fn view(&self) -> PacketView {
        PacketView { player: self.player, buff: self.buff@, inst: self.inst@ }
    }
}

/// The views of a sequence of packets, one for one.
pub open spec fn packets_view(packets: Seq<Packet>) -> Seq<PacketView> {
    packets.map_values(|p: Packet| p@)
}

impl PacketView {
    /// Nothing, for `player`.
    pub open spec fn blank(player: u64) -> PacketView {
        PacketView { player, buff: Seq::empty(), inst: Seq::empty() }
    }

    /// This with one more message behind it.
    pub open spec fn with(self, message: Seq<u8>, inst: Seq<u64>) -> PacketView {
        PacketView { player: self.player, buff: self.buff + message, inst: self.inst + inst }
    }
}

/// No peer has two entries.
pub open spec fn distinct(m: Seq<PacketView>) -> bool {
    forall|i: int, j: int| 0 <= i < j < m.len() ==> m[i].player != m[j].player
}

/// `player` has an entry.
pub open spec fn present(m: Seq<PacketView>, player: u64) -> bool {
    exists|i: int| 0 <= i < m.len() && m[i].player == player
}

/// The place of the entry of `player`.
pub open spec fn slot_of(m: Seq<PacketView>, player: u64) -> int
    recommends
        present(m, player),
{
    choose|i: int| 0 <= i < m.len() && m[i].player == player
}

/// What is pending for `player`: nothing where the peer has no entry.
pub open spec fn pending(m: Seq<PacketView>, player: u64) -> PacketView {
    if present(m, player) {
        m[slot_of(m, player)]
    } else {
        PacketView::blank(player)
    }
}

/// The entries after one message was added to what is pending for `player`.
/// A peer without an entry gets one, behind the others.
pub open spec fn enqueue(
    m: Seq<PacketView>,
    player: u64,
    message: Seq<u8>,
    inst: Seq<u64>,
) -> Seq<PacketView> {
    if present(m, player) {
        m.update(slot_of(m, player), m[slot_of(m, player)].with(message, inst))
    } else {
        m.push(PacketView::blank(player).with(message, inst))
    }
}

/// The entries after the same message was added for each of `players`, in
/// order.
pub open spec fn enqueue_each(
    m: Seq<PacketView>,
    players: Seq<u64>,
    message: Seq<u8>,
    inst: Seq<u64>,
) -> Seq<PacketView>
    decreases players.len(),
{
    if players.len() == 0 {
        m
    } else {
        enqueue(enqueue_each(m, players.drop_last(), message, inst), players.last(), message, inst)
    }
}

/// One packet with the same message for each of `players`, in order.
pub open spec fn direct(players: Seq<u64>, message: Seq<u8>, inst: Seq<u64>) -> Seq<PacketView> {
    players.map_values(|p: u64| PacketView { player: p, buff: message, inst })
}

/// `players` without `excluded`, in the same order.
pub open spec fn without(players: Seq<u64>, excluded: u64) -> Seq<u64>
    decreases players.len(),
{
    if players.len() == 0 {
        Seq::empty()
    } else if players.last() == excluded {
        without(players.drop_last(), excluded)
    } else {
        without(players.drop_last(), excluded).push(players.last())
    }
}

/// The packets of a flush: what is pending for each peer with pending bytes,
/// in the order of the entries.
pub open spec fn ready(m: Seq<PacketView>) -> Seq<PacketView>
    decreases m.len(),
{
    if m.len() == 0 {
        Seq::empty()
    } else if m.last().buff.len() > 0 {
        ready(m.drop_last()).push(m.last())
    } else {
        ready(m.drop_last())
    }
}

/// The entries after a flush: nothing is pending for a peer that had
/// pending bytes, and the others are as they were.
pub open spec fn flushed(m: Seq<PacketView>) -> Seq<PacketView> {
    Seq::new(
        m.len(),
        |i: int|
            if m[i].buff.len() > 0 {
                PacketView::blank(m[i].player)
            } else {
                m[i]
            },
    )
}

/// The entries after the entry of `player` was dropped.
pub open spec fn removed(m: Seq<PacketView>, player: u64) -> Seq<PacketView> {
    if present(m, player) {
        m.remove(slot_of(m, player))
    } else {
        m
    }
}

/// The packets among `packets` that go to `player`, in order.
pub open spec fn sent_to(packets: Seq<PacketView>, player: u64) -> Seq<PacketView>
    decreases packets.len(),
{
    if packets.len() == 0 {
        Seq::empty()
    } else if packets.last().player == player {
        sent_to(packets.drop_last(), player).push(packets.last())
    } else {
        sent_to(packets.drop_last(), player)
    }
}

/// The outgoing side of the server: what is pending on the reliable channel
/// for each peer.
pub struct Sender<'src> {
    config: &'src Config,
    player_map: Vec<Packet>,
}

pub struct SenderView {
    pub config: ConfigView,
    /// What is pending for each peer that has an entry, in the order in
    /// which the entries were made.
    pub player_map: Seq<PacketView>,
}

impl<'src> View for Sender<'src> {
    type V = SenderView;

    closed spec fn view(&self) -> SenderView {
        SenderView { config: self.config@, player_map: packets_view(self.player_map@) }
    }
}

impl SenderView {
    /// No peer has two entries.
    pub open spec fn wf(self) -> bool {
        distinct(self.player_map)
    }

    /// What is pending for `player`.
    pub open spec fn pending(self, player: u64) -> PacketView {
        pending(self.player_map, player)
    }

    /// A send of the event `id` to `recipients`: the state after it, and the
    /// packets that leave at once. A reliable event is added to what is
    /// pending for each recipient and nothing leaves. An unreliable event
    /// leaves as one packet for each recipient and nothing is kept.
    pub open spec fn deliver(
        self,
        id: int,
        recipients: Seq<u64>,
        message: Seq<u8>,
        inst: Seq<u64>,
    ) -> (SenderView, Seq<PacketView>)
        recommends
            self.config.sends(EvSource::Server, id),
    {
        match self.config.event(id).evty {
            EvType::Reliable => (
                SenderView {
                    player_map: enqueue_each(self.player_map, recipients, message, inst),
                    ..self
                },
                Seq::empty(),
            ),
            EvType::Unreliable => (self, direct(recipients, message, inst)),
        }
    }

    /// The state after a flush.
    pub open spec fn flushed(self) -> SenderView {
        SenderView { player_map: flushed(self.player_map), ..self }
    }

    /// The state after `player` left.
    pub open spec fn removed(self, player: u64) -> SenderView {
        SenderView { player_map: removed(self.player_map, player), ..self }
    }
}

/// Appends the bytes of `src` to `dst`.
fn extend_bytes(dst: &mut Vec<u8>, src: &[u8])
    ensures
        final(dst)@ == old(dst)@ + src@,
{
    let mut i: usize = 0;
    assert(dst@ =~= old(dst)@ + src@.take(0));
    while i < src.len()
        invariant
            i <= src.len(),
            dst@ == old(dst)@ + src@.take(i as int),
        decreases src.len() - i,
    {
        dst.push(src[i]);
        i += 1;
        assert(dst@ =~= old(dst)@ + src@.take(i as int));
    }
    assert(src@.take(i as int) =~= src@);
}

/// Appends the instance references of `src` to `dst`.
fn extend_refs(dst: &mut Vec<u64>, src: &[u64])
    ensures
        final(dst)@ == old(dst)@ + src@,
{
    let mut i: usize = 0;
    assert(dst@ =~= old(dst)@ + src@.take(0));
    while i < src.len()
        invariant
            i <= src.len(),
            dst@ == old(dst)@ + src@.take(i as int),
        decreases src.len() - i,
    {
        dst.push(src[i]);
        i += 1;
        assert(dst@ =~= old(dst)@ + src@.take(i as int));
    }
    assert(src@.take(i as int) =~= src@);
}

/// A packet for `player` that holds one message.
fn packet_of(player: u64, message: &[u8], inst: &[u64]) -> (p: Packet)
    ensures
        p@ == PacketView::blank(player).with(message@, inst@),
        p@ == (PacketView { player, buff: message@, inst: inst@ }),
{
    let mut p = Packet { player, buff: Vec::with_capacity(INITIAL_CAPACITY), inst: Vec::new() };
    extend_bytes(&mut p.buff, message);
    extend_refs(&mut p.inst, inst);
    assert(p.buff@ =~= message@);
    assert(p.inst@ =~= inst@);
    assert(Seq::<u8>::empty() + message@ =~= message@);
    assert(Seq::<u64>::empty() + inst@ =~= inst@);
    p
}

/// `players` without `excluded`, in the same order.
fn players_without(players: &[u64], excluded: u64) -> (rest: Vec<u64>)
    ensures
        rest@ == without(players@, excluded),
{
    let mut rest: Vec<u64> = Vec::new();
    let mut i: usize = 0;
    while i < players.len()
        invariant
            i <= players.len(),
            rest@ == without(players@.take(i as int), excluded),
        decreases players.len() - i,
    {
        assert(players@.take(i + 1).drop_last() =~= players@.take(i as int));
        if players[i] != excluded {
            rest.push(players[i]);
        }
        i += 1;
    }
    assert(players@.take(i as int) =~= players@);
    rest
}

/// One packet with the message for each of `players`, in order.
fn direct_packets(players: &[u64], message: &[u8], inst: &[u64]) -> (packets: Vec<Packet>)
    ensures
        packets_view(packets@) == direct(players@, message@, inst@),
{
    let mut packets: Vec<Packet> = Vec::new();
    let mut i: usize = 0;
    while i < players.len()
        invariant
            i <= players.len(),
            packets@.len() == i,
            forall|k: int|
                0 <= k < i ==> (#[trigger] packets@[k])@ == (PacketView {
                    player: players@[k],
                    buff: message@,
                    inst: inst@,
                }),
        decreases players.len() - i,
    {
        packets.push(packet_of(players[i], message, inst));
        i += 1;
    }
    assert(packets_view(packets@) =~= direct(players@, message@, inst@));
    packets
}

impl<'src> Sender<'src> {
    /// The outgoing side with no peer yet.
    pub fn new(config: &'src Config) -> (s: Self)
        ensures
            s@.wf(),
            s@.config == config@,
            s@.player_map.len() == 0,
    {
        Sender { config, player_map: Vec::new() }
    }

    /// Adds one message to what is pending for `player`.
    fn enqueue(&mut self, player: u64, message: &[u8], inst: &[u64])
        requires
            old(self)@.wf(),
        ensures
            final(self)@.wf(),
            final(self)@.config == old(self)@.config,
            final(self)@.player_map == enqueue(old(self)@.player_map, player, message@, inst@),
    {
        let ghost m = self@.player_map;
        proof {
            lemma_enqueue(m, player, message@, inst@, player);
        }
        let mut i: usize = 0;
        while i < self.player_map.len()
            invariant
                i <= self.player_map.len(),
                self.config == old(self).config,
                self.player_map == old(self).player_map,
                m == old(self)@.player_map,
                distinct(m),
                forall|k: int| 0 <= k < i ==> m[k].player != player,
            decreases self.player_map.len() - i,
        {
            if self.player_map[i].player == player {
                let entry = &mut self.player_map[i];
                extend_bytes(&mut entry.buff, message);
                extend_refs(&mut entry.inst, inst);
                proof {
                    assert(m[i as int].player == player);
                    lemma_slot(m, i as int);
                    assert(self@.player_map =~= enqueue(m, player, message@, inst@));
                }
                return;
            }
            i += 1;
        }
        self.player_map.push(packet_of(player, message, inst));
        proof {
            assert(!present(m, player));
            assert(self@.player_map =~= enqueue(m, player, message@, inst@));
        }
    }

    /// Adds the same message to what is pending for each of `players`.
    fn enqueue_each(&mut self, players: &[u64], message: &[u8], inst: &[u64])
        requires
            old(self)@.wf(),
        ensures
            final(self)@.wf(),
            final(self)@.config == old(self)@.config,
            final(self)@.player_map == enqueue_each(
                old(self)@.player_map,
                players@,
                message@,
                inst@,
            ),
    {
        let mut i: usize = 0;
        while i < players.len()
            invariant
                i <= players.len(),
                self@.wf(),
                self@.config == old(self)@.config,
                self@.player_map == enqueue_each(
                    old(self)@.player_map,
                    players@.take(i as int),
                    message@,
                    inst@,
                ),
            decreases players.len() - i,
        {
            assert(players@.take(i + 1).drop_last() =~= players@.take(i as int));
            self.enqueue(players[i], message, inst);
            i += 1;
        }
        assert(players@.take(i as int) =~= players@);
    }

    /// Sends the event `id` to `recipients`.
    fn deliver(&mut self, id: usize, recipients: &[u64], message: &[u8], inst: &[u64]) -> (r:
        Result<Vec<Packet>, UnknownId>)
        requires
            old(self)@.wf(),
        ensures
            final(self)@.wf(),
            (match r {
                Ok(packets) => old(self)@.config.sends(EvSource::Server, id as int) && (
                    final(self)@,
                    packets_view(packets@),
                ) == old(self)@.deliver(id as int, recipients@, message@, inst@),
                Err(e) => !old(self)@.config.sends(EvSource::Server, id as int) && e.id == id
                    && final(self)@ == old(self)@,
            }),
    {
        match self.config.channel(EvSource::Server, id) {
            Ok(EvType::Reliable) => {
                self.enqueue_each(recipients, message, inst);
                let packets: Vec<Packet> = Vec::new();
                assert(packets_view(packets@) =~= Seq::empty());
                Ok(packets)
            },
            Ok(EvType::Unreliable) => Ok(direct_packets(recipients, message, inst)),
            Err(e) => Err(e),
        }
    }

    /// Sends the event `id` to one peer. A reliable event is added to what
    /// is pending for that peer; an unreliable event leaves at once, as a
    /// packet for that peer alone.
    pub fn fire(&mut self, id: usize, player: u64, message: &[u8], inst: &[u64]) -> (r: Result<
        Vec<Packet>,
        UnknownId,
    >)
        requires
            old(self)@.wf(),
        ensures
            final(self)@.wf(),
            (match r {
                Ok(packets) => old(self)@.config.sends(EvSource::Server, id as int) && (
                    final(self)@,
                    packets_view(packets@),
                ) == old(self)@.deliver(id as int, seq![player], message@, inst@),
                Err(e) => !old(self)@.config.sends(EvSource::Server, id as int) && e.id == id
                    && final(self)@ == old(self)@,
            }),
    {
        let recipients: [u64; 1] = [player];
        assert(recipients@ =~= seq![player]);
        self.deliver(id, recipients.as_slice(), message, inst)
    }

    /// Sends the event `id` to every peer of `players`, the peers that are
    /// connected now. Every one of them gets the same bytes and the same
    /// instance references.
    pub fn fire_all(&mut self, id: usize, players: &[u64], message: &[u8], inst: &[u64]) -> (r:
        Result<Vec<Packet>, UnknownId>)
        requires
            old(self)@.wf(),
        ensures
            final(self)@.wf(),
            (match r {
                Ok(packets) => old(self)@.config.sends(EvSource::Server, id as int) && (
                    final(self)@,
                    packets_view(packets@),
                ) == old(self)@.deliver(id as int, players@, message@, inst@),
                Err(e) => !old(self)@.config.sends(EvSource::Server, id as int) && e.id == id
                    && final(self)@ == old(self)@,
            }),
    {
        self.deliver(id, players, message, inst)
    }

    /// Sends the event `id` to every peer of `players` but `except`.
    pub fn fire_except(
        &mut self,
        id: usize,
        players: &[u64],
        except: u64,
        message: &[u8],
        inst: &[u64],
    ) -> (r: Result<Vec<Packet>, UnknownId>)
        requires
            old(self)@.wf(),
        ensures
            final(self)@.wf(),
            (match r {
                Ok(packets) => old(self)@.config.sends(EvSource::Server, id as int) && (
                    final(self)@,
                    packets_view(packets@),
                ) == old(self)@.deliver(id as int, without(players@, except), message@, inst@),
                Err(e) => !old(self)@.config.sends(EvSource::Server, id as int) && e.id == id
                    && final(self)@ == old(self)@,
            }),
    {
        let recipients = players_without(players, except);
        self.deliver(id, recipients.as_slice(), message, inst)
    }

    /// Sends the event `id` to the peers of `list`.
    pub fn fire_list(&mut self, id: usize, list: &[u64], message: &[u8], inst: &[u64]) -> (r:
        Result<Vec<Packet>, UnknownId>)
        requires
            old(self)@.wf(),
        ensures
            final(self)@.wf(),
            (match r {
                Ok(packets) => old(self)@.config.sends(EvSource::Server, id as int) && (
                    final(self)@,
                    packets_view(packets@),
                ) == old(self)@.deliver(id as int, list@, message@, inst@),
                Err(e) => !old(self)@.config.sends(EvSource::Server, id as int) && e.id == id
                    && final(self)@ == old(self)@,
            }),
    {
        self.deliver(id, list, message, inst)
    }

    /// The flush step. Every peer with pending bytes gets one packet: the
    /// pending bytes, in the order of the sends, and the instance references
    /// that came with them. Nothing is pending for that peer afterwards. A
    /// peer without pending bytes gets no packet.
    pub fn flush(&mut self) -> (packets: Vec<Packet>)
        requires
            old(self)@.wf(),
        ensures
            final(self)@.wf(),
            final(self)@ == old(self)@.flushed(),
            packets_view(packets@) == ready(old(self)@.player_map),
    {
        let ghost m = self@.player_map;
        let mut packets: Vec<Packet> = Vec::new();
        let mut i: usize = 0;
        assert(packets_view(packets@) =~= ready(m.take(0)));
        while i < self.player_map.len()
            invariant
                i <= self.player_map.len(),
                self.config == old(self).config,
                m == old(self)@.player_map,
                self.player_map@.len() == m.len(),
                forall|k: int| i <= k < m.len() ==> (#[trigger] self.player_map@[k])@ == m[k],
                forall|k: int| 0 <= k < i ==> (#[trigger] self.player_map@[k])@ == flushed(m)[k],
                packets_view(packets@) == ready(m.take(i as int)),
            decreases self.player_map.len() - i,
        {
            assert(m.take(i + 1).drop_last() =~= m.take(i as int));
            assert(self.player_map@[i as int]@ == m[i as int]);
            if self.player_map[i].buff.len() > 0 {
                let entry = &mut self.player_map[i];
                let mut buff: Vec<u8> = Vec::with_capacity(INITIAL_CAPACITY);
                let mut inst: Vec<u64> = Vec::new();
                core::mem::swap(&mut entry.buff, &mut buff);
                core::mem::swap(&mut entry.inst, &mut inst);
                let player: u64 = entry.player;
                let ghost before = packets@;
                packets.push(Packet { player, buff, inst });
                assert(packets_view(packets@) =~= packets_view(before).push(m[i as int]));
            }
            i += 1;
        }
        assert(m.take(i as int) =~= m);
        assert(self@.player_map =~= flushed(m));
        proof {
            lemma_flushed(m);
        }
        packets
    }

    /// Drops what is pending for a peer that left.
    pub fn remove(&mut self, player: u64)
        requires
            old(self)@.wf(),
        ensures
            final(self)@.wf(),
            final(self)@ == old(self)@.removed(player),
    {
        let ghost m = self@.player_map;
        let mut i: usize = 0;
        while i < self.player_map.len()
            invariant
                i <= self.player_map.len(),
                self.config == old(self).config,
                self.player_map == old(self).player_map,
                m == old(self)@.player_map,
                distinct(m),
                forall|k: int| 0 <= k < i ==> m[k].player != player,
            decreases self.player_map.len() - i,
        {
            if self.player_map[i].player == player {
                self.player_map.remove(i);
                proof {
                    assert(m[i as int].player == player);
                    lemma_slot(m, i as int);
                    assert(self@.player_map =~= removed(m, player));
                }
                return;
            }
            i += 1;
        }
        assert(!present(m, player));
    }
}

/// The entry at `i` is the entry of its peer.
pub proof fn lemma_slot(m: Seq<PacketView>, i: int)
    requires
        distinct(m),
        0 <= i < m.len(),
    ensures
        present(m, m[i].player),
        slot_of(m, m[i].player) == i,
        pending(m, m[i].player) == m[i],
{
    let j = slot_of(m, m[i].player);
    assert(0 <= j < m.len() && m[j].player == m[i].player);
    if j < i {
        assert(m[j].player != m[i].player);
    }
    if i < j {
        assert(m[i].player != m[j].player);
    }
}

/// Adding a message for one peer extends what is pending for that peer by
/// the message and its instance references, and leaves every other peer as
/// it was.
pub proof fn lemma_enqueue(
    m: Seq<PacketView>,
    player: u64,
    message: Seq<u8>,
    inst: Seq<u64>,
    other: u64,
)
    requires
        distinct(m),
    ensures
        distinct(enqueue(m, player, message, inst)),
        present(enqueue(m, player, message, inst), player),
        pending(enqueue(m, player, message, inst), player) == pending(m, player).with(
            message,
            inst,
        ),
        other != player ==> pending(enqueue(m, player, message, inst), other) == pending(m, other),
        other != player ==> present(enqueue(m, player, message, inst), other) == present(m, other),
{
    let n = enqueue(m, player, message, inst);
    if present(m, player) {
        let i = slot_of(m, player);
        assert(forall|k: int| 0 <= k < m.len() ==> n[k].player == m[k].player);
        assert(distinct(n));
        lemma_slot(n, i);
        if other != player {
            if present(m, other) {
                let j = slot_of(m, other);
                lemma_slot(m, j);
                lemma_slot(n, j);
            } else {
                if present(n, other) {
                    let j = slot_of(n, other);
                    assert(m[j].player == other);
                }
            }
        }
    } else {
        assert(forall|k: int| 0 <= k < m.len() ==> n[k] == m[k]);
        assert(n[m.len() as int].player == player);
        assert(distinct(n)) by {
            assert forall|i: int, j: int| 0 <= i < j < n.len() implies n[i].player
                != n[j].player by {
                if j == m.len() {
                    assert(m[i].player != player);
                }
            }
        }
        lemma_slot(n, m.len() as int);
        if other != player {
            if present(m, other) {
                let j = slot_of(m, other);
                lemma_slot(m, j);
                lemma_slot(n, j);
            } else {
                if present(n, other) {
                    let j = slot_of(n, other);
                    assert(m[j].player == other);
                }
            }
        }
    }
}

/// A flush keeps the entries apart, and leaves no bytes pending for anyone.
pub proof fn lemma_flushed(m: Seq<PacketView>)
    requires
        distinct(m),
    ensures
        distinct(flushed(m)),
        forall|player: u64| (#[trigger] pending(flushed(m), player)).buff.len() == 0,
        forall|player: u64| present(flushed(m), player) == present(m, player),
{
    let f = flushed(m);
    assert forall|player: u64| (#[trigger] pending(f, player)).buff.len() == 0 by {
        if present(f, player) {
            let i = slot_of(f, player);
            assert(f[i].buff.len() == 0);
        }
    }
    assert forall|player: u64| present(f, player) == present(m, player) by {
        if present(f, player) {
            let i = slot_of(f, player);
            assert(m[i].player == player);
        }
        if present(m, player) {
            let i = slot_of(m, player);
            assert(f[i].player == player);
        }
    }
}

/// Leaving one peer out keeps the others, each as often as before.
pub proof fn lemma_without(players: Seq<u64>, excluded: u64, player: u64)
    ensures
        without(players, excluded).contains(player) <==> players.contains(player) && player
            != excluded,
        players.no_duplicates() ==> without(players, excluded).no_duplicates(),
    decreases players.len(),
{
    if players.len() > 0 {
        let init = players.drop_last();
        let last = players.last();
        lemma_without(init, excluded, player);
        let w = without(init, excluded);
        if players.contains(player) {
            let i = choose|i: int| 0 <= i < players.len() && players[i] == player;
            if i < init.len() {
                assert(init[i] == player);
            }
        }
        if init.contains(player) {
            let i = choose|i: int| 0 <= i < init.len() && init[i] == player;
            assert(players[i] == player);
        }
        if last != excluded {
            let r = w.push(last);
            assert(r[w.len() as int] == last);
            if w.contains(player) {
                let i = choose|i: int| 0 <= i < w.len() && w[i] == player;
                assert(r[i] == player);
            }
            if r.contains(player) {
                let i = choose|i: int| 0 <= i < r.len() && r[i] == player;
                if i < w.len() {
                    assert(w[i] == player);
                }
            }
            if players.no_duplicates() {
                assert(init.no_duplicates());
                assert forall|i: int, j: int| 0 <= i < r.len() && 0 <= j < r.len() && i
                    != j implies r[i] != r[j] by {
                    if i == w.len() {
                        lemma_without(init, excluded, r[j]);
                        assert(init.contains(r[j]));
                        let k = choose|k: int| 0 <= k < init.len() && init[k] == r[j];
                        assert(players[k] != players[players.len() - 1]);
                    } else if j == w.len() {
                        lemma_without(init, excluded, r[i]);
                        assert(init.contains(r[i]));
                        let k = choose|k: int| 0 <= k < init.len() && init[k] == r[i];
                        assert(players[k] != players[players.len() - 1]);
                    }
                }
            }
        } else {
            if players.no_duplicates() {
                assert(init.no_duplicates());
            }
        }
    }
}

/// A send to several peers extends what is pending for each of them by the
/// same bytes and the same instance references, and leaves every other peer
/// as it was.
pub proof fn lemma_enqueue_each(
    m: Seq<PacketView>,
    players: Seq<u64>,
    message: Seq<u8>,
    inst: Seq<u64>,
    player: u64,
)
    requires
        distinct(m),
        players.no_duplicates(),
    ensures
        distinct(enqueue_each(m, players, message, inst)),
        players.contains(player) ==> pending(enqueue_each(m, players, message, inst), player)
            == pending(m, player).with(message, inst),
        !players.contains(player) ==> pending(enqueue_each(m, players, message, inst), player)
            == pending(m, player),
    decreases players.len(),
{
    if players.len() > 0 {
        let init = players.drop_last();
        let last = players.last();
        assert(init.no_duplicates());
        lemma_enqueue_each(m, init, message, inst, player);
        let e = enqueue_each(m, init, message, inst);
        lemma_enqueue(e, last, message, inst, player);
        if player == last {
            if init.contains(player) {
                let i = choose|i: int| 0 <= i < init.len() && init[i] == player;
                assert(players[i] == players[players.len() - 1]);
            }
            assert(players[players.len() - 1] == player);
        } else {
            if players.contains(player) {
                let i = choose|i: int| 0 <= i < players.len() && players[i] == player;
                assert(init[i] == player);
            }
            if init.contains(player) {
                let i = choose|i: int| 0 <= i < init.len() && init[i] == player;
                assert(players[i] == player);
            }
        }
    }
}

/// What a flush sends to one peer: one packet with all that is pending for
/// the peer where bytes are pending, and nothing where none are.
pub proof fn lemma_ready(m: Seq<PacketView>, player: u64)
    requires
        distinct(m),
    ensures
        pending(m, player).buff.len() > 0 ==> sent_to(ready(m), player) == seq![
            pending(m, player),
        ],
        pending(m, player).buff.len() == 0 ==> sent_to(ready(m), player) == Seq::<
            PacketView,
        >::empty(),
    decreases m.len(),
{
    if m.len() > 0 {
        let init = m.drop_last();
        let last = m.last();
        lemma_ready(init, player);
        if last.buff.len() > 0 {
            assert(ready(m).drop_last() =~= ready(init));
        }
        if last.player == player {
            lemma_slot(m, m.len() - 1);
            if present(init, player) {
                let i = slot_of(init, player);
                assert(m[i].player == m[m.len() - 1].player);
            }
            assert(sent_to(ready(init), player) =~= Seq::<PacketView>::empty());
            if last.buff.len() > 0 {
                assert(sent_to(ready(m), player) =~= seq![last]);
            }
        } else {
            if present(m, player) {
                let i = slot_of(m, player);
                lemma_slot(m, i);
                assert(init[i] == m[i]);
                lemma_slot(init, i);
            } else {
                if present(init, player) {
                    let i = slot_of(init, player);
                    assert(m[i].player == player);
                }
            }
        }
    }
}

/// Fan-out: a send to several peers gives every recipient the same bytes
/// and the same instance references. On the reliable channel they are added
/// to what is pending for each recipient; on the unreliable channel each
/// recipient gets a packet that holds exactly them.
pub proof fn lemma_fan_out(
    s: SenderView,
    id: int,
    players: Seq<u64>,
    message: Seq<u8>,
    inst: Seq<u64>,
    player: u64,
)
    requires
        s.wf(),
        s.config.sends(EvSource::Server, id),
        players.no_duplicates(),
        players.contains(player),
    ensures
        s.deliver(id, players, message, inst).0.wf(),
        s.config.event(id).evty == EvType::Reliable ==> s.deliver(
            id,
            players,
            message,
            inst,
        ).0.pending(player).buff == s.pending(player).buff + message,
        s.config.event(id).evty == EvType::Reliable ==> s.deliver(
            id,
            players,
            message,
            inst,
        ).0.pending(player).inst == s.pending(player).inst + inst,
        s.config.event(id).evty == EvType::Reliable ==> s.deliver(
            id,
            players,
            message,
            inst,
        ).1.len() == 0,
        s.config.event(id).evty == EvType::Unreliable ==> s.deliver(id, players, message, inst).0
            == s,
        s.config.event(id).evty == EvType::Unreliable ==> s.deliver(
            id,
            players,
            message,
            inst,
        ).1.len() == players.len(),
        s.config.event(id).evty == EvType::Unreliable ==> forall|i: int|
            0 <= i < players.len() ==> (#[trigger] s.deliver(id, players, message, inst).1[i])
                == (PacketView { player: players[i], buff: message, inst }),
{
    lemma_enqueue_each(s.player_map, players, message, inst, player);
}

/// Batching: two reliable sends to one peer, then a flush, give that peer
/// exactly one packet, and it holds what was pending before, then the first
/// message, then the second. Where nothing was pending before, the packet
/// holds the two messages and nothing else.
pub proof fn lemma_batching(
    s: SenderView,
    first_id: int,
    second_id: int,
    player: u64,
    first: Seq<u8>,
    first_inst: Seq<u64>,
    second: Seq<u8>,
    second_inst: Seq<u64>,
)
    requires
        s.wf(),
        s.config.sends(EvSource::Server, first_id),
        s.config.sends(EvSource::Server, second_id),
        s.config.event(first_id).evty == EvType::Reliable,
        s.config.event(second_id).evty == EvType::Reliable,
        first.len() + second.len() > 0,
    ensures
        ({
            let t = s.deliver(first_id, seq![player], first, first_inst).0.deliver(
                second_id,
                seq![player],
                second,
                second_inst,
            ).0;
            &&& t.wf()
            &&& sent_to(ready(t.player_map), player) == seq![
                s.pending(player).with(first, first_inst).with(second, second_inst),
            ]
            &&& s.pending(player).buff.len() == 0 ==> sent_to(
                ready(t.player_map),
                player,
            )[0].buff == first + second
            &&& t.flushed().pending(player).buff.len() == 0
        }),
{
    let one = seq![player];
    assert(one.drop_last() =~= Seq::<u64>::empty());
    assert(one.last() == player);
    let m = s.player_map;
    assert(enqueue_each(m, one.drop_last(), first, first_inst) == m);
    let a = enqueue(m, player, first, first_inst);
    assert(enqueue_each(m, one, first, first_inst) == a);
    lemma_enqueue(m, player, first, first_inst, player);
    assert(enqueue_each(a, one.drop_last(), second, second_inst) == a);
    let b = enqueue(a, player, second, second_inst);
    assert(enqueue_each(a, one, second, second_inst) == b);
    lemma_enqueue(a, player, second, second_inst, player);
    lemma_ready(b, player);
    lemma_flushed(b);
    let packet = s.pending(player).with(first, first_inst).with(second, second_inst);
    assert(packet.buff.len() > 0);
    if s.pending(player).buff.len() == 0 {
        assert(packet.buff =~= first + second);
    }
}

/// A flush sends nothing to a peer without pending bytes, and a flush right
/// after a flush sends nothing at all.
pub proof fn lemma_flush_idle(m: Seq<PacketView>, player: u64)
    requires
        distinct(m),
    ensures
        pending(m, player).buff.len() == 0 ==> sent_to(ready(m), player).len() == 0,
        ready(flushed(m)).len() == 0,
    decreases m.len(),
{
    lemma_ready(m, player);
    if m.len() > 0 {
        lemma_flush_idle(m.drop_last(), player);
        assert(flushed(m).drop_last() =~= flushed(m.drop_last()));
    }
}

/// After a peer left, nothing is pending for it, and the others are as they
/// were.
pub proof fn lemma_removed(m: Seq<PacketView>, player: u64, other: u64)
    requires
        distinct(m),
    ensures
        distinct(removed(m, player)),
        pending(removed(m, player), player) == PacketView::blank(player),
        other != player ==> pending(removed(m, player), other) == pending(m, other),
{
    let r = removed(m, player);
    if present(m, player) {
        let i = slot_of(m, player);
        lemma_slot(m, i);
        assert forall|a: int, b: int| 0 <= a < b < r.len() implies r[a].player
            != r[b].player by {
            let a2 = if a < i { a } else { a + 1 };
            let b2 = if b < i { b } else { b + 1 };
            assert(r[a] == m[a2] && r[b] == m[b2]);
        }
        if present(r, player) {
            let j = slot_of(r, player);
            let j2 = if j < i { j } else { j + 1 };
            assert(r[j] == m[j2]);
            assert(m[j2].player == m[i].player);
            if j2 < i {
                assert(m[j2].player != m[i].player);
            } else {
                assert(m[i].player != m[j2].player);
            }
        }
        if other != player {
            if present(m, other) {
                let k = slot_of(m, other);
                lemma_slot(m, k);
                let k2 = if k < i { k } else { k - 1 };
                assert(r[k2] == m[k]);
                lemma_slot(r, k2);
            } else {
                if present(r, other) {
                    let j = slot_of(r, other);
                    let j2 = if j < i { j } else { j + 1 };
                    assert(r[j] == m[j2]);
                    assert(m[j2].player == other);
                }
            }
        }
    }
}

} // verus!
