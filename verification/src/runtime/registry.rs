//! The registry of handlers: one slot for every declared event, filled by
//! the registration operations and read by the decode loops.

use vstd::prelude::*;
use crate::config::{Config, ConfigView, EvSource, EvType};
use crate::protocol::UnknownId;

verus! {

/// The handlers of one event.
#[derive(Debug)]
pub enum Slot {
    /// No handler.
    Empty,
    /// The one handler of an event that keeps a single one.
    One(u64),
    /// The handlers of an event that keeps many, in registration order.
    Many(Vec<u64>),
}

pub enum SlotView {
    Empty,
    One(u64),
    Many(Seq<u64>),
}

impl View for Slot {
    type V = SlotView;

    open spec fn view(&self) -> SlotView {
        match self {
            Slot::Empty => SlotView::Empty,
            Slot::One(h) => SlotView::One(*h),
            Slot::Many(hs) => SlotView::Many(hs@),
        }
    }
}

impl SlotView {
    /// The handlers that a matching message reaches, in calling order.
    pub open spec fn handlers(self) -> Seq<u64> {
        match self {
            SlotView::Empty => Seq::empty(),
            SlotView::One(h) => seq![h],
            SlotView::Many(hs) => hs,
        }
    }
}

/// One handler to run for a decoded message.
#[derive(Clone, Copy, Debug, PartialEq, Eq, Structural)]
pub struct Call {
    pub handler: u64,
    /// Whether the handler is scheduled on its own, so that decoding goes on
    /// without waiting for it. Otherwise it runs on the decoding thread and
    /// returns before the next message is decoded.
    pub spawn: bool,
}

/// Why a registration was refused.
#[derive(Clone, Copy, Debug, PartialEq, Eq, Structural)]
pub enum RegisterError {
    /// The id names no event that this peer receives.
    UnknownEvent,
    /// The event has the other kind of slot: one handler where one more was
    /// to be added, or a list where the one handler was to be set.
    WrongMode,
}

/// The registry of one peer.
pub struct Registry<'src> {
    config: &'src Config,
    peer: EvSource,
    slots: Vec<Slot>,
}

pub struct RegistryView {
    pub config: ConfigView,
    pub peer: EvSource,
    /// The slot of each declaration, by position.
    pub slots: Seq<SlotView>,
}

impl<'src> View for Registry<'src> {
    type V = RegistryView;

    closed spec fn view(&self) -> RegistryView {
        RegistryView {
            config: self.config@,
            peer: self.peer,
            slots: self.slots@.map_values(|s: Slot| s@),
        }
    }
}

impl RegistryView {
    /// There is a slot for every declaration. It is a list exactly where the
    /// peer receives the event and the event keeps many handlers, and it is
    /// empty where the peer does not receive the event.
    pub open spec fn wf(self) -> bool {
        &&& self.slots.len() == self.config.evdecls.len()
        &&& forall|i: int|
            0 <= i < self.slots.len() ==> ((#[trigger] self.slots[i]) is Many
                <==> self.config.evdecls[i].keeps_list(self.peer))
        &&& forall|i: int|
            0 <= i < self.slots.len() && !self.config.evdecls[i].listened(self.peer) ==> (
            #[trigger] self.slots[i]) is Empty
    }

    /// The handlers registered for `id`, in calling order.
    pub open spec fn handlers(self, id: int) -> Seq<u64>
        recommends
            self.config.declares(id),
    {
        self.slots[id - 1].handlers()
    }

    /// `id` has the operation that sets the one handler.
    pub open spec fn accepts_set(self, id: int) -> bool {
        self.config.listens(self.peer, id) && self.config.event(id).call.is_single()
    }

    /// `id` has the operation that adds a handler.
    pub open spec fn accepts_on(self, id: int) -> bool {
        self.config.listens(self.peer, id) && !self.config.event(id).call.is_single()
    }

    /// The registry after `handler` was set for `id`.
    pub open spec fn set(self, id: int, handler: u64) -> RegistryView {
        RegistryView { slots: self.slots.update(id - 1, SlotView::One(handler)), ..self }
    }

    /// The registry after `handler` was added for `id`.
    pub open spec fn on(self, id: int, handler: u64) -> RegistryView {
        RegistryView {
            slots: self.slots.update(id - 1, SlotView::Many(self.handlers(id).push(handler))),
            ..self
        }
    }

    /// What a decoded message with `id` sets off: every registered handler,
    /// in calling order, each run in the way that the dispatch mode of the
    /// event asks for.
    pub open spec fn calls(self, id: int) -> Seq<Call> {
        self.handlers(id).map_values(
            |h: u64| Call { handler: h, spawn: !self.config.event(id).call.is_sync() },
        )
    }
}

impl<'src> Registry<'src> {
    /// The registry of `peer` before any registration: a slot for every
    /// declaration, and no handler in any.
    pub fn new(config: &'src Config, peer: EvSource) -> (r: Self)
        ensures
            r@.wf(),
            r@.config == config@,
            r@.peer == peer,
            forall|i: int| 0 <= i < r@.slots.len() ==> (#[trigger] r@.slots[i]).handlers().len() == 0,
    {
        let mut slots: Vec<Slot> = Vec::new();
        let mut i: usize = 0;
        while i < config.evdecls.len()
            invariant
                i <= config.evdecls.len(),
                slots@.len() == i,
                forall|k: int|
                    0 <= k < i ==> ((#[trigger] slots@[k])@ is Many
                        <==> config@.evdecls[k].keeps_list(peer)),
                forall|k: int| 0 <= k < i ==> (#[trigger] slots@[k])@ is Many || slots@[k]@ is Empty,
                forall|k: int| 0 <= k < i ==> (#[trigger] slots@[k])@.handlers().len() == 0,
            decreases config.evdecls.len() - i,
        {
            let ev = &config.evdecls[i];
            assert(ev@ == config@.evdecls[i as int]);
            if ev.is_listened(peer) && !ev.call.single() {
                slots.push(Slot::Many(Vec::new()));
            } else {
                slots.push(Slot::Empty);
            }
            i += 1;
        }
        Registry { config, peer, slots }
    }

    /// Sets the one handler of `id`. A handler set before is gone.
    pub fn set_callback(&mut self, id: usize, handler: u64) -> (r: Result<(), RegisterError>)
        requires
            old(self)@.wf(),
        ensures
            final(self)@.wf(),
            (match r {
                Ok(()) => old(self)@.accepts_set(id as int) && final(self)@ == old(self)@.set(
                    id as int,
                    handler,
                ),
                Err(e) => {
                    &&& !old(self)@.accepts_set(id as int)
                    &&& final(self)@ == old(self)@
                    &&& e == RegisterError::UnknownEvent <==> !old(self)@.config.listens(
                        old(self)@.peer,
                        id as int,
                    )
                },
            }),
    {
        let index: usize = match self.config.find(id) {
            Ok(index) => index,
            Err(_) => {
                return Err(RegisterError::UnknownEvent);
            },
        };
        let ev = &self.config.evdecls[index];
        assert(ev@ == self.config@.evdecls[index as int]);
        if !ev.is_listened(self.peer) {
            return Err(RegisterError::UnknownEvent);
        }
        if !ev.call.single() {
            return Err(RegisterError::WrongMode);
        }
        self.slots.set(index, Slot::One(handler));
        assert(self@.slots =~= old(self)@.set(id as int, handler).slots);
        Ok(())
    }

    /// Adds a handler of `id` behind those registered before.
    pub fn on(&mut self, id: usize, handler: u64) -> (r: Result<(), RegisterError>)
        requires
            old(self)@.wf(),
        ensures
            final(self)@.wf(),
            (match r {
                Ok(()) => old(self)@.accepts_on(id as int) && final(self)@ == old(self)@.on(
                    id as int,
                    handler,
                ),
                Err(e) => {
                    &&& !old(self)@.accepts_on(id as int)
                    &&& final(self)@ == old(self)@
                    &&& e == RegisterError::UnknownEvent <==> !old(self)@.config.listens(
                        old(self)@.peer,
                        id as int,
                    )
                },
            }),
    {
        let index: usize = match self.config.find(id) {
            Ok(index) => index,
            Err(_) => {
                return Err(RegisterError::UnknownEvent);
            },
        };
        let ev = &self.config.evdecls[index];
        assert(ev@ == self.config@.evdecls[index as int]);
        if !ev.is_listened(self.peer) {
            return Err(RegisterError::UnknownEvent);
        }
        if ev.call.single() {
            return Err(RegisterError::WrongMode);
        }
        assert(old(self)@.slots[index as int] is Many);
        match &mut self.slots[index] {
            Slot::Many(hs) => {
                hs.push(handler);
            },
            _ => {},
        }
        assert(self@.slots =~= old(self)@.on(id as int, handler).slots);
        Ok(())
    }

    /// What a message with `id` on the channel `evty` sets off: the handlers to
    /// run, in order. An id that names no event that this peer receives on
    /// that channel is a failure, and no handler runs.
    pub fn dispatch(&self, evty: EvType, id: usize) -> (r: Result<Vec<Call>, UnknownId>)
        requires
            self@.wf(),
        ensures
            (match r {
                Ok(calls) => self@.config.decodes(self@.peer, evty, id as int) && calls@
                    == self@.calls(id as int),
                Err(e) => !self@.config.decodes(self@.peer, evty, id as int) && e.id == id,
            }),
    {
        let index: usize = match self.config.decode(self.peer, evty, id) {
            Ok(index) => index,
            Err(e) => {
                return Err(e);
            },
        };
        let ev = &self.config.evdecls[index];
        assert(ev@ == self.config@.evdecls[index as int]);
        let spawn = !ev.call.sync();
        let mut calls: Vec<Call> = Vec::new();
        match &self.slots[index] {
            Slot::Empty => {},
            Slot::One(h) => {
                calls.push(Call { handler: *h, spawn });
            },
            Slot::Many(hs) => {
                let mut k: usize = 0;
                while k < hs.len()
                    invariant
                        k <= hs.len(),
                        calls@ == hs@.take(k as int).map_values(
                            |h: u64| Call { handler: h, spawn },
                        ),
                    decreases hs.len() - k,
                {
                    calls.push(Call { handler: hs[k], spawn });
                    k += 1;
                    assert(calls@ =~= hs@.take(k as int).map_values(
                        |h: u64| Call { handler: h, spawn },
                    ));
                }
                assert(hs@.take(k as int) =~= hs@);
            },
        }
        assert(calls@ =~= self@.calls(id as int));
        Ok(calls)
    }
}

/// Setting the one handler of an event overwrites: of two handlers set one
/// after the other, only the second is left, and a message reaches it alone.
pub proof fn lemma_set_overwrites(r: RegistryView, id: int, x: u64, y: u64)
    requires
        r.wf(),
        r.accepts_set(id),
    ensures
        r.set(id, x).set(id, y).wf(),
        r.set(id, x).set(id, y).handlers(id) == seq![y],
        r.set(id, x).set(id, y).calls(id) == seq![
            (Call { handler: y, spawn: !r.config.event(id).call.is_sync() }),
        ],
{
    let s = r.set(id, x).set(id, y);
    assert(s.calls(id) =~= seq![Call { handler: y, spawn: !r.config.event(id).call.is_sync() }]);
}

/// Adding a handler of an event appends: of two handlers added one after the
/// other, both are left behind those that were there, the first before the
/// second, and a message reaches them in that order.
pub proof fn lemma_on_appends(r: RegistryView, id: int, x: u64, y: u64)
    requires
        r.wf(),
        r.accepts_on(id),
    ensures
        r.on(id, x).on(id, y).wf(),
        r.on(id, x).on(id, y).handlers(id) == r.handlers(id) + seq![x, y],
        r.on(id, x).on(id, y).calls(id) == r.calls(id) + seq![
            (Call { handler: x, spawn: !r.config.event(id).call.is_sync() }),
            (Call { handler: y, spawn: !r.config.event(id).call.is_sync() }),
        ],
{
    let s = r.on(id, x).on(id, y);
    assert(s.handlers(id) =~= r.handlers(id) + seq![x, y]);
    assert(s.calls(id) =~= r.calls(id) + seq![
        Call { handler: x, spawn: !r.config.event(id).call.is_sync() },
        Call { handler: y, spawn: !r.config.event(id).call.is_sync() },
    ]);
}

/// A registration for one event leaves the handlers of every other event as
/// they were.
pub proof fn lemma_registration_is_local(r: RegistryView, id: int, other: int, h: u64)
    requires
        r.wf(),
        r.config.declares(id),
        r.config.declares(other),
        id != other,
    ensures
        r.set(id, h).handlers(other) == r.handlers(other),
        r.on(id, h).handlers(other) == r.handlers(other),
{
}

} // verus!
