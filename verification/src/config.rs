//! The declaration model: the ordered events and named types of a schema,
//! and the options of one generation.

use vstd::prelude::*;
use crate::text::joined;

verus! {

/// The peer that sends an event.
#[derive(Clone, Copy, Debug, PartialEq, Eq, Structural)]
pub enum EvSource {
    Server,
    Client,
}

/// The channel that carries an event.
#[derive(Clone, Copy, Debug, PartialEq, Eq, Structural)]
pub enum EvType {
    /// Ordered and guaranteed; batched per peer until the next flush.
    Reliable,
    /// Best effort; every send is a packet of its own.
    Unreliable,
}

/// How the receiver keeps and calls the handlers of an event.
#[derive(Clone, Copy, Debug, PartialEq, Eq, Structural)]
pub enum EvCall {
    /// At most one handler, called on the decoding thread.
    SingleSync,
    /// At most one handler, scheduled on its own.
    SingleAsync,
    /// A list of handlers, called in registration order.
    ManySync,
    /// A list of handlers, each scheduled on its own.
    ManyAsync,
}

impl EvCall {
    /// Whether the registry keeps one handler (and not a list) for this mode.
    pub open spec fn is_single(self) -> bool {
        self == EvCall::SingleSync || self == EvCall::SingleAsync
    }

    /// Whether the handlers run on the decoding thread.
    pub open spec fn is_sync(self) -> bool {
        self == EvCall::SingleSync || self == EvCall::ManySync
    }

    /// Whether the registry keeps one handler for this mode.
    pub fn single(self) -> (b: bool)
        ensures
            b == self.is_single(),
    {
        match self {
            EvCall::SingleSync | EvCall::SingleAsync => true,
            EvCall::ManySync | EvCall::ManyAsync => false,
        }
    }

    /// Whether the handlers run on the decoding thread.
    pub fn sync(self) -> (b: bool)
        ensures
            b == self.is_sync(),
    {
        match self {
            EvCall::SingleSync | EvCall::ManySync => true,
            EvCall::SingleAsync | EvCall::ManyAsync => false,
        }
    }
}

/// The spelling convention of generated identifiers. It changes names only,
/// never the protocol.
#[derive(Clone, Copy, Debug, PartialEq, Eq, Structural)]
pub enum Casing {
    Pascal,
    Camel,
    Snake,
}

impl Casing {
    /// The spelling that this convention selects among three.
    pub open spec fn pick(self, pascal: Seq<char>, camel: Seq<char>, snake: Seq<char>) -> Seq<
        char,
    > {
        match self {
            Casing::Pascal => pascal,
            Casing::Camel => camel,
            Casing::Snake => snake,
        }
    }

    /// The name of the flush function, where the host calls it.
    pub open spec fn send_events(self) -> Seq<char> {
        self.pick("SendEvents"@, "sendEvents"@, "send_events"@)
    }

    /// The name of the send to one peer.
    pub open spec fn fire(self) -> Seq<char> {
        self.pick("Fire"@, "fire"@, "fire"@)
    }

    /// The name of the send to every peer.
    pub open spec fn fire_all(self) -> Seq<char> {
        self.pick("FireAll"@, "fireAll"@, "fire_all"@)
    }

    /// The name of the send to every peer but one.
    pub open spec fn fire_except(self) -> Seq<char> {
        self.pick("FireExcept"@, "fireExcept"@, "fire_except"@)
    }

    /// The name of the send to a list of peers.
    pub open spec fn fire_list(self) -> Seq<char> {
        self.pick("FireList"@, "fireList"@, "fire_list"@)
    }

    /// The name of the operation that sets the one handler of an event.
    pub open spec fn set_callback(self) -> Seq<char> {
        self.pick("SetCallback"@, "setCallback"@, "set_callback"@)
    }

    /// The name of the operation that adds a handler of an event.
    pub open spec fn on(self) -> Seq<char> {
        self.pick("On"@, "on"@, "on"@)
    }

    /// The name of the parameter that holds the target peer.
    pub open spec fn player(self) -> Seq<char> {
        self.pick("Player"@, "player"@, "player"@)
    }

    /// The name of the parameter that holds the payload.
    pub open spec fn value(self) -> Seq<char> {
        self.pick("Value"@, "value"@, "value"@)
    }

    /// The name of the parameter that holds the excluded peer.
    pub open spec fn except(self) -> Seq<char> {
        self.pick("Except"@, "except"@, "except"@)
    }

    /// The name of the parameter that holds the list of target peers.
    pub open spec fn list(self) -> Seq<char> {
        self.pick("List"@, "list"@, "list"@)
    }

    /// The name of the parameter that holds the handler.
    pub open spec fn callback(self) -> Seq<char> {
        self.pick("Callback"@, "callback"@, "callback"@)
    }

    /// The spelling that this convention selects among three.
    pub fn with<'a>(&self, pascal: &'a str, camel: &'a str, snake: &'a str) -> (s: &'a str)
        ensures
            s@ == self.pick(pascal@, camel@, snake@),
    {
        match self {
            Casing::Pascal => pascal,
            Casing::Camel => camel,
            Casing::Snake => snake,
        }
    }
}

/// The unsigned integer type that carries an event id on the wire.
#[derive(Clone, Copy, Debug, PartialEq, Eq, Structural)]
pub enum NumTy {
    U8,
    U16,
    U32,
}

impl NumTy {
    /// The width in bytes.
    pub open spec fn width(self) -> nat {
        match self {
            NumTy::U8 => 1,
            NumTy::U16 => 2,
            NumTy::U32 => 4,
        }
    }

    /// The largest id that the type can carry.
    pub open spec fn max(self) -> nat {
        match self {
            NumTy::U8 => 0xff,
            NumTy::U16 => 0xffff,
            NumTy::U32 => 0xffff_ffff,
        }
    }

    /// The suffix of the buffer accessors for this type.
    pub open spec fn suffix(self) -> Seq<char> {
        match self {
            NumTy::U8 => "u8"@,
            NumTy::U16 => "u16"@,
            NumTy::U32 => "u32"@,
        }
    }

    /// The width in bytes.
    pub fn size(self) -> (n: usize)
        ensures
            n == self.width(),
    {
        match self {
            NumTy::U8 => 1,
            NumTy::U16 => 2,
            NumTy::U32 => 4,
        }
    }

    /// The largest id that the type can carry.
    pub fn limit(self) -> (n: u64)
        ensures
            n == self.max(),
    {
        match self {
            NumTy::U8 => 0xff,
            NumTy::U16 => 0xffff,
            NumTy::U32 => 0xffff_ffff,
        }
    }

    /// The suffix of the buffer accessors for this type.
    pub fn name(self) -> (s: &'static str)
        ensures
            s@ == self.suffix(),
    {
        match self {
            NumTy::U8 => "u8",
            NumTy::U16 => "u16",
            NumTy::U32 => "u32",
        }
    }
}

/// One statement that the type codec produced: a line with gaps where the
/// name of the value goes. The generator fills the gaps with the name that
/// the value has where the statement is emitted.
#[derive(Clone, Debug)]
pub struct Stmt {
    /// Nesting depth below the place where the sequence is emitted.
    pub depth: u32,
    /// Whether the statement only validates a value and writes nothing.
    /// Among the statements that write a value, the validating ones are
    /// emitted first, as a group and in their order, so that a value that
    /// fails is refused before a byte is written; the depth of each counts
    /// within that group. They are left out where write checks are switched
    /// off.
    pub check: bool,
    /// The pieces of the line. The name of the value stands between each two
    /// of them: a line that names the value twice has three pieces.
    pub parts: Vec<String>,
}

pub struct StmtView {
    pub depth: nat,
    pub check: bool,
    pub parts: Seq<Seq<char>>,
}

impl View for Stmt {
    type V = StmtView;

    open spec fn view(&self) -> StmtView {
        StmtView {
            depth: self.depth as nat,
            check: self.check,
            parts: self.parts@.map_values(|p: String| p@),
        }
    }
}

impl StmtView {
    /// The line, with `name` in every gap.
    pub open spec fn text(self, name: Seq<char>) -> Seq<char> {
        joined(self.parts, name)
    }
}

impl Stmt {
    /// The line, with `name` in every gap.
    pub fn render(&self, name: &str) -> (s: String)
        ensures
            s@ == self@.text(name@),
    {
        let ghost parts = self@.parts;
        let mut s = String::new();
        let mut i: usize = 0;
        while i < self.parts.len()
            invariant
                i <= self.parts.len(),
                parts == self@.parts,
                parts.len() == self.parts.len(),
                s@ == joined(parts.take(i as int), name@),
            decreases self.parts.len() - i,
        {
            let ghost before = s@;
            if i > 0 {
                s.append(name);
            }
            s.append(self.parts[i].as_str());
            proof {
                let next = parts.take(i + 1);
                assert(next.drop_last() =~= parts.take(i as int));
                assert(next.last() == self.parts@[i as int]@);
                if i == 0 {
                    assert(s@ =~= next[0]);
                } else {
                    assert(s@ =~= before + name@ + next.last());
                }
            }
            i += 1;
        }
        assert(parts.take(i as int) =~= parts);
        s
    }
}

/// The views of a sequence of statements, one for one.
pub open spec fn stmts_view(stmts: Seq<Stmt>) -> Seq<StmtView> {
    stmts.map_values(|s: Stmt| s@)
}

/// What the type codec hands over for one payload type.
#[derive(Clone, Debug)]
pub struct Ty {
    /// The type expression as the Luau backend writes it.
    pub luau: String,
    /// The type expression as the TypeScript backend writes it.
    pub ts: String,
    /// The statements that write a value of the type to the outgoing buffer.
    pub ser: Vec<Stmt>,
    /// The statements that read a value of the type from the incoming buffer
    /// into `value`. All of them are emitted, in their order.
    pub des: Vec<Stmt>,
}

pub struct TyView {
    pub luau: Seq<char>,
    pub ts: Seq<char>,
    pub ser: Seq<StmtView>,
    pub des: Seq<StmtView>,
}

impl View for Ty {
    type V = TyView;

    open spec fn view(&self) -> TyView {
        TyView {
            luau: self.luau@,
            ts: self.ts@,
            ser: stmts_view(self.ser@),
            des: stmts_view(self.des@),
        }
    }
}

/// A named, reusable payload type.
#[derive(Clone, Debug)]
pub struct TyDecl {
    pub name: String,
    pub ty: Ty,
}

pub struct TyDeclView {
    pub name: Seq<char>,
    pub ty: TyView,
}

impl View for TyDecl {
    type V = TyDeclView;

    open spec fn view(&self) -> TyDeclView {
        TyDeclView { name: self.name@, ty: self.ty@ }
    }
}

/// One declared event.
#[derive(Clone, Debug)]
pub struct EvDecl {
    pub name: String,
    pub from: EvSource,
    pub evty: EvType,
    pub call: EvCall,
    pub data: Ty,
}

pub struct EvDeclView {
    pub name: Seq<char>,
    pub from: EvSource,
    pub evty: EvType,
    pub call: EvCall,
    pub data: TyView,
}

impl View for EvDecl {
    type V = EvDeclView;

    open spec fn view(&self) -> EvDeclView {
        EvDeclView {
            name: self.name@,
            from: self.from,
            evty: self.evty,
            call: self.call,
            data: self.data@,
        }
    }
}

/// A validated schema and the options of one generation.
#[derive(Clone, Debug)]
pub struct Config {
    pub tydecls: Vec<TyDecl>,
    /// The events. The order is part of the wire format: the id of an event
    /// is its position here, counted from 1.
    pub evdecls: Vec<EvDecl>,
    /// Whether values are validated before they are written.
    pub write_checks: bool,
    /// Whether the TypeScript surface is wanted.
    pub typescript: bool,
    /// Whether the flush is a function for the host to call, and not a task
    /// on the frame scheduler.
    pub manual_event_loop: bool,
    pub casing: Casing,
    /// The integer type of event ids on the wire.
    pub event_id_ty: NumTy,
    /// The source of the buffer allocator and of the transport bindings,
    /// which a generated server module starts with.
    pub runtime: String,
}

pub struct ConfigView {
    pub tydecls: Seq<TyDeclView>,
    pub evdecls: Seq<EvDeclView>,
    pub write_checks: bool,
    pub typescript: bool,
    pub manual_event_loop: bool,
    pub casing: Casing,
    pub event_id_ty: NumTy,
    pub runtime: Seq<char>,
}

impl View for Config {
    type V = ConfigView;

    open spec fn view(&self) -> ConfigView {
        ConfigView {
            tydecls: self.tydecls@.map_values(|t: TyDecl| t@),
            evdecls: self.evdecls@.map_values(|e: EvDecl| e@),
            write_checks: self.write_checks,
            typescript: self.typescript,
            manual_event_loop: self.manual_event_loop,
            casing: self.casing,
            event_id_ty: self.event_id_ty,
            runtime: self.runtime@,
        }
    }
}

impl ConfigView {
    /// The id type is wide enough for every declared event.
    pub open spec fn wf(self) -> bool {
        self.evdecls.len() <= self.event_id_ty.max()
    }
}

impl Config {
    /// Whether the id type is wide enough for every declared event.
    pub fn is_valid(&self) -> (b: bool)
        ensures
            b == self@.wf(),
    {
        self.evdecls.len() as u64 <= self.event_id_ty.limit()
    }
}

} // verus!
