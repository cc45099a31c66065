//! The client surface of the TypeScript backend.

use vstd::prelude::*;
use crate::config::{Config, ConfigView, EvCall, EvDeclView, EvSource, TyDecl, TyDeclView};
use crate::output::Output;
use crate::protocol::{listen_ids, send_ids};
use crate::output::typescript::{
    file_header_text, manual_event_loop_text, push_file_header, push_manual_event_loop,
};
use crate::text::{cat3, lemma_concat_assoc, lemma_concat_empty, line, tabs};

verus! {

broadcast use {lemma_concat_assoc, lemma_concat_empty};

/// A named type.
pub open spec fn tydecl_text(t: TyDeclView, d: nat) -> Seq<char> {
    tabs(d) + "type "@ + t.name + " = "@ + t.ty.ts + "\n"@
}

/// The first `n` named types, in declaration order.
pub open spec fn tydecl_list_text(c: ConfigView, n: nat, d: nat) -> Seq<char>
    decreases n,
{
    if n == 0 {
        Seq::empty()
    } else {
        tydecl_list_text(c, (n - 1) as nat, d) + tydecl_text(c.tydecls[n - 1], d)
    }
}

/// The named types, with an empty line behind them where there are any.
#[verifier::opaque]
pub open spec fn tydecls_text(c: ConfigView, d: nat) -> Seq<char> {
    tydecl_list_text(c, c.tydecls.len(), d) + (if c.tydecls.len() > 0 {
        "\n"@
    } else {
        Seq::empty()
    })
}

/// The one send operation of an event that the client sends. The sender is
/// the one connected peer, so there is no choice of target.
#[verifier::opaque]
pub open spec fn outgoing_text(c: ConfigView, ev: EvDeclView, d: nat) -> Seq<char> {
    line(d, "export const "@ + ev.name + ": {"@)
        + (tabs(d + 1) + c.casing.fire() + ": ("@ + c.casing.value() + ": "@ + ev.data.ts
        + ") => void\n"@)
        + line(d, "};"@)
}

/// The send operations of the events that `ids` name, a block for each, in
/// order.
pub open spec fn outgoing_blocks_text(c: ConfigView, ids: Seq<int>, d: nat) -> Seq<char>
    decreases ids.len(),
{
    if ids.len() == 0 {
        Seq::empty()
    } else {
        outgoing_blocks_text(c, ids.drop_last(), d) + outgoing_text(c, c.event(ids.last()), d)
    }
}

/// The send operations of the first `n` declarations: a block for each event
/// that the client sends and for no other, in declaration order.
pub open spec fn return_outgoing_text(c: ConfigView, n: nat, d: nat) -> Seq<char> {
    outgoing_blocks_text(c, send_ids(c, EvSource::Client, n), d)
}

/// The name of the registration operation for a dispatch mode: one handler
/// is set, one of many is added.
pub open spec fn register_name(c: ConfigView, call: EvCall) -> Seq<char> {
    if call.is_single() {
        c.casing.set_callback()
    } else {
        c.casing.on()
    }
}

/// The registration operation of an event that the client receives.
#[verifier::opaque]
pub open spec fn listen_text(c: ConfigView, ev: EvDeclView, d: nat) -> Seq<char> {
    line(d, "export const "@ + ev.name + ": {"@)
        + (tabs(d + 1) + register_name(c, ev.call) + ": ("@ + c.casing.callback() + ": ("@
        + c.casing.value() + ": "@ + ev.data.ts + ") => void) => void\n"@)
        + line(d, "};"@)
}

/// The registration operations of the events that `ids` name, a block for
/// each, in order.
pub open spec fn listen_blocks_text(c: ConfigView, ids: Seq<int>, d: nat) -> Seq<char>
    decreases ids.len(),
{
    if ids.len() == 0 {
        Seq::empty()
    } else {
        listen_blocks_text(c, ids.drop_last(), d) + listen_text(c, c.event(ids.last()), d)
    }
}

/// The registration operations of the first `n` declarations: a block for
/// each event that the client receives and for no other, in declaration
/// order.
pub open spec fn return_listen_text(c: ConfigView, n: nat, d: nat) -> Seq<char> {
    listen_blocks_text(c, listen_ids(c, EvSource::Client, n), d)
}

/// The public surface: the send operations, then the registration
/// operations.
pub open spec fn return_text(c: ConfigView, d: nat) -> Seq<char> {
    return_outgoing_text(c, c.evdecls.len(), d) + return_listen_text(c, c.evdecls.len(), d)
}

/// The client surface: the opening comment and all that follows it. A
/// schema without events gives nothing at all.
#[verifier::opaque]
pub open spec fn output_text(c: ConfigView, d: nat) -> Seq<char> {
    if c.evdecls.len() == 0 {
        Seq::empty()
    } else {
        file_header_text("Client"@, d) + (if c.manual_event_loop {
            manual_event_loop_text(c, d)
        } else {
            Seq::empty()
        }) + tydecls_text(c, d) + return_text(c, d)
    }
}

/// The generator of the client surface.
pub struct ClientOutput<'src> {
    config: &'src Config,
    out: Output,
}

impl<'src> View for ClientOutput<'src> {
    type V = Seq<char>;

    /// The text generated so far.
    closed spec fn view(&self) -> Seq<char> {
        self.out@
    }
}

impl<'src> ClientOutput<'src> {
    /// The schema that the surface is generated from.
    pub closed spec fn config(&self) -> ConfigView {
        self.config@
    }

    /// The current nesting depth.
    pub closed spec fn depth(&self) -> nat {
        self.out.depth()
    }

    /// `self` is `pre` with `text` appended, at the same depth and for the
    /// same schema.
    pub open spec fn follows(&self, pre: &Self, text: Seq<char>) -> bool {
        &&& self@ == pre@ + text
        &&& self.depth() == pre.depth()
        &&& self.config() == pre.config()
    }

    /// A generator for `config` that has written nothing yet.
    pub fn new(config: &'src Config) -> (out: Self)
        ensures
            out@ == Seq::<char>::empty(),
            out.depth() == 0,
            out.config() == config@,
    {
        Self { config, out: Output::new() }
    }

    /// Appends a named type.
    pub fn push_tydecl(&mut self, tydecl: &TyDecl)
        ensures
            final(self).follows(old(self), tydecl_text(tydecl@, old(self).depth())),
    {
        let name = tydecl.name.as_str();
        let ty = &tydecl.ty;

        self.out.push_indent();
        self.out.push(cat3("type ", name, " = ").as_str());
        self.out.push(ty.ts.as_str());
        self.out.push("\n");
    }

    /// Appends the named types, and an empty line behind them where there are
    /// any.
    pub fn push_tydecls(&mut self)
        ensures
            final(self).follows(old(self), tydecls_text(old(self).config(), old(self).depth())),
    {
        let config = self.config;
        let mut i: usize = 0;
        while i < config.tydecls.len()
            invariant
                i <= config.tydecls.len(),
                config@ == self.config(),
                self.follows(
                    old(self),
                    tydecl_list_text(old(self).config(), i as nat, old(self).depth()),
                ),
            decreases config.tydecls.len() - i,
        {
            self.push_tydecl(&config.tydecls[i]);
            i += 1;
        }

        if config.tydecls.len() != 0 {
            self.out.push("\n")
        }

        proof {
            reveal(tydecls_text);
        }
    }

    /// Appends the send operations: for each event that the client sends, in
    /// declaration order, a block with the signature of the one send.
    pub fn push_return_outgoing(&mut self)
        requires
            old(self).depth() < u32::MAX,
        ensures
            final(self).follows(
                old(self),
                return_outgoing_text(
                    old(self).config(),
                    old(self).config().evdecls.len(),
                    old(self).depth(),
                ),
            ),
    {
        let config = self.config;
        let mut i: usize = 0;
        while i < config.evdecls.len()
            invariant
                i <= config.evdecls.len(),
                config@ == self.config(),
                self.depth() < u32::MAX,
                self.follows(
                    old(self),
                    return_outgoing_text(old(self).config(), i as nat, old(self).depth()),
                ),
            decreases config.evdecls.len() - i,
        {
            let ev = &config.evdecls[i];
            assert(ev@ == config@.evdecls[i as int]);
            proof {
                let ids = send_ids(config@, EvSource::Client, i as nat);
                let next = send_ids(config@, EvSource::Client, (i + 1) as nat);
                assert(next.len() > ids.len() ==> next.drop_last() =~= ids && next.last() == i + 1);
            }
            if ev.is_outgoing(EvSource::Client) {
                let fire = config.casing.with("Fire", "fire", "fire");
                let value = config.casing.with("Value", "value", "value");

                self.out.push_line(cat3("export const ", ev.name.as_str(), ": {").as_str());
                self.out.indent();

                self.out.push_indent();
                self.out.push(fire);
                self.out.push(": (");
                self.out.push(value);
                self.out.push(": ");
                self.out.push(ev.data.ts.as_str());
                self.out.push(") => void\n");

                self.out.dedent();
                self.out.push_line("};");

                proof {
                    reveal(outgoing_text);
                }
            }
            i += 1;
        }
    }

    /// Appends the registration operations: for each event that the server
    /// sends, in declaration order, a block under the event's name with the
    /// signature of the operation that sets the one handler or adds one of
    /// many.
    pub fn push_return_listen(&mut self)
        requires
            old(self).depth() < u32::MAX,
        ensures
            final(self).follows(
                old(self),
                return_listen_text(
                    old(self).config(),
                    old(self).config().evdecls.len(),
                    old(self).depth(),
                ),
            ),
    {
        let config = self.config;
        let mut i: usize = 0;
        while i < config.evdecls.len()
            invariant
                i <= config.evdecls.len(),
                config@ == self.config(),
                self.depth() < u32::MAX,
                self.follows(
                    old(self),
                    return_listen_text(old(self).config(), i as nat, old(self).depth()),
                ),
            decreases config.evdecls.len() - i,
        {
            let ev = &config.evdecls[i];
            assert(ev@ == config@.evdecls[i as int]);
            proof {
                let ids = listen_ids(config@, EvSource::Client, i as nat);
                let next = listen_ids(config@, EvSource::Client, (i + 1) as nat);
                assert(next.len() > ids.len() ==> next.drop_last() =~= ids && next.last() == i + 1);
            }
            if ev.is_listened(EvSource::Client) {
                let set_callback = match ev.call {
                    EvCall::SingleSync | EvCall::SingleAsync => {
                        config.casing.with("SetCallback", "setCallback", "set_callback")
                    },
                    EvCall::ManySync | EvCall::ManyAsync => config.casing.with("On", "on", "on"),
                };
                let callback = config.casing.with("Callback", "callback", "callback");
                let value = config.casing.with("Value", "value", "value");

                self.out.push_line(cat3("export const ", ev.name.as_str(), ": {").as_str());
                self.out.indent();

                self.out.push_indent();
                self.out.push(set_callback);
                self.out.push(": (");
                self.out.push(callback);
                self.out.push(": (");
                self.out.push(value);
                self.out.push(": ");
                self.out.push(ev.data.ts.as_str());
                self.out.push(") => void) => void\n");

                self.out.dedent();
                self.out.push_line("};");

                proof {
                    reveal(listen_text);
                }
            }
            i += 1;
        }
    }

    /// Appends the public surface: the send operations, then the
    /// registration operations.
    pub fn push_return(&mut self)
        requires
            old(self).depth() < u32::MAX,
        ensures
            final(self).follows(old(self), return_text(old(self).config(), old(self).depth())),
    {
        self.push_return_outgoing();
        self.push_return_listen();
    }

    /// Finishes the surface and hands out the text. For a schema without
    /// events nothing is added to what was written before.
    pub fn output(self) -> (s: String)
        requires
            self.depth() < u32::MAX,
        ensures
            s@ == self@ + output_text(self.config(), self.depth()),
    {
        proof {
            reveal(output_text);
        }

        let mut this = self;

        if this.config.evdecls.len() == 0 {
            return this.out.finish();
        }

        push_file_header(&mut this.out, "Client");

        if this.config.manual_event_loop {
            push_manual_event_loop(&mut this.out, this.config);
        }

        this.push_tydecls();

        this.push_return();

        this.out.finish()
    }
}

/// The client surface for `config`, where the schema asks for the
/// TypeScript backend.
pub fn code(config: &Config) -> (r: Option<String>)
    ensures
        (match r {
            Some(s) => config@.typescript && s@ == output_text(config@, 0),
            None => !config@.typescript,
        }),
{
    if !config.typescript {
        return None;
    }

    Some(ClientOutput::new(config).output())
}

} // verus!
