//! The server module of the Luau backend: the batching runtime, the decode
//! loops, the callback registry and the send operations.

use vstd::prelude::*;
use crate::config::{Config, ConfigView, EvCall, EvDecl, EvDeclView, EvSource, EvType, TyDecl, TyDeclView};
use crate::output::{checks_text, stmts_text, writes_text, Output};
use crate::output::luau::{file_header_text, push_file_header};
use crate::protocol::{decode_ids, list_ids, listen_ids, send_ids};
use crate::text::{
    cat2, cat3, cat4, cat5, decimal, decimal_string, holds, lemma_concat_assoc,
    lemma_concat_empty, lemma_holds, line, tabs,
};

verus! {

broadcast use {lemma_concat_assoc, lemma_concat_empty};

/// A named type with its writer and its reader. The writer validates the
/// value before it writes anything.
#[verifier::opaque]
pub open spec fn tydecl_text(c: ConfigView, t: TyDeclView, d: nat) -> Seq<char> {
    tabs(d) + "export type "@ + t.name + " = "@ + t.ty.luau + "\n"@
        + line(d, "function types.write_"@ + t.name + "(value: "@ + t.name + ")"@)
        + checks_text(t.ty.ser, c.write_checks, "value"@, d + 1)
        + writes_text(t.ty.ser, "value"@, d + 1)
        + line(d, "end"@)
        + line(d, "function types.read_"@ + t.name + "()"@)
        + line(d + 1, "local value;"@)
        + stmts_text(t.ty.des, true, "value"@, d + 1)
        + line(d + 1, "return value"@)
        + line(d, "end"@)
}

/// The first `n` named types, in declaration order.
pub open spec fn tydecls_text(c: ConfigView, n: nat, d: nat) -> Seq<char>
    decreases n,
{
    if n == 0 {
        Seq::empty()
    } else {
        tydecls_text(c, (n - 1) as nat, d) + tydecl_text(c, c.tydecls[n - 1], d)
    }
}

/// The flush step. Every peer with pending bytes gets one packet of exactly
/// the used length, together with its instance references; then its state is
/// back at the initial capacity with no references.
#[verifier::opaque]
pub open spec fn event_loop_text(c: ConfigView, d: nat) -> Seq<char> {
    "\n"@
        + (if c.manual_event_loop {
            line(d, "local function "@ + c.casing.send_events() + "()"@)
        } else {
            line(d, "RunService.Heartbeat:Connect(function()"@)
        })
        + line(d + 1, "for player, outgoing in player_map do"@)
        + line(d + 2, "if outgoing.used > 0 then"@)
        + line(d + 3, "local buff = buffer.create(outgoing.used)"@)
        + line(d + 3, "buffer.copy(buff, 0, outgoing.buff, 0, outgoing.used)"@)
        + "\n"@
        + line(d + 3, "reliable:FireClient(player, buff, outgoing.inst)"@)
        + "\n"@
        + line(d + 3, "outgoing.buff = buffer.create(64)"@)
        + line(d + 3, "outgoing.used = 0"@)
        + line(d + 3, "outgoing.size = 64"@)
        + line(d + 3, "table.clear(outgoing.inst)"@)
        + line(d + 2, "end"@)
        + line(d + 1, "end"@)
        + (if c.manual_event_loop {
            line(d, "end"@)
        } else {
            line(d, "end)"@)
        })
        + "\n"@
}

/// The statement that reads the id of the next message, in the declared
/// width.
#[verifier::opaque]
pub open spec fn read_event_id_text(c: ConfigView, d: nat) -> Seq<char> {
    line(
        d,
        "local id = buffer.read"@ + c.event_id_ty.suffix() + "(buff, read("@ + decimal(
            c.event_id_ty.width(),
        ) + "))"@,
    )
}

/// The opening of the reliable decode loop, which reads messages until the
/// packet is used up. It leaves the depth two levels down.
#[verifier::opaque]
pub open spec fn reliable_header_text(c: ConfigView, d: nat) -> Seq<char> {
    line(d, "reliable.OnServerEvent:Connect(function(player, buff, inst)"@)
        + line(d + 1, "incoming_buff = buff"@)
        + line(d + 1, "incoming_inst = inst"@)
        + line(d + 1, "incoming_read = 0"@)
        + line(d + 1, "incoming_ipos = 0"@)
        + line(d + 1, "local len = buffer.len(buff)"@)
        + line(d + 1, "while incoming_read < len do"@)
        + read_event_id_text(c, d + 2)
}

/// How a decoded value reaches the handlers of the event `id`.
pub open spec fn invoke_text(call: EvCall, id: nat, d: nat) -> Seq<char> {
    (if call.is_single() {
        line(d, "if events["@ + decimal(id) + "] then"@)
    } else {
        line(d, "for _, cb in events["@ + decimal(id) + "] do"@)
    }) + (match call {
        EvCall::SingleSync => line(d + 1, "events["@ + decimal(id) + "](player, value)"@),
        EvCall::SingleAsync => line(
            d + 1,
            "task.spawn(events["@ + decimal(id) + "], player, value)"@,
        ),
        EvCall::ManySync => line(d + 1, "cb(player, value)"@),
        EvCall::ManyAsync => line(d + 1, "task.spawn(cb, player, value)"@),
    }) + line(d, "end"@)
}

/// One branch of a decode loop: the test of the id, the decoding of the
/// payload and the call of the handlers.
#[verifier::opaque]
pub open spec fn callback_text(first: bool, ev: EvDeclView, id: nat, d: nat) -> Seq<char> {
    tabs(d) + (if first {
        "if "@
    } else {
        "elseif "@
    }) + "id == "@ + decimal(id) + " then"@ + "\n"@
        + line(d + 1, "local value"@)
        + stmts_text(ev.data.des, true, "value"@, d + 1)
        + invoke_text(ev.call, id, d + 1)
}

/// One branch for each of `ids`, in order: the first opens the chain of
/// tests, the others go on with it. Each branch tests for its id and decodes
/// the event that the id names.
pub open spec fn branches_text(c: ConfigView, ids: Seq<int>, d: nat) -> Seq<char>
    decreases ids.len(),
{
    if ids.len() == 0 {
        Seq::empty()
    } else {
        branches_text(c, ids.drop_last(), d) + callback_text(
            ids.len() == 1,
            c.event(ids.last()),
            ids.last() as nat,
            d,
        )
    }
}

/// The branches of the decode loop for the channel `evty`, for the first `n`
/// declarations: one for each id that the server decodes on that channel
/// and for no other, in rising order, each under its global id.
pub open spec fn callbacks_text(c: ConfigView, evty: EvType, n: nat, d: nat) -> Seq<char> {
    branches_text(c, decode_ids(c, EvSource::Server, evty, n), d)
}

/// The last branch of a decode loop: an id that no branch accepted stops the
/// handler with an error.
pub open spec fn unknown_id_text(d: nat) -> Seq<char> {
    line(d, "else"@) + line(d + 1, "error(\"Unknown event id\")"@) + line(d, "end"@)
}

/// The end of the reliable decode loop, written two levels down.
#[verifier::opaque]
pub open spec fn reliable_footer_text(d: nat) -> Seq<char>
    recommends
        d >= 2,
{
    unknown_id_text(d) + line((d - 1) as nat, "end"@) + line((d - 2) as nat, "end)"@)
}

/// The reliable decode loop.
#[verifier::opaque]
pub open spec fn reliable_text(c: ConfigView, d: nat) -> Seq<char> {
    reliable_header_text(c, d) + callbacks_text(c, EvType::Reliable, c.evdecls.len(), d + 2)
        + reliable_footer_text(d + 2)
}

/// The opening of the unreliable handler, which reads the one message of the
/// packet. It leaves the depth one level down.
#[verifier::opaque]
pub open spec fn unreliable_header_text(c: ConfigView, d: nat) -> Seq<char> {
    line(d, "unreliable.OnServerEvent:Connect(function(player, buff, inst)"@)
        + line(d + 1, "incoming_buff = buff"@)
        + line(d + 1, "incoming_inst = inst"@)
        + line(d + 1, "incoming_read = 0"@)
        + line(d + 1, "incoming_ipos = 0"@)
        + read_event_id_text(c, d + 1)
}

/// The end of the unreliable handler, written one level down.
#[verifier::opaque]
pub open spec fn unreliable_footer_text(d: nat) -> Seq<char>
    recommends
        d >= 1,
{
    unknown_id_text(d) + line((d - 1) as nat, "end)"@)
}

/// The unreliable handler.
#[verifier::opaque]
pub open spec fn unreliable_text(c: ConfigView, d: nat) -> Seq<char> {
    unreliable_header_text(c, d) + callbacks_text(c, EvType::Unreliable, c.evdecls.len(), d + 1)
        + unreliable_footer_text(d + 1)
}

/// An empty list of handlers in the slot of each of `ids`.
pub open spec fn list_lines_text(ids: Seq<int>, d: nat) -> Seq<char>
    decreases ids.len(),
{
    if ids.len() == 0 {
        Seq::empty()
    } else {
        list_lines_text(ids.drop_last(), d) + line(
            d,
            "events["@ + decimal(ids.last() as nat) + "] = {}"@,
        )
    }
}

/// The empty handler lists of the first `n` declarations: one for each event
/// that the server receives and that keeps many handlers.
pub open spec fn lists_text(c: ConfigView, n: nat, d: nat) -> Seq<char> {
    list_lines_text(list_ids(c, EvSource::Server, n), d)
}

/// The registry: a table with room for every declared event, with an empty
/// list in the slot of each event that keeps many handlers.
#[verifier::opaque]
pub open spec fn callback_lists_text(c: ConfigView, d: nat) -> Seq<char> {
    line(d, "local events = table.create("@ + decimal(c.evdecls.len()) + ")"@) + lists_text(
        c,
        c.evdecls.len(),
        d,
    )
}

/// The statements that open a message: room for the id in the outgoing
/// buffer, and the id written there in the declared width.
#[verifier::opaque]
pub open spec fn write_event_id_text(c: ConfigView, id: nat, d: nat) -> Seq<char> {
    line(d, "local pos = alloc("@ + decimal(c.event_id_ty.width()) + ")"@) + line(
        d,
        "buffer.write"@ + c.event_id_ty.suffix() + "(outgoing_buff, pos, "@ + decimal(id) + ")"@,
    )
}

/// The message of one call. The value is validated first, so that a value
/// that fails is refused before a byte is written; then come the id and the
/// payload. The statements of the codec name the value as the parameter of
/// the send does.
#[verifier::opaque]
pub open spec fn encode_text(c: ConfigView, ev: EvDeclView, id: nat, d: nat) -> Seq<char> {
    checks_text(ev.data.ser, c.write_checks, c.casing.value(), d) + write_event_id_text(c, id, d)
        + writes_text(ev.data.ser, c.casing.value(), d)
}

/// The copy of the encoded message into a packet of exactly its length.
#[verifier::opaque]
pub open spec fn packet_text(d: nat) -> Seq<char> {
    line(d, "local buff = buffer.create(outgoing_used)"@) + line(
        d,
        "buffer.copy(buff, 0, outgoing_buff, 0, outgoing_used)"@,
    )
}

/// The statement that keeps the encoded message and its instance references
/// while the outgoing state of one peer after another is loaded.
pub open spec fn keep_text(d: nat) -> Seq<char> {
    line(d, "local buff, used, inst = outgoing_buff, outgoing_used, outgoing_inst"@)
}

/// The statements that append the kept message and its instance references
/// to the outgoing state of `player`.
#[verifier::opaque]
pub open spec fn enqueue_text(d: nat) -> Seq<char> {
    line(d, "load_player(player)"@)
        + line(d, "alloc(used)"@)
        + line(d, "buffer.copy(outgoing_buff, outgoing_apos, buff, 0, used)"@)
        + line(d, "table.move(inst, 1, #inst, #outgoing_inst + 1, outgoing_inst)"@)
        + line(d, "player_map[player] = save()"@)
}

/// The send to one peer. On the reliable channel the message is appended to
/// what is pending for that peer; on the unreliable channel it leaves at once
/// as a packet of its own.
#[verifier::opaque]
pub open spec fn fire_text(c: ConfigView, ev: EvDeclView, id: nat, d: nat) -> Seq<char> {
    tabs(d) + c.casing.fire() + " = function("@ + c.casing.player() + ": Player, "@
        + c.casing.value() + ": "@ + ev.data.luau + ")\n"@
        + (match ev.evty {
            EvType::Reliable => line(d + 1, "load_player("@ + c.casing.player() + ")"@),
            EvType::Unreliable => line(d + 1, "load_empty()"@),
        })
        + encode_text(c, ev, id, d + 1)
        + (match ev.evty {
            EvType::Reliable => line(d + 1, "player_map["@ + c.casing.player() + "] = save()"@),
            EvType::Unreliable => packet_text(d + 1) + line(
                d + 1,
                "unreliable:FireClient("@ + c.casing.player() + ", buff, outgoing_inst)"@,
            ),
        })
        + line(d, "end,"@)
}

/// The send to every connected peer. The message is encoded once, into an
/// empty buffer, and the same bytes go to each peer.
#[verifier::opaque]
pub open spec fn fire_all_text(c: ConfigView, ev: EvDeclView, id: nat, d: nat) -> Seq<char> {
    tabs(d) + c.casing.fire_all() + " = function("@ + c.casing.value() + ": "@ + ev.data.luau
        + ")\n"@
        + line(d + 1, "load_empty()"@)
        + encode_text(c, ev, id, d + 1)
        + (match ev.evty {
            EvType::Reliable => keep_text(d + 1)
                + line(d + 1, "for _, player in Players:GetPlayers() do"@)
                + enqueue_text(d + 2)
                + line(d + 1, "end"@),
            EvType::Unreliable => packet_text(d + 1) + line(
                d + 1,
                "unreliable:FireAllClients(buff, outgoing_inst)"@,
            ),
        })
        + line(d, "end,"@)
}

/// The send to every connected peer but one.
#[verifier::opaque]
pub open spec fn fire_except_text(c: ConfigView, ev: EvDeclView, id: nat, d: nat) -> Seq<char> {
    tabs(d) + c.casing.fire_except() + " = function("@ + c.casing.except() + ": Player, "@
        + c.casing.value() + ": "@ + ev.data.luau + ")\n"@
        + line(d + 1, "load_empty()"@)
        + encode_text(c, ev, id, d + 1)
        + (match ev.evty {
            EvType::Reliable => keep_text(d + 1)
                + line(d + 1, "for _, player in Players:GetPlayers() do"@)
                + line(d + 2, "if player ~= "@ + c.casing.except() + " then"@)
                + enqueue_text(d + 3)
                + line(d + 2, "end"@)
                + line(d + 1, "end"@),
            EvType::Unreliable => packet_text(d + 1)
                + line(d + 1, "for _, player in Players:GetPlayers() do"@)
                + line(d + 2, "if player ~= "@ + c.casing.except() + " then"@)
                + line(d + 3, "unreliable:FireClient(player, buff, outgoing_inst)"@)
                + line(d + 2, "end"@)
                + line(d + 1, "end"@),
        })
        + line(d, "end,"@)
}

/// The send to the peers of a given list.
#[verifier::opaque]
pub open spec fn fire_list_text(c: ConfigView, ev: EvDeclView, id: nat, d: nat) -> Seq<char> {
    tabs(d) + c.casing.fire_list() + " = function("@ + c.casing.list() + ": { Player }, "@
        + c.casing.value() + ": "@ + ev.data.luau + ")\n"@
        + line(d + 1, "load_empty()"@)
        + encode_text(c, ev, id, d + 1)
        + (match ev.evty {
            EvType::Reliable => keep_text(d + 1)
                + line(d + 1, "for _, player in "@ + c.casing.list() + " do"@)
                + enqueue_text(d + 2)
                + line(d + 1, "end"@),
            EvType::Unreliable => packet_text(d + 1)
                + line(d + 1, "for _, player in "@ + c.casing.list() + " do"@)
                + line(d + 2, "unreliable:FireClient(player, buff, outgoing_inst)"@)
                + line(d + 1, "end"@),
        })
        + line(d, "end,"@)
}

/// The four send operations of one event that the server sends.
pub open spec fn outgoing_text(c: ConfigView, ev: EvDeclView, id: nat, d: nat) -> Seq<char> {
    line(d, ev.name + " = {"@)
        + fire_text(c, ev, id, d + 1)
        + fire_all_text(c, ev, id, d + 1)
        + fire_except_text(c, ev, id, d + 1)
        + fire_list_text(c, ev, id, d + 1)
        + line(d, "},"@)
}

/// The send operations of the events that `ids` name, a block for each, in
/// order. All four operations of a block write the id of the block.
pub open spec fn outgoing_blocks_text(c: ConfigView, ids: Seq<int>, d: nat) -> Seq<char>
    decreases ids.len(),
{
    if ids.len() == 0 {
        Seq::empty()
    } else {
        outgoing_blocks_text(c, ids.drop_last(), d) + outgoing_text(
            c,
            c.event(ids.last()),
            ids.last() as nat,
            d,
        )
    }
}

/// The send operations of the first `n` declarations: a block for each event
/// that the server sends and for no other, in declaration order, each under
/// its global id.
pub open spec fn return_outgoing_text(c: ConfigView, n: nat, d: nat) -> Seq<char> {
    outgoing_blocks_text(c, send_ids(c, EvSource::Server, n), d)
}

/// The registration of the one handler of an event: it takes the place of
/// the handler registered before.
#[verifier::opaque]
pub open spec fn setcallback_text(c: ConfigView, ev: EvDeclView, id: nat, d: nat) -> Seq<char> {
    tabs(d) + c.casing.set_callback() + " = function("@ + c.casing.callback() + ": (Player, "@
        + ev.data.luau + ") -> ())\n"@
        + line(d + 1, "events["@ + decimal(id) + "] = "@ + c.casing.callback())
        + line(d, "end,"@)
}

/// The registration of one more handler of an event, behind those
/// registered before.
#[verifier::opaque]
pub open spec fn on_text(c: ConfigView, ev: EvDeclView, id: nat, d: nat) -> Seq<char> {
    tabs(d) + c.casing.on() + " = function("@ + c.casing.callback() + ": (Player, "@
        + ev.data.luau + ") -> ())\n"@
        + line(d + 1, "table.insert(events["@ + decimal(id) + "], "@ + c.casing.callback() + ")"@)
        + line(d, "end,"@)
}

/// The registration operation of one event that the server receives.
pub open spec fn listen_text(c: ConfigView, ev: EvDeclView, id: nat, d: nat) -> Seq<char> {
    line(d, ev.name + " = {"@)
        + (if ev.call.is_single() {
            setcallback_text(c, ev, id, d + 1)
        } else {
            on_text(c, ev, id, d + 1)
        })
        + line(d, "},"@)
}

/// The registration operations of the events that `ids` name, a block for
/// each, in order.
pub open spec fn listen_blocks_text(c: ConfigView, ids: Seq<int>, d: nat) -> Seq<char>
    decreases ids.len(),
{
    if ids.len() == 0 {
        Seq::empty()
    } else {
        listen_blocks_text(c, ids.drop_last(), d) + listen_text(
            c,
            c.event(ids.last()),
            ids.last() as nat,
            d,
        )
    }
}

/// The registration operations of the first `n` declarations: a block for
/// each event that the server receives and for no other, in declaration
/// order, each under its global id.
pub open spec fn return_listen_text(c: ConfigView, n: nat, d: nat) -> Seq<char> {
    listen_blocks_text(c, listen_ids(c, EvSource::Server, n), d)
}

/// The public surface of the module.
#[verifier::opaque]
pub open spec fn return_text(c: ConfigView, d: nat) -> Seq<char> {
    line(d, "return {"@)
        + (if c.manual_event_loop {
            line(d + 1, c.casing.send_events() + " = "@ + c.casing.send_events() + ","@)
        } else {
            Seq::empty()
        })
        + return_outgoing_text(c, c.evdecls.len(), d + 1)
        + return_listen_text(c, c.evdecls.len(), d + 1)
        + line(d, "}"@)
}

/// All that follows the opening comment where the schema declares an event.
#[verifier::opaque]
pub open spec fn body_text(c: ConfigView, d: nat) -> Seq<char> {
    c.runtime
        + tydecls_text(c, c.tydecls.len(), d)
        + event_loop_text(c, d)
        + callback_lists_text(c, d)
        + (if c.any_incoming(EvSource::Server, EvType::Reliable, c.evdecls.len() as int) {
            reliable_text(c, d)
        } else {
            Seq::empty()
        })
        + (if c.any_incoming(EvSource::Server, EvType::Unreliable, c.evdecls.len() as int) {
            unreliable_text(c, d)
        } else {
            Seq::empty()
        })
        + return_text(c, d)
}

/// The server module: the opening comment and all that follows it. A schema
/// without events gives nothing at all.
#[verifier::opaque]
pub open spec fn output_text(c: ConfigView, d: nat) -> Seq<char> {
    if c.evdecls.len() == 0 {
        Seq::empty()
    } else {
        file_header_text("Server"@, d) + body_text(c, d)
    }
}

/// Every send operation of an event validates the value, then writes the id
/// of the event, then the payload: the four operations of a block hold the
/// same message, under the same id.
pub proof fn lemma_sends_write_the_id(c: ConfigView, ev: EvDeclView, id: nat, d: nat)
    ensures
        holds(fire_text(c, ev, id, d), encode_text(c, ev, id, d + 1)),
        holds(fire_all_text(c, ev, id, d), encode_text(c, ev, id, d + 1)),
        holds(fire_except_text(c, ev, id, d), encode_text(c, ev, id, d + 1)),
        holds(fire_list_text(c, ev, id, d), encode_text(c, ev, id, d + 1)),
        holds(encode_text(c, ev, id, d + 1), write_event_id_text(c, id, d + 1)),
{
    let part = encode_text(c, ev, id, d + 1);
    let end = line(d, "end,"@);
    assert(holds(fire_text(c, ev, id, d), part)) by {
        reveal(fire_text);
        let pre = tabs(d) + c.casing.fire() + " = function("@ + c.casing.player()
            + ": Player, "@ + c.casing.value() + ": "@ + ev.data.luau + ")\n"@ + (match ev.evty {
            EvType::Reliable => line(d + 1, "load_player("@ + c.casing.player() + ")"@),
            EvType::Unreliable => line(d + 1, "load_empty()"@),
        });
        let post = (match ev.evty {
            EvType::Reliable => line(d + 1, "player_map["@ + c.casing.player() + "] = save()"@),
            EvType::Unreliable => packet_text(d + 1) + line(
                d + 1,
                "unreliable:FireClient("@ + c.casing.player() + ", buff, outgoing_inst)"@,
            ),
        }) + end;
        lemma_holds(pre, part, post);
        assert(fire_text(c, ev, id, d) == pre + part + post);
    }
    assert(holds(fire_all_text(c, ev, id, d), part)) by {
        reveal(fire_all_text);
        let pre = tabs(d) + c.casing.fire_all() + " = function("@ + c.casing.value() + ": "@
            + ev.data.luau + ")\n"@ + line(d + 1, "load_empty()"@);
        let post = (match ev.evty {
            EvType::Reliable => keep_text(d + 1) + line(
                d + 1,
                "for _, player in Players:GetPlayers() do"@,
            ) + enqueue_text(d + 2) + line(d + 1, "end"@),
            EvType::Unreliable => packet_text(d + 1) + line(
                d + 1,
                "unreliable:FireAllClients(buff, outgoing_inst)"@,
            ),
        }) + end;
        lemma_holds(pre, part, post);
        assert(fire_all_text(c, ev, id, d) == pre + part + post);
    }
    assert(holds(fire_except_text(c, ev, id, d), part)) by {
        reveal(fire_except_text);
        let pre = tabs(d) + c.casing.fire_except() + " = function("@ + c.casing.except()
            + ": Player, "@ + c.casing.value() + ": "@ + ev.data.luau + ")\n"@ + line(
            d + 1,
            "load_empty()"@,
        );
        let post = (match ev.evty {
            EvType::Reliable => keep_text(d + 1) + line(
                d + 1,
                "for _, player in Players:GetPlayers() do"@,
            ) + line(d + 2, "if player ~= "@ + c.casing.except() + " then"@) + enqueue_text(d + 3)
                + line(d + 2, "end"@) + line(d + 1, "end"@),
            EvType::Unreliable => packet_text(d + 1) + line(
                d + 1,
                "for _, player in Players:GetPlayers() do"@,
            ) + line(d + 2, "if player ~= "@ + c.casing.except() + " then"@) + line(
                d + 3,
                "unreliable:FireClient(player, buff, outgoing_inst)"@,
            ) + line(d + 2, "end"@) + line(d + 1, "end"@),
        }) + end;
        lemma_holds(pre, part, post);
        assert(fire_except_text(c, ev, id, d) == pre + part + post);
    }
    assert(holds(fire_list_text(c, ev, id, d), part)) by {
        reveal(fire_list_text);
        let pre = tabs(d) + c.casing.fire_list() + " = function("@ + c.casing.list()
            + ": { Player }, "@ + c.casing.value() + ": "@ + ev.data.luau + ")\n"@ + line(
            d + 1,
            "load_empty()"@,
        );
        let post = (match ev.evty {
            EvType::Reliable => keep_text(d + 1) + line(
                d + 1,
                "for _, player in "@ + c.casing.list() + " do"@,
            ) + enqueue_text(d + 2) + line(d + 1, "end"@),
            EvType::Unreliable => packet_text(d + 1) + line(
                d + 1,
                "for _, player in "@ + c.casing.list() + " do"@,
            ) + line(d + 2, "unreliable:FireClient(player, buff, outgoing_inst)"@) + line(
                d + 1,
                "end"@,
            ),
        }) + end;
        lemma_holds(pre, part, post);
        assert(fire_list_text(c, ev, id, d) == pre + part + post);
    }
    reveal(encode_text);
    lemma_holds(
        checks_text(ev.data.ser, c.write_checks, c.casing.value(), d + 1),
        write_event_id_text(c, id, d + 1),
        writes_text(ev.data.ser, c.casing.value(), d + 1),
    );
}

/// Every decode loop ends in the failure: behind the branches for the ids
/// that the server decodes on the channel stands the branch that takes every
/// other id and stops the handler with an error.
pub proof fn lemma_decode_loops_end_in_failure(c: ConfigView, d: nat)
    ensures
        reliable_text(c, d) == reliable_header_text(c, d) + branches_text(
            c,
            decode_ids(c, EvSource::Server, EvType::Reliable, c.evdecls.len()),
            d + 2,
        ) + unknown_id_text(d + 2) + line(d + 1, "end"@) + line(d, "end)"@),
        unreliable_text(c, d) == unreliable_header_text(c, d) + branches_text(
            c,
            decode_ids(c, EvSource::Server, EvType::Unreliable, c.evdecls.len()),
            d + 1,
        ) + unknown_id_text(d + 1) + line(d, "end)"@),
        unknown_id_text(d) == line(d, "else"@) + line(d + 1, "error(\"Unknown event id\")"@)
            + line(d, "end"@),
{
    reveal(reliable_text);
    reveal(reliable_footer_text);
    reveal(unreliable_text);
    reveal(unreliable_footer_text);
}

/// How handlers are registered and called. The registration of an event
/// with one handler assigns to the slot of the event; the registration of an
/// event with many inserts at the end of the list in the slot. A branch of a
/// decode loop calls what the slot of its id holds: the one handler if there
/// is one, or every handler of the list in the order of the list; at once
/// for a synchronous mode, through the scheduler otherwise.
pub proof fn lemma_registration_text(c: ConfigView, ev: EvDeclView, id: nat, d: nat, first: bool)
    ensures
        ev.call.is_single() ==> holds(
            listen_text(c, ev, id, d),
            line(d + 2, "events["@ + decimal(id) + "] = "@ + c.casing.callback()),
        ),
        !ev.call.is_single() ==> holds(
            listen_text(c, ev, id, d),
            line(
                d + 2,
                "table.insert(events["@ + decimal(id) + "], "@ + c.casing.callback() + ")"@,
            ),
        ),
        callback_text(first, ev, id, d) == tabs(d) + (if first {
            "if "@
        } else {
            "elseif "@
        }) + "id == "@ + decimal(id) + " then"@ + "\n"@ + line(d + 1, "local value"@) + stmts_text(
            ev.data.des,
            true,
            "value"@,
            d + 1,
        ) + invoke_text(ev.call, id, d + 1),
        ev.call == EvCall::SingleSync ==> invoke_text(ev.call, id, d) == line(
            d,
            "if events["@ + decimal(id) + "] then"@,
        ) + line(d + 1, "events["@ + decimal(id) + "](player, value)"@) + line(d, "end"@),
        ev.call == EvCall::SingleAsync ==> invoke_text(ev.call, id, d) == line(
            d,
            "if events["@ + decimal(id) + "] then"@,
        ) + line(d + 1, "task.spawn(events["@ + decimal(id) + "], player, value)"@) + line(
            d,
            "end"@,
        ),
        ev.call == EvCall::ManySync ==> invoke_text(ev.call, id, d) == line(
            d,
            "for _, cb in events["@ + decimal(id) + "] do"@,
        ) + line(d + 1, "cb(player, value)"@) + line(d, "end"@),
        ev.call == EvCall::ManyAsync ==> invoke_text(ev.call, id, d) == line(
            d,
            "for _, cb in events["@ + decimal(id) + "] do"@,
        ) + line(d + 1, "task.spawn(cb, player, value)"@) + line(d, "end"@),
{
    reveal(callback_text);
    let open = line(d, ev.name + " = {"@);
    let close = line(d, "},"@);
    let end = line(d + 1, "end,"@);
    if ev.call.is_single() {
        reveal(setcallback_text);
        let head = tabs(d + 1) + c.casing.set_callback() + " = function("@ + c.casing.callback()
            + ": (Player, "@ + ev.data.luau + ") -> ())\n"@;
        let part = line(d + 2, "events["@ + decimal(id) + "] = "@ + c.casing.callback());
        lemma_holds(open + head, part, end + close);
        assert(listen_text(c, ev, id, d) == open + head + part + (end + close));
    } else {
        reveal(on_text);
        let head = tabs(d + 1) + c.casing.on() + " = function("@ + c.casing.callback()
            + ": (Player, "@ + ev.data.luau + ") -> ())\n"@;
        let part = line(
            d + 2,
            "table.insert(events["@ + decimal(id) + "], "@ + c.casing.callback() + ")"@,
        );
        lemma_holds(open + head, part, end + close);
        assert(listen_text(c, ev, id, d) == open + head + part + (end + close));
    }
}

/// The generator of the server module.
pub struct ServerOutput<'src> {
    config: &'src Config,
    out: Output,
}

impl<'src> View for ServerOutput<'src> {
    type V = Seq<char>;

    /// The text generated so far.
    closed spec fn view(&self) -> Seq<char> {
        self.out@
    }
}

impl<'src> ServerOutput<'src> {
    /// The schema that the module is generated from.
    pub closed spec fn config(&self) -> ConfigView {
        self.config@
    }

    /// The current nesting depth.
    pub closed spec fn depth(&self) -> nat {
        self.out.depth()
    }

    /// `self` is `pre` with `text` appended, at the same depth and for the
    /// same schema.
    pub open spec fn follows(&self, pre: &Self, text: Seq<char>) -> bool {
        &&& self@ == pre@ + text
        &&& self.depth() == pre.depth()
        &&& self.config() == pre.config()
    }

    /// A generator for `config` that has written nothing yet.
    pub fn new(config: &'src Config) -> (out: Self)
        ensures
            out@ == Seq::<char>::empty(),
            out.depth() == 0,
            out.config() == config@,
    {
        Self { config, out: Output::new() }
    }

    /// Appends a named type with its writer and its reader.
    pub fn push_tydecl(&mut self, tydecl: &TyDecl)
        requires
            old(self).depth() < u32::MAX,
        ensures
            final(self).follows(old(self), tydecl_text(old(self).config(), tydecl@, old(self).depth())),
    {
        let name = tydecl.name.as_str();
        let ty = &tydecl.ty;

        self.out.push_indent();
        self.out.push(cat3("export type ", name, " = ").as_str());
        self.out.push(ty.luau.as_str());
        self.out.push("\n");

        self.out.push_line(cat5("function types.write_", name, "(value: ", name, ")").as_str());
        self.out.indent();
        self.out.push_checks(&ty.ser, self.config.write_checks, "value");
        self.out.push_writes(&ty.ser, "value");
        self.out.dedent();
        self.out.push_line("end");

        self.out.push_line(cat3("function types.read_", name, "()").as_str());
        self.out.indent();
        self.out.push_line("local value;");
        self.out.push_stmts(&ty.des, true, "value");
        self.out.push_line("return value");
        self.out.dedent();
        self.out.push_line("end");

        proof {
            reveal(tydecl_text);
        }
    }

    /// Appends the named types, in declaration order.
    pub fn push_tydecls(&mut self)
        requires
            old(self).depth() < u32::MAX,
        ensures
            final(self).follows(
                old(self),
                tydecls_text(
                    old(self).config(),
                    old(self).config().tydecls.len(),
                    old(self).depth(),
                ),
            ),
    {
        let config = self.config;
        let mut i: usize = 0;
        while i < config.tydecls.len()
            invariant
                i <= config.tydecls.len(),
                config@ == self.config(),
                self.depth() < u32::MAX,
                self.follows(old(self), tydecls_text(old(self).config(), i as nat, old(self).depth())),
            decreases config.tydecls.len() - i,
        {
            self.push_tydecl(&config.tydecls[i]);
            i += 1;
        }
    }

    /// Appends the flush step: a task on the frame scheduler, or a function
    /// for the host to call.
    pub fn push_event_loop(&mut self)
        requires
            old(self).depth() + 3 <= u32::MAX,
        ensures
            final(self).follows(old(self), event_loop_text(old(self).config(), old(self).depth())),
    {
        self.out.push("\n");

        if self.config.manual_event_loop {
            let send_events = self.config.casing.with("SendEvents", "sendEvents", "send_events");

            self.out.push_line(cat3("local function ", send_events, "()").as_str());
        } else {
            self.out.push_line("RunService.Heartbeat:Connect(function()");
        }

        self.out.indent();
        self.out.push_line("for player, outgoing in player_map do");
        self.out.indent();
        self.out.push_line("if outgoing.used > 0 then");
        self.out.indent();
        self.out.push_line("local buff = buffer.create(outgoing.used)");
        self.out.push_line("buffer.copy(buff, 0, outgoing.buff, 0, outgoing.used)");
        self.out.push("\n");
        self.out.push_line("reliable:FireClient(player, buff, outgoing.inst)");
        self.out.push("\n");
        self.out.push_line("outgoing.buff = buffer.create(64)");
        self.out.push_line("outgoing.used = 0");
        self.out.push_line("outgoing.size = 64");
        self.out.push_line("table.clear(outgoing.inst)");
        self.out.dedent();
        self.out.push_line("end");
        self.out.dedent();
        self.out.push_line("end");
        self.out.dedent();

        if self.config.manual_event_loop {
            self.out.push_line("end");
        } else {
            self.out.push_line("end)");
        }

        self.out.push("\n");

        proof {
            reveal(event_loop_text);
        }
    }

    /// Appends the statement that reads the id of the next message.
    pub fn push_read_event_id(&mut self)
        ensures
            final(self).follows(old(self), read_event_id_text(old(self).config(), old(self).depth())),
    {
        let ty = self.config.event_id_ty;
        let size = decimal_string(ty.size());
        self.out.push_line(
            cat5("local id = buffer.read", ty.name(), "(buff, read(", size.as_str(), "))").as_str(),
        );

        proof {
            reveal(read_event_id_text);
        }
    }

    /// Appends the opening of the reliable decode loop, and goes two levels
    /// down.
    pub fn push_reliable_header(&mut self)
        requires
            old(self).depth() + 2 <= u32::MAX,
        ensures
            final(self)@ == old(self)@ + reliable_header_text(old(self).config(), old(self).depth()),
            final(self).depth() == old(self).depth() + 2,
            final(self).config() == old(self).config(),
    {
        self.out.push_line("reliable.OnServerEvent:Connect(function(player, buff, inst)");
        self.out.indent();
        self.out.push_line("incoming_buff = buff");
        self.out.push_line("incoming_inst = inst");
        self.out.push_line("incoming_read = 0");
        self.out.push_line("incoming_ipos = 0");

        self.out.push_line("local len = buffer.len(buff)");
        self.out.push_line("while incoming_read < len do");

        self.out.indent();

        self.push_read_event_id();

        proof {
            reveal(reliable_header_text);
        }
    }

    /// Appends one branch of a decode loop: the test for `id`, the decoding of
    /// the payload and the call of the handlers.
    pub fn push_callback(&mut self, first: bool, ev: &EvDecl, id: usize)
        requires
            old(self).depth() + 2 <= u32::MAX,
        ensures
            final(self).follows(old(self), callback_text(first, ev@, id as nat, old(self).depth())),
    {
        let id = decimal_string(id);

        self.out.push_indent();

        if first {
            self.out.push("if ");
        } else {
            self.out.push("elseif ");
        }

        self.out.push("id == ");
        self.out.push(id.as_str());
        self.out.push(" then");
        self.out.push("\n");

        self.out.indent();

        self.out.push_line("local value");
        self.out.push_stmts(&ev.data.des, true, "value");

        if ev.call.single() {
            self.out.push_line(cat3("if events[", id.as_str(), "] then").as_str());
        } else {
            self.out.push_line(cat3("for _, cb in events[", id.as_str(), "] do").as_str());
        }

        self.out.indent();

        match ev.call {
            EvCall::SingleSync => self.out.push_line(
                cat3("events[", id.as_str(), "](player, value)").as_str(),
            ),
            EvCall::SingleAsync => self.out.push_line(
                cat3("task.spawn(events[", id.as_str(), "], player, value)").as_str(),
            ),
            EvCall::ManySync => self.out.push_line("cb(player, value)"),
            EvCall::ManyAsync => self.out.push_line("task.spawn(cb, player, value)"),
        }

        self.out.dedent();
        self.out.push_line("end");

        self.out.dedent();

        proof {
            reveal(callback_text);
        }
    }

    /// Appends one branch of the reliable decode loop.
    pub fn push_reliable_callback(&mut self, first: bool, ev: &EvDecl, id: usize)
        requires
            old(self).depth() + 2 <= u32::MAX,
        ensures
            final(self).follows(old(self), callback_text(first, ev@, id as nat, old(self).depth())),
    {
        self.push_callback(first, ev, id);
    }

    /// Appends the branch that takes every id that no other branch took, and
    /// stops with an error.
    pub fn push_unknown_id(&mut self)
        requires
            old(self).depth() < u32::MAX,
        ensures
            final(self).follows(old(self), unknown_id_text(old(self).depth())),
    {
        self.out.push_line("else");
        self.out.indent();
        self.out.push_line("error(\"Unknown event id\")");
        self.out.dedent();
        self.out.push_line("end");
    }

    /// Appends the failure branch and the end of the reliable decode loop, and
    /// comes two levels up.
    pub fn push_reliable_footer(&mut self)
        requires
            2 <= old(self).depth() < u32::MAX,
        ensures
            final(self)@ == old(self)@ + reliable_footer_text(old(self).depth()),
            final(self).depth() == old(self).depth() - 2,
            final(self).config() == old(self).config(),
    {
        self.push_unknown_id();
        self.out.dedent();
        self.out.push_line("end");
        self.out.dedent();
        self.out.push_line("end)");

        proof {
            reveal(reliable_footer_text);
        }
    }

    /// Appends the branches of the decode loop for the channel `evty`: one for
    /// each event that clients send on that channel, under its global id.
    pub fn push_callbacks(&mut self, evty: EvType)
        requires
            old(self).depth() + 2 <= u32::MAX,
        ensures
            final(self).follows(
                old(self),
                callbacks_text(
                    old(self).config(),
                    evty,
                    old(self).config().evdecls.len(),
                    old(self).depth(),
                ),
            ),
    {
        let config = self.config;
        let mut first = true;
        let mut i: usize = 0;
        while i < config.evdecls.len()
            invariant
                i <= config.evdecls.len(),
                config@ == self.config(),
                self.depth() + 2 <= u32::MAX,
                first == (decode_ids(config@, EvSource::Server, evty, i as nat).len() == 0),
                self.follows(
                    old(self),
                    callbacks_text(old(self).config(), evty, i as nat, old(self).depth()),
                ),
            decreases config.evdecls.len() - i,
        {
            let ev = &config.evdecls[i];
            assert(ev@ == config@.evdecls[i as int]);
            proof {
                let ids = decode_ids(config@, EvSource::Server, evty, i as nat);
                let next = decode_ids(config@, EvSource::Server, evty, (i + 1) as nat);
                assert(next.len() > ids.len() ==> next.drop_last() =~= ids && next.last() == i + 1);
            }
            if ev.is_incoming(EvSource::Server, evty) {
                let id: usize = config.id_at(i);

                match evty {
                    EvType::Reliable => self.push_reliable_callback(first, ev, id),
                    EvType::Unreliable => self.push_unreliable_callback(first, ev, id),
                }
                first = false;
            }
            i += 1;
        }
    }

    /// Appends the reliable decode loop.
    pub fn push_reliable(&mut self)
        requires
            old(self).depth() + 4 <= u32::MAX,
        ensures
            final(self).follows(old(self), reliable_text(old(self).config(), old(self).depth())),
    {
        self.push_reliable_header();
        self.push_callbacks(EvType::Reliable);
        self.push_reliable_footer();

        proof {
            reveal(reliable_text);
        }
    }

    /// Appends the opening of the unreliable handler, and goes one level
    /// down.
    pub fn push_unreliable_header(&mut self)
        requires
            old(self).depth() + 1 <= u32::MAX,
        ensures
            final(self)@ == old(self)@ + unreliable_header_text(
                old(self).config(),
                old(self).depth(),
            ),
            final(self).depth() == old(self).depth() + 1,
            final(self).config() == old(self).config(),
    {
        self.out.push_line("unreliable.OnServerEvent:Connect(function(player, buff, inst)");
        self.out.indent();
        self.out.push_line("incoming_buff = buff");
        self.out.push_line("incoming_inst = inst");
        self.out.push_line("incoming_read = 0");
        self.out.push_line("incoming_ipos = 0");

        self.push_read_event_id();

        proof {
            reveal(unreliable_header_text);
        }
    }

    /// Appends one branch of the unreliable handler.
    pub fn push_unreliable_callback(&mut self, first: bool, ev: &EvDecl, id: usize)
        requires
            old(self).depth() + 2 <= u32::MAX,
        ensures
            final(self).follows(old(self), callback_text(first, ev@, id as nat, old(self).depth())),
    {
        self.push_callback(first, ev, id);
    }

    /// Appends the failure branch and the end of the unreliable handler, and
    /// comes one level up.
    pub fn push_unreliable_footer(&mut self)
        requires
            1 <= old(self).depth() < u32::MAX,
        ensures
            final(self)@ == old(self)@ + unreliable_footer_text(old(self).depth()),
            final(self).depth() == old(self).depth() - 1,
            final(self).config() == old(self).config(),
    {
        self.push_unknown_id();
        self.out.dedent();
        self.out.push_line("end)");

        proof {
            reveal(unreliable_footer_text);
        }
    }

    /// Appends the unreliable handler.
    pub fn push_unreliable(&mut self)
        requires
            old(self).depth() + 3 <= u32::MAX,
        ensures
            final(self).follows(old(self), unreliable_text(old(self).config(), old(self).depth())),
    {
        self.push_unreliable_header();
        self.push_callbacks(EvType::Unreliable);
        self.push_unreliable_footer();

        proof {
            reveal(unreliable_text);
        }
    }

    /// Appends the registry: a table with room for every declared event, and
    /// an empty list for each event that keeps many handlers.
    pub fn push_callback_lists(&mut self)
        ensures
            final(self).follows(
                old(self),
                callback_lists_text(old(self).config(), old(self).depth()),
            ),
    {
        let config = self.config;
        let len = decimal_string(config.evdecls.len());
        self.out.push_line(cat3("local events = table.create(", len.as_str(), ")").as_str());

        let mut i: usize = 0;
        while i < config.evdecls.len()
            invariant
                i <= config.evdecls.len(),
                config@ == self.config(),
                self.depth() == old(self).depth(),
                self.config() == old(self).config(),
                self@ == old(self)@ + line(
                    old(self).depth(),
                    "local events = table.create("@ + decimal(config@.evdecls.len()) + ")"@,
                ) + lists_text(config@, i as nat, old(self).depth()),
            decreases config.evdecls.len() - i,
        {
            let ev = &config.evdecls[i];
            assert(ev@ == config@.evdecls[i as int]);
            proof {
                let ids = list_ids(config@, EvSource::Server, i as nat);
                let next = list_ids(config@, EvSource::Server, (i + 1) as nat);
                assert(next.len() > ids.len() ==> next.drop_last() =~= ids && next.last() == i + 1);
            }
            if ev.is_listened(EvSource::Server) && !ev.call.single() {
                let id = decimal_string(config.id_at(i));

                self.out.push_line(cat3("events[", id.as_str(), "] = {}").as_str());
            }
            i += 1;
        }

        proof {
            reveal(callback_lists_text);
        }
    }

    /// Appends the statements that make room for the id and write it.
    pub fn push_write_event_id(&mut self, id: usize)
        ensures
            final(self).follows(
                old(self),
                write_event_id_text(old(self).config(), id as nat, old(self).depth()),
            ),
    {
        let ty = self.config.event_id_ty;
        let size = decimal_string(ty.size());
        let id = decimal_string(id);
        self.out.push_line(cat3("local pos = alloc(", size.as_str(), ")").as_str());
        self.out.push_line(
            cat5("buffer.write", ty.name(), "(outgoing_buff, pos, ", id.as_str(), ")").as_str(),
        );

        proof {
            reveal(write_event_id_text);
        }
    }

    /// Appends the message of one call: the validation of the value, then
    /// the id, then the payload.
    pub fn push_encode(&mut self, ev: &EvDecl, id: usize)
        ensures
            final(self).follows(
                old(self),
                encode_text(old(self).config(), ev@, id as nat, old(self).depth()),
            ),
    {
        let value = self.config.casing.with("Value", "value", "value");

        self.out.push_checks(&ev.data.ser, self.config.write_checks, value);

        self.push_write_event_id(id);

        self.out.push_writes(&ev.data.ser, value);

        proof {
            reveal(encode_text);
        }
    }

    /// Appends the copy of the encoded message into a packet of its length.
    pub fn push_packet(&mut self)
        ensures
            final(self).follows(old(self), packet_text(old(self).depth())),
    {
        self.out.push_line("local buff = buffer.create(outgoing_used)");
        self.out.push_line("buffer.copy(buff, 0, outgoing_buff, 0, outgoing_used)");

        proof {
            reveal(packet_text);
        }
    }

    /// Appends the statements that add the kept message to what is pending
    /// for `player`.
    pub fn push_enqueue(&mut self)
        ensures
            final(self).follows(old(self), enqueue_text(old(self).depth())),
    {
        self.out.push_line("load_player(player)");
        self.out.push_line("alloc(used)");
        self.out.push_line("buffer.copy(outgoing_buff, outgoing_apos, buff, 0, used)");
        self.out.push_line("table.move(inst, 1, #inst, #outgoing_inst + 1, outgoing_inst)");
        self.out.push_line("player_map[player] = save()");

        proof {
            reveal(enqueue_text);
        }
    }

    /// Appends the send to one peer.
    pub fn push_return_fire(&mut self, ev: &EvDecl, id: usize)
        requires
            old(self).depth() < u32::MAX,
        ensures
            final(self).follows(
                old(self),
                fire_text(old(self).config(), ev@, id as nat, old(self).depth()),
            ),
    {
        let ty = &ev.data;

        let fire = self.config.casing.with("Fire", "fire", "fire");
        let player = self.config.casing.with("Player", "player", "player");
        let value = self.config.casing.with("Value", "value", "value");

        self.out.push_indent();
        self.out.push(fire);
        self.out.push(" = function(");
        self.out.push(player);
        self.out.push(": Player, ");
        self.out.push(value);
        self.out.push(": ");
        self.out.push(ty.luau.as_str());
        self.out.push(")\n");
        self.out.indent();

        match ev.evty {
            EvType::Reliable => self.out.push_line(cat3("load_player(", player, ")").as_str()),
            EvType::Unreliable => self.out.push_line("load_empty()"),
        }

        self.push_encode(ev, id);

        match ev.evty {
            EvType::Reliable => self.out.push_line(
                cat3("player_map[", player, "] = save()").as_str(),
            ),
            EvType::Unreliable => {
                self.push_packet();
                self.out.push_line(
                    cat3("unreliable:FireClient(", player, ", buff, outgoing_inst)").as_str(),
                );
            },
        }

        self.out.dedent();
        self.out.push_line("end,");

        proof {
            reveal(fire_text);
        }
    }

    /// Appends the send to every connected peer.
    pub fn push_return_fire_all(&mut self, ev: &EvDecl, id: usize)
        requires
            old(self).depth() + 2 <= u32::MAX,
        ensures
            final(self).follows(
                old(self),
                fire_all_text(old(self).config(), ev@, id as nat, old(self).depth()),
            ),
    {
        let ty = &ev.data;

        let fire_all = self.config.casing.with("FireAll", "fireAll", "fire_all");
        let value = self.config.casing.with("Value", "value", "value");

        self.out.push_indent();
        self.out.push(fire_all);
        self.out.push(" = function(");
        self.out.push(value);
        self.out.push(": ");
        self.out.push(ty.luau.as_str());
        self.out.push(")\n");
        self.out.indent();

        self.out.push_line("load_empty()");

        self.push_encode(ev, id);

        match ev.evty {
            EvType::Reliable => {
                self.out.push_line(
                    "local buff, used, inst = outgoing_buff, outgoing_used, outgoing_inst",
                );
                self.out.push_line("for _, player in Players:GetPlayers() do");
                self.out.indent();
                self.push_enqueue();
                self.out.dedent();
                self.out.push_line("end");
            },
            EvType::Unreliable => {
                self.push_packet();
                self.out.push_line("unreliable:FireAllClients(buff, outgoing_inst)")
            },
        }

        self.out.dedent();
        self.out.push_line("end,");

        proof {
            reveal(fire_all_text);
        }
    }

    /// Appends the send to every connected peer but one.
    pub fn push_return_fire_except(&mut self, ev: &EvDecl, id: usize)
        requires
            old(self).depth() + 3 <= u32::MAX,
        ensures
            final(self).follows(
                old(self),
                fire_except_text(old(self).config(), ev@, id as nat, old(self).depth()),
            ),
    {
        let ty = &ev.data;

        let fire_except = self.config.casing.with("FireExcept", "fireExcept", "fire_except");
        let except = self.config.casing.with("Except", "except", "except");
        let value = self.config.casing.with("Value", "value", "value");

        self.out.push_indent();
        self.out.push(fire_except);
        self.out.push(" = function(");
        self.out.push(except);
        self.out.push(": Player, ");
        self.out.push(value);
        self.out.push(": ");
        self.out.push(ty.luau.as_str());
        self.out.push(")\n");
        self.out.indent();

        self.out.push_line("load_empty()");

        self.push_encode(ev, id);

        match ev.evty {
            EvType::Reliable => {
                self.out.push_line(
                    "local buff, used, inst = outgoing_buff, outgoing_used, outgoing_inst",
                );
                self.out.push_line("for _, player in Players:GetPlayers() do");
                self.out.indent();
                self.out.push_line(cat3("if player ~= ", except, " then").as_str());
                self.out.indent();
                self.push_enqueue();
                self.out.dedent();
                self.out.push_line("end");
                self.out.dedent();
                self.out.push_line("end");
            },
            EvType::Unreliable => {
                self.push_packet();
                self.out.push_line("for _, player in Players:GetPlayers() do");
                self.out.indent();
                self.out.push_line(cat3("if player ~= ", except, " then").as_str());
                self.out.indent();
                self.out.push_line("unreliable:FireClient(player, buff, outgoing_inst)");
                self.out.dedent();
                self.out.push_line("end");
                self.out.dedent();
                self.out.push_line("end");
            },
        }

        self.out.dedent();
        self.out.push_line("end,");

        proof {
            reveal(fire_except_text);
        }
    }

    /// Appends the send to the peers of a list.
    pub fn push_return_fire_list(&mut self, ev: &EvDecl, id: usize)
        requires
            old(self).depth() + 2 <= u32::MAX,
        ensures
            final(self).follows(
                old(self),
                fire_list_text(old(self).config(), ev@, id as nat, old(self).depth()),
            ),
    {
        let ty = &ev.data;

        let fire_list = self.config.casing.with("FireList", "fireList", "fire_list");
        let list = self.config.casing.with("List", "list", "list");
        let value = self.config.casing.with("Value", "value", "value");

        self.out.push_indent();
        self.out.push(fire_list);
        self.out.push(" = function(");
        self.out.push(list);
        self.out.push(": { Player }, ");
        self.out.push(value);
        self.out.push(": ");
        self.out.push(ty.luau.as_str());
        self.out.push(")\n");
        self.out.indent();

        self.out.push_line("load_empty()");

        self.push_encode(ev, id);

        match ev.evty {
            EvType::Reliable => {
                self.out.push_line(
                    "local buff, used, inst = outgoing_buff, outgoing_used, outgoing_inst",
                );
                self.out.push_line(cat3("for _, player in ", list, " do").as_str());
                self.out.indent();
                self.push_enqueue();
                self.out.dedent();
                self.out.push_line("end");
            },
            EvType::Unreliable => {
                self.push_packet();
                self.out.push_line(cat3("for _, player in ", list, " do").as_str());
                self.out.indent();
                self.out.push_line("unreliable:FireClient(player, buff, outgoing_inst)");
                self.out.dedent();
                self.out.push_line("end");
            },
        }

        self.out.dedent();
        self.out.push_line("end,");

        proof {
            reveal(fire_list_text);
        }
    }

    /// Appends the send operations: for each event that the server sends, in
    /// declaration order, a block with the four sends under the global id of
    /// the event.
    pub fn push_return_outgoing(&mut self)
        requires
            old(self).depth() + 4 <= u32::MAX,
        ensures
            final(self).follows(
                old(self),
                return_outgoing_text(
                    old(self).config(),
                    old(self).config().evdecls.len(),
                    old(self).depth(),
                ),
            ),
    {
        let config = self.config;
        let mut i: usize = 0;
        while i < config.evdecls.len()
            invariant
                i <= config.evdecls.len(),
                config@ == self.config(),
                self.depth() + 4 <= u32::MAX,
                self.follows(
                    old(self),
                    return_outgoing_text(old(self).config(), i as nat, old(self).depth()),
                ),
            decreases config.evdecls.len() - i,
        {
            let ev = &config.evdecls[i];
            assert(ev@ == config@.evdecls[i as int]);
            proof {
                let ids = send_ids(config@, EvSource::Server, i as nat);
                let next = send_ids(config@, EvSource::Server, (i + 1) as nat);
                assert(next.len() > ids.len() ==> next.drop_last() =~= ids && next.last() == i + 1);
            }
            if ev.is_outgoing(EvSource::Server) {
                let id: usize = config.id_at(i);

                self.out.push_line(cat2(ev.name.as_str(), " = {").as_str());
                self.out.indent();

                self.push_return_fire(ev, id);
                self.push_return_fire_all(ev, id);
                self.push_return_fire_except(ev, id);
                self.push_return_fire_list(ev, id);

                self.out.dedent();
                self.out.push_line("},");
            }
            i += 1;
        }
    }

    /// Appends the operation that sets the one handler of an event.
    pub fn push_return_setcallback(&mut self, ev: &EvDecl, id: usize)
        requires
            old(self).depth() < u32::MAX,
        ensures
            final(self).follows(
                old(self),
                setcallback_text(old(self).config(), ev@, id as nat, old(self).depth()),
            ),
    {
        let ty = &ev.data;

        let set_callback = self.config.casing.with("SetCallback", "setCallback", "set_callback");
        let callback = self.config.casing.with("Callback", "callback", "callback");
        let id = decimal_string(id);

        self.out.push_indent();
        self.out.push(set_callback);
        self.out.push(" = function(");
        self.out.push(callback);
        self.out.push(": (Player, ");
        self.out.push(ty.luau.as_str());
        self.out.push(") -> ())\n");
        self.out.indent();

        self.out.push_line(cat4("events[", id.as_str(), "] = ", callback).as_str());

        self.out.dedent();
        self.out.push_line("end,");

        proof {
            reveal(setcallback_text);
        }
    }

    /// Appends the operation that adds a handler of an event.
    pub fn push_return_on(&mut self, ev: &EvDecl, id: usize)
        requires
            old(self).depth() < u32::MAX,
        ensures
            final(self).follows(
                old(self),
                on_text(old(self).config(), ev@, id as nat, old(self).depth()),
            ),
    {
        let ty = &ev.data;

        let on = self.config.casing.with("On", "on", "on");
        let callback = self.config.casing.with("Callback", "callback", "callback");
        let id = decimal_string(id);

        self.out.push_indent();
        self.out.push(on);
        self.out.push(" = function(");
        self.out.push(callback);
        self.out.push(": (Player, ");
        self.out.push(ty.luau.as_str());
        self.out.push(") -> ())\n");
        self.out.indent();

        self.out.push_line(
            cat5("table.insert(events[", id.as_str(), "], ", callback, ")").as_str(),
        );

        self.out.dedent();
        self.out.push_line("end,");

        proof {
            reveal(on_text);
        }
    }

    /// Appends the registration operations: for each event that clients
    /// send, in declaration order, a block under the event's name. An event
    /// with one handler gets the operation that sets it; an event with many
    /// gets the operation that adds one.
    pub fn push_return_listen(&mut self)
        requires
            old(self).depth() + 2 <= u32::MAX,
        ensures
            final(self).follows(
                old(self),
                return_listen_text(
                    old(self).config(),
                    old(self).config().evdecls.len(),
                    old(self).depth(),
                ),
            ),
    {
        let config = self.config;
        let mut i: usize = 0;
        while i < config.evdecls.len()
            invariant
                i <= config.evdecls.len(),
                config@ == self.config(),
                self.depth() + 2 <= u32::MAX,
                self.follows(
                    old(self),
                    return_listen_text(old(self).config(), i as nat, old(self).depth()),
                ),
            decreases config.evdecls.len() - i,
        {
            let ev = &config.evdecls[i];
            assert(ev@ == config@.evdecls[i as int]);
            proof {
                let ids = listen_ids(config@, EvSource::Server, i as nat);
                let next = listen_ids(config@, EvSource::Server, (i + 1) as nat);
                assert(next.len() > ids.len() ==> next.drop_last() =~= ids && next.last() == i + 1);
            }
            if ev.is_listened(EvSource::Server) {
                let id: usize = config.id_at(i);

                self.out.push_line(cat2(ev.name.as_str(), " = {").as_str());
                self.out.indent();

                match ev.call {
                    EvCall::SingleSync | EvCall::SingleAsync => self.push_return_setcallback(
                        ev,
                        id,
                    ),
                    EvCall::ManySync | EvCall::ManyAsync => self.push_return_on(ev, id),
                }

                self.out.dedent();
                self.out.push_line("},");
            }
            i += 1;
        }
    }

    /// Appends the table that the module returns: the flush function where
    /// the host calls it, the send operations and the registration
    /// operations.
    pub fn push_return(&mut self)
        requires
            old(self).depth() + 5 <= u32::MAX,
        ensures
            final(self).follows(old(self), return_text(old(self).config(), old(self).depth())),
    {
        self.out.push_line("return {");
        self.out.indent();

        if self.config.manual_event_loop {
            let send_events = self.config.casing.with("SendEvents", "sendEvents", "send_events");

            self.out.push_line(cat4(send_events, " = ", send_events, ",").as_str());
        }

        self.push_return_outgoing();
        self.push_return_listen();

        self.out.dedent();
        self.out.push_line("}");

        proof {
            reveal(return_text);
        }
    }

    /// Finishes the module and hands out the text. For a schema without
    /// events nothing is added to what was written before.
    pub fn output(self) -> (s: String)
        requires
            self.depth() + 5 <= u32::MAX,
        ensures
            s@ == self@ + output_text(self.config(), self.depth()),
    {
        proof {
            reveal(output_text);
            reveal(body_text);
        }

        let mut this = self;

        if this.config.evdecls.len() == 0 {
            return this.out.finish();
        }

        push_file_header(&mut this.out, "Server");

        this.out.push(this.config.runtime.as_str());

        this.push_tydecls();

        this.push_event_loop();

        this.push_callback_lists();

        if this.config.has_incoming(EvSource::Server, EvType::Reliable) {
            this.push_reliable();
        }

        if this.config.has_incoming(EvSource::Server, EvType::Unreliable) {
            this.push_unreliable();
        }

        this.push_return();

        this.out.finish()
    }
}

/// The server module for `config`: empty for a schema without events.
pub fn code(config: &Config) -> (s: String)
    ensures
        s@ == output_text(config@, 0),
{
    ServerOutput::new(config).output()
}

} // verus!
