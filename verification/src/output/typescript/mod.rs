//! The TypeScript backend. It declares the types of a module whose behaviour
//! is supplied elsewhere: named types and the signatures of the send and
//! registration operations, without the channel and dispatch machinery.

use vstd::prelude::*;
use crate::config::{Config, ConfigView};
use crate::output::Output;
use crate::text::{cat3, line};

pub mod client;

verus! {

/// The comment that opens a generated TypeScript file.
pub open spec fn file_header_text(scope: Seq<char>, d: nat) -> Seq<char> {
    line(d, "// "@ + scope + " generated by Zap"@)
}

/// The declaration of the flush function that the host calls.
pub open spec fn manual_event_loop_text(c: ConfigView, d: nat) -> Seq<char> {
    line(d, "export const "@ + c.casing.send_events() + ": () => void"@)
}

/// Appends the comment that opens a generated TypeScript file.
pub fn push_file_header(out: &mut Output, scope: &str)
    ensures
        final(out)@ == old(out)@ + file_header_text(scope@, old(out).depth()),
        final(out).depth() == old(out).depth(),
{
    let header = cat3("// ", scope, " generated by Zap");
    out.push_line(header.as_str());
}

/// Appends the declaration of the flush function that the host calls.
pub fn push_manual_event_loop(out: &mut Output, config: &Config)
    ensures
        final(out)@ == old(out)@ + manual_event_loop_text(config@, old(out).depth()),
        final(out).depth() == old(out).depth(),
{
    let send_events = config.casing.with("SendEvents", "sendEvents", "send_events");

    out.push_line(cat3("export const ", send_events, ": () => void").as_str());
}

} // verus!
