//! The Luau backend.

use vstd::prelude::*;
use crate::output::Output;
use crate::text::{cat3, line};

pub mod server;

verus! {

/// The comment that opens a generated Luau file.
pub open spec fn file_header_text(scope: Seq<char>, d: nat) -> Seq<char> {
    line(d, "-- "@ + scope + " generated by Zap"@)
}

/// Appends the comment that opens a generated Luau file.
pub fn push_file_header(out: &mut Output, scope: &str)
    ensures
        final(out)@ == old(out)@ + file_header_text(scope@, old(out).depth()),
        final(out).depth() == old(out).depth(),
{
    let header = cat3("-- ", scope, " generated by Zap");
    out.push_line(header.as_str());
}

} // verus!
