//! Lines that hold the message alone.

use crate::render::LineFormatter;
use crate::source::LogEvent;
use vstd::prelude::*;

verus! {

/// Writes the message alone.
#[derive(Debug)]
pub struct RawLineFormatter;

impl LineFormatter for RawLineFormatter {
    open spec fn formats(&self, event: LogEvent, before: Seq<char>, after: Seq<char>) -> bool {
        after == before + event.message@ + "\n"@
    }

    fn format_into(&self, event: &LogEvent, buf: &mut String) {
        buf.append(&event.message);
        buf.append("\n");
    }
}

/// A line is the message and a line feed, behind what was written before; nothing of where it comes
/// from is shown.
pub proof fn law_message_alone(event: LogEvent, before: Seq<char>, after: Seq<char>)
    requires
        RawLineFormatter.formats(event, before, after),
    ensures
        after.len() == before.len() + event.message@.len() + 1,
        after.take(before.len() as int) == before,
        after.subrange(before.len() as int, after.len() - 1) == event.message@,
        after.last() == '\n',
{
    reveal_strlit("\n");
    assert(after.take(before.len() as int) =~= before);
    assert(after.subrange(before.len() as int, after.len() - 1) =~= event.message@);
}

} // verus!
