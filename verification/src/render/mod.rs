//! Turning events into output lines.

pub mod color;
pub mod default_renderer;
pub mod ext_json_renderer;
pub mod highlight;
pub mod json_renderer;
pub mod json_text;
pub mod raw_renderer;
pub mod setup;

use crate::source::LogEvent;
use vstd::prelude::*;

verus! {

/// Capacity of the buffer in front of the output (bytes).
pub const RENDER_WRITER_CAPACITY: usize = 65_536;

/// How many commands the render task takes at a time.
pub const RENDER_RECV_BATCH: usize = 256;

/// A way to write an event.
pub trait LineFormatter: Sized {
    /// Whether writing `event` behind `before` may leave `after`.
    spec fn formats(&self, event: LogEvent, before: Seq<char>, after: Seq<char>) -> bool;

    /// Writes the event behind what the buffer holds.
    fn format_into(&self, event: &LogEvent, buf: &mut String)
        requires
            event.wf(),
        ensures
            self.formats(*event, old(buf)@, final(buf)@),
    ;

    /// Writes the event alone.
    fn format_line(&self, event: &LogEvent) -> (line: String)
        requires
            event.wf(),
        ensures
            self.formats(*event, Seq::empty(), line@),
    {
        let mut buf = String::new();
        self.format_into(event, &mut buf);
        buf
    }
}

/// What the render task is told to do.
pub enum RenderCommand {
    Line(LogEvent),
    Flush,
    Shutdown,
}

/// What the render task does next.
#[derive(Debug)]
pub enum RenderAction {
    /// Write these characters.
    Write(String),
    /// Flush what was written, and go on.
    Flush,
    /// Flush what was written, and end.
    FlushAndStop,
}

/// What a command asks of the render task. Once nothing can be received any more, there is no
/// command.
pub fn render_step<F: LineFormatter>(formatter: &F, command: Option<&RenderCommand>) -> (action:
    RenderAction)
    requires
        command matches Some(RenderCommand::Line(ev)) ==> ev.wf(),
    ensures
        match command {
            Some(RenderCommand::Line(ev)) => (action matches RenderAction::Write(line)
                && formatter.formats(*ev, Seq::empty(), line@)),
            Some(RenderCommand::Flush) => action is Flush,
            Some(RenderCommand::Shutdown) => action is FlushAndStop,
            None => action is FlushAndStop,
        },
{
    match command {
        Some(RenderCommand::Line(ev)) => RenderAction::Write(formatter.format_line(ev)),
        Some(RenderCommand::Flush) => RenderAction::Flush,
        Some(RenderCommand::Shutdown) => RenderAction::FlushAndStop,
        None => RenderAction::FlushAndStop,
    }
}

} // verus!
