//! Cursor tracking of a stream: advances, the end of the stream, and the wait for the store.

use crate::runtime::cursor_store::{pod_log_request_for_reopen, CursorUpdate};
use crate::runtime::cursor_store;
use crate::source::pod_log::PodLogRequest;
use crate::source::{EventTime, LogEvent, LogSourceError, SourceKey};
use vstd::prelude::*;

verus! {

/// How often the store is looked at before a stream is opened again.
pub const CURSOR_FLUSH_RETRIES: usize = 16;

/// How a stream ended.
#[derive(Debug, Clone, Copy, PartialEq, Eq, Structural)]
pub enum StreamEnd {
    /// By itself; with the time of its last line, if cursors are kept and there was one.
    Eof { last_line_ts: Option<EventTime> },
    /// Because its pod is not shown any more.
    Cancelled,
}

/// Follows the items of one stream.
pub struct CursorTracker {
    key: SourceKey,
    enabled: bool,
    last_line_ts: Option<EventTime>,
    finished: bool,
}

impl CursorTracker {
    /// The stream that is followed.
    pub closed spec fn stream(&self) -> SourceKey {
        self.key
    }

    /// Whether cursors are kept.
    pub closed spec fn keeps(&self) -> bool {
        self.enabled
    }

    /// The time of the last line, if cursors are kept.
    pub closed spec fn last(&self) -> Option<EventTime> {
        self.last_line_ts
    }

    /// Whether the end was told.
    pub closed spec fn told(&self) -> bool {
        self.finished
    }

    /// Follows a stream from its start.
    pub fn new(key: SourceKey, enabled: bool) -> (tracker: Self)
        ensures
            tracker.stream() == key,
            tracker.keeps() == enabled,
            tracker.last() is None,
            !tracker.told(),
    {
        CursorTracker { key, enabled, last_line_ts: None, finished: false }
    }

    /// Takes an item of the stream; a line advances the cursor, if cursors are kept.
    pub fn on_item(&mut self, item: &Result<LogEvent, LogSourceError>) -> (update: Option<
        CursorUpdate,
    >)
        ensures
            final(self).stream() == old(self).stream(),
            final(self).keeps() == old(self).keeps(),
            final(self).told() == old(self).told(),
            match item {
                Ok(ev) if old(self).keeps() => {
                    &&& final(self).last() == Some(ev.timestamp)
                    &&& update == Some(
                        CursorUpdate { key: old(self).stream(), timestamp: ev.timestamp },
                    )
                },
                _ => final(self).last() == old(self).last() && update is None,
            },
    {
        if !self.enabled {
            return None;
        }
        match item {
            Ok(ev) => {
                self.last_line_ts = Some(ev.timestamp);
                Some(CursorUpdate { key: self.key.clone(), timestamp: ev.timestamp })
            },
            Err(_) => None,
        }
    }

    /// Tells once how the stream ended.
    pub fn finish(&mut self, cancelled: bool) -> (end: Option<StreamEnd>)
        ensures
            final(self).stream() == old(self).stream(),
            final(self).keeps() == old(self).keeps(),
            final(self).last() == old(self).last(),
            final(self).told(),
            end == if old(self).told() {
                None
            } else if cancelled {
                Some(StreamEnd::Cancelled)
            } else {
                Some(StreamEnd::Eof { last_line_ts: old(self).last() })
            },
    {
        if self.finished {
            return None;
        }
        self.finished = true;
        if cancelled {
            Some(StreamEnd::Cancelled)
        } else {
            Some(StreamEnd::Eof { last_line_ts: self.last_line_ts })
        }
    }
}

/// What to do while waiting for a cursor to reach the store.
#[derive(Debug, Clone, Copy, PartialEq, Eq, Structural)]
pub enum FlushStep {
    /// The cursor is there, or none was to come.
    Flushed,
    /// Let others run, and look again.
    Yield,
    /// Go on without it.
    GiveUp,
}

/// What to do when the store showed `got` at the look number `looks`, counted from zero.
pub open spec fn flush_decision(
    expected: Option<EventTime>,
    got: Option<EventTime>,
    looks: usize,
) -> FlushStep {
    match expected {
        None => FlushStep::Flushed,
        Some(e) => if looks >= CURSOR_FLUSH_RETRIES {
            FlushStep::GiveUp
        } else if got matches Some(g) && g.not_before(e) {
            FlushStep::Flushed
        } else {
            FlushStep::Yield
        },
    }
}

/// Decides what to do when the store showed `got` at the look number `looks`, counted from zero.
pub fn flush_step(expected: Option<EventTime>, got: Option<EventTime>, looks: usize) -> (step:
    FlushStep)
    ensures
        step == flush_decision(expected, got, looks),
{
    let expected = match expected {
        Some(e) => e,
        None => return FlushStep::Flushed,
    };
    if looks >= CURSOR_FLUSH_RETRIES {
        return FlushStep::GiveUp;
    }
    match got {
        Some(g) => if g.reaches(&expected) {
            FlushStep::Flushed
        } else {
            FlushStep::Yield
        },
        None => FlushStep::Yield,
    }
}

/// The request that opens a stream, the first time or again.
pub fn reopen_request(
    enabled: bool,
    base: &PodLogRequest,
    reopen: bool,
    last: Option<EventTime>,
) -> (request: PodLogRequest)
    requires
        last matches Some(t) ==> t.wf(),
    ensures
        request == cursor_store::reopened(
            *base,
            match last {
                Some(t) => cursor_store::overlap(t),
                None => None,
            },
            reopen && enabled,
        ),
{
    pod_log_request_for_reopen(base, last, reopen && enabled)
}

/// Without a line to wait for nothing is waited for. Otherwise the store is looked at sixteen times at
/// most, until it shows the time of that line or a later one.
pub proof fn law_wait_for_the_store(expected: EventTime, got: Option<EventTime>, looks: usize)
    ensures
        flush_decision(None, got, looks) is Flushed,
        looks >= 16 ==> flush_decision(Some(expected), got, looks) is GiveUp,
        looks < 16 && got is None ==> flush_decision(Some(expected), got, looks) is Yield,
        looks < 16 ==> (got matches Some(g) ==> (flush_decision(Some(expected), got, looks) is Flushed
            <==> (g.secs > expected.secs || (g.secs == expected.secs && g.nanos >= expected.nanos)))),
        looks < 16 ==> !(flush_decision(Some(expected), got, looks) is GiveUp),
{
}

} // verus!
