//! The life of one log stream: start, end, reconnect.
//!
//! A limit says how many log streams may *start* at the same time. It is independent of what happens
//! when the channels behind a running stream are full.

use crate::order::Keyed;
use crate::runtime::cursor_service::StreamEnd;
use crate::runtime::pod_meta_cache;
use crate::runtime::pod_meta_cache::PodMetaCache;
use crate::source::pod_meta;
use crate::source::{ContextName, EventTime, SourceKey, SourceKind, SourceMeta};
use std::sync::Arc;
use vstd::prelude::*;

verus! {

/// How often in a row opening a stream again may fail.
pub const MAX_REOPEN_START_RETRIES: u32 = 5;

/// The shortest bound of the wait after a failure (milliseconds).
pub const REOPEN_BACKOFF_BASE_MS: u64 = 250;

/// What the lines of a stream show of where they come from.
pub fn source_meta_for_key(context: &ContextName, cache: &PodMetaCache, key: &SourceKey) -> (meta:
    SourceMeta)
    requires
        cache.wf(),
    ensures
        meta.context == *context,
        meta.namespace == key.namespace,
        meta.pod == key.pod,
        meta.container == key.container,
        meta.kind is PodLog,
        meta.uid == key.uid,
        meta.labels.wf(),
        (meta.node, meta.labels.0@) == if cache@.contains_key(pod_meta::locator_key(key.key())) {
            cache@[pod_meta::locator_key(key.key())]
        } else {
            pod_meta_cache::nothing_shown()
        },
        meta.palette_index is None,
        meta.container_palette_index is None,
{
    let snapshot = cache.lookup(key);
    SourceMeta {
        context: context.clone(),
        namespace: key.namespace.clone(),
        pod: key.pod.clone(),
        container: key.container.clone(),
        kind: SourceKind::PodLog,
        node: snapshot.node,
        labels: Arc::new(snapshot.labels),
        uid: key.uid.clone(),
        palette_index: None,
        container_palette_index: None,
    }
}

/// What happened to a stream.
#[derive(Debug, Clone, Copy, PartialEq, Eq, Structural)]
pub enum AttachEvent {
    /// The stream is to be opened; tells whether it was cancelled meanwhile.
    Begin { cancelled: bool },
    /// The stream may start.
    Permitted,
    /// The stream may not start.
    Refused,
    /// The stream was opened.
    Opened,
    /// The stream could not be opened; tells whether it was cancelled meanwhile.
    OpenFailed { cancelled: bool },
    /// The opened stream found nobody to take it.
    MuxClosed,
    /// The stream ended; it may have been dropped without telling how.
    Ended { end: Option<StreamEnd> },
}

/// What to do with a stream next.
#[derive(Debug, Clone, Copy, PartialEq, Eq, Structural)]
pub enum AttachAction {
    /// Be done with it.
    Stop,
    /// Ask whether it may start, waiting for it only if `wait`.
    AskPermit { wait: bool },
    /// End the whole run, as there are too many streams.
    LimitReached,
    /// Open it, from its cursor on if `reopen`.
    Open { reopen: bool },
    /// Hand it to the mux, and wait for its end.
    HandOver,
    /// Wait until its cursor is in the store, then begin again.
    FlushThenBegin { expected: Option<EventTime> },
    /// Wait for the backoff of this attempt, then begin again.
    BackOffThenBegin { attempt: u32 },
}

/// Where a stream stands between two openings.
#[derive(Debug, Clone, Copy, PartialEq, Eq, Structural)]
pub struct AttachState {
    /// Whether the log is followed.
    pub follow: bool,
    /// Whether a stream that ended is opened again from its cursor.
    pub cursor_reconnect: bool,
    /// Whether the next opening is not the first.
    pub reopen: bool,
    /// How often in a row opening again has failed.
    pub failures: u32,
}

impl AttachState {
    /// Only a followed stream with a cursor is ever opened again, and failures are limited.
    pub open spec fn wf(&self) -> bool {
        &&& self.reopen ==> self.follow && self.cursor_reconnect
        &&& self.failures <= MAX_REOPEN_START_RETRIES
        &&& !self.reopen ==> self.failures == 0
    }

    /// A stream that was not opened yet.
    pub fn new(follow: bool, cursor_reconnect: bool) -> (state: Self)
        ensures
            state == (AttachState { follow, cursor_reconnect, reopen: false, failures: 0 }),
            state.wf(),
    {
        AttachState { follow, cursor_reconnect, reopen: false, failures: 0 }
    }

    /// The state after an event.
    pub open spec fn after(self, event: AttachEvent) -> AttachState {
        match event {
            AttachEvent::Opened => AttachState { failures: 0, ..self },
            AttachEvent::OpenFailed { cancelled } => if self.retries(cancelled) {
                AttachState { failures: (self.failures + 1) as u32, ..self }
            } else {
                self
            },
            AttachEvent::Ended { end: Some(StreamEnd::Eof { .. }) } => AttachState {
                reopen: self.reopen || (self.follow && self.cursor_reconnect),
                ..self
            },
            _ => self,
        }
    }

    /// Whether a failure to open is followed by another attempt.
    pub open spec fn retries(self, cancelled: bool) -> bool {
        self.reopen && !cancelled && self.failures < MAX_REOPEN_START_RETRIES
    }

    /// What to do after an event.
    pub open spec fn action(self, event: AttachEvent) -> AttachAction {
        match event {
            AttachEvent::Begin { cancelled } => if cancelled {
                AttachAction::Stop
            } else {
                AttachAction::AskPermit { wait: !self.follow }
            },
            AttachEvent::Permitted => AttachAction::Open { reopen: self.reopen },
            AttachEvent::Refused => if self.follow {
                AttachAction::LimitReached
            } else {
                AttachAction::Stop
            },
            AttachEvent::Opened => AttachAction::HandOver,
            AttachEvent::OpenFailed { cancelled } => if self.retries(cancelled) {
                AttachAction::BackOffThenBegin { attempt: self.failures }
            } else {
                AttachAction::Stop
            },
            AttachEvent::MuxClosed => AttachAction::Stop,
            AttachEvent::Ended { end: Some(StreamEnd::Eof { last_line_ts }) } => if self.follow
                && self.cursor_reconnect {
                AttachAction::FlushThenBegin { expected: last_line_ts }
            } else {
                AttachAction::Stop
            },
            AttachEvent::Ended { .. } => AttachAction::Stop,
        }
    }

    /// Takes an event, and decides what to do next.
    pub fn step(&mut self, event: AttachEvent) -> (action: AttachAction)
        requires
            old(self).wf(),
        ensures
            final(self).wf(),
            *final(self) == old(self).after(event),
            action == old(self).action(event),
    {
        match event {
            AttachEvent::Begin { cancelled } => {
                if cancelled {
                    AttachAction::Stop
                } else {
                    AttachAction::AskPermit { wait: !self.follow }
                }
            },
            AttachEvent::Permitted => AttachAction::Open { reopen: self.reopen },
            AttachEvent::Refused => {
                if self.follow {
                    AttachAction::LimitReached
                } else {
                    AttachAction::Stop
                }
            },
            AttachEvent::Opened => {
                self.failures = 0;
                AttachAction::HandOver
            },
            AttachEvent::OpenFailed { cancelled } => {
                if self.reopen && !cancelled && self.failures < MAX_REOPEN_START_RETRIES {
                    let attempt = self.failures;
                    self.failures = attempt + 1;
                    AttachAction::BackOffThenBegin { attempt }
                } else {
                    AttachAction::Stop
                }
            },
            AttachEvent::MuxClosed => AttachAction::Stop,
            AttachEvent::Ended { end } => {
                match end {
                    Some(StreamEnd::Eof { last_line_ts }) => {
                        if self.follow && self.cursor_reconnect {
                            self.reopen = true;
                            AttachAction::FlushThenBegin { expected: last_line_ts }
                        } else {
                            AttachAction::Stop
                        }
                    },
                    _ => AttachAction::Stop,
                }
            },
        }
    }
}

/// The state after failures to open in a row.
pub open spec fn after_failures(state: AttachState, n: nat) -> AttachState
    decreases n,
{
    if n == 0 {
        state
    } else {
        after_failures(state, (n - 1) as nat).after(AttachEvent::OpenFailed { cancelled: false })
    }
}

/// Failing to open the first time ends the stream. Failing to open it again is retried as long as it
/// has not failed too often in a row, and ends the stream then.
pub proof fn law_reopen_retries_are_bounded(state: AttachState, n: nat)
    requires
        state.wf(),
        state.failures == 0,
    ensures
        !state.reopen ==> state.action(AttachEvent::OpenFailed { cancelled: false }) is Stop,
        state.reopen && n < MAX_REOPEN_START_RETRIES ==> after_failures(state, n).action(
            AttachEvent::OpenFailed { cancelled: false },
        ) == (AttachAction::BackOffThenBegin { attempt: n as u32 }),
        n >= MAX_REOPEN_START_RETRIES ==> after_failures(state, n).action(
            AttachEvent::OpenFailed { cancelled: false },
        ) is Stop,
{
    lemma_failures(state, n);
}

proof fn lemma_failures(state: AttachState, n: nat)
    requires
        state.wf(),
        state.failures == 0,
    ensures
        after_failures(state, n) == (AttachState {
            failures: if !state.reopen {
                0
            } else if n < MAX_REOPEN_START_RETRIES {
                n as u32
            } else {
                MAX_REOPEN_START_RETRIES
            },
            ..state
        }),
    decreases n,
{
    if n > 0 {
        lemma_failures(state, (n - 1) as nat);
    }
}

/// Once cancelled, a stream is neither opened nor retried.
pub proof fn law_cancelled_stream_stops(state: AttachState)
    ensures
        state.action(AttachEvent::Begin { cancelled: true }) is Stop,
        state.action(AttachEvent::OpenFailed { cancelled: true }) is Stop,
        state.action(AttachEvent::Ended { end: Some(StreamEnd::Cancelled) }) is Stop,
{
}

/// A followed stream with a cursor that ends is opened again from its cursor once the time of its
/// last line is stored, and from then on every opening is one from the cursor. A stream that is not
/// followed, or has no cursor, is done when it ends.
pub proof fn law_ended_stream_is_opened_again(state: AttachState, last: Option<EventTime>)
    requires
        state.wf(),
    ensures
        ({
            let ended = AttachEvent::Ended { end: Some(StreamEnd::Eof { last_line_ts: last }) };
            let next = state.after(ended);
            if state.follow && state.cursor_reconnect {
                &&& state.action(ended) == (AttachAction::FlushThenBegin { expected: last })
                &&& next.action(AttachEvent::Permitted) == (AttachAction::Open { reopen: true })
                &&& next.failures == state.failures
            } else {
                &&& state.action(ended) is Stop
                &&& next.action(AttachEvent::Permitted) == (AttachAction::Open { reopen: false })
            }
        }),
        state.action(AttachEvent::Ended { end: None }) is Stop,
{
}

/// A followed stream does not wait for its permit and ends the run where it gets none; any other waits
/// for it, and stops alone.
pub proof fn law_permits(state: AttachState)
    ensures
        state.action(AttachEvent::Begin { cancelled: false }) == (AttachAction::AskPermit {
            wait: !state.follow,
        }),
        state.follow ==> state.action(AttachEvent::Refused) is LimitReached,
        !state.follow ==> state.action(AttachEvent::Refused) is Stop,
        state.action(AttachEvent::Permitted) == (AttachAction::Open { reopen: state.reopen }),
        state.action(AttachEvent::MuxClosed) is Stop,
        state.after(AttachEvent::Begin { cancelled: false }) == state,
        state.after(AttachEvent::Permitted) == state,
{
}

/// An opened stream is handed over, and its earlier failures are forgotten.
pub proof fn law_opening_forgets_failures(state: AttachState)
    ensures
        state.action(AttachEvent::Opened) is HandOver,
        state.after(AttachEvent::Opened).failures == 0,
        state.after(AttachEvent::Opened).reopen == state.reopen,
        state.after(AttachEvent::Opened).follow == state.follow,
        state.after(AttachEvent::Opened).cursor_reconnect == state.cursor_reconnect,
{
}

/// Opening a stream again is tried five times after the first failure.
pub proof fn law_five_retries(state: AttachState)
    requires
        state.wf(),
        state.reopen,
    ensures
        state.failures < 5 ==> state.action(AttachEvent::OpenFailed { cancelled: false }) == (
        AttachAction::BackOffThenBegin { attempt: state.failures }) && state.after(
            AttachEvent::OpenFailed { cancelled: false },
        ).failures == state.failures + 1,
        state.failures >= 5 ==> state.action(AttachEvent::OpenFailed { cancelled: false }) is Stop,
{
}

} // verus!
