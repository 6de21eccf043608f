//! Many streams into one channel: which streams run, and what becomes of each item.

use crate::key_set::KeySet;
use crate::order::Keyed;
use crate::runtime::config::BackpressurePolicy;
use crate::runtime::forward::{RunStats, RunStatsSnapshot, SendOutcome};
use crate::source::SourceKey;
use vstd::prelude::*;

verus! {

/// What the mux is told to do.
pub enum MuxCmd<S> {
    /// Run a stream, in place of one of the same key.
    Add(SourceKey, S),
    /// Drop a stream.
    Remove(SourceKey),
}

/// The streams that the mux runs.
pub struct MuxState {
    running: KeySet<SourceKey>,
}

/// What to do with an item, or after one.
#[derive(Debug, Clone, Copy, PartialEq, Eq, Structural)]
pub enum MuxStep {
    /// Go on.
    Continue,
    /// Go on, and count the item as dropped.
    Drop,
    /// End.
    Stop,
}

/// The counters when `n` streams are active.
pub open spec fn with_active(counters: RunStatsSnapshot, n: nat) -> RunStatsSnapshot {
    RunStatsSnapshot { active_streams: n as u64, ..counters }
}

impl MuxState {
    /// The set of streams is sorted.
    pub closed spec fn wf(&self) -> bool {
        self.running.wf()
    }

    /// The streams that run, by key.
    pub closed spec fn streams(&self) -> Set<Seq<Seq<char>>> {
        self.running@
    }

    /// No stream runs.
    pub fn new() -> (state: Self)
        ensures
            state.wf(),
            state.streams() == Set::<Seq<Seq<char>>>::empty(),
    {
        MuxState { running: KeySet::new() }
    }

    /// Whether no stream runs.
    pub fn is_empty(&self) -> (empty: bool)
        requires
            self.wf(),
        ensures
            empty == (self.streams() == Set::<Seq<Seq<char>>>::empty()),
    {
        self.running.is_empty()
    }

    /// Takes a command, and counts the active streams where their number may have changed. Without a
    /// command there is nobody left to give one, and the mux ends.
    pub fn on_command<S>(&mut self, cmd: Option<&MuxCmd<S>>, stats: &mut RunStats) -> (step: MuxStep)
        requires
            old(self).wf(),
        ensures
            final(self).wf(),
            final(stats).reports_drops() == old(stats).reports_drops(),
            final(stats).saw_source_error() == old(stats).saw_source_error(),
            match cmd {
                Some(MuxCmd::Add(key, _)) => {
                    &&& step == MuxStep::Continue
                    &&& final(self).streams() == old(self).streams().insert(key.key())
                    &&& final(stats).counters() == with_active(
                        old(stats).counters(),
                        final(self).streams().len(),
                    )
                },
                Some(MuxCmd::Remove(key)) => {
                    &&& step == MuxStep::Continue
                    &&& final(self).streams() == old(self).streams().remove(key.key())
                    &&& final(stats).counters() == if old(self).streams().contains(key.key()) {
                        with_active(old(stats).counters(), final(self).streams().len())
                    } else {
                        old(stats).counters()
                    }
                },
                None => {
                    &&& step == MuxStep::Stop
                    &&& final(self).streams() == old(self).streams()
                    &&& final(stats).counters() == old(stats).counters()
                },
            },
    {
        match cmd {
            Some(MuxCmd::Add(key, _)) => {
                self.running.insert(key.clone());
                stats.set_active_streams(self.running.len());
                MuxStep::Continue
            },
            Some(MuxCmd::Remove(key)) => {
                if self.running.remove(key) {
                    stats.set_active_streams(self.running.len());
                }
                MuxStep::Continue
            },
            None => MuxStep::Stop,
        }
    }

    /// Takes note of a stream that ended by itself. The counter follows with the next command.
    pub fn on_stream_end(&mut self, key: &SourceKey)
        requires
            old(self).wf(),
        ensures
            final(self).wf(),
            final(self).streams() == old(self).streams().remove(key.key()),
    {
        self.running.remove(key);
    }

    /// Ends the mux: no stream is active.
    pub fn finish(self, stats: &mut RunStats)
        ensures
            final(stats).counters() == with_active(old(stats).counters(), 0),
            final(stats).reports_drops() == old(stats).reports_drops(),
            final(stats).saw_source_error() == old(stats).saw_source_error(),
    {
        stats.set_active_streams(0);
    }
}

/// Whether the mux waits until an item can be handed on.
pub fn waits_for_room(policy: BackpressurePolicy) -> (waits: bool)
    ensures
        waits == (policy == BackpressurePolicy::Blocking),
{
    matches!(policy, BackpressurePolicy::Blocking)
}

/// What follows from handing an item on. An item is dropped only where items may be lost.
pub fn mux_sent(policy: BackpressurePolicy, outcome: SendOutcome) -> (step: MuxStep)
    ensures
        step == match outcome {
            SendOutcome::Sent => MuxStep::Continue,
            SendOutcome::Full => match policy {
                BackpressurePolicy::Lossy => MuxStep::Drop,
                BackpressurePolicy::Blocking => MuxStep::Stop,
            },
            SendOutcome::Closed => MuxStep::Stop,
        },
{
    match outcome {
        SendOutcome::Sent => MuxStep::Continue,
        SendOutcome::Full => match policy {
            BackpressurePolicy::Lossy => MuxStep::Drop,
            BackpressurePolicy::Blocking => MuxStep::Stop,
        },
        SendOutcome::Closed => MuxStep::Stop,
    }
}

/// Counting the active streams leaves the counters of lines alone.
pub proof fn law_active_streams_are_counted(counters: RunStatsSnapshot, n: u64)
    ensures
        with_active(counters, n as nat).active_streams == n,
        with_active(counters, n as nat).forwarded_lines == counters.forwarded_lines,
        with_active(counters, n as nat).dropped_lines == counters.dropped_lines,
{
}

} // verus!
