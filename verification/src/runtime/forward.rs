//! Forwarding to the renderer: counters, drop warnings, and what to do with each item.

use crate::render::RenderCommand;
use crate::runtime::config::{Interval, RuntimeFwdConfig};
use crate::source::{LogEvent, LogSourceError};
use crate::text;
use vstd::prelude::*;

verus! {

/// Counters of one reporting window.
#[derive(Debug, Clone, Copy, PartialEq, Eq, Structural)]
pub struct RunStatsSnapshot {
    pub active_streams: u64,
    pub forwarded_lines: u64,
    pub dropped_lines: u64,
}

/// Counters of a run. Line counters wrap around and start anew with each window.
#[derive(Debug)]
pub struct RunStats {
    active_streams: u64,
    forwarded_lines: u64,
    dropped_lines: u64,
    source_errors: bool,
    lossy: bool,
}

/// What `std::time::Duration` shows of itself when it is formatted for debugging.
pub uninterp spec fn duration_shown(secs: u64, nanos: u32) -> Seq<char>;

/// `std::time::Duration` is formatted for debugging.
#[verifier::external_body]
fn show_duration(secs: u64, nanos: u32) -> (shown: String)
    requires
        nanos < 1_000_000_000,
    ensures
        shown@ == duration_shown(secs, nanos),
{
    format!("{:?}", std::time::Duration::new(secs, nanos))
}

/// What a report says of a window, where the window's length shows as `window`.
pub open spec fn report_text(snapshot: RunStatsSnapshot, window: Seq<char>, lossy: bool) -> Seq<char> {
    let base = "stats: active streams="@ + text::decimal(snapshot.active_streams as nat)
        + ", forwarded lines="@ + text::decimal(snapshot.forwarded_lines as nat) + "/"@ + window;
    if lossy {
        base + ", dropped lines="@ + text::decimal(snapshot.dropped_lines as nat) + "/"@ + window
    } else {
        base
    }
}

/// The number after `n` on a counter that wraps around.
pub open spec fn counted(n: u64) -> u64 {
    if n == u64::MAX {
        0
    } else {
        (n + 1) as u64
    }
}

pub fn count(n: u64) -> (next: u64)
    ensures
        next == counted(n),
{
    if n == u64::MAX {
        0
    } else {
        n + 1
    }
}

impl RunStats {
    /// The counters as they stand.
    pub closed spec fn counters(&self) -> RunStatsSnapshot {
        RunStatsSnapshot {
            active_streams: self.active_streams,
            forwarded_lines: self.forwarded_lines,
            dropped_lines: self.dropped_lines,
        }
    }

    /// Whether dropped lines are reported.
    pub closed spec fn reports_drops(&self) -> bool {
        self.lossy
    }

    /// Whether some source reported an API error.
    pub closed spec fn saw_source_error(&self) -> bool {
        self.source_errors
    }

    /// All counters at zero.
    pub fn new(lossy: bool) -> (stats: Self)
        ensures
            stats.counters() == (RunStatsSnapshot {
                active_streams: 0,
                forwarded_lines: 0,
                dropped_lines: 0,
            }),
            stats.reports_drops() == lossy,
            !stats.saw_source_error(),
    {
        RunStats {
            active_streams: 0,
            forwarded_lines: 0,
            dropped_lines: 0,
            source_errors: false,
            lossy,
        }
    }

    /// Sets how many streams are active.
    pub fn set_active_streams(&mut self, active_streams: usize)
        ensures
            final(self).counters() == (RunStatsSnapshot {
                active_streams: active_streams as u64,
                ..old(self).counters()
            }),
            final(self).reports_drops() == old(self).reports_drops(),
            final(self).saw_source_error() == old(self).saw_source_error(),
    {
        self.active_streams = active_streams as u64;
    }

    /// Counts a line that was handed on.
    pub fn record_forwarded_line(&mut self)
        ensures
            final(self).counters() == (RunStatsSnapshot {
                forwarded_lines: counted(old(self).counters().forwarded_lines),
                ..old(self).counters()
            }),
            final(self).reports_drops() == old(self).reports_drops(),
            final(self).saw_source_error() == old(self).saw_source_error(),
    {
        self.forwarded_lines = count(self.forwarded_lines);
    }

    /// Counts a line that was dropped.
    pub fn record_dropped_line(&mut self)
        ensures
            final(self).counters() == (RunStatsSnapshot {
                dropped_lines: counted(old(self).counters().dropped_lines),
                ..old(self).counters()
            }),
            final(self).reports_drops() == old(self).reports_drops(),
            final(self).saw_source_error() == old(self).saw_source_error(),
    {
        self.dropped_lines = count(self.dropped_lines);
    }

    /// Notes an item of a source: an API error counts for the outcome of the run.
    pub fn record_item(&mut self, item: &Result<LogEvent, LogSourceError>)
        ensures
            final(self).counters() == old(self).counters(),
            final(self).reports_drops() == old(self).reports_drops(),
            final(self).saw_source_error() == (old(self).saw_source_error() || (
            item matches Err(e) && e is Api)),
    {
        match item {
            Err(LogSourceError::Api(_)) => {
                self.source_errors = true;
            },
            _ => {},
        }
    }

    /// Whether some source reported an API error.
    pub fn had_source_errors(&self) -> (seen: bool)
        ensures
            seen == self.saw_source_error(),
    {
        self.source_errors
    }

    /// Hands out the counters of the window and starts a new one. Active streams stay.
    pub fn snapshot_and_reset(&mut self) -> (snapshot: RunStatsSnapshot)
        ensures
            snapshot == old(self).counters(),
            final(self).counters() == (RunStatsSnapshot {
                forwarded_lines: 0,
                dropped_lines: 0,
                ..old(self).counters()
            }),
            final(self).reports_drops() == old(self).reports_drops(),
            final(self).saw_source_error() == old(self).saw_source_error(),
    {
        let snapshot = RunStatsSnapshot {
            active_streams: self.active_streams,
            forwarded_lines: self.forwarded_lines,
            dropped_lines: self.dropped_lines,
        };
        self.forwarded_lines = 0;
        self.dropped_lines = 0;
        snapshot
    }

    /// Reports the window and starts a new one.
    pub fn format_window(&mut self, interval: Interval) -> (report: String)
        requires
            interval.wf(),
        ensures
            report@ == report_text(
                old(self).counters(),
                duration_shown(interval.secs, interval.nanos),
                old(self).reports_drops(),
            ),
            final(self).counters() == (RunStatsSnapshot {
                forwarded_lines: 0,
                dropped_lines: 0,
                ..old(self).counters()
            }),
            final(self).reports_drops() == old(self).reports_drops(),
            final(self).saw_source_error() == old(self).saw_source_error(),
    {
        let snapshot = self.snapshot_and_reset();
        let window = show_duration(interval.secs, interval.nanos);
        Self::format_snapshot(snapshot, window.as_str(), self.lossy)
    }

    /// What a report says of a window whose length shows as `window`.
    pub fn format_snapshot(snapshot: RunStatsSnapshot, window: &str, lossy: bool) -> (report: String)
        ensures
            report@ == report_text(snapshot, window@, lossy),
    {
        let base = "stats: active streams=".to_owned().concat(
            text::to_decimal(snapshot.active_streams).as_str(),
        ).concat(", forwarded lines=").concat(text::to_decimal(snapshot.forwarded_lines).as_str()).concat(
        "/").concat(window);
        if lossy {
            base.concat(", dropped lines=").concat(text::to_decimal(snapshot.dropped_lines).as_str()).concat(
            "/").concat(window)
        } else {
            base
        }
    }
}

/// How long after a drop warning the next one may follow, in nanoseconds.
pub const WARN_INTERVAL_NANOS: u128 = 5_000_000_000;

/// How often the total of dropped lines is reported.
pub const CUMULATIVE_INTERVAL_SECS: u64 = 30;

/// Counts dropped lines and rations the warnings about them.
#[derive(Debug)]
pub struct LossyMetrics {
    last_warn_at: Option<u128>,
    dropped_total: u64,
}

impl LossyMetrics {
    /// When the last warning was given, in nanoseconds of the monotonic clock.
    pub closed spec fn last_warning(&self) -> Option<u128> {
        self.last_warn_at
    }

    /// How many lines were dropped since the total was last taken.
    pub closed spec fn total(&self) -> u64 {
        self.dropped_total
    }

    /// Nothing dropped, and the first drop warns.
    pub fn new() -> (metrics: Self)
        ensures
            metrics.last_warning() is None,
            metrics.total() == 0,
    {
        LossyMetrics { last_warn_at: None, dropped_total: 0 }
    }

    /// How many lines were dropped since the total was last taken.
    pub fn drop_count(&self) -> (total: u64)
        ensures
            total == self.total(),
    {
        self.dropped_total
    }

    /// Whether a drop at `now` is to be warned about.
    pub open spec fn warns_at(&self, now: u128) -> bool {
        match self.last_warning() {
            Some(last) => now - last >= WARN_INTERVAL_NANOS,
            None => true,
        }
    }

    /// Counts a line that was dropped at the monotonic time `now`, here and in the counters of the
    /// run; answers whether to warn about it.
    pub fn record_drop(&mut self, now: u128, stats: &mut RunStats) -> (warn: bool)
        ensures
            final(stats).counters() == counted_send(old(stats).counters(), SendOutcome::Full),
            final(stats).reports_drops() == old(stats).reports_drops(),
            final(stats).saw_source_error() == old(stats).saw_source_error(),
            final(self).total() == counted(old(self).total()),
            warn == old(self).warns_at(now),
            final(self).last_warning() == if warn {
                Some(now)
            } else {
                old(self).last_warning()
            },
    {
        self.dropped_total = count(self.dropped_total);
        stats.record_dropped_line();
        let warn = match self.last_warn_at {
            Some(last) => now >= last && now - last >= WARN_INTERVAL_NANOS,
            None => true,
        };
        if warn {
            self.last_warn_at = Some(now);
        }
        warn
    }

    /// Takes the total for a summary; there is none where nothing was dropped.
    pub fn take_total(&mut self) -> (summary: Option<u64>)
        ensures
            final(self).total() == 0,
            final(self).last_warning() == old(self).last_warning(),
            summary == if old(self).total() > 0 {
                Some(old(self).total())
            } else {
                None
            },
    {
        let total = self.dropped_total;
        self.dropped_total = 0;
        if total > 0 {
            Some(total)
        } else {
            None
        }
    }
}

/// What to do with an item that came out of the pipeline.
pub enum ForwardAction {
    /// Stop forwarding.
    Stop,
    /// Hand the command on if there is room for it.
    TrySend(RenderCommand),
    /// Hand the command on, waiting for room.
    Send(RenderCommand),
    /// Report the error and go on.
    Report(LogSourceError),
}

/// How handing on a command ended.
#[derive(Debug, Clone, Copy, PartialEq, Eq, Structural)]
pub enum SendOutcome {
    Sent,
    Full,
    Closed,
}

/// What handing on a command led to.
#[derive(Debug, Clone, Copy, PartialEq, Eq, Structural)]
pub enum ForwardStep {
    /// Go on; the line was handed on.
    Forwarded,
    /// Go on; the line was dropped, which is to be warned about if `warn`.
    Dropped { warn: bool },
    /// Stop forwarding.
    Stop,
}

/// Decides what becomes of an item: nothing once the run is cancelled; a line goes to the renderer,
/// without waiting where lines may be lost; an error is reported.
pub fn forward_item(
    item: Result<LogEvent, LogSourceError>,
    cancelled: bool,
    cfg: &RuntimeFwdConfig,
) -> (action: ForwardAction)
    ensures
        if cancelled {
            action is Stop
        } else {
            match item {
                Ok(ev) => action == if cfg.lossy {
                    ForwardAction::TrySend(RenderCommand::Line(ev))
                } else {
                    ForwardAction::Send(RenderCommand::Line(ev))
                },
                Err(e) => action == ForwardAction::Report(e),
            }
        },
{
    if cancelled {
        return ForwardAction::Stop;
    }
    match item {
        Ok(ev) => if cfg.lossy {
            ForwardAction::TrySend(RenderCommand::Line(ev))
        } else {
            ForwardAction::Send(RenderCommand::Line(ev))
        },
        Err(e) => ForwardAction::Report(e),
    }
}

/// The counters after a line was handed on.
pub open spec fn counted_send(counters: RunStatsSnapshot, outcome: SendOutcome) -> RunStatsSnapshot {
    match outcome {
        SendOutcome::Sent => RunStatsSnapshot {
            forwarded_lines: counted(counters.forwarded_lines),
            ..counters
        },
        SendOutcome::Full => RunStatsSnapshot {
            dropped_lines: counted(counters.dropped_lines),
            ..counters
        },
        SendOutcome::Closed => counters,
    }
}

/// The total of dropped lines after a line was handed on.
pub open spec fn counted_drop(total: u64, outcome: SendOutcome) -> u64 {
    if outcome == SendOutcome::Full {
        counted(total)
    } else {
        total
    }
}

/// Counts what handing on a line at the monotonic time `now` led to, and decides whether forwarding
/// goes on. A dropped line counts once in the counters of the run and once in the total.
pub fn forward_sent(
    outcome: SendOutcome,
    now: u128,
    stats: &mut RunStats,
    metrics: &mut LossyMetrics,
) -> (step: ForwardStep)
    ensures
        step == match outcome {
            SendOutcome::Sent => ForwardStep::Forwarded,
            SendOutcome::Full => ForwardStep::Dropped { warn: old(metrics).warns_at(now) },
            SendOutcome::Closed => ForwardStep::Stop,
        },
        final(stats).counters() == counted_send(old(stats).counters(), outcome),
        final(stats).reports_drops() == old(stats).reports_drops(),
        final(stats).saw_source_error() == old(stats).saw_source_error(),
        final(metrics).total() == counted_drop(old(metrics).total(), outcome),
        final(metrics).last_warning() == if outcome == SendOutcome::Full && old(metrics).warns_at(
            now,
        ) {
            Some(now)
        } else {
            old(metrics).last_warning()
        },
{
    match outcome {
        SendOutcome::Sent => {
            stats.record_forwarded_line();
            ForwardStep::Forwarded
        },
        SendOutcome::Full => {
            let warn = metrics.record_drop(now, stats);
            ForwardStep::Dropped { warn }
        },
        SendOutcome::Closed => ForwardStep::Stop,
    }
}

/// The counters after lines were handed on, one after the other.
pub open spec fn counted_sends(counters: RunStatsSnapshot, outcomes: Seq<SendOutcome>) -> RunStatsSnapshot
    decreases outcomes.len(),
{
    if outcomes.len() == 0 {
        counters
    } else {
        counted_send(counted_sends(counters, outcomes.drop_last()), outcomes.last())
    }
}

/// Every line that is handed on while the channel is open counts once, as forwarded or as dropped.
pub proof fn law_no_line_is_lost_silently(counters: RunStatsSnapshot, outcomes: Seq<SendOutcome>)
    requires
        forall|i: int| 0 <= i < outcomes.len() ==> #[trigger] outcomes[i] != SendOutcome::Closed,
        counters.forwarded_lines + counters.dropped_lines + outcomes.len() <= u64::MAX,
    ensures
        ({
            let after = counted_sends(counters, outcomes);
            &&& after.forwarded_lines + after.dropped_lines == counters.forwarded_lines
                + counters.dropped_lines + outcomes.len()
            &&& after.active_streams == counters.active_streams
        }),
    decreases outcomes.len(),
{
    if outcomes.len() > 0 {
        let rest = outcomes.drop_last();
        assert(outcomes[outcomes.len() - 1] != SendOutcome::Closed);
        assert forall|i: int| 0 <= i < rest.len() implies #[trigger] rest[i]
            != SendOutcome::Closed by {
            assert(outcomes[i] != SendOutcome::Closed);
        }
        law_no_line_is_lost_silently(counters, rest);
    }
}

/// The total of dropped lines after lines were handed on, one after the other.
pub open spec fn counted_drops(total: u64, outcomes: Seq<SendOutcome>) -> u64
    decreases outcomes.len(),
{
    if outcomes.len() == 0 {
        total
    } else {
        counted_drop(counted_drops(total, outcomes.drop_last()), outcomes.last())
    }
}

/// Every dropped line counts alike in the counters of the run and in the total: as long as neither is
/// taken, they stay equal.
pub proof fn law_drops_count_alike(counters: RunStatsSnapshot, outcomes: Seq<SendOutcome>)
    ensures
        counted_sends(counters, outcomes).dropped_lines == counted_drops(
            counters.dropped_lines,
            outcomes,
        ),
    decreases outcomes.len(),
{
    if outcomes.len() > 0 {
        law_drops_count_alike(counters, outcomes.drop_last());
    }
}

/// A counter goes up by one, and from the greatest number back to zero.
pub proof fn law_counter(n: u64)
    ensures
        n < u64::MAX ==> counted(n) == n + 1,
        counted(u64::MAX) == 0,
{
}

/// A line that was handed on counts as forwarded and not as dropped, one that found no room the other
/// way round, and one that nobody takes any more not at all.
pub proof fn law_each_outcome_counts_once(counters: RunStatsSnapshot)
    requires
        counters.forwarded_lines < u64::MAX,
        counters.dropped_lines < u64::MAX,
    ensures
        ({
            let sent = counted_send(counters, SendOutcome::Sent);
            let full = counted_send(counters, SendOutcome::Full);
            &&& sent.forwarded_lines == counters.forwarded_lines + 1
            &&& sent.dropped_lines == counters.dropped_lines
            &&& full.dropped_lines == counters.dropped_lines + 1
            &&& full.forwarded_lines == counters.forwarded_lines
            &&& sent.active_streams == counters.active_streams
            &&& full.active_streams == counters.active_streams
            &&& counted_send(counters, SendOutcome::Closed) == counters
        }),
{
}

/// The first drop is warned about, and after a warning none for five seconds.
pub proof fn law_warnings_are_rationed(metrics: LossyMetrics, now: u128)
    ensures
        metrics.last_warning() is None ==> metrics.warns_at(now),
        metrics.last_warning() matches Some(last) ==> (metrics.warns_at(now) <==> now >= last
            + 5_000_000_000),
{
}

/// A report names the active streams, the forwarded lines and the window; dropped lines are added
/// where lines may be lost, and only there.
pub proof fn law_report(snapshot: RunStatsSnapshot, window: Seq<char>)
    ensures
        report_text(snapshot, window, false) == "stats: active streams="@ + text::decimal(
            snapshot.active_streams as nat,
        ) + ", forwarded lines="@ + text::decimal(snapshot.forwarded_lines as nat) + "/"@ + window,
        report_text(snapshot, window, true) == report_text(snapshot, window, false)
            + ", dropped lines="@ + text::decimal(snapshot.dropped_lines as nat) + "/"@ + window,
{
}

} // verus!
