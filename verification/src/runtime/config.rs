//! Run configuration, run outcome, and error types.

use crate::discovery::context::{ContextError, ContextSelector};
use crate::discovery::pod_condition::PodConditionFilter;
use crate::discovery::pod_list::PodListError;
use crate::discovery::resource::QueryParseError;
use crate::format_display::{TimestampStyle, TimestampZone};
use crate::pipeline::exit_watch::ExitOnLevel;
use crate::pipeline::include_exclude::FilterOn;
use crate::pipeline::jq_evaluate::{JqError, QueryMode};
use crate::source::pod_log::PodLogRequest;
use vstd::prelude::*;

verus! {

/// Backpressure policy for a bounded channel tier (mux raw queue or forward render queue).
#[derive(Debug, Clone, Copy, PartialEq, Eq, Structural)]
pub enum BackpressurePolicy {
    /// Block the producer until capacity is available.
    Blocking,
    /// Drop events when the channel is full.
    Lossy,
}

impl BackpressurePolicy {
    /// The policy that a lossy flag asks for.
    pub fn from_lossy(lossy: bool) -> (policy: Self)
        ensures
            policy == if lossy {
                BackpressurePolicy::Lossy
            } else {
                BackpressurePolicy::Blocking
            },
    {
        if lossy {
            BackpressurePolicy::Lossy
        } else {
            BackpressurePolicy::Blocking
        }
    }
}

/// A length of time: seconds and nanoseconds within the second.
#[derive(Debug, Clone, Copy, PartialEq, Eq, Structural)]
pub struct Interval {
    pub secs: u64,
    pub nanos: u32,
}

impl Interval {
    /// The nanoseconds do not make up another second.
    pub open spec fn wf(&self) -> bool {
        self.nanos < 1_000_000_000
    }

    /// That many seconds.
    pub fn from_secs(secs: u64) -> (interval: Self)
        ensures
            interval == (Interval { secs, nanos: 0 }),
            interval.wf(),
    {
        Interval { secs, nanos: 0 }
    }
}

/// How often counters are reported.
#[derive(Debug, Clone, Copy, PartialEq, Eq, Structural)]
pub struct RuntimeStatsConfig {
    /// Emit one stderr report per interval.
    pub interval: Interval,
}

/// Bounded queue and parallelism hints for forwarded log events.
#[derive(Debug, Clone, Copy, PartialEq, Eq, Structural)]
pub struct RuntimeFwdConfig {
    /// Render channel capacity.
    pub buffer_size: usize,
    /// Skip lines instead of blocking when the forward to render queue is full.
    pub lossy: bool,
    /// What happens when the mux to pipeline queue is full.
    pub mux_policy: BackpressurePolicy,
    /// Optional stderr stats reporter.
    pub stats: Option<RuntimeStatsConfig>,
    /// Upper bound on concurrent pod log streams.
    pub max_log_requests: usize,
}

/// A capacity that is at least one.
pub open spec fn at_least_one(n: usize) -> usize {
    if n == 0 {
        1
    } else {
        n
    }
}

impl RuntimeFwdConfig {
    /// The capacity of the render channel, which holds at least one command.
    pub fn render_channel_capacity(&self) -> (capacity: usize)
        ensures
            capacity == at_least_one(self.buffer_size),
    {
        if self.buffer_size == 0 {
            1
        } else {
            self.buffer_size
        }
    }

    /// Mux-tier backpressure policy.
    pub fn resolved_mux_policy(&self) -> (policy: BackpressurePolicy)
        ensures
            policy == self.mux_policy,
    {
        self.mux_policy
    }
}

/// How many log streams may start at the same time: at least one.
pub fn log_request_permits(max: usize) -> (permits: usize)
    ensures
        permits == at_least_one(max),
{
    if max == 0 {
        1
    } else {
        max
    }
}

/// High-level stdout rendering mode.
#[derive(Debug, Clone, Copy, PartialEq, Eq, Structural)]
pub enum OutputMode {
    /// Human-readable prefixed lines.
    Default,
    /// Raw message-only lines (no prefixes).
    Raw,
    /// One JSON object per log line.
    Json,
    /// Extended JSON (plain metadata fields).
    ExtJson,
    /// Pretty-printed extended JSON.
    PpExtJson,
}

/// Line formatter preset (timing and color knobs apply to the default formatter only).
#[derive(Debug)]
pub enum FormatterChoice {
    /// Prefix / color / timestamps for terminal-friendly output.
    Default {
        timestamp_style: TimestampStyle,
        timestamp_zone: TimestampZone,
        color_enabled: bool,
        pod_colors: bool,
        container_colors: bool,
    },
    /// One JSON object per line.
    Json,
    /// Extended JSON.
    ExtJson { all_namespaces: bool },
    /// Pretty extended JSON.
    PpExtJson { all_namespaces: bool },
    /// Transparent passthrough (message only).
    Raw,
}

/// Fully wired configuration of a run.
#[derive(Debug)]
pub struct CoreRunConfig {
    /// Cluster access (kube context + kubeconfig hints).
    pub context: ContextSelector,
    /// User query (pod name regex, `kind/name`, `.` with selectors).
    pub query: String,
    /// Namespaces to watch. Empty iff `all_namespaces`.
    pub namespaces: Vec<String>,
    /// Watch pods in every namespace.
    pub all_namespaces: bool,
    /// Optional pod label selector (server-side filtering).
    pub selector: Option<String>,
    /// Optional pod field selector fragment (combined with `node` if set).
    pub field_selector: Option<String>,
    /// Optional node constraint.
    pub node: Option<String>,
    /// Pod name regex patterns; exclude pods matching any.
    pub exclude_pod: Vec<String>,
    /// Container name regex of the containers to show.
    pub container: String,
    /// Container-name regex exclusions (any match hides the container stream).
    pub exclude_container: Vec<String>,
    /// Optional pod status condition filter.
    pub pod_condition: Option<PodConditionFilter>,
    /// Kubernetes log subresource knobs.
    pub pod_log: PodLogRequest,
    /// Re-open follow streams from the last seen event timestamp after disconnect.
    pub cursor_reconnect: bool,
    /// Regex patterns of the lines to show.
    pub includes: Vec<String>,
    /// Regex patterns of the lines to hide.
    pub excludes: Vec<String>,
    /// Patterns emphasized after default formatter output, together with `includes`.
    pub highlight: Vec<String>,
    /// Omit stream lifecycle chatter on stderr.
    pub only_log_lines: bool,
    /// Regex stage selector (plain vs jq-transformed payload).
    pub filter_on: FilterOn,
    /// Optional jq transform filter.
    pub json_query: Option<String>,
    /// Rewrite mode when `json_query` is set.
    pub json_query_mode: QueryMode,
    /// Structured field path used for inferred log level tagging.
    pub level_key: Option<String>,
    /// Exit when the message matches any regex.
    pub exit_on: Vec<String>,
    /// Exit when the classified log level is at or above this threshold.
    pub exit_on_level: Option<ExitOnLevel>,
    /// Output family.
    pub output: OutputMode,
    /// Concrete formatter knobs.
    pub formatter: FormatterChoice,
    /// Per-container palette when true.
    pub diff_container: bool,
    /// Forwarding knobs (buffer sizing, concurrency).
    pub fwd: RuntimeFwdConfig,
}

/// Failures while resolving context, compiling filters, or during a run.
#[derive(Debug)]
pub enum RunError {
    Context(ContextError),
    Query(QueryParseError),
    PodList(PodListError),
    ContainerRegex(String),
    Jq(JqError),
    Kube(String),
    Other(String),
    ExitOnTriggered,
}

impl RunError {
    /// What the error says.
    pub open spec fn text(&self) -> Seq<char> {
        match self {
            RunError::Context(e) => e.text(),
            RunError::Query(e) => e.text(),
            RunError::PodList(e) => e.text(),
            RunError::ContainerRegex(reason) => "invalid container regex: "@ + reason@,
            RunError::Jq(e) => e.text(),
            RunError::Kube(reason) => reason@,
            RunError::Other(reason) => reason@,
            RunError::ExitOnTriggered => "--exit-on / --exit-on-level condition matched"@,
        }
    }

    /// What the error says.
    pub fn message(&self) -> (text: String)
        ensures
            text@ == self.text(),
    {
        match self {
            RunError::Context(e) => e.message(),
            RunError::Query(e) => e.message(),
            RunError::PodList(e) => e.message(),
            RunError::ContainerRegex(reason) => "invalid container regex: ".to_owned().concat(
                reason.as_str(),
            ),
            RunError::Jq(e) => e.message(),
            RunError::Kube(reason) => reason.clone(),
            RunError::Other(reason) => reason.clone(),
            RunError::ExitOnTriggered => "--exit-on / --exit-on-level condition matched".to_owned(),
        }
    }
}

/// High-level outcome of a run whose streaming ended cooperatively.
#[derive(Debug, Clone, Copy, PartialEq, Eq, Structural)]
pub struct RunOutcome {
    /// `true` when one or more multiplexed sources reported an API error.
    pub had_source_errors: bool,
}

/// A capacity is what was asked for, and one where nothing was.
pub proof fn law_capacity(n: usize)
    ensures
        n > 0 ==> at_least_one(n) == n,
        at_least_one(n) >= 1,
        at_least_one(0) == 1,
{
}

/// What an error of a run says is what its cause says; only a container pattern is introduced.
pub proof fn law_what_run_errors_say(
    reason: String,
    context: ContextError,
    query: QueryParseError,
    plan: PodListError,
    program: JqError,
)
    ensures
        RunError::Context(context).text() == context.text(),
        RunError::Query(query).text() == query.text(),
        RunError::PodList(plan).text() == plan.text(),
        RunError::Jq(program).text() == program.text(),
        RunError::Kube(reason).text() == reason@,
        RunError::Other(reason).text() == reason@,
        RunError::ContainerRegex(reason).text() == "invalid container regex: "@ + reason@,
{
}

} // verus!
