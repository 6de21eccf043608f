//! Verified core of a multi-pod Kubernetes log tailer.

pub mod clock;
pub mod discovery;
pub mod format_display;
pub mod key_set;
pub mod order;
pub mod ordered_map;
pub mod pipeline;
pub mod regex_limits;
pub mod render;
pub mod runtime;
pub mod sorting;
pub mod source;
pub mod text;

pub use discovery::context::ContextSelector;
pub use discovery::run_resolution::{
    resolve_run_input, resolve_run_namespaces, resolve_run_query, RunResolutionError,
    RunResolutionInput, RunResolutionOutput, RunResolutionValidation,
};
pub use format_display::{TimestampStyle, TimestampZone};
pub use pipeline::{validate_filter, CompiledFilter, FilterOn, JqError, QueryMode};
pub use regex_limits::{compile_user_regex, MAX_USER_REGEX_PATTERN_LEN};
pub use runtime::{
    BackpressurePolicy, CoreRunConfig, FormatterChoice, LossyMetrics, MuxCmd, MuxForwardCore,
    PipelineSpec, PipelineSpecBuilder, RunError, RunOutcome, RunStats, RuntimeFwdConfig,
    RuntimeStatsConfig,
};
pub use source::log_opener::ScriptLogSourceOpener;
pub use source::pod_log::PodLogRequest;
