//! Runtime: configuration, backpressure, stream lifecycle and run outcome.

pub mod attach;
pub mod config;
pub mod cursor_service;
pub mod cursor_store;
pub mod forward;
pub mod list_pods;
pub mod mux;
pub mod mux_forward_core;
pub mod pipeline;
pub mod pod_lifecycle;
pub mod pod_meta_cache;
pub mod registry;
pub mod run;
pub mod spec;
pub mod watch_admission;

pub use config::{
    BackpressurePolicy, CoreRunConfig, FormatterChoice, RunError, RunOutcome, RuntimeFwdConfig,
    RuntimeStatsConfig,
};
pub use forward::{LossyMetrics, RunStats};
pub use mux::MuxCmd;
pub use mux_forward_core::MuxForwardCore;
pub use spec::{PipelineSpec, PipelineSpecBuilder};
