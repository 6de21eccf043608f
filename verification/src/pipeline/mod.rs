//! The stages that a log line goes through.

pub mod color_assign;
pub mod container_filter;
pub mod exit_watch;
pub mod include_exclude;
pub mod jq_evaluate;
pub mod json_annotate;
pub mod level_classify;
pub mod stage_order;

pub use color_assign::{apply_palette_to_meta, color_assign, ColorAssignOpts};
pub use container_filter::container_filter;
pub use exit_watch::{exit_watch_level, exit_watch_message, ExitOnLevel, ExitWatchState};
pub use include_exclude::{include_exclude, FilterOn};
pub use jq_evaluate::{jq_evaluate, validate_filter, CompiledFilter, JqError, QueryMode};
pub use json_annotate::json_annotate;
pub use level_classify::level_classify;
pub use stage_order::PipelineStageOrder;
