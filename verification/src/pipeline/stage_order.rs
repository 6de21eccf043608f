//! Explicit pipeline stage ordering for exit triggers vs display filters.
//!
//! Exit triggers must observe events before the message filters hide them when the filters look at
//! the original line. A level trigger defers the filters until after classification and jq.

use crate::pipeline::include_exclude::FilterOn;
use vstd::prelude::*;

verus! {

/// Resolved placement of include/exclude and early message exit relative to other stages.
#[derive(Debug, Clone, Copy, PartialEq, Eq, Structural)]
pub struct PipelineStageOrder {
    /// Look for messages that end the run before the container and message filters.
    pub exit_on_message_before_filters: bool,
    /// Apply the message filters before the container filter (original path without level exit).
    pub include_before_container: bool,
    /// Apply the message filters after jq (transformed path, or original with level exit).
    pub include_after_transform: bool,
}

/// The placement for the given filter and exit options.
pub open spec fn stage_order(
    filter_on: FilterOn,
    has_exit_on_message: bool,
    has_exit_on_level: bool,
) -> PipelineStageOrder {
    PipelineStageOrder {
        exit_on_message_before_filters: filter_on == FilterOn::Original && has_exit_on_message,
        include_before_container: filter_on == FilterOn::Original && !has_exit_on_level,
        include_after_transform: filter_on == FilterOn::Transformed || has_exit_on_level,
    }
}

impl PipelineStageOrder {
    /// Derive stage order from filter and exit options.
    pub fn resolve(filter_on: FilterOn, has_exit_on_message: bool, has_exit_on_level: bool) -> (order:
        PipelineStageOrder)
        ensures
            order == stage_order(filter_on, has_exit_on_message, has_exit_on_level),
    {
        match filter_on {
            FilterOn::Original => PipelineStageOrder {
                exit_on_message_before_filters: has_exit_on_message,
                include_before_container: !has_exit_on_level,
                include_after_transform: has_exit_on_level,
            },
            FilterOn::Transformed => PipelineStageOrder {
                exit_on_message_before_filters: false,
                include_before_container: false,
                include_after_transform: true,
            },
        }
    }
}

/// The message filters are applied at exactly one place.
pub proof fn law_filters_run_once(filter_on: FilterOn, on_message: bool, on_level: bool)
    ensures
        ({
            let order = stage_order(filter_on, on_message, on_level);
            order.include_before_container != order.include_after_transform
        }),
{
}

/// On original lines, what ends the run is looked for before the message filters can hide it.
pub proof fn law_exit_sees_original_lines(on_message: bool, on_level: bool)
    ensures
        ({
            let order = stage_order(FilterOn::Original, on_message, on_level);
            &&& order.exit_on_message_before_filters == on_message
            &&& on_level ==> !order.include_before_container
        }),
{
}

/// On transformed lines the message filters come after jq, and nothing is looked for before them. On
/// original lines they come before everything else, unless the run may end by level.
pub proof fn law_filters_follow_the_lines_they_look_at(on_message: bool, on_level: bool)
    ensures
        ({
            let order = stage_order(FilterOn::Transformed, on_message, on_level);
            &&& order.include_after_transform
            &&& !order.include_before_container
            &&& !order.exit_on_message_before_filters
        }),
        ({
            let order = stage_order(FilterOn::Original, on_message, on_level);
            &&& order.include_before_container == !on_level
            &&& order.include_after_transform == on_level
        }),
{
}

} // verus!
