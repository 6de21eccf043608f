//! What a run is assembled from: mux, pipeline, forwarder and renderer.

use crate::runtime::config;
use crate::runtime::config::{BackpressurePolicy, Interval, RuntimeFwdConfig};
use vstd::prelude::*;

verus! {

/// How many commands wait for the mux.
pub const MUX_COMMAND_CAPACITY: usize = 256;

/// How often the output is flushed (milliseconds).
pub const FLUSH_INTERVAL_MS: u64 = 50;

/// The channels and tasks of a run.
#[derive(Debug, Clone, Copy, PartialEq, Eq, Structural)]
pub struct MuxForwardPlan {
    /// Capacity of the command channel of the mux.
    pub command_capacity: usize,
    /// Capacity of the channel from the mux to the pipeline.
    pub raw_capacity: usize,
    /// What happens when that channel is full.
    pub mux_policy: BackpressurePolicy,
    /// Capacity of the channel to the renderer.
    pub render_capacity: usize,
    /// How often the output is flushed (milliseconds).
    pub flush_ms: u64,
    /// How often counters are reported, if they are.
    pub report_every: Option<Interval>,
    /// Whether lines are rendered; otherwise the caller reads the channel to the renderer.
    pub renders: bool,
}

/// Assembles a run.
pub struct MuxForwardCore;

impl MuxForwardCore {
    /// The channels and tasks of a run.
    pub fn plan(fwd: &RuntimeFwdConfig, has_formatter: bool) -> (plan: MuxForwardPlan)
        ensures
            plan == (MuxForwardPlan {
                command_capacity: MUX_COMMAND_CAPACITY,
                raw_capacity: config::at_least_one(fwd.buffer_size),
                mux_policy: fwd.mux_policy,
                render_capacity: config::at_least_one(fwd.buffer_size),
                flush_ms: FLUSH_INTERVAL_MS,
                report_every: match fwd.stats {
                    Some(stats) => Some(stats.interval),
                    None => None,
                },
                renders: has_formatter,
            }),
    {
        let capacity = fwd.render_channel_capacity();
        MuxForwardPlan {
            command_capacity: MUX_COMMAND_CAPACITY,
            raw_capacity: capacity,
            mux_policy: fwd.resolved_mux_policy(),
            render_capacity: capacity,
            flush_ms: FLUSH_INTERVAL_MS,
            report_every: match fwd.stats {
                Some(stats) => Some(stats.interval),
                None => None,
            },
            renders: has_formatter,
        }
    }
}

} // verus!
