//! What to watch: contexts, namespaces, queries and selectors.

pub mod context;
pub mod exec_resolver;
pub mod pod;
pub mod pod_condition;
pub mod pod_list;
pub mod pod_reconcile;
pub mod resource;
pub mod run_resolution;
pub mod scope;
pub mod watch_scope;
pub mod workload_selector;

pub use pod::{keys_from_pod, Pod};
pub use pod_reconcile::{reconcile, ReconcileDiff};
