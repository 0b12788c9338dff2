//! Names of the events that are pushed to the frontend.
use vstd::prelude::*;

verus! {

/// All rows of a kind.
pub const RESOURCE_UPDATE: &'static str = "resource-update";

/// Kinds of custom resources, discovered on connect.
pub const CUSTOM_KINDS: &'static str = "custom-kinds";

/// Usage of pods, by `namespace/name`.
pub const POD_METRICS: &'static str = "pod-metrics";

/// Usage of nodes in percent, by name.
pub const NODE_METRICS: &'static str = "node-metrics";

/// Status of the cluster.
pub const CLUSTER_STATUS: &'static str = "cluster-status";

/// How many watchers and log streams run.
pub const WATCH_STATUS: &'static str = "watch-status";

/// A kind may not be watched, or may be again.
pub const WATCH_KIND_STATUS: &'static str = "watch-kind-status";

/// The active port forwards.
pub const FORWARDS_UPDATE: &'static str = "forwards-update";

/// One sample of a node's exporter.
pub const NODE_STATS: &'static str = "node-stats";

/// Why a node has no samples.
pub const NODE_STATS_ERROR: &'static str = "node-stats-error";

/// Progress of draining a node.
pub const DRAIN_PROGRESS: &'static str = "drain-progress";

/// Log lines of a stream; the id of the stream follows.
pub const LOG_LINE_PREFIX: &'static str = "log-line:";

/// The end of a stream; the id of the stream follows.
pub const LOG_CLOSED_PREFIX: &'static str = "log-closed:";

} // verus!
