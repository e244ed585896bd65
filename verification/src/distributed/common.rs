//! Data shared across the distributed framework. Times are in milliseconds
//! since the Unix epoch, durations in milliseconds. Measured quantities that
//! are fractional are carried as the bit patterns of IEEE-754 doubles: the
//! library stores and hands them back, and computes nothing with them.
use vstd::prelude::*;

verus! {

/// Resource use of a node at a moment: percentages of CPU and memory, the
/// network bandwidth in Mbit/s and the disk throughput, each as the bit
/// pattern of a double.
#[derive(Clone, Copy, PartialEq, Eq, Debug, Structural)]
pub struct ResourceInfo {
    pub cpu_usage: u64,
    pub memory_usage: u64,
    pub network_bandwidth: u64,
    pub disk_io: u64,
    pub timestamp: u64,
}

/// Metrics reported by a node.
#[derive(Clone, Copy, PartialEq, Eq, Debug, Structural)]
pub struct NodeMetrics {
    pub node_id: u128,
    pub resource_info: ResourceInfo,
    pub task_queue_length: usize,
    pub active_connections: usize,
    pub last_heartbeat: u64,
}

/// The outcome of one task on one node.
pub struct TaskResult<T> {
    pub task_id: u128,
    pub node_id: u128,
    pub result: Option<T>,
    pub execution_time: u64,
    pub success: bool,
    pub error_message: Option<String>,
}

} // verus!
