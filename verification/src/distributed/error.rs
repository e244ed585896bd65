//! Errors of the distributed framework.
use vstd::prelude::*;
use crate::text::{duration_debug, duration_debug_text, push_text};

verus! {

/// Errors of distributed operations. Causes from outside the library are
/// carried as their messages; the timeout is in milliseconds.
pub enum DistributedError {
    Network(String),
    Serialization(String),
    Json(String),
    MPI(String),
    Scheduling(String),
    NodeCommunication(String),
    LoadBalancing(String),
    FaultDetection(String),
    Recovery(String),
    Timeout(u64),
    Configuration(String),
    ResourceUnavailable(String),
    TaskExecution(String),
    ClusterOperation(String),
}

/// The message of an error.
pub open spec fn distributed_error_text(e: DistributedError) -> Seq<char> {
    match e {
        DistributedError::Network(m) => "Network communication error: "@ + m@,
        DistributedError::Serialization(m) => "Serialization/Deserialization error: "@ + m@,
        DistributedError::Json(m) => "JSON processing error: "@ + m@,
        DistributedError::MPI(m) => "MPI operation error: "@ + m@,
        DistributedError::Scheduling(m) => "Task scheduling error: "@ + m@,
        DistributedError::NodeCommunication(m) => "Node communication error: "@ + m@,
        DistributedError::LoadBalancing(m) => "Load balancing error: "@ + m@,
        DistributedError::FaultDetection(m) => "Fault detection error: "@ + m@,
        DistributedError::Recovery(m) => "Recovery operation error: "@ + m@,
        DistributedError::Timeout(ms) => "Timeout occurred after "@ + duration_debug_text(ms),
        DistributedError::Configuration(m) => "Invalid configuration: "@ + m@,
        DistributedError::ResourceUnavailable(m) => "Resource unavailable: "@ + m@,
        DistributedError::TaskExecution(m) => "Task execution failed: "@ + m@,
        DistributedError::ClusterOperation(m) => "Cluster operation failed: "@ + m@,
    }
}

impl DistributedError {
    /// The message of this error.
    pub fn to_string(&self) -> (s: String)
        ensures
            s@ == distributed_error_text(*self),
    {
        let mut s = String::new();
        match self {
            DistributedError::Network(m) => {
                push_text(&mut s, "Network communication error: ");
                push_text(&mut s, m.as_str());
            },
            DistributedError::Serialization(m) => {
                push_text(&mut s, "Serialization/Deserialization error: ");
                push_text(&mut s, m.as_str());
            },
            DistributedError::Json(m) => {
                push_text(&mut s, "JSON processing error: ");
                push_text(&mut s, m.as_str());
            },
            DistributedError::MPI(m) => {
                push_text(&mut s, "MPI operation error: ");
                push_text(&mut s, m.as_str());
            },
            DistributedError::Scheduling(m) => {
                push_text(&mut s, "Task scheduling error: ");
                push_text(&mut s, m.as_str());
            },
            DistributedError::NodeCommunication(m) => {
                push_text(&mut s, "Node communication error: ");
                push_text(&mut s, m.as_str());
            },
            DistributedError::LoadBalancing(m) => {
                push_text(&mut s, "Load balancing error: ");
                push_text(&mut s, m.as_str());
            },
            DistributedError::FaultDetection(m) => {
                push_text(&mut s, "Fault detection error: ");
                push_text(&mut s, m.as_str());
            },
            DistributedError::Recovery(m) => {
                push_text(&mut s, "Recovery operation error: ");
                push_text(&mut s, m.as_str());
            },
            DistributedError::Timeout(ms) => {
                push_text(&mut s, "Timeout occurred after ");
                let d = duration_debug(*ms);
                push_text(&mut s, d.as_str());
            },
            DistributedError::Configuration(m) => {
                push_text(&mut s, "Invalid configuration: ");
                push_text(&mut s, m.as_str());
            },
            DistributedError::ResourceUnavailable(m) => {
                push_text(&mut s, "Resource unavailable: ");
                push_text(&mut s, m.as_str());
            },
            DistributedError::TaskExecution(m) => {
                push_text(&mut s, "Task execution failed: ");
                push_text(&mut s, m.as_str());
            },
            DistributedError::ClusterOperation(m) => {
                push_text(&mut s, "Cluster operation failed: ");
                push_text(&mut s, m.as_str());
            },
        }
        s
    }
}

} // verus!
