//! Fault detection and recovery: missed heartbeats turn into node-failure
//! faults, detected faults are counted by kind and severity, recovery
//! operations move from running to finished with their statistics, and a
//! bounded set of checkpoints is kept. Times are in milliseconds since the
//! Unix epoch, durations in milliseconds, thresholds in thousandths.
use vstd::prelude::*;
use crate::ids::{fresh_id, uuid_string, uuid_text};
use crate::keyed::{Keyed, find_key, has_key, key_map, remove_key, unique_keys, upsert};
use crate::distributed::scheduler::SchedulerConfig;
use crate::distributed::shared_memory::ConsistencyModel;
use crate::keyed::{keys_of, lemma_key_index, lemma_key_map_len};
use crate::text::{decimal_text, push_decimal, push_text, string_of};

verus! {

/// Kinds of faults.
#[derive(Clone, Copy, PartialEq, Eq, Hash, Debug, Structural)]
pub enum FaultType {
    NodeFailure,
    NetworkPartition,
    MessageLoss,
    TaskTimeout,
    ResourceExhaustion,
    DataCorruption,
    PerformanceDegradation,
    ConfigurationError,
    SecurityBreach,
}

/// The position of a fault kind in the per-kind counters.
pub open spec fn fault_type_index(t: FaultType) -> int {
    match t {
        FaultType::NodeFailure => 0,
        FaultType::NetworkPartition => 1,
        FaultType::MessageLoss => 2,
        FaultType::TaskTimeout => 3,
        FaultType::ResourceExhaustion => 4,
        FaultType::DataCorruption => 5,
        FaultType::PerformanceDegradation => 6,
        FaultType::ConfigurationError => 7,
        FaultType::SecurityBreach => 8,
    }
}

impl FaultType {
    /// The position of this kind in the per-kind counters.
    pub fn index(&self) -> (i: usize)
        ensures
            i == fault_type_index(*self),
    {
        match self {
            FaultType::NodeFailure => 0,
            FaultType::NetworkPartition => 1,
            FaultType::MessageLoss => 2,
            FaultType::TaskTimeout => 3,
            FaultType::ResourceExhaustion => 4,
            FaultType::DataCorruption => 5,
            FaultType::PerformanceDegradation => 6,
            FaultType::ConfigurationError => 7,
            FaultType::SecurityBreach => 8,
        }
    }
}

/// Fault severities, least severe first.
#[derive(Clone, Copy, PartialEq, Eq, PartialOrd, Ord, Hash, Debug, Structural)]
pub enum FaultSeverity {
    Info,
    Warning,
    Minor,
    Major,
    Critical,
    Fatal,
}

/// The position of a severity in the per-severity counters, which is also
/// its rank from least to most severe.
pub open spec fn fault_severity_index(s: FaultSeverity) -> int {
    match s {
        FaultSeverity::Info => 0,
        FaultSeverity::Warning => 1,
        FaultSeverity::Minor => 2,
        FaultSeverity::Major => 3,
        FaultSeverity::Critical => 4,
        FaultSeverity::Fatal => 5,
    }
}

impl FaultSeverity {
    /// The rank of this severity, 0 for `Info` up to 5 for `Fatal`.
    pub fn index(&self) -> (i: usize)
        ensures
            i == fault_severity_index(*self),
    {
        match self {
            FaultSeverity::Info => 0,
            FaultSeverity::Warning => 1,
            FaultSeverity::Minor => 2,
            FaultSeverity::Major => 3,
            FaultSeverity::Critical => 4,
            FaultSeverity::Fatal => 5,
        }
    }
}

/// Actions that resolve faults. Durations are in milliseconds; configuration
/// updates are key/value pairs.
pub enum RecoveryAction {
    RestartProcesses { task_ids: Vec<u128>, node_ids: Vec<u128> },
    ReassignTasks { task_ids: Vec<u128>, target_nodes: Vec<u128> },
    ScaleCluster { add_nodes: usize, remove_nodes: Vec<u128> },
    ActivateReplicas { affected_services: Vec<String> },
    LoadShedding { max_concurrent_tasks: usize },
    RetryOperations { operation_ids: Vec<u128>, max_retries: u32 },
    Rollback { checkpoint_id: u128 },
    ApplyConfiguration { config_updates: Vec<(String, String)> },
    ManualIntervention { instructions: String },
    WaitAndMonitor { timeout: u64, check_interval: u64 },
}

/// A detected fault.
pub struct DetectedFault {
    pub fault_id: u128,
    pub fault_type: FaultType,
    pub severity: FaultSeverity,
    pub affected_nodes: Vec<u128>,
    pub affected_tasks: Vec<u128>,
    pub detection_time: u64,
    pub description: String,
    pub recovery_suggestions: Vec<RecoveryAction>,
    pub metadata: Vec<(String, String)>,
}

impl Keyed for DetectedFault {
    open spec fn key_of(&self) -> u128 {
        self.fault_id
    }

    fn key(&self) -> (k: u128) {
        self.fault_id
    }
}

/// How faults are detected. Timeouts are in milliseconds, thresholds in
/// thousandths.
#[derive(Clone, Copy, PartialEq, Eq, Debug, Structural)]
pub struct FaultDetectionStrategy {
    pub heartbeat_timeout: u64,
    pub task_timeout: u64,
    pub performance_threshold_permille: u32,
    pub resource_threshold_permille: u32,
    pub network_latency_threshold: u64,
    pub error_rate_threshold_permille: u32,
}

impl FaultDetectionStrategy {
    /// Heartbeats time out after 30 s and tasks after 2 min; performance is
    /// degraded above 80% load, resources exhausted above 90%, the network
    /// slow above 5 s, errors too frequent above 10%.
    pub fn default() -> (s: Self)
        ensures
            s == (FaultDetectionStrategy {
                heartbeat_timeout: 30_000,
                task_timeout: 120_000,
                performance_threshold_permille: 800,
                resource_threshold_permille: 900,
                network_latency_threshold: 5_000,
                error_rate_threshold_permille: 100,
            }),
    {
        FaultDetectionStrategy {
            heartbeat_timeout: 30_000,
            task_timeout: 120_000,
            performance_threshold_permille: 800,
            resource_threshold_permille: 900,
            network_latency_threshold: 5_000,
            error_rate_threshold_permille: 100,
        }
    }
}

/// The heartbeat record of a node.
pub struct NodeHealthStatus {
    pub node_id: u128,
    pub last_heartbeat: u64,
    pub consecutive_failures: u32,
    pub active_tasks: Vec<u128>,
    pub is_suspicious: bool,
    pub last_recovery_attempt: Option<u64>,
}

impl Keyed for NodeHealthStatus {
    open spec fn key_of(&self) -> u128 {
        self.node_id
    }

    fn key(&self) -> (k: u128) {
        self.node_id
    }
}

/// The number of missed heartbeats in a row at which a node is failed.
pub const FAILURE_THRESHOLD: u32 = 3;

/// Counts of detected faults, overall, per kind and per severity.
#[derive(Clone, Copy, Debug)]
pub struct FaultDetectionStatistics {
    pub total_faults_detected: u64,
    pub faults_by_type: [u64; 9],
    pub faults_by_severity: [u64; 6],
}

/// How long it has been since `then` at time `now`, zero if `then` is later.
pub open spec fn elapsed(now: u64, then: u64) -> nat {
    if now >= then {
        (now - then) as nat
    } else {
        0
    }
}

/// The description of a node that missed `n` heartbeats in a row.
pub open spec fn missed_heartbeats_text(node: u128, n: u32) -> Seq<char> {
    "Node "@ + uuid_text(node) + " missed "@ + decimal_text(n as nat) + " heartbeats"@
}

/// Fault detection: the faults not yet resolved, the heartbeat record of
/// each node, and the counters.
pub struct FaultDetector {
    pub detection_strategy: FaultDetectionStrategy,
    pub active_faults: Vec<DetectedFault>,
    pub node_health_status: Vec<NodeHealthStatus>,
    pub statistics: FaultDetectionStatistics,
}

impl FaultDetector {
    /// The detector's invariant: one record per fault and per node.
    pub open spec fn wf(&self) -> bool {
        unique_keys(self.active_faults@) && unique_keys(self.node_health_status@)
    }

    /// The unresolved faults by identifier.
    pub open spec fn faults(&self) -> Map<u128, DetectedFault> {
        key_map(self.active_faults@)
    }

    /// The heartbeat records by node.
    pub open spec fn health(&self) -> Map<u128, NodeHealthStatus> {
        key_map(self.node_health_status@)
    }

    /// A detector with the given strategy, or the default one, and nothing
    /// recorded.
    pub fn new(detection_strategy: Option<FaultDetectionStrategy>) -> (d: Self)
        ensures
            d.wf(),
            d.detection_strategy == match detection_strategy {
                Some(s) => s,
                None => FaultDetectionStrategy::default_spec(),
            },
            d.faults() == Map::<u128, DetectedFault>::empty(),
            d.health() == Map::<u128, NodeHealthStatus>::empty(),
            d.statistics.total_faults_detected == 0,
            forall|i: int| 0 <= i < 9 ==> d.statistics.faults_by_type[i] == 0,
            forall|i: int| 0 <= i < 6 ==> d.statistics.faults_by_severity[i] == 0,
    {
        let strategy = match detection_strategy {
            Some(s) => s,
            None => FaultDetectionStrategy::default(),
        };
        let d = FaultDetector {
            detection_strategy: strategy,
            active_faults: Vec::new(),
            node_health_status: Vec::new(),
            statistics: FaultDetectionStatistics {
                total_faults_detected: 0,
                faults_by_type: [0u64; 9],
                faults_by_severity: [0u64; 6],
            },
        };
        assert(d.faults() =~= Map::<u128, DetectedFault>::empty());
        assert(d.health() =~= Map::<u128, NodeHealthStatus>::empty());
        d
    }

    /// Records a detected fault: it joins the unresolved faults and is
    /// counted once overall, once for its kind and once for its severity.
    pub fn handle_detected_fault(&mut self, fault: DetectedFault)
        requires
            old(self).wf(),
            old(self).statistics.total_faults_detected < u64::MAX,
            old(self).statistics.faults_by_type[fault_type_index(fault.fault_type)] < u64::MAX,
            old(self).statistics.faults_by_severity[fault_severity_index(fault.severity)] < u64::MAX,
        ensures
            final(self).wf(),
            final(self).faults() == old(self).faults().insert(fault.fault_id, fault),
            final(self).health() == old(self).health(),
            final(self).detection_strategy == old(self).detection_strategy,
            final(self).statistics.total_faults_detected == old(self).statistics.total_faults_detected + 1,
            final(self).statistics.faults_by_type@ == old(self).statistics.faults_by_type@.update(
                fault_type_index(fault.fault_type),
                (old(self).statistics.faults_by_type[fault_type_index(fault.fault_type)] + 1) as u64,
            ),
            final(self).statistics.faults_by_severity@ == old(self).statistics.faults_by_severity@.update(
                fault_severity_index(fault.severity),
                (old(self).statistics.faults_by_severity[fault_severity_index(fault.severity)] + 1) as u64,
            ),
    {
        let ti = fault.fault_type.index();
        let si = fault.severity.index();
        upsert(&mut self.active_faults, fault);
        self.statistics.total_faults_detected = self.statistics.total_faults_detected + 1;
        let t = self.statistics.faults_by_type[ti] + 1;
        self.statistics.faults_by_type[ti] = t;
        let s = self.statistics.faults_by_severity[si] + 1;
        self.statistics.faults_by_severity[si] = s;
    }

    /// Marks fault `fault_id` resolved: it leaves the unresolved faults.
    pub fn resolve_fault(&mut self, fault_id: u128)
        requires
            old(self).wf(),
        ensures
            final(self).wf(),
            final(self).faults() == old(self).faults().remove(fault_id),
            final(self).health() == old(self).health(),
            final(self).statistics == old(self).statistics,
    {
        let _ = remove_key(&mut self.active_faults, fault_id);
    }

    /// The unresolved faults, one record per fault.
    pub fn get_active_faults(&self) -> (f: &[DetectedFault])
        ensures
            f@ == self.active_faults@,
    {
        self.active_faults.as_slice()
    }

    /// The heartbeat record of node `node_id`, if it has one.
    pub fn get_node_health(&self, node_id: u128) -> (r: Option<&NodeHealthStatus>)
        requires
            self.wf(),
        ensures
            r == (if self.health().contains_key(node_id) {
                Some(&self.health()[node_id])
            } else {
                None
            }),
    {
        match find_key(&self.node_health_status, node_id) {
            Some(i) => {
                proof {
                    crate::keyed::lemma_key_index(self.node_health_status@, i as int);
                }
                Some(&self.node_health_status[i])
            },
            None => None,
        }
    }

    /// The number of unresolved faults.
    pub fn active_fault_count(&self) -> (n: usize)
        requires
            self.wf(),
        ensures
            n == self.faults().len(),
    {
        proof {
            crate::keyed::lemma_key_map_len(self.active_faults@);
        }
        self.active_faults.len()
    }

    /// The number of missed heartbeats in a row recorded for `node_id`.
    pub fn consecutive_failures(&self, node_id: u128) -> (r: Option<u32>)
        requires
            self.wf(),
        ensures
            r == (if self.health().contains_key(node_id) {
                Some(self.health()[node_id].consecutive_failures)
            } else {
                None
            }),
    {
        match find_key(&self.node_health_status, node_id) {
            Some(i) => Some(self.node_health_status[i].consecutive_failures),
            None => None,
        }
    }

    /// Checks the heartbeat of active node `node_id`, last seen at
    /// `last_seen`, at time `now`. When more than the heartbeat timeout has
    /// passed, one more miss is counted, and from the third miss in a row on
    /// a critical node-failure fault is recorded, whose identifier is
    /// returned; otherwise the count of misses goes back to zero. A node not
    /// seen before starts with no misses.
    pub fn check_heartbeat(&mut self, node_id: u128, last_seen: u64, now: u64) -> (r: Option<u128>)
        requires
            old(self).wf(),
            old(self).health().contains_key(node_id) ==> old(self).health()[node_id].consecutive_failures < u32::MAX,
            old(self).statistics.total_faults_detected < u64::MAX,
            old(self).statistics.faults_by_type[fault_type_index(FaultType::NodeFailure)] < u64::MAX,
            old(self).statistics.faults_by_severity[fault_severity_index(FaultSeverity::Critical)] < u64::MAX,
        ensures
            final(self).wf(),
            final(self).detection_strategy == old(self).detection_strategy,
            ({
                let before = if old(self).health().contains_key(node_id) {
                    old(self).health()[node_id].consecutive_failures as int
                } else {
                    0
                };
                let late = elapsed(now, last_seen) > old(self).detection_strategy.heartbeat_timeout;
                let misses = if late {
                    before + 1
                } else {
                    0
                };
                &&& final(self).health().contains_key(node_id)
                &&& final(self).health()[node_id].consecutive_failures == misses
                &&& final(self).health()[node_id].last_heartbeat == last_seen
                &&& forall|n: u128|
                    n != node_id ==> (#[trigger] final(self).health().contains_key(n)) == old(self).health().contains_key(n)
                        && (old(self).health().contains_key(n) ==> final(self).health()[n] == old(self).health()[n])
                &&& (misses >= FAILURE_THRESHOLD) == (r is Some)
                &&& match r {
                    Some(fid) => {
                        &&& final(self).faults().contains_key(fid)
                        &&& final(self).faults()[fid].fault_type == FaultType::NodeFailure
                        &&& final(self).faults()[fid].severity == FaultSeverity::Critical
                        &&& final(self).faults()[fid].affected_nodes@ == seq![node_id]
                        &&& final(self).faults()[fid].detection_time == now
                        &&& final(self).faults()[fid].description@ == missed_heartbeats_text(node_id, misses as u32)
                        &&& final(self).faults() == old(self).faults().insert(fid, final(self).faults()[fid])
                        &&& final(self).statistics.total_faults_detected == old(self).statistics.total_faults_detected + 1
                    },
                    None => {
                        &&& final(self).faults() == old(self).faults()
                        &&& final(self).statistics == old(self).statistics
                    },
                }
            }),
    {
        let mut status = match remove_key(&mut self.node_health_status, node_id) {
            Some(s) => s,
            None => NodeHealthStatus {
                node_id,
                last_heartbeat: last_seen,
                consecutive_failures: 0,
                active_tasks: Vec::new(),
                is_suspicious: false,
                last_recovery_attempt: None,
            },
        };
        let ghost mid = self.node_health_status@;
        status.last_heartbeat = last_seen;
        let since: u64 = if now >= last_seen {
            now - last_seen
        } else {
            0
        };
        let mut result: Option<u128> = None;
        if since > self.detection_strategy.heartbeat_timeout {
            status.consecutive_failures = status.consecutive_failures + 1;
            if status.consecutive_failures >= FAILURE_THRESHOLD {
                let fault_id = fresh_id();
                let mut description = string_of("Node ");
                let node_text = uuid_string(node_id);
                push_text(&mut description, node_text.as_str());
                push_text(&mut description, " missed ");
                push_decimal(&mut description, status.consecutive_failures as u64);
                push_text(&mut description, " heartbeats");
                let fault = DetectedFault {
                    fault_id,
                    fault_type: FaultType::NodeFailure,
                    severity: FaultSeverity::Critical,
                    affected_nodes: vec![node_id],
                    affected_tasks: Vec::new(),
                    detection_time: now,
                    description,
                    recovery_suggestions: vec![
                        RecoveryAction::RestartProcesses {
                            task_ids: copy_ids(&status.active_tasks),
                            node_ids: vec![node_id],
                        },
                        RecoveryAction::ReassignTasks {
                            task_ids: copy_ids(&status.active_tasks),
                            target_nodes: Vec::new(),
                        },
                    ],
                    metadata: Vec::new(),
                };
                assert(fault.description@ =~= missed_heartbeats_text(node_id, status.consecutive_failures));
                self.handle_detected_fault(fault);
                result = Some(fault_id);
            }
        } else {
            status.consecutive_failures = 0;
        }
        upsert(&mut self.node_health_status, status);
        proof {
            assert forall|n: u128| n != node_id implies (#[trigger] self.health().contains_key(n)) == old(self).health().contains_key(n)
                && (old(self).health().contains_key(n) ==> self.health()[n] == old(self).health()[n]) by {}
        }
        result
    }
}

impl FaultDetectionStrategy {
    /// The default strategy (see `default`).
    pub open spec fn default_spec() -> FaultDetectionStrategy {
        FaultDetectionStrategy {
            heartbeat_timeout: 30_000,
            task_timeout: 120_000,
            performance_threshold_permille: 800,
            resource_threshold_permille: 900,
            network_latency_threshold: 5_000,
            error_rate_threshold_permille: 100,
        }
    }
}

/// A copy of a list of identifiers.
pub fn copy_ids(v: &Vec<u128>) -> (c: Vec<u128>)
    ensures
        c@ == v@,
{
    let mut c: Vec<u128> = Vec::new();
    let mut i: usize = 0;
    while i < v.len()
        invariant
            i <= v@.len(),
            c@ == v@.take(i as int),
        decreases v@.len() - i,
    {
        c.push(v[i]);
        i = i + 1;
        assert(c@ =~= v@.take(i as int));
    }
    assert(v@.take(v@.len() as int) =~= v@);
    c
}

/// States of a recovery operation.
#[derive(Clone, Copy, PartialEq, Eq, Debug, Structural)]
pub enum RecoveryStatus {
    Pending,
    Running,
    Completed,
    Failed,
    RolledBack,
    Cancelled,
}

/// Recovery policies. Timeouts are in milliseconds.
#[derive(Clone, Copy, PartialEq, Eq, Debug, Structural)]
pub struct RecoveryPolicies {
    pub auto_recovery_enabled: bool,
    pub max_concurrent_recoveries: usize,
    pub recovery_timeout: u64,
    pub rollback_enabled: bool,
    pub checkpoint_retention_days: u32,
    pub aggressive_failure_detection: bool,
    pub isolation_timeout: u64,
}

impl RecoveryPolicies {
    /// Automatic recovery with rollback, at most five recoveries at a time,
    /// each given five minutes; checkpoints kept a week; no aggressive
    /// failure detection; isolation after a minute.
    pub fn default() -> (p: Self)
        ensures
            p == (RecoveryPolicies {
                auto_recovery_enabled: true,
                max_concurrent_recoveries: 5,
                recovery_timeout: 300_000,
                rollback_enabled: true,
                checkpoint_retention_days: 7,
                aggressive_failure_detection: false,
                isolation_timeout: 60_000,
            }),
    {
        RecoveryPolicies {
            auto_recovery_enabled: true,
            max_concurrent_recoveries: 5,
            recovery_timeout: 300_000,
            rollback_enabled: true,
            checkpoint_retention_days: 7,
            aggressive_failure_detection: false,
            isolation_timeout: 60_000,
        }
    }
}

/// A recovery operation. `actions_done` counts the actions carried out, so
/// the progress is `actions_done` out of the number of actions.
pub struct RecoveryOperation {
    pub operation_id: u128,
    pub fault_id: u128,
    pub recovery_actions: Vec<RecoveryAction>,
    pub assigned_to: u128,
    pub start_time: u64,
    pub estimated_duration: u64,
    pub status: RecoveryStatus,
    pub actions_done: usize,
    pub attempts: u32,
    pub max_attempts: u32,
    pub rollback_actions: Vec<RecoveryAction>,
}

impl Keyed for RecoveryOperation {
    open spec fn key_of(&self) -> u128 {
        self.operation_id
    }

    fn key(&self) -> (k: u128) {
        self.operation_id
    }
}

/// Counts of recoveries; the average recovery time is in milliseconds.
#[derive(Clone, Copy, PartialEq, Eq, Debug, Structural)]
pub struct RecoveryStatistics {
    pub total_recoveries_initiated: u64,
    pub successful_recoveries: u64,
    pub failed_recoveries: u64,
    pub average_recovery_time: u64,
    pub rollback_frequency: u64,
    pub data_loss_incidents: u64,
    pub downtime_total: u64,
}

/// The recovery operations in progress, those finished, and the counters.
pub struct RecoveryLedger {
    pub policies: RecoveryPolicies,
    pub active_recoveries: Vec<RecoveryOperation>,
    pub recovery_history: Vec<RecoveryOperation>,
    pub statistics: RecoveryStatistics,
}

impl RecoveryLedger {
    /// The ledger's invariant: one record per running operation.
    pub open spec fn wf(&self) -> bool {
        unique_keys(self.active_recoveries@)
    }

    /// The operations in progress by identifier.
    pub open spec fn active(&self) -> Map<u128, RecoveryOperation> {
        key_map(self.active_recoveries@)
    }

    /// An empty ledger under the default policies.
    pub fn new() -> (l: Self)
        ensures
            l.wf(),
            l.policies == RecoveryPolicies::default_spec(),
            l.active() == Map::<u128, RecoveryOperation>::empty(),
            l.active_recoveries@.len() == 0,
            l.recovery_history@.len() == 0,
            l.statistics == (RecoveryStatistics {
                total_recoveries_initiated: 0,
                successful_recoveries: 0,
                failed_recoveries: 0,
                average_recovery_time: 0,
                rollback_frequency: 0,
                data_loss_incidents: 0,
                downtime_total: 0,
            }),
    {
        let l = RecoveryLedger {
            policies: RecoveryPolicies::default(),
            active_recoveries: Vec::new(),
            recovery_history: Vec::new(),
            statistics: RecoveryStatistics {
                total_recoveries_initiated: 0,
                successful_recoveries: 0,
                failed_recoveries: 0,
                average_recovery_time: 0,
                rollback_frequency: 0,
                data_loss_incidents: 0,
                downtime_total: 0,
            },
        };
        assert(l.active() =~= Map::<u128, RecoveryOperation>::empty());
        l
    }

    /// Starts `op`: it is in progress, running, with no action done.
    pub fn begin(&mut self, op: RecoveryOperation)
        requires
            old(self).wf(),
        ensures
            final(self).wf(),
            final(self).active() == old(self).active().insert(
                op.operation_id,
                RecoveryOperation { status: RecoveryStatus::Running, actions_done: 0, ..op },
            ),
            final(self).recovery_history@ == old(self).recovery_history@,
            final(self).statistics == old(self).statistics,
    {
        let mut op = op;
        op.status = RecoveryStatus::Running;
        op.actions_done = 0;
        upsert(&mut self.active_recoveries, op);
    }

    /// Records that one more action of operation `id` was carried out.
    pub fn action_done(&mut self, id: u128)
        requires
            old(self).wf(),
            old(self).active().contains_key(id) ==> old(self).active()[id].actions_done < usize::MAX,
        ensures
            final(self).wf(),
            old(self).active().contains_key(id) ==> final(self).active() == old(self).active().insert(
                id,
                RecoveryOperation {
                    actions_done: (old(self).active()[id].actions_done + 1) as usize,
                    ..old(self).active()[id]
                },
            ),
            !old(self).active().contains_key(id) ==> final(self).active() == old(self).active(),
            final(self).recovery_history@ == old(self).recovery_history@,
            final(self).statistics == old(self).statistics,
    {
        if let Some(mut op) = remove_key(&mut self.active_recoveries, id) {
            op.actions_done = op.actions_done + 1;
            upsert(&mut self.active_recoveries, op);
            assert(self.active() =~= old(self).active().insert(id, op));
        }
    }

    /// Finishes operation `id` after `elapsed_ms` milliseconds: it is
    /// completed when every action succeeded (all of them then count as
    /// done) and failed otherwise, and it moves to the history. One more
    /// recovery is counted, as a success or a failure, and the average
    /// recovery time becomes the mean of the old average and this one.
    /// Nothing happens when no such operation is in progress.
    pub fn finish(&mut self, id: u128, success: bool, elapsed_ms: u64)
        requires
            old(self).wf(),
            old(self).statistics.total_recoveries_initiated < u64::MAX,
            old(self).statistics.successful_recoveries < u64::MAX,
            old(self).statistics.failed_recoveries < u64::MAX,
        ensures
            final(self).wf(),
            final(self).active() == old(self).active().remove(id),
            old(self).active().contains_key(id) ==> {
                let op = old(self).active()[id];
                &&& final(self).recovery_history@ == old(self).recovery_history@.push(
                    RecoveryOperation {
                        status: if success {
                            RecoveryStatus::Completed
                        } else {
                            RecoveryStatus::Failed
                        },
                        actions_done: if success {
                            op.recovery_actions@.len() as usize
                        } else {
                            op.actions_done
                        },
                        ..op
                    },
                )
                &&& final(self).statistics == (RecoveryStatistics {
                    total_recoveries_initiated: (old(self).statistics.total_recoveries_initiated + 1) as u64,
                    successful_recoveries: (old(self).statistics.successful_recoveries + if success {
                        1int
                    } else {
                        0
                    }) as u64,
                    failed_recoveries: (old(self).statistics.failed_recoveries + if success {
                        0int
                    } else {
                        1
                    }) as u64,
                    average_recovery_time: ((old(self).statistics.average_recovery_time + elapsed_ms) / 2) as u64,
                    ..old(self).statistics
                })
            },
            !old(self).active().contains_key(id) ==> final(self).recovery_history@ == old(self).recovery_history@
                && final(self).statistics == old(self).statistics,
    {
        if let Some(mut op) = remove_key(&mut self.active_recoveries, id) {
            if success {
                op.status = RecoveryStatus::Completed;
                op.actions_done = op.recovery_actions.len();
            } else {
                op.status = RecoveryStatus::Failed;
            }
            self.recovery_history.push(op);
            self.statistics.total_recoveries_initiated = self.statistics.total_recoveries_initiated + 1;
            if success {
                self.statistics.successful_recoveries = self.statistics.successful_recoveries + 1;
            } else {
                self.statistics.failed_recoveries = self.statistics.failed_recoveries + 1;
            }
            let sum: u128 = self.statistics.average_recovery_time as u128 + elapsed_ms as u128;
            let avg: u64 = (sum / 2) as u64;
            self.statistics.average_recovery_time = avg;
        } else {
            assert(old(self).active().remove(id) =~= old(self).active());
        }
    }

    /// Marks failed every operation in progress that has run longer than the
    /// recovery timeout at time `now`, and returns their identifiers in
    /// table order.
    pub fn expire(&mut self, now: u64) -> (expired: Vec<u128>)
        requires
            old(self).wf(),
        ensures
            final(self).wf(),
            final(self).active_recoveries@.len() == old(self).active_recoveries@.len(),
            forall|i: int|
                0 <= i < old(self).active_recoveries@.len() ==> {
                    let op = #[trigger] old(self).active_recoveries@[i];
                    final(self).active_recoveries@[i] == if elapsed(now, op.start_time) > old(self).policies.recovery_timeout {
                        RecoveryOperation { status: RecoveryStatus::Failed, ..op }
                    } else {
                        op
                    }
                },
            expired@ == old(self).active_recoveries@.filter(
                |op: RecoveryOperation| elapsed(now, op.start_time) > old(self).policies.recovery_timeout,
            ).map_values(|op: RecoveryOperation| op.operation_id),
            final(self).recovery_history@ == old(self).recovery_history@,
            final(self).statistics == old(self).statistics,
            final(self).policies == old(self).policies,
    {
        let ghost before = self.active_recoveries@;
        let ghost timeout = self.policies.recovery_timeout;
        let ghost pred = |op: RecoveryOperation| elapsed(now, op.start_time) > timeout;
        let ghost hist = self.recovery_history@;
        let ghost stats = self.statistics;
        let ghost policies = self.policies;
        let mut expired: Vec<u128> = Vec::new();
        let mut i: usize = 0;
        while i < self.active_recoveries.len()
            invariant
                i <= self.active_recoveries@.len(),
                self.active_recoveries@.len() == before.len(),
                timeout == self.policies.recovery_timeout,
                self.recovery_history@ == hist,
                self.statistics == stats,
                self.policies == policies,
                pred == (|op: RecoveryOperation| elapsed(now, op.start_time) > timeout),
                forall|j: int|
                    0 <= j < before.len() ==> (#[trigger] self.active_recoveries@[j]).operation_id == before[j].operation_id,
                forall|j: int|
                    0 <= j < i ==> #[trigger] self.active_recoveries@[j] == if pred(before[j]) {
                        RecoveryOperation { status: RecoveryStatus::Failed, ..before[j] }
                    } else {
                        before[j]
                    },
                forall|j: int| i <= j < before.len() ==> #[trigger] self.active_recoveries@[j] == before[j],
                expired@ == before.take(i as int).filter(pred).map_values(|op: RecoveryOperation| op.operation_id),
            decreases before.len() - i,
        {
            proof {
                assert(before.take(i + 1) =~= before.take(i as int).push(before[i as int]));
                crate::keyed::lemma_filter_push(before.take(i as int), pred, before[i as int]);
            }
            let start = self.active_recoveries[i].start_time;
            let since: u64 = if now >= start {
                now - start
            } else {
                0
            };
            if since > self.policies.recovery_timeout {
                let mut op = self.active_recoveries.remove(i);
                expired.push(op.operation_id);
                op.status = RecoveryStatus::Failed;
                self.active_recoveries.insert(i, op);
                assert(expired@ =~= before.take(i + 1).filter(pred).map_values(
                    |op: RecoveryOperation| op.operation_id,
                ));
            } else {
                assert(expired@ =~= before.take(i + 1).filter(pred).map_values(
                    |op: RecoveryOperation| op.operation_id,
                ));
            }
            i = i + 1;
        }
        proof {
            assert(before.take(before.len() as int) =~= before);
            assert forall|a: int, b: int| 0 <= a < b < self.active_recoveries@.len() implies (#[trigger] self.active_recoveries@[a]).key_of()
                != (#[trigger] self.active_recoveries@[b]).key_of() by {
                assert(before[a].key_of() != before[b].key_of());
            }
        }
        expired
    }
}

impl RecoveryPolicies {
    /// The default policies (see `default`).
    pub open spec fn default_spec() -> RecoveryPolicies {
        RecoveryPolicies {
            auto_recovery_enabled: true,
            max_concurrent_recoveries: 5,
            recovery_timeout: 300_000,
            rollback_enabled: true,
            checkpoint_retention_days: 7,
            aggressive_failure_detection: false,
            isolation_timeout: 60_000,
        }
    }
}

/// The cluster's make-up when a checkpoint is taken.
pub struct ClusterConfiguration {
    pub cluster_id: u128,
    pub active_nodes: Vec<u128>,
    pub scheduler_config: SchedulerConfig,
}

/// A checkpoint of the cluster; checksums and metadata are key/value pairs.
pub struct Checkpoint {
    pub checkpoint_id: u128,
    pub creation_time: u64,
    pub cluster_configuration: ClusterConfiguration,
    pub data_checksums: Vec<(String, String)>,
    pub metadata: Vec<(String, String)>,
}

impl Keyed for Checkpoint {
    open spec fn key_of(&self) -> u128 {
        self.checkpoint_id
    }

    fn key(&self) -> (k: u128) {
        self.checkpoint_id
    }
}

/// `after` is `before` with `cp` stored under its identifier and, when
/// that makes more than `max`, one checkpoint dropped: the oldest of the
/// others by creation time, or `cp` itself when there is no other.
pub open spec fn stored_with_eviction(
    before: Map<u128, Checkpoint>,
    cp: Checkpoint,
    max: nat,
    after: Map<u128, Checkpoint>,
) -> bool {
    let m = before.insert(cp.checkpoint_id, cp);
    if m.len() <= max {
        after == m
    } else if exists|k: u128| m.contains_key(k) && k != cp.checkpoint_id {
        exists|k: u128|
            #![trigger m.remove(k)]
            m.contains_key(k) && k != cp.checkpoint_id && (forall|j: u128|
                #[trigger] m.contains_key(j) && j != cp.checkpoint_id ==> m[k].creation_time <= m[j].creation_time)
                && after == m.remove(k)
    } else {
        after == m.remove(cp.checkpoint_id)
    }
}

/// Keeps at most `max_checkpoints` checkpoints; the interval between
/// automatic checkpoints is in milliseconds.
pub struct CheckpointManager {
    pub checkpoints: Vec<Checkpoint>,
    pub max_checkpoints: usize,
    pub auto_checkpoint_interval: u64,
}

impl CheckpointManager {
    /// The invariant: one record per checkpoint.
    pub open spec fn wf(&self) -> bool {
        unique_keys(self.checkpoints@)
    }

    /// The checkpoints by identifier.
    pub open spec fn stored(&self) -> Map<u128, Checkpoint> {
        key_map(self.checkpoints@)
    }

    /// No checkpoints yet.
    pub fn new(max_checkpoints: usize, auto_checkpoint_interval: u64) -> (c: Self)
        ensures
            c.wf(),
            c.stored() == Map::<u128, Checkpoint>::empty(),
            c.max_checkpoints == max_checkpoints,
            c.auto_checkpoint_interval == auto_checkpoint_interval,
    {
        let c = CheckpointManager { checkpoints: Vec::new(), max_checkpoints, auto_checkpoint_interval };
        assert(c.stored() =~= Map::<u128, Checkpoint>::empty());
        c
    }

    /// Stores `cp`; when that makes more than the limit, the oldest of the
    /// other checkpoints (least creation time, the first in table order
    /// among equals) is dropped, or `cp` itself when there is no other.
    pub fn store_checkpoint(&mut self, cp: Checkpoint)
        requires
            old(self).wf(),
        ensures
            final(self).wf(),
            final(self).max_checkpoints == old(self).max_checkpoints,
            stored_with_eviction(old(self).stored(), cp, old(self).max_checkpoints as nat, final(self).stored()),
    {
        let ghost m = self.stored().insert(cp.checkpoint_id, cp);
        let new_id = cp.checkpoint_id;
        upsert(&mut self.checkpoints, cp);
        proof {
            lemma_key_map_len(self.checkpoints@);
        }
        if self.checkpoints.len() > self.max_checkpoints {
            let n = self.checkpoints.len();
            let mut best: Option<usize> = None;
            let mut i: usize = 0;
            while i < n
                invariant
                    i <= n,
                    n == self.checkpoints@.len(),
                    best matches Some(b) ==> b < i && self.checkpoints@[b as int].checkpoint_id != new_id && (forall|
                        j: int,
                    |
                        0 <= j < i && (#[trigger] self.checkpoints@[j]).checkpoint_id != new_id
                            ==> self.checkpoints@[b as int].creation_time <= self.checkpoints@[j].creation_time),
                    best is None ==> forall|j: int| 0 <= j < i ==> (#[trigger] self.checkpoints@[j]).checkpoint_id == new_id,
                decreases n - i,
            {
                if self.checkpoints[i].checkpoint_id != new_id {
                    match best {
                        None => {
                            best = Some(i);
                        },
                        Some(b) => {
                            if self.checkpoints[i].creation_time < self.checkpoints[b].creation_time {
                                best = Some(i);
                            }
                        },
                    }
                }
                i = i + 1;
            }
            let victim = match best {
                Some(b) => self.checkpoints[b].checkpoint_id,
                None => new_id,
            };
            proof {
                let v = self.checkpoints@;
                match best {
                    Some(b) => {
                        lemma_key_index(v, b as int);
                        assert forall|q: u128| #[trigger] m.contains_key(q) && q != new_id implies m[victim].creation_time
                            <= m[q].creation_time by {
                            let t = choose|t: int| 0 <= t < v.len() && (#[trigger] v[t]).key_of() == q;
                            lemma_key_index(v, t);
                        }
                    },
                    None => {
                        assert forall|q: u128| #[trigger] m.contains_key(q) implies q == new_id by {
                            let t = choose|t: int| 0 <= t < v.len() && (#[trigger] v[t]).key_of() == q;
                            assert(v[t].checkpoint_id == new_id);
                        }
                    },
                }
            }
            let _ = remove_key(&mut self.checkpoints, victim);
            assert(self.stored() == m.remove(victim));
        }
    }

    /// Takes a checkpoint of cluster `cluster_id` with the given active
    /// nodes at time `now`, under a fresh identifier, with the default
    /// scheduler configuration and no checksums or metadata, and stores it
    /// (see `store_checkpoint`). Returns its identifier. With a limit of at
    /// least one the new checkpoint is kept; below the limit it is simply
    /// added.
    pub fn create_checkpoint(&mut self, cluster_id: u128, active_nodes: Vec<u128>, now: u64) -> (id: u128)
        requires
            old(self).wf(),
        ensures
            final(self).wf(),
            final(self).max_checkpoints == old(self).max_checkpoints,
            old(self).max_checkpoints >= 1 ==> final(self).stored().contains_key(id),
            old(self).stored().len() < old(self).max_checkpoints ==> final(self).stored() == old(self).stored().insert(
                id,
                final(self).stored()[id],
            ),
            old(self).stored().len() <= old(self).max_checkpoints ==> final(self).stored().len() <= old(self).max_checkpoints,
            id != 0,
            exists|cp: Checkpoint|
                #[trigger] stored_with_eviction(old(self).stored(), cp, old(self).max_checkpoints as nat, final(self).stored())
                    && cp.checkpoint_id == id && cp.creation_time == now && cp.cluster_configuration.cluster_id == cluster_id
                    && cp.cluster_configuration.active_nodes@ == active_nodes@ && cp.data_checksums@.len() == 0
                    && cp.metadata@.len() == 0,
            final(self).stored().contains_key(id) ==> {
                let c = final(self).stored()[id];
                &&& c.creation_time == now
                &&& c.cluster_configuration.cluster_id == cluster_id
                &&& c.cluster_configuration.active_nodes@ == active_nodes@
                &&& c.data_checksums@.len() == 0
                &&& c.metadata@.len() == 0
            },
            forall|k: u128|
                k != id && #[trigger] final(self).stored().contains_key(k) ==> old(self).stored().contains_key(k)
                    && final(self).stored()[k] == old(self).stored()[k],
    {
        let checkpoint_id = fresh_id();
        let cp = Checkpoint {
            checkpoint_id,
            creation_time: now,
            cluster_configuration: ClusterConfiguration {
                cluster_id,
                active_nodes,
                scheduler_config: SchedulerConfig::default(),
            },
            data_checksums: Vec::new(),
            metadata: Vec::new(),
        };
        let ghost c = cp;
        let ghost m = self.stored().insert(checkpoint_id, cp);
        proof {
            lemma_key_map_len(self.checkpoints@);
            if !self.stored().contains_key(checkpoint_id) {
                assert(m.len() == self.stored().len() + 1);
            } else {
                assert(m.dom() =~= self.stored().dom());
            }
        }
        self.store_checkpoint(cp);
        proof {
            assert(stored_with_eviction(old(self).stored(), c, old(self).max_checkpoints as nat, self.stored()));
            if m.len() > old(self).max_checkpoints {
                if exists|k: u128| m.contains_key(k) && k != checkpoint_id {
                    let k = choose|k: u128|
                        #![trigger m.remove(k)]
                        m.contains_key(k) && k != checkpoint_id && self.stored() == m.remove(k);
                    assert(self.stored().len() == m.len() - 1);
                } else {
                    assert(m.dom() =~= set![checkpoint_id]);
                    assert(self.stored().len() == m.len() - 1);
                    if old(self).max_checkpoints >= 1 {
                        assert(m.len() == 1);
                    }
                }
            }
        }
        checkpoint_id
    }

    /// Checks that checkpoint `id` exists before a restore.
    pub fn restore_checkpoint(&self, id: u128) -> (r: Result<(), String>)
        requires
            self.wf(),
        ensures
            r is Ok <==> self.stored().contains_key(id),
            r matches Err(m) ==> m@ == "Checkpoint not found"@,
    {
        match find_key(&self.checkpoints, id) {
            Some(_) => Ok(()),
            None => Err(string_of("Checkpoint not found")),
        }
    }

    /// The checkpoints as (identifier, creation time, label) triples, in
    /// table order; the label is `Checkpoint ` and the identifier.
    pub fn list_checkpoints(&self) -> (l: Vec<(u128, u64, String)>)
        ensures
            l@.len() == self.checkpoints@.len(),
            forall|i: int|
                0 <= i < l@.len() ==> (#[trigger] l@[i]).0 == self.checkpoints@[i].checkpoint_id && l@[i].1
                    == self.checkpoints@[i].creation_time && l@[i].2@ == "Checkpoint "@ + uuid_text(
                    self.checkpoints@[i].checkpoint_id,
                ),
    {
        let mut l: Vec<(u128, u64, String)> = Vec::new();
        let mut i: usize = 0;
        while i < self.checkpoints.len()
            invariant
                i <= self.checkpoints@.len(),
                l@.len() == i,
                forall|j: int|
                    0 <= j < i ==> (#[trigger] l@[j]).0 == self.checkpoints@[j].checkpoint_id && l@[j].1
                        == self.checkpoints@[j].creation_time && l@[j].2@ == "Checkpoint "@ + uuid_text(
                        self.checkpoints@[j].checkpoint_id,
                    ),
            decreases self.checkpoints@.len() - i,
        {
            let id = self.checkpoints[i].checkpoint_id;
            let mut label = string_of("Checkpoint ");
            let t = uuid_string(id);
            push_text(&mut label, t.as_str());
            l.push((id, self.checkpoints[i].creation_time, label));
            i = i + 1;
        }
        l
    }
}

/// A group of nodes holding copies of the same data; the data is a list of
/// key/bytes pairs.
pub struct ReplicationGroup {
    pub group_id: String,
    pub primary_node: u128,
    pub replica_nodes: Vec<u128>,
    pub replicated_data: Vec<(String, Vec<u8>)>,
    pub consistency_model: ConsistencyModel,
}

/// The replication groups, by name, each with the nodes that hold copies.
pub struct ReplicationManager {
    pub replication_groups: Vec<ReplicationGroup>,
    pub replication_factor: usize,
}

/// The position of the group named `name`, if any.
pub open spec fn group_index(gs: Seq<ReplicationGroup>, name: Seq<char>) -> Option<int> {
    if exists|i: int| 0 <= i < gs.len() && (#[trigger] gs[i]).group_id@ == name {
        Some(choose|i: int| 0 <= i < gs.len() && (#[trigger] gs[i]).group_id@ == name)
    } else {
        None
    }
}

impl ReplicationManager {
    /// The invariant: group names are distinct.
    pub open spec fn wf(&self) -> bool {
        forall|i: int, j: int|
            0 <= i < j < self.replication_groups@.len() ==> (#[trigger] self.replication_groups@[i]).group_id@
                != (#[trigger] self.replication_groups@[j]).group_id@
    }

    /// No groups yet.
    pub fn new(replication_factor: usize) -> (m: Self)
        ensures
            m.wf(),
            m.replication_groups@.len() == 0,
            m.replication_factor == replication_factor,
    {
        ReplicationManager { replication_groups: Vec::new(), replication_factor }
    }

    fn find_group(&self, name: &str) -> (r: Option<usize>)
        requires
            self.wf(),
        ensures
            r matches Some(i) ==> i < self.replication_groups@.len() && group_index(self.replication_groups@, name@)
                == Some(i as int),
            r is None <==> group_index(self.replication_groups@, name@) is None,
    {
        let mut i: usize = 0;
        while i < self.replication_groups.len()
            invariant
                self.wf(),
                i <= self.replication_groups@.len(),
                forall|j: int| 0 <= j < i ==> (#[trigger] self.replication_groups@[j]).group_id@ != name@,
            decreases self.replication_groups@.len() - i,
        {
            if string_eq(&self.replication_groups[i].group_id, name) {
                proof {
                    let k = choose|k: int| 0 <= k < self.replication_groups@.len() && (#[trigger] self.replication_groups@[k]).group_id@ == name@;
                    assert(self.replication_groups@[i as int].group_id@ == name@);
                    if k != i as int {
                        assert(self.replication_groups@[k].group_id@ == self.replication_groups@[i as int].group_id@);
                    }
                }
                return Some(i);
            }
            i = i + 1;
        }
        None
    }

    /// Creates group `group_id` with primary `primary_node`, no replicas, no
    /// data and sequential consistency, replacing any group of that name.
    pub fn create_replication_group(&mut self, group_id: &str, primary_node: u128)
        requires
            old(self).wf(),
        ensures
            final(self).wf(),
            group_index(final(self).replication_groups@, group_id@) matches Some(i) && {
                let g = final(self).replication_groups@[i];
                &&& g.primary_node == primary_node
                &&& g.replica_nodes@.len() == 0
                &&& g.replicated_data@.len() == 0
                &&& g.consistency_model == ConsistencyModel::Sequential
            },
            forall|name: Seq<char>|
                name != group_id@ ==> (#[trigger] group_index(final(self).replication_groups@, name) is Some)
                    == group_index(old(self).replication_groups@, name) is Some,
    {
        let g = ReplicationGroup {
            group_id: string_of(group_id),
            primary_node,
            replica_nodes: Vec::new(),
            replicated_data: Vec::new(),
            consistency_model: ConsistencyModel::Sequential,
        };
        let ghost before = self.replication_groups@;
        match self.find_group(group_id) {
            Some(i) => {
                self.replication_groups.set(i, g);
                proof {
                    let after = self.replication_groups@;
                    assert forall|a: int, b: int| 0 <= a < b < after.len() implies (#[trigger] after[a]).group_id@
                        != (#[trigger] after[b]).group_id@ by {
                        assert(before[a].group_id@ != before[b].group_id@);
                    }
                    assert(group_index(after, group_id@) == Some(i as int)) by {
                        let k = choose|k: int| 0 <= k < after.len() && (#[trigger] after[k]).group_id@ == group_id@;
                        if k != i as int {
                            assert(after[k].group_id@ != after[i as int].group_id@);
                        }
                    }
                    assert forall|name: Seq<char>| name != group_id@ implies (#[trigger] group_index(after, name) is Some)
                        == group_index(before, name) is Some by {
                        if group_index(before, name) is Some {
                            let k = choose|k: int| 0 <= k < before.len() && (#[trigger] before[k]).group_id@ == name;
                            assert(after[k].group_id@ == name);
                        }
                        if group_index(after, name) is Some {
                            let k = choose|k: int| 0 <= k < after.len() && (#[trigger] after[k]).group_id@ == name;
                            assert(before[k].group_id@ == name);
                        }
                    }
                }
            },
            None => {
                self.replication_groups.push(g);
                proof {
                    let after = self.replication_groups@;
                    let n = before.len() as int;
                    assert forall|a: int, b: int| 0 <= a < b < after.len() implies (#[trigger] after[a]).group_id@
                        != (#[trigger] after[b]).group_id@ by {
                        if b < n {
                            assert(before[a].group_id@ != before[b].group_id@);
                        } else {
                            assert(after[a] == before[a]);
                        }
                    }
                    assert(group_index(after, group_id@) == Some(n)) by {
                        assert(after[n].group_id@ == group_id@);
                        let k = choose|k: int| 0 <= k < after.len() && (#[trigger] after[k]).group_id@ == group_id@;
                        if k != n {
                            assert(before[k].group_id@ == group_id@);
                        }
                    }
                    assert forall|name: Seq<char>| name != group_id@ implies (#[trigger] group_index(after, name) is Some)
                        == group_index(before, name) is Some by {
                        if group_index(before, name) is Some {
                            let k = choose|k: int| 0 <= k < before.len() && (#[trigger] before[k]).group_id@ == name;
                            assert(after[k].group_id@ == name);
                        }
                        if group_index(after, name) is Some {
                            let k = choose|k: int| 0 <= k < after.len() && (#[trigger] after[k]).group_id@ == name;
                            assert(k != n);
                            assert(before[k].group_id@ == name);
                        }
                    }
                }
            },
        }
    }

    /// Adds `replica_node` to the replicas of group `group_id` unless it is
    /// already one; nothing happens when there is no such group.
    pub fn add_replica(&mut self, group_id: &str, replica_node: u128)
        requires
            old(self).wf(),
        ensures
            final(self).wf(),
            final(self).replication_groups@.len() == old(self).replication_groups@.len(),
            match group_index(old(self).replication_groups@, group_id@) {
                Some(i) => {
                    let g = old(self).replication_groups@[i];
                    &&& final(self).replication_groups@[i].replica_nodes@ == if g.replica_nodes@.contains(replica_node) {
                        g.replica_nodes@
                    } else {
                        g.replica_nodes@.push(replica_node)
                    }
                    &&& final(self).replication_groups@[i].group_id@ == g.group_id@
                    &&& final(self).replication_groups@[i].primary_node == g.primary_node
                    &&& forall|j: int|
                        0 <= j < old(self).replication_groups@.len() && j != i ==> #[trigger] final(self).replication_groups@[j]
                            == old(self).replication_groups@[j]
                },
                None => final(self).replication_groups@ == old(self).replication_groups@,
            },
    {
        if let Some(i) = self.find_group(group_id) {
            let ghost before = self.replication_groups@;
            let mut g = self.replication_groups.remove(i);
            if !contains_id(&g.replica_nodes, replica_node) {
                g.replica_nodes.push(replica_node);
            }
            self.replication_groups.insert(i, g);
            proof {
                let after = self.replication_groups@;
                assert(after =~= before.update(i as int, g));
                assert forall|a: int, b: int| 0 <= a < b < after.len() implies (#[trigger] after[a]).group_id@
                    != (#[trigger] after[b]).group_id@ by {
                    assert(before[a].group_id@ != before[b].group_id@);
                }
            }
        }
    }
}

/// Whether `v` holds `x`.
pub fn contains_id(v: &Vec<u128>, x: u128) -> (b: bool)
    ensures
        b == v@.contains(x),
{
    let mut i: usize = 0;
    while i < v.len()
        invariant
            i <= v@.len(),
            forall|j: int| 0 <= j < i ==> v@[j] != x,
        decreases v@.len() - i,
    {
        if v[i] == x {
            assert(v@[i as int] == x);
            return true;
        }
        i = i + 1;
    }
    false
}

/// Whether a string equals a text.
pub fn string_eq(s: &String, t: &str) -> (b: bool)
    ensures
        b == (s@ == t@),
{
    let u = string_of(t);
    *s == u
}

} // verus!
