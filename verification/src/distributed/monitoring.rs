//! Performance monitoring: the catalogue of standard metrics, bounded time
//! series of data points per metric, and alerts with their history. Times
//! are in milliseconds since the Unix epoch, durations in milliseconds;
//! measured values are carried as the bit patterns of IEEE-754 doubles,
//! stored and handed back without arithmetic.
use vstd::prelude::*;
use crate::keyed::{Keyed, find_key, has_key, key_map, remove_key, unique_keys, upsert};
use crate::text::{push_char, push_text, string_of};

verus! {

/// Kinds of metrics.
#[derive(Clone, Copy, PartialEq, Eq, Debug, Structural)]
pub enum MetricType {
    Counter,
    Gauge,
    Histogram,
    Timer,
    Rate,
}

/// The display name of a metric kind.
pub open spec fn metric_type_text(t: MetricType) -> Seq<char> {
    match t {
        MetricType::Counter => "Counter"@,
        MetricType::Gauge => "Gauge"@,
        MetricType::Histogram => "Histogram"@,
        MetricType::Timer => "Timer"@,
        MetricType::Rate => "Rate"@,
    }
}

impl MetricType {
    /// The display name of this kind.
    pub fn to_string(&self) -> (s: String)
        ensures
            s@ == metric_type_text(*self),
    {
        match self {
            MetricType::Counter => string_of("Counter"),
            MetricType::Gauge => string_of("Gauge"),
            MetricType::Histogram => string_of("Histogram"),
            MetricType::Timer => string_of("Timer"),
            MetricType::Rate => string_of("Rate"),
        }
    }
}

/// How the values of a metric are combined. The percentile is in
/// thousandths (950 for the 95th percentile).
#[derive(Clone, Copy, PartialEq, Eq, Debug, Structural)]
pub enum AggregationFunction {
    Sum,
    Average,
    Min,
    Max,
    Count,
    Percentile(u32),
}

/// Execution states of a monitored task.
#[derive(Clone, Copy, PartialEq, Eq, Debug, Structural)]
pub enum TaskExecutionStatus {
    Queued,
    Running,
    Completed,
    Failed,
    Cancelled,
    Timeout,
}

/// Alert severities, least severe first.
#[derive(Clone, Copy, PartialEq, Eq, PartialOrd, Ord, Debug, Structural)]
pub enum AlertSeverity {
    Info,
    Warning,
    Error,
    Critical,
}

/// The display name of an alert severity.
pub open spec fn alert_severity_text(s: AlertSeverity) -> Seq<char> {
    match s {
        AlertSeverity::Info => "Info"@,
        AlertSeverity::Warning => "Warning"@,
        AlertSeverity::Error => "Error"@,
        AlertSeverity::Critical => "Critical"@,
    }
}

impl AlertSeverity {
    /// The display name of this severity.
    pub fn to_string(&self) -> (s: String)
        ensures
            s@ == alert_severity_text(*self),
    {
        match self {
            AlertSeverity::Info => string_of("Info"),
            AlertSeverity::Warning => string_of("Warning"),
            AlertSeverity::Error => string_of("Error"),
            AlertSeverity::Critical => string_of("Critical"),
        }
    }
}

/// How a value is compared with a threshold.
#[derive(Clone, Copy, PartialEq, Eq, Debug, Structural)]
pub enum ThresholdComparison {
    GreaterThan,
    LessThan,
    GreaterThanOrEqual,
    LessThanOrEqual,
    Equal,
    NotEqual,
}

/// Kinds of bottlenecks.
#[derive(Clone, Copy, PartialEq, Eq, Debug, Structural)]
pub enum BottleneckType {
    CPUUtilization,
    MemoryUtilization,
    NetworkBandwidth,
    DiskIO,
    TaskQueueBacklog,
    NodeFailure,
    NetworkLatency,
    LoadImbalance,
    ResourceContention,
}

/// Priorities of recommendations.
#[derive(Clone, Copy, PartialEq, Eq, Debug, Structural)]
pub enum RecommendationPriority {
    Low,
    Medium,
    High,
    Critical,
}

/// Kinds of recommendations.
#[derive(Clone, Copy, PartialEq, Eq, Debug, Structural)]
pub enum RecommendationCategory {
    ResourceOptimization,
    LoadBalancing,
    ConfigurationTuning,
    Scaling,
    FaultTolerance,
    NetworkOptimization,
    AlgorithmOptimization,
    Monitoring,
}

/// Effort of carrying out a recommendation.
#[derive(Clone, Copy, PartialEq, Eq, Debug, Structural)]
pub enum ImplementationEffort {
    Minimal,
    Low,
    Medium,
    High,
    Significant,
}

/// Risk of carrying out a recommendation.
#[derive(Clone, Copy, PartialEq, Eq, Debug, Structural)]
pub enum RiskLevel {
    VeryLow,
    Low,
    Medium,
    High,
    VeryHigh,
}

/// A measured value at a moment, with tags.
pub struct DataPoint {
    pub timestamp: u64,
    pub value: u64,
    pub tags: Vec<(String, String)>,
}

/// The definition of a metric.
pub struct PerformanceMetric {
    pub metric_id: String,
    pub name: String,
    pub metric_type: MetricType,
    pub unit: String,
    pub description: String,
    pub collection_interval: u64,
    pub aggregation: AggregationFunction,
    pub tags: Vec<(String, String)>,
}

/// The unit of a node-level metric.
pub open spec fn node_metric_unit(id: Seq<char>) -> Seq<char> {
    if id == "node.cpu.usage"@ || id == "node.memory.usage"@ || id == "node.disk.usage"@ {
        "percentage"@
    } else if id == "node.task.queue.length"@ {
        "count"@
    } else if id == "node.task.duration"@ {
        "milliseconds"@
    } else if id == "node.network.bytes_sent"@ || id == "node.network.bytes_received"@ {
        "bytes"@
    } else {
        "unit"@
    }
}

/// `s` with every `.` replaced by a space.
pub open spec fn dots_to_spaces(s: Seq<char>) -> Seq<char> {
    s.map_values(|c: char| if c == '.' { ' ' } else { c })
}

/// A copy of `t` with every `.` replaced by a space.
pub fn replace_dots(t: &str) -> (s: String)
    ensures
        s@ == dots_to_spaces(t@),
{
    let n = t.unicode_len();
    let mut s = String::new();
    let mut i: usize = 0;
    while i < n
        invariant
            n == t@.len(),
            i <= n,
            s@ == dots_to_spaces(t@.take(i as int)),
        decreases n - i,
    {
        let c = t.get_char(i);
        if c == '.' {
            push_char(&mut s, ' ');
        } else {
            push_char(&mut s, c);
        }
        i = i + 1;
        assert(s@ =~= dots_to_spaces(t@.take(i as int)));
    }
    assert(t@.take(n as int) =~= t@);
    s
}

/// The unit of node-level metric `id`.
pub fn node_unit(id: &str) -> (u: String)
    ensures
        u@ == node_metric_unit(id@),
{
    let s = string_of(id);
    if s == string_of("node.cpu.usage") || s == string_of("node.memory.usage") || s == string_of("node.disk.usage") {
        string_of("percentage")
    } else if s == string_of("node.task.queue.length") {
        string_of("count")
    } else if s == string_of("node.task.duration") {
        string_of("milliseconds")
    } else if s == string_of("node.network.bytes_sent") || s == string_of("node.network.bytes_received") {
        string_of("bytes")
    } else {
        string_of("unit")
    }
}

/// The definition of node-level metric `id`: named after its identifier with
/// spaces for dots, a gauge averaged over nodes, in its unit.
pub fn node_metric(id: &str, collection_interval: u64) -> (m: PerformanceMetric)
    ensures
        m.metric_id@ == id@,
        m.name@ == dots_to_spaces(id@),
        m.metric_type == MetricType::Gauge,
        m.unit@ == node_metric_unit(id@),
        m.description@ == "Node-level metric: "@ + id@,
        m.collection_interval == collection_interval,
        m.aggregation == AggregationFunction::Average,
        m.tags@.len() == 0,
{
    let mut description = string_of("Node-level metric: ");
    push_text(&mut description, id);
    PerformanceMetric {
        metric_id: string_of(id),
        name: replace_dots(id),
        metric_type: MetricType::Gauge,
        unit: node_unit(id),
        description,
        collection_interval,
        aggregation: AggregationFunction::Average,
        tags: Vec::new(),
    }
}

fn cluster_metric(
    id: &str,
    name: &str,
    metric_type: MetricType,
    unit: &str,
    description: &str,
    collection_interval: u64,
    aggregation: AggregationFunction,
) -> (m: PerformanceMetric)
    ensures
        m.metric_id@ == id@,
        m.name@ == name@,
        m.metric_type == metric_type,
        m.unit@ == unit@,
        m.description@ == description@,
        m.collection_interval == collection_interval,
        m.aggregation == aggregation,
        m.tags@.len() == 0,
{
    PerformanceMetric {
        metric_id: string_of(id),
        name: string_of(name),
        metric_type,
        unit: string_of(unit),
        description: string_of(description),
        collection_interval,
        aggregation,
        tags: Vec::new(),
    }
}

/// The identifiers of the standard metrics, cluster-level first.
pub open spec fn standard_metric_ids() -> Seq<Seq<char>> {
    seq![
        "cluster.cpu.usage"@,
        "cluster.memory.usage"@,
        "cluster.task.throughput"@,
        "cluster.network.throughput"@,
        "node.cpu.usage"@,
        "node.memory.usage"@,
        "node.disk.usage"@,
        "node.task.queue.length"@,
        "node.task.duration"@,
        "node.network.bytes_sent"@,
        "node.network.bytes_received"@,
    ]
}

/// The standard metrics: cluster CPU and memory usage (average gauges in
/// percent), task throughput (a summed rate in tasks per second), network
/// throughput (a summed gauge in Mbit/s), and the node-level metrics, all
/// collected every `collection_interval` milliseconds.
pub fn standard_metrics(collection_interval: u64) -> (ms: Vec<PerformanceMetric>)
    ensures
        ms@.len() == 11,
        forall|i: int| 0 <= i < 11 ==> (#[trigger] ms@[i]).metric_id@ == standard_metric_ids()[i],
        forall|i: int| 0 <= i < 11 ==> (#[trigger] ms@[i]).collection_interval == collection_interval,
        forall|i: int|
            4 <= i < 11 ==> (#[trigger] ms@[i]).name@ == dots_to_spaces(standard_metric_ids()[i])
                && ms@[i].unit@ == node_metric_unit(standard_metric_ids()[i]) && ms@[i].metric_type
                == MetricType::Gauge && ms@[i].aggregation == AggregationFunction::Average,
        ms@[0].name@ == "Cluster CPU Usage"@ && ms@[0].unit@ == "percentage"@ && ms@[0].metric_type
            == MetricType::Gauge && ms@[0].aggregation == AggregationFunction::Average,
        ms@[1].name@ == "Cluster Memory Usage"@ && ms@[1].unit@ == "percentage"@ && ms@[1].metric_type
            == MetricType::Gauge && ms@[1].aggregation == AggregationFunction::Average,
        ms@[2].name@ == "Cluster Task Throughput"@ && ms@[2].unit@ == "tasks/second"@ && ms@[2].metric_type
            == MetricType::Rate && ms@[2].aggregation == AggregationFunction::Sum,
        ms@[3].name@ == "Cluster Network Throughput"@ && ms@[3].unit@ == "mbps"@ && ms@[3].metric_type
            == MetricType::Gauge && ms@[3].aggregation == AggregationFunction::Sum,
{
    let mut ms: Vec<PerformanceMetric> = Vec::new();
    ms.push(
        cluster_metric(
            "cluster.cpu.usage",
            "Cluster CPU Usage",
            MetricType::Gauge,
            "percentage",
            "Average CPU usage across all nodes",
            collection_interval,
            AggregationFunction::Average,
        ),
    );
    ms.push(
        cluster_metric(
            "cluster.memory.usage",
            "Cluster Memory Usage",
            MetricType::Gauge,
            "percentage",
            "Average memory usage across all nodes",
            collection_interval,
            AggregationFunction::Average,
        ),
    );
    ms.push(
        cluster_metric(
            "cluster.task.throughput",
            "Cluster Task Throughput",
            MetricType::Rate,
            "tasks/second",
            "Number of tasks completed per second",
            collection_interval,
            AggregationFunction::Sum,
        ),
    );
    ms.push(
        cluster_metric(
            "cluster.network.throughput",
            "Cluster Network Throughput",
            MetricType::Gauge,
            "mbps",
            "Total network throughput across cluster",
            collection_interval,
            AggregationFunction::Sum,
        ),
    );
    ms.push(node_metric("node.cpu.usage", collection_interval));
    ms.push(node_metric("node.memory.usage", collection_interval));
    ms.push(node_metric("node.disk.usage", collection_interval));
    ms.push(node_metric("node.task.queue.length", collection_interval));
    ms.push(node_metric("node.task.duration", collection_interval));
    ms.push(node_metric("node.network.bytes_sent", collection_interval));
    ms.push(node_metric("node.network.bytes_received", collection_interval));
    ms
}

/// The recorded points of one metric, oldest first.
pub struct MetricSeries {
    pub metric_id: String,
    pub points: Vec<DataPoint>,
}

/// Monitoring settings. Intervals and periods are in milliseconds.
#[derive(Clone, Copy, PartialEq, Eq, Debug, Structural)]
pub struct MonitoringConfig {
    pub collection_interval: u64,
    pub retention_period: u64,
    pub enable_real_time_monitoring: bool,
    pub enable_historical_analysis: bool,
    pub max_data_points_per_metric: usize,
    pub enable_cluster_aggregation: bool,
}

impl MonitoringConfig {
    /// Collection every 5 s, an hour of retention, at most 1000 points per
    /// metric, everything enabled.
    pub fn default() -> (c: Self)
        ensures
            c == (MonitoringConfig {
                collection_interval: 5_000,
                retention_period: 3_600_000,
                enable_real_time_monitoring: true,
                enable_historical_analysis: true,
                max_data_points_per_metric: 1000,
                enable_cluster_aggregation: true,
            }),
    {
        MonitoringConfig {
            collection_interval: 5_000,
            retention_period: 3_600_000,
            enable_real_time_monitoring: true,
            enable_historical_analysis: true,
            max_data_points_per_metric: 1000,
            enable_cluster_aggregation: true,
        }
    }
}

/// A performance alert; the threshold and the value that crossed it are
/// bit patterns of doubles.
pub struct PerformanceAlert {
    pub alert_id: u128,
    pub severity: AlertSeverity,
    pub metric_id: String,
    pub node_id: Option<u128>,
    pub threshold_value: u64,
    pub current_value: u64,
    pub message: String,
    pub timestamp: u64,
    pub acknowledged: bool,
    pub resolved_at: Option<u64>,
}

impl Keyed for PerformanceAlert {
    open spec fn key_of(&self) -> u128 {
        self.alert_id
    }

    fn key(&self) -> (k: u128) {
        self.alert_id
    }
}

/// A copy of an alert.
pub fn copy_alert(a: &PerformanceAlert) -> (c: PerformanceAlert)
    ensures
        c == *a,
{
    PerformanceAlert {
        alert_id: a.alert_id,
        severity: a.severity,
        metric_id: a.metric_id.clone(),
        node_id: a.node_id,
        threshold_value: a.threshold_value,
        current_value: a.current_value,
        message: a.message.clone(),
        timestamp: a.timestamp,
        acknowledged: a.acknowledged,
        resolved_at: a.resolved_at,
    }
}

/// Counters of the monitor; durations are in milliseconds.
#[derive(Clone, Copy, PartialEq, Eq, Debug, Structural)]
pub struct MonitoringStatistics {
    pub total_metrics_collected: u64,
    pub total_alerts_generated: u64,
    pub alerts_resolved: u64,
    pub average_collection_time: u64,
    pub monitoring_uptime: u64,
    pub alert_response_time: u64,
}

/// The position of the series of metric `id`, if any.
pub open spec fn series_index(ss: Seq<MetricSeries>, id: Seq<char>) -> Option<int> {
    if exists|i: int| 0 <= i < ss.len() && (#[trigger] ss[i]).metric_id@ == id {
        Some(choose|i: int| 0 <= i < ss.len() && (#[trigger] ss[i]).metric_id@ == id)
    } else {
        None
    }
}

/// `s` with `x` appended, then its oldest elements dropped until at most
/// `max` remain.
pub open spec fn bounded_push<A>(s: Seq<A>, x: A, max: nat) -> Seq<A> {
    let t = s.push(x);
    if t.len() > max {
        t.skip(t.len() - max)
    } else {
        t
    }
}

/// Whether an alert in the history is kept at cleanup time `cutoff`: it is
/// unresolved, or was resolved at or after the cutoff.
pub open spec fn keep_alert(a: PerformanceAlert, cutoff: u64) -> bool {
    match a.resolved_at {
        Some(t) => t >= cutoff,
        None => true,
    }
}

/// The monitor: metric definitions, the time series of each metric, the
/// alerts in force and the history of all alerts, and the counters.
pub struct PerformanceMonitor {
    pub config: MonitoringConfig,
    pub performance_metrics: Vec<PerformanceMetric>,
    pub metrics: Vec<MetricSeries>,
    pub active_alerts: Vec<PerformanceAlert>,
    pub alert_history: Vec<PerformanceAlert>,
    pub is_monitoring: bool,
    pub statistics: MonitoringStatistics,
}

impl PerformanceMonitor {
    /// The invariant: one series per metric, one record per alert in force.
    pub open spec fn wf(&self) -> bool {
        &&& forall|i: int, j: int|
            0 <= i < j < self.metrics@.len() ==> (#[trigger] self.metrics@[i]).metric_id@ != (#[trigger] self.metrics@[j]).metric_id@
        &&& unique_keys(self.active_alerts@)
    }

    /// The alerts in force by identifier.
    pub open spec fn alerts(&self) -> Map<u128, PerformanceAlert> {
        key_map(self.active_alerts@)
    }

    /// The alerts in force, one record per alert.
    pub fn get_active_alerts(&self) -> (a: &[PerformanceAlert])
        ensures
            a@ == self.active_alerts@,
    {
        self.active_alerts.as_slice()
    }

    /// The recorded points of metric `id` (none when never recorded).
    pub open spec fn series(&self, id: Seq<char>) -> Seq<DataPoint> {
        match series_index(self.metrics@, id) {
            Some(i) => self.metrics@[i].points@,
            None => Seq::empty(),
        }
    }

    /// A monitor with the given configuration, or the default one, not
    /// monitoring, with nothing recorded.
    pub fn new(config: Option<MonitoringConfig>) -> (m: Self)
        ensures
            m.wf(),
            m.config == match config {
                Some(c) => c,
                None => MonitoringConfig::default_spec(),
            },
            m.performance_metrics@.len() == 0,
            m.metrics@.len() == 0,
            m.alerts() == Map::<u128, PerformanceAlert>::empty(),
            m.alert_history@.len() == 0,
            !m.is_monitoring,
            m.statistics == MonitoringStatistics::zero(),
    {
        let config = match config {
            Some(c) => c,
            None => MonitoringConfig::default(),
        };
        let m = PerformanceMonitor {
            config,
            performance_metrics: Vec::new(),
            metrics: Vec::new(),
            active_alerts: Vec::new(),
            alert_history: Vec::new(),
            is_monitoring: false,
            statistics: MonitoringStatistics {
                total_metrics_collected: 0,
                total_alerts_generated: 0,
                alerts_resolved: 0,
                average_collection_time: 0,
                monitoring_uptime: 0,
                alert_response_time: 0,
            },
        };
        assert(m.alerts() =~= Map::<u128, PerformanceAlert>::empty());
        m
    }

    /// Defines the standard metrics and starts monitoring.
    pub fn start(&mut self)
        ensures
            final(self).is_monitoring,
            final(self).performance_metrics@.len() == 11,
            forall|i: int|
                0 <= i < 11 ==> (#[trigger] final(self).performance_metrics@[i]).metric_id@ == standard_metric_ids()[i],
            final(self).metrics@ == old(self).metrics@,
            final(self).active_alerts@ == old(self).active_alerts@,
            final(self).config == old(self).config,
    {
        self.performance_metrics = standard_metrics(self.config.collection_interval);
        self.is_monitoring = true;
    }

    /// Stops monitoring.
    pub fn stop(&mut self)
        ensures
            !final(self).is_monitoring,
            final(self).metrics@ == old(self).metrics@,
            final(self).active_alerts@ == old(self).active_alerts@,
    {
        self.is_monitoring = false;
    }

    fn find_series(&self, id: &str) -> (r: Option<usize>)
        requires
            self.wf(),
        ensures
            r matches Some(i) ==> i < self.metrics@.len() && series_index(self.metrics@, id@) == Some(i as int),
            r is None <==> series_index(self.metrics@, id@) is None,
    {
        let mut i: usize = 0;
        while i < self.metrics.len()
            invariant
                self.wf(),
                i <= self.metrics@.len(),
                forall|j: int| 0 <= j < i ==> (#[trigger] self.metrics@[j]).metric_id@ != id@,
            decreases self.metrics@.len() - i,
        {
            if self.metrics[i].metric_id == string_of(id) {
                proof {
                    let k = choose|k: int| 0 <= k < self.metrics@.len() && (#[trigger] self.metrics@[k]).metric_id@ == id@;
                    assert(self.metrics@[i as int].metric_id@ == id@);
                    if k != i as int {
                        assert(self.metrics@[k].metric_id@ == self.metrics@[i as int].metric_id@);
                    }
                }
                return Some(i);
            }
            i = i + 1;
        }
        None
    }

    /// Records `point` for metric `metric_id`: it goes at the end of the
    /// metric's series, and the oldest points go until the series holds no
    /// more than the configured maximum. The series of other metrics do not
    /// change.
    pub fn record_metric(&mut self, metric_id: &str, point: DataPoint)
        requires
            old(self).wf(),
        ensures
            final(self).wf(),
            final(self).series(metric_id@) == bounded_push(
                old(self).series(metric_id@),
                point,
                old(self).config.max_data_points_per_metric as nat,
            ),
            forall|id: Seq<char>| id != metric_id@ ==> #[trigger] final(self).series(id) == old(self).series(id),
            final(self).config == old(self).config,
            final(self).alerts() == old(self).alerts(),
            final(self).alert_history@ == old(self).alert_history@,
            final(self).statistics == old(self).statistics,
    {
        let max = self.config.max_data_points_per_metric;
        let ghost before = self.metrics@;
        match self.find_series(metric_id) {
            Some(i) => {
                let mut s = self.metrics.remove(i);
                let ghost old_points = s.points@;
                proof {
                    assert(s == before[i as int]);
                    assert(before[i as int].metric_id@ == metric_id@);
                }
                s.points.push(point);
                if s.points.len() > max {
                    let excess = s.points.len() - max;
                    let rest = s.points.split_off(excess);
                    s.points = rest;
                }
                assert(s.points@ =~= bounded_push(old_points, point, max as nat));
                self.metrics.insert(i, s);
                proof {
                    let after = self.metrics@;
                    assert(after =~= before.update(i as int, s));
                    assert forall|a: int, b: int| 0 <= a < b < after.len() implies (#[trigger] after[a]).metric_id@
                        != (#[trigger] after[b]).metric_id@ by {
                        assert(before[a].metric_id@ != before[b].metric_id@);
                    }
                    assert(after[i as int].metric_id@ == metric_id@);
                    assert(series_index(after, metric_id@) == Some(i as int)) by {
                        let k = choose|k: int| 0 <= k < after.len() && (#[trigger] after[k]).metric_id@ == metric_id@;
                        if k != i as int {
                            assert(after[k].metric_id@ != after[i as int].metric_id@);
                        }
                    }
                    assert forall|id: Seq<char>| id != metric_id@ implies #[trigger] self.series(id) == old(self).series(id) by {
                        lemma_series_index_update(before, i as int, s, id);
                    }
                }
            },
            None => {
                let mut points: Vec<DataPoint> = Vec::new();
                points.push(point);
                if points.len() > max {
                    let rest = points.split_off(1);
                    points = rest;
                }
                assert(points@ =~= bounded_push(Seq::<DataPoint>::empty(), point, max as nat));
                let s = MetricSeries { metric_id: string_of(metric_id), points };
                self.metrics.push(s);
                proof {
                    let after = self.metrics@;
                    let n = before.len() as int;
                    assert forall|a: int, b: int| 0 <= a < b < after.len() implies (#[trigger] after[a]).metric_id@
                        != (#[trigger] after[b]).metric_id@ by {
                        if b < n {
                            assert(before[a].metric_id@ != before[b].metric_id@);
                        } else {
                            assert(after[a] == before[a]);
                        }
                    }
                    assert(series_index(after, metric_id@) == Some(n)) by {
                        assert(after[n].metric_id@ == metric_id@);
                        let k = choose|k: int| 0 <= k < after.len() && (#[trigger] after[k]).metric_id@ == metric_id@;
                        if k != n {
                            assert(before[k].metric_id@ == metric_id@);
                        }
                    }
                    assert forall|id: Seq<char>| id != metric_id@ implies #[trigger] self.series(id) == old(self).series(id) by {
                        if series_index(before, id) is Some {
                            let k = choose|k: int| 0 <= k < before.len() && (#[trigger] before[k]).metric_id@ == id;
                            assert(after[k].metric_id@ == id);
                            assert(series_index(after, id) == series_index(before, id)) by {
                                let k1 = choose|k1: int| 0 <= k1 < after.len() && (#[trigger] after[k1]).metric_id@ == id;
                                let k0 = choose|k0: int| 0 <= k0 < before.len() && (#[trigger] before[k0]).metric_id@ == id;
                                assert(k1 != n);
                                if k1 != k0 {
                                    assert(before[k1].metric_id@ == before[k0].metric_id@);
                                }
                            }
                        } else {
                            if series_index(after, id) is Some {
                                let k = choose|k: int| 0 <= k < after.len() && (#[trigger] after[k]).metric_id@ == id;
                                assert(k != n);
                                assert(before[k].metric_id@ == id);
                            }
                        }
                    }
                }
            },
        }
    }

    /// The value of the latest point of metric `metric_id`, if any.
    pub fn get_latest_metric_value(&self, metric_id: &str) -> (v: Option<u64>)
        requires
            self.wf(),
        ensures
            v == (if self.series(metric_id@).len() > 0 {
                Some(self.series(metric_id@).last().value)
            } else {
                None
            }),
    {
        match self.find_series(metric_id) {
            Some(i) => {
                let n = self.metrics[i].points.len();
                if n > 0 {
                    Some(self.metrics[i].points[n - 1].value)
                } else {
                    None
                }
            },
            None => None,
        }
    }

    /// Records an alert: it is in force, it joins the history, and one more
    /// alert is counted.
    pub fn trigger_alert(&mut self, alert: PerformanceAlert)
        requires
            old(self).wf(),
            old(self).statistics.total_alerts_generated < u64::MAX,
        ensures
            final(self).wf(),
            final(self).alerts() == old(self).alerts().insert(alert.alert_id, alert),
            final(self).alert_history@ == old(self).alert_history@.push(alert),
            final(self).statistics == (MonitoringStatistics {
                total_alerts_generated: (old(self).statistics.total_alerts_generated + 1) as u64,
                ..old(self).statistics
            }),
            final(self).metrics@ == old(self).metrics@,
    {
        let copy = copy_alert(&alert);
        upsert(&mut self.active_alerts, copy);
        self.alert_history.push(alert);
        self.statistics.total_alerts_generated = self.statistics.total_alerts_generated + 1;
    }

    /// Resolves alert `alert_id`: it is no longer in force, and one more
    /// resolution is counted.
    pub fn resolve_alert(&mut self, alert_id: u128)
        requires
            old(self).wf(),
            old(self).statistics.alerts_resolved < u64::MAX,
        ensures
            final(self).wf(),
            final(self).alerts() == old(self).alerts().remove(alert_id),
            final(self).alert_history@ == old(self).alert_history@,
            final(self).statistics == (MonitoringStatistics {
                alerts_resolved: (old(self).statistics.alerts_resolved + 1) as u64,
                ..old(self).statistics
            }),
    {
        let _ = remove_key(&mut self.active_alerts, alert_id);
        self.statistics.alerts_resolved = self.statistics.alerts_resolved + 1;
    }

    /// Drops from the history the alerts resolved before `cutoff`; the rest
    /// keep their order.
    pub fn cleanup_old_alerts(&mut self, cutoff: u64)
        ensures
            final(self).alert_history@ == old(self).alert_history@.filter(|a: PerformanceAlert| keep_alert(a, cutoff)),
            final(self).active_alerts@ == old(self).active_alerts@,
            final(self).metrics@ == old(self).metrics@,
            final(self).statistics == old(self).statistics,
    {
        let ghost pred = |a: PerformanceAlert| keep_alert(a, cutoff);
        let mut old_history: Vec<PerformanceAlert> = Vec::new();
        std::mem::swap(&mut old_history, &mut self.alert_history);
        let ghost before = old_history@;
        let mut kept: Vec<PerformanceAlert> = Vec::new();
        let total = old_history.len();
        let mut rest = old_history;
        let mut i: usize = 0;
        while rest.len() > 0
            invariant
                total == before.len(),
                i + rest@.len() == before.len(),
                rest@ == before.skip(i as int),
                kept@ == before.take(i as int).filter(pred),
                pred == (|a: PerformanceAlert| keep_alert(a, cutoff)),
            decreases rest@.len(),
        {
            let a = rest.remove(0);
            proof {
                assert(a == before[i as int]);
                assert(before.take(i + 1) =~= before.take(i as int).push(a));
                crate::keyed::lemma_filter_push(before.take(i as int), pred, a);
                assert(rest@ =~= before.skip(i + 1));
            }
            let keep = match a.resolved_at {
                Some(t) => t >= cutoff,
                None => true,
            };
            if keep {
                kept.push(a);
            }
            i = i + 1;
        }
        assert(before.take(before.len() as int) =~= before);
        self.alert_history = kept;
    }

    /// Drops the oldest points of every series while they are older than
    /// `cutoff`.
    pub fn cleanup_old_metrics(&mut self, cutoff: u64)
        ensures
            final(self).metrics@.len() == old(self).metrics@.len(),
            forall|i: int|
                0 <= i < old(self).metrics@.len() ==> (#[trigger] final(self).metrics@[i]).metric_id == old(
                    self,
                ).metrics@[i].metric_id && final(self).metrics@[i].points@ == drop_older(
                    old(self).metrics@[i].points@,
                    cutoff,
                ),
            final(self).active_alerts@ == old(self).active_alerts@,
            final(self).alert_history@ == old(self).alert_history@,
            final(self).config == old(self).config,
            final(self).statistics == old(self).statistics,
    {
        let ghost before = self.metrics@;
        let ghost alerts = self.active_alerts@;
        let ghost history = self.alert_history@;
        let ghost config = self.config;
        let ghost stats = self.statistics;
        let mut i: usize = 0;
        while i < self.metrics.len()
            invariant
                i <= self.metrics@.len(),
                self.metrics@.len() == before.len(),
                self.active_alerts@ == alerts,
                self.alert_history@ == history,
                self.config == config,
                self.statistics == stats,
                forall|j: int|
                    0 <= j < i ==> (#[trigger] self.metrics@[j]).metric_id == before[j].metric_id
                        && self.metrics@[j].points@ == drop_older(before[j].points@, cutoff),
                forall|j: int| i <= j < before.len() ==> #[trigger] self.metrics@[j] == before[j],
            decreases before.len() - i,
        {
            let mut s = self.metrics.remove(i);
            let mut k: usize = 0;
            while k < s.points.len() && s.points[k].timestamp < cutoff
                invariant
                    k <= s.points@.len(),
                    forall|j: int| 0 <= j < k ==> (#[trigger] s.points@[j]).timestamp < cutoff,
                decreases s.points@.len() - k,
            {
                k = k + 1;
            }
            proof {
                lemma_drop_older(s.points@, cutoff, k as int);
            }
            let kept = s.points.split_off(k);
            s.points = kept;
            self.metrics.insert(i, s);
            i = i + 1;
        }
    }

    /// The first `limit` alerts of the history, or all of them.
    pub fn get_alert_history(&self, limit: Option<usize>) -> (h: Vec<PerformanceAlert>)
        ensures
            h@ == match limit {
                Some(n) => if n < self.alert_history@.len() {
                    self.alert_history@.take(n as int)
                } else {
                    self.alert_history@
                },
                None => self.alert_history@,
            },
    {
        let n = match limit {
            Some(n) => if n < self.alert_history.len() {
                n
            } else {
                self.alert_history.len()
            },
            None => self.alert_history.len(),
        };
        let mut h: Vec<PerformanceAlert> = Vec::new();
        let mut i: usize = 0;
        while i < n
            invariant
                i <= n,
                n <= self.alert_history@.len(),
                h@ == self.alert_history@.take(i as int),
            decreases n - i,
        {
            h.push(copy_alert(&self.alert_history[i]));
            i = i + 1;
            assert(h@ =~= self.alert_history@.take(i as int));
        }
        assert(self.alert_history@.take(self.alert_history@.len() as int) =~= self.alert_history@);
        h
    }

    /// Records a finished collection cycle that took `elapsed_ms`: one more
    /// collection, the average collection time becomes the mean of the old
    /// average and this one, and the uptime grows by the collection interval.
    pub fn record_collection_cycle(&mut self, elapsed_ms: u64)
        requires
            old(self).statistics.total_metrics_collected < u64::MAX,
            old(self).statistics.monitoring_uptime + old(self).config.collection_interval <= u64::MAX,
        ensures
            final(self).statistics == (MonitoringStatistics {
                total_metrics_collected: (old(self).statistics.total_metrics_collected + 1) as u64,
                average_collection_time: ((old(self).statistics.average_collection_time + elapsed_ms) / 2) as u64,
                monitoring_uptime: (old(self).statistics.monitoring_uptime + old(self).config.collection_interval) as u64,
                ..old(self).statistics
            }),
            final(self).metrics@ == old(self).metrics@,
            final(self).active_alerts@ == old(self).active_alerts@,
            final(self).alert_history@ == old(self).alert_history@,
            final(self).config == old(self).config,
    {
        self.statistics.total_metrics_collected = self.statistics.total_metrics_collected + 1;
        let sum: u128 = self.statistics.average_collection_time as u128 + elapsed_ms as u128;
        self.statistics.average_collection_time = (sum / 2) as u64;
        self.statistics.monitoring_uptime = self.statistics.monitoring_uptime + self.config.collection_interval;
    }
}

/// `points` without the leading points older than `cutoff`.
pub open spec fn drop_older(points: Seq<DataPoint>, cutoff: u64) -> Seq<DataPoint>
    decreases points.len(),
{
    if points.len() > 0 && points[0].timestamp < cutoff {
        drop_older(points.drop_first(), cutoff)
    } else {
        points
    }
}

proof fn lemma_drop_older(points: Seq<DataPoint>, cutoff: u64, k: int)
    requires
        0 <= k <= points.len(),
        forall|j: int| 0 <= j < k ==> (#[trigger] points[j]).timestamp < cutoff,
        k == points.len() || points[k].timestamp >= cutoff,
    ensures
        drop_older(points, cutoff) == points.skip(k),
    decreases k,
{
    if k > 0 {
        assert(points[0].timestamp < cutoff);
        let r = points.drop_first();
        assert forall|j: int| 0 <= j < k - 1 implies (#[trigger] r[j]).timestamp < cutoff by {
            assert(r[j] == points[j + 1]);
        }
        if k < points.len() {
            assert(r[k - 1] == points[k]);
        }
        lemma_drop_older(r, cutoff, k - 1);
        assert(r.skip(k - 1) =~= points.skip(k));
    } else {
        assert(points.skip(0) =~= points);
    }
}

proof fn lemma_series_index_update(ss: Seq<MetricSeries>, i: int, s: MetricSeries, id: Seq<char>)
    requires
        0 <= i < ss.len(),
        s.metric_id@ == ss[i].metric_id@,
        id != s.metric_id@,
        forall|a: int, b: int| 0 <= a < b < ss.len() ==> (#[trigger] ss[a]).metric_id@ != (#[trigger] ss[b]).metric_id@,
    ensures
        (match series_index(ss.update(i, s), id) {
            Some(k) => ss.update(i, s)[k].points@,
            None => Seq::<DataPoint>::empty(),
        }) == (match series_index(ss, id) {
            Some(k) => ss[k].points@,
            None => Seq::<DataPoint>::empty(),
        }),
{
    let after = ss.update(i, s);
    if series_index(ss, id) is Some {
        let k0 = choose|k0: int| 0 <= k0 < ss.len() && (#[trigger] ss[k0]).metric_id@ == id;
        assert(k0 != i);
        assert(after[k0].metric_id@ == id);
        let k1 = choose|k1: int| 0 <= k1 < after.len() && (#[trigger] after[k1]).metric_id@ == id;
        assert(k1 != i);
        if k1 != k0 {
            assert(ss[k1].metric_id@ == ss[k0].metric_id@);
        }
    } else {
        if series_index(after, id) is Some {
            let k1 = choose|k1: int| 0 <= k1 < after.len() && (#[trigger] after[k1]).metric_id@ == id;
            assert(k1 != i);
            assert(ss[k1].metric_id@ == id);
        }
    }
}

impl MonitoringConfig {
    /// The default configuration (see `default`).
    pub open spec fn default_spec() -> MonitoringConfig {
        MonitoringConfig {
            collection_interval: 5_000,
            retention_period: 3_600_000,
            enable_real_time_monitoring: true,
            enable_historical_analysis: true,
            max_data_points_per_metric: 1000,
            enable_cluster_aggregation: true,
        }
    }
}

impl MonitoringStatistics {
    /// All counters at zero.
    pub open spec fn zero() -> MonitoringStatistics {
        MonitoringStatistics {
            total_metrics_collected: 0,
            total_alerts_generated: 0,
            alerts_resolved: 0,
            average_collection_time: 0,
            monitoring_uptime: 0,
            alert_response_time: 0,
        }
    }
}

/// A series kept by `record_metric` never holds more points than the
/// configured maximum once it held no more than that, and the point just
/// recorded is the latest one whenever the maximum is not zero.
pub proof fn lemma_bounded_retention(s: Seq<DataPoint>, x: DataPoint, max: nat)
    requires
        s.len() <= max,
    ensures
        bounded_push(s, x, max).len() <= max,
        max > 0 ==> bounded_push(s, x, max).last() == x,
        max > 0 ==> bounded_push(s, x, max).len() == s.len() + 1 || bounded_push(s, x, max).len() == max,
{
}

} // verus!
