//! Task scheduling: priority queues that hand out ready tasks most urgent
//! first, and the load-balancing rules that pick a node for each task.
use vstd::prelude::*;
use crate::distributed::error::DistributedError;
use crate::text::{decimal_text, push_decimal, push_text, string_of};
use crate::ids::fresh_id;
use crate::distributed::mapreduce::{Job, JobHandle, JobResult};

verus! {

/// Task priorities, least urgent first.
#[derive(Clone, Copy, PartialEq, Eq, PartialOrd, Ord, Debug, Structural)]
pub enum TaskPriority {
    Low,
    Normal,
    High,
    Critical,
}

/// The urgency of a priority: 0 for `Low` up to 3 for `Critical`.
pub open spec fn priority_level(p: TaskPriority) -> nat {
    match p {
        TaskPriority::Low => 0,
        TaskPriority::Normal => 1,
        TaskPriority::High => 2,
        TaskPriority::Critical => 3,
    }
}

impl TaskPriority {
    /// The urgency of this priority.
    pub fn level(&self) -> (n: u8)
        ensures
            n == priority_level(*self),
    {
        match self {
            TaskPriority::Low => 0,
            TaskPriority::Normal => 1,
            TaskPriority::High => 2,
            TaskPriority::Critical => 3,
        }
    }
}

/// Resources a task needs.
pub struct ResourceRequirements {
    pub min_cpu_cores: usize,
    pub min_memory_gb: u64,
    pub network_bandwidth_mbps: u64,
    pub storage_gb: Option<u64>,
}

/// A task waiting to be scheduled. Durations are in milliseconds, times in
/// milliseconds since the Unix epoch.
pub struct ScheduledTask {
    pub id: u128,
    pub name: String,
    pub priority: TaskPriority,
    pub estimated_duration: u64,
    pub resource_requirements: ResourceRequirements,
    pub dependencies: Vec<u128>,
    pub submission_time: u64,
    pub timeout: Option<u64>,
}

/// Load-balancing strategies.
pub enum LoadBalancingStrategy {
    RoundRobin,
    LeastLoaded,
    ResourceAware,
    Random,
    Greedy,
    Adaptive,
}

/// Execution status of a scheduled task.
#[derive(PartialEq, Eq, Structural)]
pub enum TaskExecutionStatus {
    Queued,
    Assigned,
    Running,
    Completed,
    Failed,
    Cancelled,
    Timeout,
}

/// Scheduler configuration. Intervals and timeouts are in milliseconds; the
/// backpressure threshold is in thousandths.
pub struct SchedulerConfig {
    pub max_concurrent_tasks: usize,
    pub scheduling_interval: u64,
    pub load_balancing_strategy: LoadBalancingStrategy,
    pub priority_queues: bool,
    pub task_timeout_default: u64,
    pub health_check_interval: u64,
    pub backpressure_threshold_permille: u32,
}

impl SchedulerConfig {
    /// At most 1000 concurrent tasks, scheduled every 100 ms on the least
    /// loaded node, with priority queues, a five-minute task timeout, health
    /// checks every 30 s and backpressure at 80%.
    pub fn default() -> (c: Self)
        ensures
            c.max_concurrent_tasks == 1000,
            c.scheduling_interval == 100,
            c.load_balancing_strategy is LeastLoaded,
            c.priority_queues,
            c.task_timeout_default == 300_000,
            c.health_check_interval == 30_000,
            c.backpressure_threshold_permille == 800,
    {
        SchedulerConfig {
            max_concurrent_tasks: 1000,
            scheduling_interval: 100,
            load_balancing_strategy: LoadBalancingStrategy::LeastLoaded,
            priority_queues: true,
            task_timeout_default: 300_000,
            health_check_interval: 30_000,
            backpressure_threshold_permille: 800,
        }
    }
}

// ---------------------------------------------------------------------------
// Priority queues
// ---------------------------------------------------------------------------

/// The queued tasks, one first-in first-out queue per priority.
pub struct TaskQueues {
    critical: Vec<ScheduledTask>,
    high: Vec<ScheduledTask>,
    normal: Vec<ScheduledTask>,
    low: Vec<ScheduledTask>,
}

/// The smaller of two numbers.
pub open spec fn min_nat(a: nat, b: nat) -> nat {
    if a < b {
        a
    } else {
        b
    }
}

/// Takes the first `k` elements off `q`.
fn take_front<T>(q: &mut Vec<T>, k: usize) -> (taken: Vec<T>)
    requires
        k <= old(q)@.len(),
    ensures
        taken@ == old(q)@.take(k as int),
        final(q)@ == old(q)@.skip(k as int),
{
    let mut rest = q.split_off(k);
    std::mem::swap(q, &mut rest);
    rest
}

/// Appends the elements of `b` to `a`.
fn append_all<T>(a: &mut Vec<T>, b: Vec<T>)
    ensures
        final(a)@ == old(a)@ + b@,
{
    let mut b = b;
    a.append(&mut b);
}

/// Index of the first task with identifier `id`, if any.
pub open spec fn first_with_id(q: Seq<ScheduledTask>, id: u128) -> Option<int>
    decreases q.len(),
{
    if q.len() == 0 {
        None
    } else if q[0].id == id {
        Some(0)
    } else {
        match first_with_id(q.drop_first(), id) {
            Some(i) => Some(i + 1),
            None => None,
        }
    }
}

proof fn lemma_first_with_id(q: Seq<ScheduledTask>, id: u128)
    ensures
        match first_with_id(q, id) {
            Some(i) => 0 <= i < q.len() && q[i].id == id && forall|j: int| 0 <= j < i ==> #[trigger] q[j].id != id,
            None => forall|j: int| 0 <= j < q.len() ==> #[trigger] q[j].id != id,
        },
    decreases q.len(),
{
    if q.len() > 0 {
        lemma_first_with_id(q.drop_first(), id);
        if q[0].id != id {
            match first_with_id(q.drop_first(), id) {
                Some(i) => {
                    assert forall|j: int| 0 <= j < i + 1 implies #[trigger] q[j].id != id by {
                        if j > 0 {
                            assert(q[j] == q.drop_first()[j - 1]);
                        }
                    }
                },
                None => {
                    assert forall|j: int| 0 <= j < q.len() implies #[trigger] q[j].id != id by {
                        if j > 0 {
                            assert(q[j] == q.drop_first()[j - 1]);
                        }
                    }
                },
            }
        }
    }
}

/// `q` without its first task with identifier `id`.
pub open spec fn without_first(q: Seq<ScheduledTask>, id: u128) -> Seq<ScheduledTask> {
    match first_with_id(q, id) {
        Some(i) => q.remove(i),
        None => q,
    }
}

fn find_id(q: &Vec<ScheduledTask>, id: u128) -> (r: Option<usize>)
    ensures
        r matches Some(k) ==> k < q@.len() && first_with_id(q@, id) == Some(k as int),
        r is None <==> first_with_id(q@, id) is None,
{
    proof {
        lemma_first_with_id(q@, id);
    }
    let mut i: usize = 0;
    while i < q.len()
        invariant
            i <= q@.len(),
            forall|j: int| 0 <= j < i ==> #[trigger] q@[j].id != id,
        decreases q@.len() - i,
    {
        if q[i].id == id {
            proof {
                lemma_first_with_id(q@, id);
                match first_with_id(q@, id) {
                    Some(k) => {
                        if k < i {
                        } else if k > i {
                            assert(q@[i as int].id != id);
                        }
                    },
                    None => {
                        assert(q@[i as int].id != id);
                    },
                }
            }
            return Some(i);
        }
        i = i + 1;
    }
    None
}

/// Whether `t` is task `i` of job `job_name`, with identifier `id`, as
/// `submit_job` makes it at time `now`.
pub open spec fn job_task(t: ScheduledTask, job_name: Seq<char>, i: int, id: u128, now: u64) -> bool {
    &&& t.id == id
    &&& t.name@ == job_name + "_task_"@ + decimal_text(i as nat)
    &&& t.priority == TaskPriority::Normal
    &&& t.estimated_duration == 100
    &&& t.resource_requirements.min_cpu_cores == 1
    &&& t.resource_requirements.min_memory_gb == 1
    &&& t.resource_requirements.network_bandwidth_mbps == 10
    &&& t.resource_requirements.storage_gb is None
    &&& t.dependencies@.len() == 0
    &&& t.submission_time == now
    &&& t.timeout == Some(60_000u64)
}

impl TaskQueues {
    /// Empty queues.
    pub fn new() -> (q: Self)
        ensures
            forall|p: TaskPriority| #[trigger] q.queue(p).len() == 0,
    {
        TaskQueues { critical: Vec::new(), high: Vec::new(), normal: Vec::new(), low: Vec::new() }
    }

    /// The queue of priority `p`, oldest task first.
    pub closed spec fn queue(&self, p: TaskPriority) -> Seq<ScheduledTask> {
        match p {
            TaskPriority::Critical => self.critical@,
            TaskPriority::High => self.high@,
            TaskPriority::Normal => self.normal@,
            TaskPriority::Low => self.low@,
        }
    }

    /// The number of queued tasks.
    pub open spec fn total(&self) -> nat {
        self.queue(TaskPriority::Critical).len() + self.queue(TaskPriority::High).len()
            + self.queue(TaskPriority::Normal).len() + self.queue(TaskPriority::Low).len()
    }

    /// Queues `task` at the back of the queue of its priority.
    pub fn submit(&mut self, task: ScheduledTask)
        ensures
            final(self).queue(task.priority) == old(self).queue(task.priority).push(task),
            forall|p: TaskPriority| p != task.priority ==> #[trigger] final(self).queue(p) == old(self).queue(p),
    {
        match task.priority {
            TaskPriority::Critical => self.critical.push(task),
            TaskPriority::High => self.high.push(task),
            TaskPriority::Normal => self.normal.push(task),
            TaskPriority::Low => self.low.push(task),
        }
    }

    /// Queues one task for each task of `job`, in order, and returns a
    /// handle on the job that holds their identifiers: task `i` is named
    /// `<job name>_task_<i>`, has normal priority, an estimated 100 ms, one
    /// core, 1 GB of memory and 10 Mb/s, no dependencies, submission time
    /// `now` and a one-minute timeout.
    pub fn submit_job<M, R>(&mut self, job: &Job<M, R>, now: u64) -> (h: JobHandle)
        ensures
            h.job_id == job.id_view(),
            h.result is None,
            h.arrived@.len() == 1,
            h.arrived@[0] matches JobResult::Success(v) && v@.len() == 0,
            h.tasks@.len() == job.tasks_view().len(),
            final(self).queue(TaskPriority::Normal).len() == old(self).queue(TaskPriority::Normal).len()
                + job.tasks_view().len(),
            final(self).queue(TaskPriority::Normal).take(old(self).queue(TaskPriority::Normal).len() as int)
                == old(self).queue(TaskPriority::Normal),
            forall|i: int|
                0 <= i < h.tasks@.len() ==> #[trigger] job_task(
                    final(self).queue(TaskPriority::Normal)[old(self).queue(TaskPriority::Normal).len() + i],
                    job.job_name_view(),
                    i,
                    h.tasks@[i],
                    now,
                ),
            forall|p: TaskPriority| p != TaskPriority::Normal ==> #[trigger] final(self).queue(p) == old(self).queue(p),
    {
        let n = job.task_count();
        let name = job.job_name();
        let ghost q0 = self.queue(TaskPriority::Normal);
        assert(q0.take(q0.len() as int) =~= q0);
        let mut ids: Vec<u128> = Vec::new();
        let mut i: usize = 0;
        while i < n
            invariant
                i <= n,
                n == job.tasks_view().len(),
                name@ == job.job_name_view(),
                ids@.len() == i,
                self.queue(TaskPriority::Normal).len() == q0.len() + i,
                self.queue(TaskPriority::Normal).take(q0.len() as int) == q0,
                forall|k: int|
                    0 <= k < i ==> #[trigger] job_task(
                        self.queue(TaskPriority::Normal)[q0.len() + k],
                        job.job_name_view(),
                        k,
                        ids@[k],
                        now,
                    ),
                forall|p: TaskPriority| p != TaskPriority::Normal ==> #[trigger] self.queue(p) == old(self).queue(p),
            decreases n - i,
        {
            let mut task_name = string_of(name);
            push_text(&mut task_name, "_task_");
            push_decimal(&mut task_name, i as u64);
            let id = fresh_id();
            let task = ScheduledTask {
                id,
                name: task_name,
                priority: TaskPriority::Normal,
                estimated_duration: 100,
                resource_requirements: ResourceRequirements {
                    min_cpu_cores: 1,
                    min_memory_gb: 1,
                    network_bandwidth_mbps: 10,
                    storage_gb: None,
                },
                dependencies: Vec::new(),
                submission_time: now,
                timeout: Some(60_000),
            };
            let ghost before = self.queue(TaskPriority::Normal);
            self.submit(task);
            ids.push(id);
            proof {
                let q = self.queue(TaskPriority::Normal);
                assert(q.take(q0.len() as int) =~= q0) by {
                    assert(before.take(q0.len() as int) == q0);
                    assert(q == before.push(task));
                }
                assert forall|k: int| 0 <= k < i + 1 implies #[trigger] job_task(
                    q[q0.len() + k],
                    job.job_name_view(),
                    k,
                    ids@[k],
                    now,
                ) by {
                    if k < i {
                        assert(q[q0.len() + k] == before[q0.len() + k]);
                    }
                }
            }
            i = i + 1;
        }
        JobHandle::new(job.id(), ids)
    }

    /// The number of queued tasks.
    pub fn queued_count(&self) -> (n: usize)
        requires
            self.total() <= usize::MAX,
        ensures
            n == self.total(),
    {
        self.critical.len() + self.high.len() + self.normal.len() + self.low.len()
    }

    /// The most urgent priority whose queue holds a task `id`, if any.
    pub open spec fn cancel_target(&self, id: u128) -> Option<TaskPriority> {
        if first_with_id(self.queue(TaskPriority::Critical), id) is Some {
            Some(TaskPriority::Critical)
        } else if first_with_id(self.queue(TaskPriority::High), id) is Some {
            Some(TaskPriority::High)
        } else if first_with_id(self.queue(TaskPriority::Normal), id) is Some {
            Some(TaskPriority::Normal)
        } else if first_with_id(self.queue(TaskPriority::Low), id) is Some {
            Some(TaskPriority::Low)
        } else {
            None
        }
    }

    /// The queue of priority `p` once task `id` is cancelled.
    pub open spec fn after_cancel(&self, id: u128, p: TaskPriority) -> Seq<ScheduledTask> {
        if self.cancel_target(id) == Some(p) {
            without_first(self.queue(p), id)
        } else {
            self.queue(p)
        }
    }

    /// Cancels task `id`: removes the first task with that identifier from the
    /// most urgent queue holding one. Returns whether a task was removed.
    pub fn cancel(&mut self, id: u128) -> (removed: bool)
        ensures
            removed == old(self).cancel_target(id) is Some,
            final(self).queue(TaskPriority::Critical) == old(self).after_cancel(id, TaskPriority::Critical),
            final(self).queue(TaskPriority::High) == old(self).after_cancel(id, TaskPriority::High),
            final(self).queue(TaskPriority::Normal) == old(self).after_cancel(id, TaskPriority::Normal),
            final(self).queue(TaskPriority::Low) == old(self).after_cancel(id, TaskPriority::Low),
    {
        if let Some(i) = find_id(&self.critical, id) {
            self.critical.remove(i);
            return true;
        }
        if let Some(i) = find_id(&self.high, id) {
            self.high.remove(i);
            return true;
        }
        if let Some(i) = find_id(&self.normal, id) {
            self.normal.remove(i);
            return true;
        }
        if let Some(i) = find_id(&self.low, id) {
            self.low.remove(i);
            return true;
        }
        false
    }

    /// Takes up to `max` ready tasks: from the front of the critical queue
    /// first, then the high, normal and low ones, until `max` are taken or
    /// the queues are empty.
    pub fn take_ready(&mut self, max: usize) -> (tasks: Vec<ScheduledTask>)
        ensures
            ({
                let c = old(self).queue(TaskPriority::Critical);
                let h = old(self).queue(TaskPriority::High);
                let n = old(self).queue(TaskPriority::Normal);
                let l = old(self).queue(TaskPriority::Low);
                let kc = min_nat(max as nat, c.len());
                let kh = min_nat((max - kc) as nat, h.len());
                let kn = min_nat((max - kc - kh) as nat, n.len());
                let kl = min_nat((max - kc - kh - kn) as nat, l.len());
                &&& tasks@ == c.take(kc as int) + h.take(kh as int) + n.take(kn as int) + l.take(kl as int)
                &&& final(self).queue(TaskPriority::Critical) == c.skip(kc as int)
                &&& final(self).queue(TaskPriority::High) == h.skip(kh as int)
                &&& final(self).queue(TaskPriority::Normal) == n.skip(kn as int)
                &&& final(self).queue(TaskPriority::Low) == l.skip(kl as int)
            }),
    {
        let kc = if max < self.critical.len() {
            max
        } else {
            self.critical.len()
        };
        let mut tasks = take_front(&mut self.critical, kc);
        let left = max - kc;
        let kh = if left < self.high.len() {
            left
        } else {
            self.high.len()
        };
        let t = take_front(&mut self.high, kh);
        append_all(&mut tasks, t);
        let left = left - kh;
        let kn = if left < self.normal.len() {
            left
        } else {
            self.normal.len()
        };
        let t = take_front(&mut self.normal, kn);
        append_all(&mut tasks, t);
        let left = left - kn;
        let kl = if left < self.low.len() {
            left
        } else {
            self.low.len()
        };
        let t = take_front(&mut self.low, kl);
        append_all(&mut tasks, t);
        tasks
    }
}

/// Handing out ready tasks never hands out more than asked for or more than
/// were queued, and loses or invents none: what is taken plus what stays
/// queued is what was queued.
pub proof fn lemma_take_ready_conserves(max: nat, c: nat, h: nat, n: nat, l: nat)
    ensures
        ({
            let kc = min_nat(max, c);
            let kh = min_nat((max - kc) as nat, h);
            let kn = min_nat((max - kc - kh) as nat, n);
            let kl = min_nat((max - kc - kh - kn) as nat, l);
            &&& kc + kh + kn + kl == min_nat(max, c + h + n + l)
            &&& kc <= c && kh <= h && kn <= n && kl <= l
        }),
{
}

// ---------------------------------------------------------------------------
// Load balancing
// ---------------------------------------------------------------------------

/// The position of the first smallest score.
pub open spec fn first_min_index(scores: Seq<u64>) -> int
    decreases scores.len(),
{
    if scores.len() <= 1 {
        0
    } else {
        let i = first_min_index(scores.drop_last());
        if scores.last() < scores[i] {
            (scores.len() - 1) as int
        } else {
            i
        }
    }
}

proof fn lemma_first_min_index(scores: Seq<u64>)
    requires
        scores.len() > 0,
    ensures
        0 <= first_min_index(scores) < scores.len(),
        forall|j: int| 0 <= j < scores.len() ==> scores[first_min_index(scores)] <= #[trigger] scores[j],
        forall|j: int| 0 <= j < first_min_index(scores) ==> scores[first_min_index(scores)] < #[trigger] scores[j],
    decreases scores.len(),
{
    if scores.len() > 1 {
        let s = scores.drop_last();
        lemma_first_min_index(s);
        let m = first_min_index(scores);
        assert(s[first_min_index(s)] == scores[first_min_index(s)]);
        assert forall|j: int| 0 <= j < scores.len() implies scores[m] <= #[trigger] scores[j] by {
            if j < s.len() {
                assert(s[j] == scores[j]);
            }
        }
        assert forall|j: int| 0 <= j < m implies scores[m] < #[trigger] scores[j] by {
            if j < s.len() {
                assert(s[j] == scores[j]);
            }
        }
    }
}

/// The node whose score is smallest, the first of them on a tie.
/// Scores are given per node, in the order of `nodes`.
pub fn select_lowest_score(nodes: &Vec<u128>, scores: &Vec<u64>) -> (r: Result<u128, DistributedError>)
    requires
        scores@.len() == nodes@.len(),
    ensures
        nodes@.len() == 0 ==> (r matches Err(DistributedError::ResourceUnavailable(m)) && m@ == "No available nodes"@),
        nodes@.len() > 0 ==> r == Ok::<u128, DistributedError>(nodes@[first_min_index(scores@)]),
{
    if nodes.len() == 0 {
        return Err(DistributedError::ResourceUnavailable(string_of("No available nodes")));
    }
    let mut best: usize = 0;
    let mut i: usize = 1;
    while i < nodes.len()
        invariant
            scores@.len() == nodes@.len(),
            1 <= i <= nodes@.len(),
            best == first_min_index(scores@.take(i as int)),
        decreases nodes@.len() - i,
    {
        proof {
            assert(scores@.take(i + 1).drop_last() =~= scores@.take(i as int));
            lemma_first_min_index(scores@.take(i as int));
        }
        if scores[i] < scores[best] {
            best = i;
        }
        i = i + 1;
    }
    assert(scores@.take(nodes@.len() as int) =~= scores@);
    proof {
        lemma_first_min_index(scores@);
    }
    Ok(nodes[best])
}

/// A uniformly random index below `n`, from `rand::Rng::gen_range` on the
/// thread-local generator. Claimed: the index is below `n` (the range is
/// not empty, so `gen_range` does not panic).
#[verifier::external_body]
fn random_index(n: usize) -> (i: usize)
    requires
        n > 0,
    ensures
        i < n,
{
    rand::Rng::gen_range(&mut rand::thread_rng(), 0..n)
}

/// A rule that picks a node for a task among the available nodes.
/// `node_scores[i]` is the load score of `available_nodes[i]`, lower is better.
pub trait LoadBalancer {
    fn select_node(&self, task: &ScheduledTask, node_scores: &Vec<u64>, available_nodes: &Vec<u128>) -> Result<u128, DistributedError>
        requires
            node_scores@.len() == available_nodes@.len(),
    ;

    /// The strategy's name.
    fn name(&self) -> String;
}

/// Round-robin assignment from a fixed position.
pub struct RoundRobinBalancer {
    pub index: usize,
}

impl RoundRobinBalancer {
    /// Starts at the first node.
    pub fn new() -> (b: Self)
        ensures
            b.index == 0,
    {
        RoundRobinBalancer { index: 0 }
    }
}

impl LoadBalancer for RoundRobinBalancer {
    fn select_node(&self, task: &ScheduledTask, node_scores: &Vec<u64>, available_nodes: &Vec<u128>) -> (r: Result<u128, DistributedError>)
        ensures
            available_nodes@.len() == 0 ==> r is Err,
            available_nodes@.len() > 0 ==> r == Ok::<u128, DistributedError>(
                available_nodes@[(self.index as int) % (available_nodes@.len() as int)],
            ),
    {
        if available_nodes.len() == 0 {
            return Err(DistributedError::ResourceUnavailable(string_of("No available nodes")));
        }
        Ok(available_nodes[self.index % available_nodes.len()])
    }

    fn name(&self) -> (s: String)
        ensures
            s@ == "Round Robin"@,
    {
        string_of("Round Robin")
    }
}

/// Assignment to the least loaded node.
pub struct LeastLoadedBalancer;

impl LeastLoadedBalancer {
    pub fn new() -> (b: Self) {
        LeastLoadedBalancer
    }
}

impl LoadBalancer for LeastLoadedBalancer {
    fn select_node(&self, task: &ScheduledTask, node_scores: &Vec<u64>, available_nodes: &Vec<u128>) -> (r: Result<u128, DistributedError>)
        ensures
            available_nodes@.len() == 0 ==> r is Err,
            available_nodes@.len() > 0 ==> r == Ok::<u128, DistributedError>(
                available_nodes@[first_min_index(node_scores@)],
            ),
    {
        select_lowest_score(available_nodes, node_scores)
    }

    fn name(&self) -> (s: String)
        ensures
            s@ == "Least Loaded"@,
    {
        string_of("Least Loaded")
    }
}

/// Resource-aware assignment (simplified to the first available node).
pub struct ResourceAwareBalancer;

impl ResourceAwareBalancer {
    pub fn new() -> (b: Self) {
        ResourceAwareBalancer
    }
}

impl LoadBalancer for ResourceAwareBalancer {
    fn select_node(&self, task: &ScheduledTask, node_scores: &Vec<u64>, available_nodes: &Vec<u128>) -> (r: Result<u128, DistributedError>)
        ensures
            available_nodes@.len() == 0 ==> r is Err,
            available_nodes@.len() > 0 ==> r == Ok::<u128, DistributedError>(available_nodes@[0]),
    {
        if available_nodes.len() == 0 {
            return Err(DistributedError::ResourceUnavailable(string_of("No available nodes")));
        }
        Ok(available_nodes[0])
    }

    fn name(&self) -> (s: String)
        ensures
            s@ == "Resource Aware"@,
    {
        string_of("Resource Aware")
    }
}

/// Random assignment.
pub struct RandomBalancer;

impl RandomBalancer {
    pub fn new() -> (b: Self) {
        RandomBalancer
    }
}

impl LoadBalancer for RandomBalancer {
    fn select_node(&self, task: &ScheduledTask, node_scores: &Vec<u64>, available_nodes: &Vec<u128>) -> (r: Result<u128, DistributedError>)
        ensures
            available_nodes@.len() == 0 ==> r is Err,
            available_nodes@.len() > 0 ==> (r matches Ok(n) && available_nodes@.contains(n)),
    {
        if available_nodes.len() == 0 {
            return Err(DistributedError::ResourceUnavailable(string_of("No available nodes")));
        }
        let i = random_index(available_nodes.len());
        assert(available_nodes@[i as int] == available_nodes[i as int]);
        Ok(available_nodes[i])
    }

    fn name(&self) -> (s: String)
        ensures
            s@ == "Random"@,
    {
        string_of("Random")
    }
}

/// Assignment to the node where the task would finish soonest.
pub struct GreedyBalancer;

impl GreedyBalancer {
    pub fn new() -> (b: Self) {
        GreedyBalancer
    }
}

impl LoadBalancer for GreedyBalancer {
    fn select_node(&self, task: &ScheduledTask, node_scores: &Vec<u64>, available_nodes: &Vec<u128>) -> (r: Result<u128, DistributedError>)
        ensures
            available_nodes@.len() == 0 ==> r is Err,
            available_nodes@.len() > 0 ==> r == Ok::<u128, DistributedError>(
                available_nodes@[first_min_index(node_scores@)],
            ),
    {
        select_lowest_score(available_nodes, node_scores)
    }

    fn name(&self) -> (s: String)
        ensures
            s@ == "Greedy"@,
    {
        string_of("Greedy")
    }
}

/// Assignment adapted to the task's size.
pub struct AdaptiveBalancer;

impl AdaptiveBalancer {
    pub fn new() -> (b: Self) {
        AdaptiveBalancer
    }
}

impl LoadBalancer for AdaptiveBalancer {
    fn select_node(&self, task: &ScheduledTask, node_scores: &Vec<u64>, available_nodes: &Vec<u128>) -> (r: Result<u128, DistributedError>)
        ensures
            available_nodes@.len() == 0 ==> r is Err,
            available_nodes@.len() > 0 ==> r == Ok::<u128, DistributedError>(
                available_nodes@[first_min_index(node_scores@)],
            ),
    {
        select_lowest_score(available_nodes, node_scores)
    }

    fn name(&self) -> (s: String)
        ensures
            s@ == "Adaptive"@,
    {
        string_of("Adaptive")
    }
}

/// How many of the task assignments went to each node, in the order in
/// which nodes first received a task.
pub open spec fn assignment_count(assignments: Seq<(u128, u128)>, node: u128) -> nat
    decreases assignments.len(),
{
    if assignments.len() == 0 {
        0
    } else {
        assignment_count(assignments.drop_last(), node) + if assignments.last().1 == node {
            1nat
        } else {
            0nat
        }
    }
}

/// The number of tasks assigned to each node that has any.
pub fn load_distribution(assignments: &Vec<(u128, u128)>) -> (dist: Vec<(u128, usize)>)
    ensures
        forall|i: int| 0 <= i < dist@.len() ==> (#[trigger] dist@[i]).1 == assignment_count(assignments@, dist@[i].0),
        forall|i: int, j: int| 0 <= i < j < dist@.len() ==> (#[trigger] dist@[i]).0 != (#[trigger] dist@[j]).0,
        forall|k: int| 0 <= k < assignments@.len() ==> exists|i: int| 0 <= i < dist@.len() && #[trigger] dist@[i].0 == (#[trigger] assignments@[k]).1,
{
    let mut dist: Vec<(u128, usize)> = Vec::new();
    let mut k: usize = 0;
    while k < assignments.len()
        invariant
            k <= assignments@.len(),
            dist@.len() <= k,
            forall|i: int| 0 <= i < dist@.len() ==> (#[trigger] dist@[i]).1 == assignment_count(assignments@.take(k as int), dist@[i].0),
            forall|i: int, j: int| 0 <= i < j < dist@.len() ==> (#[trigger] dist@[i]).0 != (#[trigger] dist@[j]).0,
            forall|m: int| 0 <= m < k ==> exists|i: int| 0 <= i < dist@.len() && #[trigger] dist@[i].0 == (#[trigger] assignments@[m]).1,
            forall|node: u128| (forall|i: int| 0 <= i < dist@.len() ==> #[trigger] dist@[i].0 != node) ==> assignment_count(assignments@.take(k as int), node) == 0,
        decreases assignments@.len() - k,
    {
        let node = assignments[k].1;
        let ghost pre = assignments@.take(k as int);
        let ghost post = assignments@.take(k + 1);
        assert(post.drop_last() =~= pre);
        let mut j: usize = 0;
        let mut found = false;
        while j < dist.len()
            invariant_except_break
                !found,
            invariant
                j <= dist@.len(),
                forall|i: int| 0 <= i < j ==> (#[trigger] dist@[i]).0 != node,
            ensures
                found ==> j < dist@.len() && dist@[j as int].0 == node,
                !found ==> j == dist@.len(),
                forall|i: int| 0 <= i < j ==> (#[trigger] dist@[i]).0 != node,
            decreases dist@.len() - j,
        {
            if dist[j].0 == node {
                found = true;
                break;
            }
            j = j + 1;
        }
        let ghost old_dist = dist@;
        if found {
            let c = dist[j].1;
            proof {
                assert(assignment_count(post, node) == assignment_count(pre, node) + 1);
                assert(c as nat == assignment_count(pre, node));
                assert(c as nat <= pre.len()) by {
                    lemma_count_bound(pre, node);
                }
            }
            dist.set(j, (node, c + 1));
        } else {
            dist.push((node, 1));
        }
        proof {
            assert(post.last() == assignments@[k as int]);
            assert forall|x: u128| #[trigger] assignment_count(post, x) == assignment_count(pre, x) + (if x == node {
                1nat
            } else {
                0nat
            }) by {
                assert(post.drop_last() == pre);
            }
            if !found {
                assert forall|i: int| 0 <= i < old_dist.len() implies #[trigger] old_dist[i].0 != node by {}
                assert(assignment_count(pre, node) == 0);
            }
            assert forall|i: int| 0 <= i < dist@.len() implies (#[trigger] dist@[i]).1 == assignment_count(post, dist@[i].0) by {
                if i < old_dist.len() && dist@[i].0 != node {
                    assert(dist@[i] == old_dist[i]);
                    assert(assignment_count(post, dist@[i].0) == assignment_count(pre, dist@[i].0));
                } else if i < old_dist.len() {
                    if found {
                        if i != j {
                            assert(dist@[i] == old_dist[i]);
                            assert(old_dist[i].0 != old_dist[j as int].0);
                        }
                    } else {
                        assert(dist@[i] == old_dist[i]);
                    }
                }
            }
            assert forall|m: int| 0 <= m < k + 1 implies exists|i: int| 0 <= i < dist@.len() && #[trigger] dist@[i].0 == (#[trigger] assignments@[m]).1 by {
                if m < k {
                    let i = choose|i: int| 0 <= i < old_dist.len() && #[trigger] old_dist[i].0 == assignments@[m].1;
                    assert(dist@[i].0 == old_dist[i].0);
                } else {
                    assert(dist@[j as int].0 == node);
                }
            }
            assert forall|nd: u128| (forall|i: int| 0 <= i < dist@.len() ==> #[trigger] dist@[i].0 != nd) implies assignment_count(post, nd) == 0 by {
                assert(dist@[j as int].0 == node);
                assert forall|i: int| 0 <= i < old_dist.len() implies #[trigger] old_dist[i].0 != nd by {
                    assert(dist@[i].0 == old_dist[i].0);
                }
                assert(nd != node);
                assert(assignment_count(pre, nd) == 0);
                assert(post.last().1 == node);
            }
        }
        k = k + 1;
    }
    assert(assignments@.take(assignments@.len() as int) =~= assignments@);
    dist
}

proof fn lemma_count_bound(a: Seq<(u128, u128)>, node: u128)
    ensures
        assignment_count(a, node) <= a.len(),
    decreases a.len(),
{
    if a.len() > 0 {
        lemma_count_bound(a.drop_last(), node);
    }
}

} // verus!
