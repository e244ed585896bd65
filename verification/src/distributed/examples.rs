//! The teaching examples: what each one is about, how hard it is, how long
//! it takes, what it asks of the learner, the jobs it runs, the catalogue
//! that lists them, and the recommended order of study. Durations are in
//! milliseconds.
use vstd::prelude::*;
use crate::distributed::mapreduce::{
    IdentityMapFunction, IdentityReduceFunction, Job, JobConfig, MapFunction, ReduceFunction, pairs_view,
    WordCountMapFunction, WordCountReduceFunction,
};
use vstd::utf8::encode_utf8;
use crate::encoding::{utf8_bytes, utf8_lossy, utf8_lossy_text};
use crate::text::{decimal_text, push_decimal, push_text, string_of};
use crate::distributed::{DistributedFramework, job_queued, lemma_taskless_job_changes_nothing};
use crate::distributed::error::DistributedError;
use crate::distributed::mapreduce::JobResult;
use crate::distributed::mpi::{create_mpi_environment, mpi_error_text};
use crate::distributed::scheduler::TaskPriority;
use crate::ids::{fresh_id, now_millis};
use crate::bytes::{le_bytes, lemma_small_le_round_trip, push_le, u64_from_le};
use crate::distributed::shared_memory::{
    ConsistencyModel, DistributedMemory, GlobalAddress, MemoryError, lemma_read_after_write, memory_error_text,
};

verus! {

/// Kinds of examples.
#[derive(Clone, Copy, PartialEq, Eq, Debug, Structural)]
pub enum ExampleCategory {
    Basics,
    MapReduce,
    MPI,
    SharedMemory,
    FaultTolerance,
    Performance,
    Advanced,
    Applications,
}

/// Difficulty levels, easiest first.
#[derive(Clone, Copy, PartialEq, Eq, PartialOrd, Ord, Debug, Structural)]
pub enum DifficultyLevel {
    Beginner,
    Intermediate,
    Advanced,
    Expert,
}

/// Counts gathered while an example runs; durations in milliseconds.
#[derive(Clone, Copy, PartialEq, Eq, Debug, Structural)]
pub struct ExampleMetrics {
    pub total_tasks: usize,
    pub successful_tasks: usize,
    pub failed_tasks: usize,
    pub average_task_duration: u64,
    pub memory_usage_mb: u64,
    pub network_traffic_mb: u64,
    pub fault_count: u64,
    pub recovery_count: u64,
}

/// The outcome of running an example.
pub struct ExampleResult {
    pub example_name: String,
    pub success: bool,
    pub output: Vec<u8>,
    pub metrics: ExampleMetrics,
    pub learning_outcomes: Vec<String>,
    pub execution_time: u64,
    pub nodes_used: Vec<u128>,
}

/// What every example tells about itself.
pub trait EducationalExample {
    /// The example's name.
    fn name(&self) -> &'static str;

    /// What the example teaches.
    fn description(&self) -> &'static str;

    /// The kind of example.
    fn category(&self) -> ExampleCategory;

    /// How hard it is.
    fn difficulty(&self) -> DifficultyLevel;

    /// How long it takes, in milliseconds.
    fn estimated_duration(&self) -> u64;

    /// What the learner should know first.
    fn prerequisites(&self) -> Vec<String>;
}

/// One string per text.
fn strings_of(a: &str, b: Option<&str>, c: Option<&str>) -> (v: Vec<String>)
    ensures
        v@.len() == 1 + (if b is Some { 1int } else { 0 }) + (if c is Some { 1int } else { 0 }),
        v@[0]@ == a@,
        b matches Some(t) ==> v@[1]@ == t@,
        c matches Some(t) ==> v@[v@.len() - 1]@ == t@,
{
    let mut v: Vec<String> = Vec::new();
    v.push(string_of(a));
    if let Some(t) = b {
        v.push(string_of(t));
    }
    if let Some(t) = c {
        v.push(string_of(t));
    }
    v
}

/// Distributing simple arithmetic over nodes.
pub struct BasicParallelExample;

impl EducationalExample for BasicParallelExample {
    fn name(&self) -> (s: &'static str)
        ensures
            s@ == "Basic Parallel Computation"@,
    {
        "Basic Parallel Computation"
    }

    fn description(&self) -> (s: &'static str)
        ensures
            s@ == "Learn basic parallel computation concepts by distributing simple mathematical operations across multiple nodes."@,
    {
        "Learn basic parallel computation concepts by distributing simple mathematical operations across multiple nodes."
    }

    fn category(&self) -> (c: ExampleCategory)
        ensures
            c == ExampleCategory::Basics,
    {
        ExampleCategory::Basics
    }

    fn difficulty(&self) -> (d: DifficultyLevel)
        ensures
            d == DifficultyLevel::Beginner,
    {
        DifficultyLevel::Beginner
    }

    fn estimated_duration(&self) -> (ms: u64)
        ensures
            ms == 30_000,
    {
        30_000
    }

    fn prerequisites(&self) -> (p: Vec<String>)
        ensures
            p@.len() == 1,
            p@[0]@ == "Basic understanding of parallel computing"@,
    {
        strings_of("Basic understanding of parallel computing", None, None)
    }
}

impl BasicParallelExample {
    /// The example's job: `basic_parallel`, with identity functions.
    pub fn generate_job(&self, config: &str) -> (j: Job<IdentityMapFunction, IdentityReduceFunction>)
        ensures
            j.tasks_view().len() == 0,
            j.job_name_view() == "basic_parallel"@,
            j.input_view().len() == 0,
    {
        Job::new("basic_parallel").map_function(IdentityMapFunction).reduce_function(IdentityReduceFunction)
    }
}

/// Counting words with MapReduce.
pub struct WordCountExample;

impl EducationalExample for WordCountExample {
    fn name(&self) -> (s: &'static str)
        ensures
            s@ == "Word Count with MapReduce"@,
    {
        "Word Count with MapReduce"
    }

    fn description(&self) -> (s: &'static str)
        ensures
            s@ == "Implement a classic word counting application using MapReduce pattern to count word frequencies in distributed text data."@,
    {
        "Implement a classic word counting application using MapReduce pattern to count word frequencies in distributed text data."
    }

    fn category(&self) -> (c: ExampleCategory)
        ensures
            c == ExampleCategory::MapReduce,
    {
        ExampleCategory::MapReduce
    }

    fn difficulty(&self) -> (d: DifficultyLevel)
        ensures
            d == DifficultyLevel::Beginner,
    {
        DifficultyLevel::Beginner
    }

    fn estimated_duration(&self) -> (ms: u64)
        ensures
            ms == 60_000,
    {
        60_000
    }

    fn prerequisites(&self) -> (p: Vec<String>)
        ensures
            p@.len() == 2,
            p@[0]@ == "Understanding of MapReduce concepts"@,
            p@[1]@ == "Basic data processing knowledge"@,
    {
        strings_of("Understanding of MapReduce concepts", Some("Basic data processing knowledge"), None)
    }
}

/// The sample text of the word count example.
pub open spec fn word_count_sample() -> Seq<char> {
    "The quick brown fox jumps over the lazy dog. The quick brown fox jumps over the lazy dog. A quick brown fox quickly jumps over a lazy dog."@
}

impl WordCountExample {
    /// The example's job: `word_count` over the sample text.
    pub fn generate_job(&self, config: &str) -> (j: Job<WordCountMapFunction, WordCountReduceFunction>)
        ensures
            j.tasks_view().len() == 0,
            j.job_name_view() == "word_count"@,
            j.input_view() == encode_utf8(word_count_sample()),
    {
        let text = "The quick brown fox jumps over the lazy dog. The quick brown fox jumps over the lazy dog. A quick brown fox quickly jumps over a lazy dog.";
        Job::new("word_count").map_function(WordCountMapFunction).reduce_function(WordCountReduceFunction).input_data(
            utf8_bytes(text),
        )
    }
}

/// Point-to-point and collective MPI communication.
pub struct MPICommunicationExample;

impl EducationalExample for MPICommunicationExample {
    fn name(&self) -> (s: &'static str)
        ensures
            s@ == "MPI Communication Patterns"@,
    {
        "MPI Communication Patterns"
    }

    fn description(&self) -> (s: &'static str)
        ensures
            s@ == "Learn MPI communication concepts including point-to-point communication, collective operations, and synchronization."@,
    {
        "Learn MPI communication concepts including point-to-point communication, collective operations, and synchronization."
    }

    fn category(&self) -> (c: ExampleCategory)
        ensures
            c == ExampleCategory::MPI,
    {
        ExampleCategory::MPI
    }

    fn difficulty(&self) -> (d: DifficultyLevel)
        ensures
            d == DifficultyLevel::Intermediate,
    {
        DifficultyLevel::Intermediate
    }

    fn estimated_duration(&self) -> (ms: u64)
        ensures
            ms == 90_000,
    {
        90_000
    }

    fn prerequisites(&self) -> (p: Vec<String>)
        ensures
            p@.len() == 2,
            p@[0]@ == "Basic parallel programming knowledge"@,
            p@[1]@ == "Understanding of message passing concepts"@,
    {
        strings_of("Basic parallel programming knowledge", Some("Understanding of message passing concepts"), None)
    }
}

impl MPICommunicationExample {
    /// The example's job: an empty `mpi_communication` job.
    pub fn generate_job(&self, config: &str) -> (j: Job<IdentityMapFunction, IdentityReduceFunction>)
        ensures
            j.tasks_view().len() == 0,
            j.job_name_view() == "mpi_communication"@,
            j.input_view().len() == 0,
    {
        Job::new("mpi_communication")
    }
}

/// Consistency models and atomic operations on shared memory.
pub struct SharedMemoryExample;

impl EducationalExample for SharedMemoryExample {
    fn name(&self) -> (s: &'static str)
        ensures
            s@ == "Distributed Shared Memory"@,
    {
        "Distributed Shared Memory"
    }

    fn description(&self) -> (s: &'static str)
        ensures
            s@ == "Explore distributed shared memory concepts including consistency models, synchronization, and memory operations."@,
    {
        "Explore distributed shared memory concepts including consistency models, synchronization, and memory operations."
    }

    fn category(&self) -> (c: ExampleCategory)
        ensures
            c == ExampleCategory::SharedMemory,
    {
        ExampleCategory::SharedMemory
    }

    fn difficulty(&self) -> (d: DifficultyLevel)
        ensures
            d == DifficultyLevel::Intermediate,
    {
        DifficultyLevel::Intermediate
    }

    fn estimated_duration(&self) -> (ms: u64)
        ensures
            ms == 75_000,
    {
        75_000
    }

    fn prerequisites(&self) -> (p: Vec<String>)
        ensures
            p@.len() == 2,
            p@[0]@ == "Understanding of shared memory concepts"@,
            p@[1]@ == "Basic knowledge of consistency models"@,
    {
        strings_of("Understanding of shared memory concepts", Some("Basic knowledge of consistency models"), None)
    }
}

impl SharedMemoryExample {
    /// The example's job: an empty `shared_memory` job.
    pub fn generate_job(&self, config: &str) -> (j: Job<IdentityMapFunction, IdentityReduceFunction>)
        ensures
            j.tasks_view().len() == 0,
            j.job_name_view() == "shared_memory"@,
            j.input_view().len() == 0,
    {
        Job::new("shared_memory")
    }
}

/// Matrix multiplication over partitioned data.
pub struct MatrixMultiplicationExample;

impl EducationalExample for MatrixMultiplicationExample {
    fn name(&self) -> (s: &'static str)
        ensures
            s@ == "Distributed Matrix Multiplication"@,
    {
        "Distributed Matrix Multiplication"
    }

    fn description(&self) -> (s: &'static str)
        ensures
            s@ == "Implement matrix multiplication using distributed computing techniques, demonstrating data partitioning and parallel computation."@,
    {
        "Implement matrix multiplication using distributed computing techniques, demonstrating data partitioning and parallel computation."
    }

    fn category(&self) -> (c: ExampleCategory)
        ensures
            c == ExampleCategory::Advanced,
    {
        ExampleCategory::Advanced
    }

    fn difficulty(&self) -> (d: DifficultyLevel)
        ensures
            d == DifficultyLevel::Advanced,
    {
        DifficultyLevel::Advanced
    }

    fn estimated_duration(&self) -> (ms: u64)
        ensures
            ms == 120_000,
    {
        120_000
    }

    fn prerequisites(&self) -> (p: Vec<String>)
        ensures
            p@.len() == 3,
            p@[0]@ == "Matrix algebra knowledge"@,
            p@[1]@ == "Parallel algorithm understanding"@,
            p@[2]@ == "MapReduce familiarity"@,
    {
        strings_of("Matrix algebra knowledge", Some("Parallel algorithm understanding"), Some("MapReduce familiarity"))
    }
}

impl MatrixMultiplicationExample {
    /// The example's job: `matrix_multiply` with the matrix functions.
    pub fn generate_job(&self, config: &str) -> (j: Job<MatrixMapFunction, MatrixReduceFunction>)
        ensures
            j.tasks_view().len() == 0,
            j.job_name_view() == "matrix_multiply"@,
            j.input_view().len() == 0,
    {
        Job::new("matrix_multiply").map_function(MatrixMapFunction).reduce_function(MatrixReduceFunction)
    }
}

/// Failure detection, reassignment and recovery.
pub struct FaultToleranceExample;

impl EducationalExample for FaultToleranceExample {
    fn name(&self) -> (s: &'static str)
        ensures
            s@ == "Fault Tolerance and Recovery"@,
    {
        "Fault Tolerance and Recovery"
    }

    fn description(&self) -> (s: &'static str)
        ensures
            s@ == "Demonstrate fault tolerance mechanisms including node failure detection, task reassignment, and automatic recovery."@,
    {
        "Demonstrate fault tolerance mechanisms including node failure detection, task reassignment, and automatic recovery."
    }

    fn category(&self) -> (c: ExampleCategory)
        ensures
            c == ExampleCategory::FaultTolerance,
    {
        ExampleCategory::FaultTolerance
    }

    fn difficulty(&self) -> (d: DifficultyLevel)
        ensures
            d == DifficultyLevel::Advanced,
    {
        DifficultyLevel::Advanced
    }

    fn estimated_duration(&self) -> (ms: u64)
        ensures
            ms == 180_000,
    {
        180_000
    }

    fn prerequisites(&self) -> (p: Vec<String>)
        ensures
            p@.len() == 2,
            p@[0]@ == "Understanding of distributed systems"@,
            p@[1]@ == "Basic fault tolerance concepts"@,
    {
        strings_of("Understanding of distributed systems", Some("Basic fault tolerance concepts"), None)
    }
}

impl FaultToleranceExample {
    /// The example's job: `fault_tolerance` with the fault-tolerant
    /// functions and three retries.
    pub fn generate_job(&self, config: &str) -> (j: Job<FaultTolerantMapFunction, FaultTolerantReduceFunction>)
        ensures
            j.tasks_view().len() == 0,
            j.job_name_view() == "fault_tolerance"@,
            j.input_view().len() == 0,
            j.config_view().retry_attempts == 3,
    {
        let mut c = JobConfig::default();
        c.retry_attempts = 3;
        Job::new("fault_tolerance").map_function(FaultTolerantMapFunction).reduce_function(
            FaultTolerantReduceFunction,
        ).configuration(c)
    }
}

/// Monitoring and analysing the cluster.
pub struct PerformanceMonitoringExample;

impl EducationalExample for PerformanceMonitoringExample {
    fn name(&self) -> (s: &'static str)
        ensures
            s@ == "Performance Monitoring and Analysis"@,
    {
        "Performance Monitoring and Analysis"
    }

    fn description(&self) -> (s: &'static str)
        ensures
            s@ == "Learn to monitor and analyze distributed system performance using built-in monitoring capabilities."@,
    {
        "Learn to monitor and analyze distributed system performance using built-in monitoring capabilities."
    }

    fn category(&self) -> (c: ExampleCategory)
        ensures
            c == ExampleCategory::Performance,
    {
        ExampleCategory::Performance
    }

    fn difficulty(&self) -> (d: DifficultyLevel)
        ensures
            d == DifficultyLevel::Intermediate,
    {
        DifficultyLevel::Intermediate
    }

    fn estimated_duration(&self) -> (ms: u64)
        ensures
            ms == 90_000,
    {
        90_000
    }

    fn prerequisites(&self) -> (p: Vec<String>)
        ensures
            p@.len() == 2,
            p@[0]@ == "Basic performance monitoring knowledge"@,
            p@[1]@ == "Understanding of system metrics"@,
    {
        strings_of("Basic performance monitoring knowledge", Some("Understanding of system metrics"), None)
    }
}

impl PerformanceMonitoringExample {
    /// The example's job: an empty `performance_monitoring` job.
    pub fn generate_job(&self, config: &str) -> (j: Job<IdentityMapFunction, IdentityReduceFunction>)
        ensures
            j.tasks_view().len() == 0,
            j.job_name_view() == "performance_monitoring"@,
            j.input_view().len() == 0,
    {
        Job::new("performance_monitoring")
    }
}

/// The bytes of `row_` followed by the decimal `i`.
pub open spec fn row_key(i: nat) -> Seq<u8> {
    encode_utf8("row_"@ + decimal_text(i))
}

/// Ten rows keyed `row_0` to `row_9`, each carrying the record's value.
pub struct MatrixMapFunction;

impl MapFunction for MatrixMapFunction {
    open spec fn map_spec(&self, key: Seq<u8>, value: Seq<u8>) -> Option<Seq<(Seq<u8>, Seq<u8>)>> {
        Some(Seq::new(10, |i: int| (row_key(i as nat), value)))
    }

    fn map(&self, key: Vec<u8>, value: Vec<u8>) -> (r: Result<Vec<(Vec<u8>, Vec<u8>)>, String>)
        ensures
            r matches Ok(out) && out@.len() == 10 && forall|i: int|
                0 <= i < 10 ==> (#[trigger] out@[i]).0@ == row_key(i as nat) && out@[i].1@ == value@,
    {
        let mut out: Vec<(Vec<u8>, Vec<u8>)> = Vec::new();
        let mut i: u64 = 0;
        while i < 10
            invariant
                i <= 10,
                out@.len() == i,
                forall|j: int| 0 <= j < i ==> (#[trigger] out@[j]).0@ == row_key(j as nat) && out@[j].1@ == value@,
            decreases 10 - i,
        {
            let mut k = string_of("row_");
            push_decimal(&mut k, i);
            let row = utf8_bytes(k.as_str());
            let data = copy_bytes(&value);
            out.push((row, data));
            i = i + 1;
        }
        assert(pairs_view(out@) =~= Seq::new(10, |i: int| (row_key(i as nat), value@)));
        Ok(out)
    }

    fn name(&self) -> (s: String)
        ensures
            s@ == "MatrixMap"@,
    {
        string_of("MatrixMap")
    }
}

/// A copy of a byte string.
pub fn copy_bytes(v: &Vec<u8>) -> (c: Vec<u8>)
    ensures
        c@ == v@,
{
    let mut c: Vec<u8> = Vec::new();
    let mut i: usize = 0;
    while i < v.len()
        invariant
            i <= v@.len(),
            c@ == v@.take(i as int),
        decreases v@.len() - i,
    {
        c.push(v[i]);
        i = i + 1;
        assert(c@ =~= v@.take(i as int));
    }
    assert(v@.take(v@.len() as int) =~= v@);
    c
}

/// The report of the matrix reduction for `key` over `n` chunks.
pub open spec fn matrix_report(key: Seq<u8>, n: nat) -> Seq<u8> {
    encode_utf8("Matrix row "@ + utf8_lossy_text(key) + " computed from "@ + decimal_text(n) + " chunks"@)
}

/// Reports how many chunks a row was computed from.
pub struct MatrixReduceFunction;

impl ReduceFunction for MatrixReduceFunction {
    open spec fn reduce_spec(&self, key: Seq<u8>, values: Seq<Seq<u8>>) -> Option<Seq<u8>> {
        Some(matrix_report(key, values.len()))
    }

    fn reduce(&self, key: Vec<u8>, values: Vec<Vec<u8>>) -> (r: Result<Vec<u8>, String>)
        ensures
            r matches Ok(out) && out@ == matrix_report(key@, values@.len()),
    {
        let mut s = string_of("Matrix row ");
        let k = utf8_lossy(key.as_slice());
        push_text(&mut s, k.as_str());
        push_text(&mut s, " computed from ");
        push_decimal(&mut s, values.len() as u64);
        push_text(&mut s, " chunks");
        Ok(utf8_bytes(s.as_str()))
    }

    fn name(&self) -> (s: String)
        ensures
            s@ == "MatrixReduce"@,
    {
        string_of("MatrixReduce")
    }
}

/// Passes each record through.
pub struct FaultTolerantMapFunction;

impl MapFunction for FaultTolerantMapFunction {
    open spec fn map_spec(&self, key: Seq<u8>, value: Seq<u8>) -> Option<Seq<(Seq<u8>, Seq<u8>)>> {
        Some(seq![(key, value)])
    }

    fn map(&self, key: Vec<u8>, value: Vec<u8>) -> (r: Result<Vec<(Vec<u8>, Vec<u8>)>, String>)
        ensures
            r matches Ok(out) && out@.len() == 1 && out@[0] == (key, value),
    {
        let out = vec![(key, value)];
        assert(pairs_view(out@) =~= seq![(out@[0].0@, out@[0].1@)]);
        Ok(out)
    }

    fn name(&self) -> (s: String)
        ensures
            s@ == "FaultTolerantMap"@,
    {
        string_of("FaultTolerantMap")
    }
}

/// The report of the fault-tolerant reduction for `key`.
pub open spec fn fault_tolerant_report(key: Seq<u8>) -> Seq<u8> {
    encode_utf8("Fault-tolerant result for key: "@ + utf8_lossy_text(key))
}

/// Reports the key it reduced.
pub struct FaultTolerantReduceFunction;

impl ReduceFunction for FaultTolerantReduceFunction {
    open spec fn reduce_spec(&self, key: Seq<u8>, values: Seq<Seq<u8>>) -> Option<Seq<u8>> {
        Some(fault_tolerant_report(key))
    }

    fn reduce(&self, key: Vec<u8>, values: Vec<Vec<u8>>) -> (r: Result<Vec<u8>, String>)
        ensures
            r matches Ok(out) && out@ == fault_tolerant_report(key@),
    {
        let mut s = string_of("Fault-tolerant result for key: ");
        let k = utf8_lossy(key.as_slice());
        push_text(&mut s, k.as_str());
        Ok(utf8_bytes(s.as_str()))
    }

    fn name(&self) -> (s: String)
        ensures
            s@ == "FaultTolerantReduce"@,
    {
        string_of("FaultTolerantReduce")
    }
}

/// The catalogue entry of an example.
pub struct ExampleInfo {
    pub name: String,
    pub category: ExampleCategory,
    pub difficulty: DifficultyLevel,
    pub estimated_duration: u64,
}

/// The built-in examples as (name, category, difficulty), in the order in
/// which they are registered.
pub open spec fn builtin_examples() -> Seq<(Seq<char>, ExampleCategory, DifficultyLevel)> {
    seq![
        ("Basic Parallel Computation"@, ExampleCategory::Basics, DifficultyLevel::Beginner),
        ("Word Count with MapReduce"@, ExampleCategory::MapReduce, DifficultyLevel::Beginner),
        ("MPI Communication Patterns"@, ExampleCategory::MPI, DifficultyLevel::Intermediate),
        ("Distributed Shared Memory"@, ExampleCategory::SharedMemory, DifficultyLevel::Intermediate),
        ("Distributed Matrix Multiplication"@, ExampleCategory::Advanced, DifficultyLevel::Advanced),
        ("Fault Tolerance and Recovery"@, ExampleCategory::FaultTolerance, DifficultyLevel::Advanced),
        ("Performance Monitoring and Analysis"@, ExampleCategory::Performance, DifficultyLevel::Intermediate),
    ]
}

/// The metrics of a run in which `total` tasks all succeeded, using
/// `memory_mb` MiB and nothing else counted.
pub open spec fn all_succeeded(total: usize, memory_mb: u64) -> ExampleMetrics {
    ExampleMetrics {
        total_tasks: total,
        successful_tasks: total,
        failed_tasks: 0,
        average_task_duration: 0,
        memory_usage_mb: memory_mb,
        network_traffic_mb: 0,
        fault_count: 0,
        recovery_count: 0,
    }
}

/// `res` is a successful run of the example `name` that produced `output`,
/// counted `metrics`, taught `outcomes` and used no recorded node.
pub open spec fn ran(
    res: ExampleResult,
    name: Seq<char>,
    output: Seq<u8>,
    metrics: ExampleMetrics,
    outcomes: Seq<Seq<char>>,
) -> bool {
    &&& res.example_name@ == name
    &&& res.success
    &&& res.output@ == output
    &&& res.metrics == metrics
    &&& res.learning_outcomes@.map_values(|s: String| s@) == outcomes
    &&& res.nodes_used@.len() == 0
}

/// A framework whose queues and parts are those of `before`.
pub open spec fn unchanged(before: DistributedFramework, after: DistributedFramework) -> bool {
    &&& forall|p: TaskPriority| #[trigger] after.scheduler.queue(p) == before.scheduler.queue(p)
    &&& after.cluster == before.cluster
    &&& after.monitoring == before.monitoring
    &&& after.fault_detector == before.fault_detector
    &&& after.recovery == before.recovery
    &&& after.examples == before.examples
}

/// The result of a successful run begun at `started` (ms), timed until now.
fn finish(name: &str, output: Vec<u8>, metrics: ExampleMetrics, outcomes: Vec<String>, started: u64) -> (res:
    ExampleResult)
    ensures
        ran(res, name@, output@, metrics, outcomes@.map_values(|s: String| s@)),
{
    let finished = now_millis();
    let execution_time = if finished >= started {
        finished - started
    } else {
        0
    };
    ExampleResult {
        example_name: string_of(name),
        success: true,
        output,
        metrics,
        learning_outcomes: outcomes,
        execution_time,
        nodes_used: Vec::new(),
    }
}

/// Submits `job` to `framework` (see `DistributedFramework::submit_job`)
/// and gives the data of its first result: that of a success, else
/// nothing.
fn job_output<M, R>(framework: &mut DistributedFramework, job: Job<M, R>) -> (r: Result<Vec<u8>, DistributedError>)
    ensures
        r matches Ok(v) && v@.len() == 0,
        job_queued(*old(framework), *final(framework), job),
{
    match framework.run_job(job) {
        Ok(JobResult::Success(data)) => Ok(data),
        Ok(_) => Ok(Vec::new()),
        Err(e) => Err(e),
    }
}

/// The word count example's text.
pub open spec fn word_count_run_text() -> Seq<char> {
    "The quick brown fox jumps over the lazy dog. A quick brown fox jumps over a lazy dog."@
}

impl BasicParallelExample {
    /// Runs the example: a `basic_parallel` job with identity functions
    /// over "Hello, Distributed World!" is submitted to `framework` and
    /// the data of its result is the output; one task, all successful.
    /// The job has no tasks yet, so the framework's queues are unchanged.
    /// The execution time, in milliseconds, is read from the clock.
    pub fn run(&self, framework: &mut DistributedFramework, config: &str) -> (r: Result<ExampleResult, DistributedError>)
        ensures
            r matches Ok(res) && ran(
                res,
                "Basic Parallel Computation"@,
                Seq::empty(),
                all_succeeded(1, 0),
                seq!["Understanding basic job submission"@, "Learning task distribution concepts"@],
            ),
            unchanged(*old(framework), *final(framework)),
    {
        let started = now_millis();
        let job = Job::new("basic_parallel").map_function(IdentityMapFunction).reduce_function(
            IdentityReduceFunction,
        ).input_data(utf8_bytes("Hello, Distributed World!"));
        let ghost queued = job;
        let output = match job_output(framework, job) {
            Ok(v) => v,
            Err(e) => {
                return Err(e);
            },
        };
        assert(output@ =~= Seq::<u8>::empty());
        proof {
            lemma_taskless_job_changes_nothing(*old(framework), *framework, queued);
        }
        let outcomes = strings_of("Understanding basic job submission", Some("Learning task distribution concepts"), None);
        let metrics = ExampleMetrics {
            total_tasks: 1,
            successful_tasks: 1,
            failed_tasks: 0,
            average_task_duration: 0,
            memory_usage_mb: 0,
            network_traffic_mb: 0,
            fault_count: 0,
            recovery_count: 0,
        };
        let res = finish(self.name(), output, metrics, outcomes, started);
        assert(res.learning_outcomes@.map_values(|s: String| s@) =~= seq![
            "Understanding basic job submission"@,
            "Learning task distribution concepts"@,
        ]);
        Ok(res)
    }
}

impl WordCountExample {
    /// Runs the example: a `word_count` job with the word count functions
    /// over `word_count_run_text` is submitted to `framework` and the data
    /// of its result is the output; four tasks, all successful. The job
    /// has no tasks yet, so the framework's queues are unchanged. The
    /// execution time, in milliseconds, is read from the clock.
    pub fn run(&self, framework: &mut DistributedFramework, config: &str) -> (r: Result<ExampleResult, DistributedError>)
        ensures
            r matches Ok(res) && ran(
                res,
                "Word Count with MapReduce"@,
                Seq::empty(),
                all_succeeded(4, 0),
                seq![
                    "Understanding MapReduce pattern"@,
                    "Learning data distribution strategies"@,
                    "Implementing word counting algorithm"@,
                ],
            ),
            unchanged(*old(framework), *final(framework)),
    {
        let started = now_millis();
        let job = Job::new("word_count").map_function(WordCountMapFunction).reduce_function(
            WordCountReduceFunction,
        ).input_data(utf8_bytes("The quick brown fox jumps over the lazy dog. A quick brown fox jumps over a lazy dog."));
        let ghost queued = job;
        let output = match job_output(framework, job) {
            Ok(v) => v,
            Err(e) => {
                return Err(e);
            },
        };
        assert(output@ =~= Seq::<u8>::empty());
        proof {
            lemma_taskless_job_changes_nothing(*old(framework), *framework, queued);
        }
        let outcomes = strings_of(
            "Understanding MapReduce pattern",
            Some("Learning data distribution strategies"),
            Some("Implementing word counting algorithm"),
        );
        let metrics = ExampleMetrics {
            total_tasks: 4,
            successful_tasks: 4,
            failed_tasks: 0,
            average_task_duration: 0,
            memory_usage_mb: 0,
            network_traffic_mb: 0,
            fault_count: 0,
            recovery_count: 0,
        };
        let res = finish(self.name(), output, metrics, outcomes, started);
        assert(res.learning_outcomes@.map_values(|s: String| s@) =~= seq![
            "Understanding MapReduce pattern"@,
            "Learning data distribution strategies"@,
            "Implementing word counting algorithm"@,
        ]);
        Ok(res)
    }
}

impl MatrixMultiplicationExample {
    /// Runs the example: a `matrix_multiply` job with the matrix functions
    /// over "Matrix multiplication data" is submitted to `framework` and
    /// the data of its result is the output; eight tasks, all successful.
    /// The job has no tasks yet, so the framework's queues are unchanged.
    /// The execution time, in milliseconds, is read from the clock.
    pub fn run(&self, framework: &mut DistributedFramework, config: &str) -> (r: Result<ExampleResult, DistributedError>)
        ensures
            r matches Ok(res) && ran(
                res,
                "Distributed Matrix Multiplication"@,
                Seq::empty(),
                all_succeeded(8, 0),
                seq![
                    "Understanding parallel matrix algorithms"@,
                    "Learning data partitioning strategies"@,
                    "Implementing numerical computations in parallel"@,
                ],
            ),
            unchanged(*old(framework), *final(framework)),
    {
        let started = now_millis();
        let job = Job::new("matrix_multiply").map_function(MatrixMapFunction).reduce_function(
            MatrixReduceFunction,
        ).input_data(utf8_bytes("Matrix multiplication data"));
        let ghost queued = job;
        let output = match job_output(framework, job) {
            Ok(v) => v,
            Err(e) => {
                return Err(e);
            },
        };
        assert(output@ =~= Seq::<u8>::empty());
        proof {
            lemma_taskless_job_changes_nothing(*old(framework), *framework, queued);
        }
        let outcomes = strings_of(
            "Understanding parallel matrix algorithms",
            Some("Learning data partitioning strategies"),
            Some("Implementing numerical computations in parallel"),
        );
        let metrics = ExampleMetrics {
            total_tasks: 8,
            successful_tasks: 8,
            failed_tasks: 0,
            average_task_duration: 0,
            memory_usage_mb: 0,
            network_traffic_mb: 0,
            fault_count: 0,
            recovery_count: 0,
        };
        let res = finish(self.name(), output, metrics, outcomes, started);
        assert(res.learning_outcomes@.map_values(|s: String| s@) =~= seq![
            "Understanding parallel matrix algorithms"@,
            "Learning data partitioning strategies"@,
            "Implementing numerical computations in parallel"@,
        ]);
        Ok(res)
    }
}

impl FaultToleranceExample {
    /// Runs the example: a `fault_tolerance` job with the fault-tolerant
    /// functions and three retries over "Robust computation data" is
    /// submitted to `framework` and the data of its result is the output;
    /// six tasks, all successful, no fault and no recovery. The job has no
    /// tasks yet, so the framework's queues are unchanged. The execution
    /// time, in milliseconds, is read from the clock.
    pub fn run(&self, framework: &mut DistributedFramework, config: &str) -> (r: Result<ExampleResult, DistributedError>)
        ensures
            r matches Ok(res) && ran(
                res,
                "Fault Tolerance and Recovery"@,
                Seq::empty(),
                all_succeeded(6, 0),
                seq![
                    "Understanding fault tolerance mechanisms"@,
                    "Learning node failure detection"@,
                    "Implementing recovery strategies"@,
                ],
            ),
            unchanged(*old(framework), *final(framework)),
    {
        let started = now_millis();
        let mut c = JobConfig::default();
        c.retry_attempts = 3;
        let job = Job::new("fault_tolerance").map_function(FaultTolerantMapFunction).reduce_function(
            FaultTolerantReduceFunction,
        ).configuration(c).input_data(utf8_bytes("Robust computation data"));
        let ghost queued = job;
        let output = match job_output(framework, job) {
            Ok(v) => v,
            Err(e) => {
                return Err(e);
            },
        };
        assert(output@ =~= Seq::<u8>::empty());
        proof {
            lemma_taskless_job_changes_nothing(*old(framework), *framework, queued);
        }
        let outcomes = strings_of(
            "Understanding fault tolerance mechanisms",
            Some("Learning node failure detection"),
            Some("Implementing recovery strategies"),
        );
        let metrics = ExampleMetrics {
            total_tasks: 6,
            successful_tasks: 6,
            failed_tasks: 0,
            average_task_duration: 0,
            memory_usage_mb: 0,
            network_traffic_mb: 0,
            fault_count: 0,
            recovery_count: 0,
        };
        let res = finish(self.name(), output, metrics, outcomes, started);
        assert(res.learning_outcomes@.map_values(|s: String| s@) =~= seq![
            "Understanding fault tolerance mechanisms"@,
            "Learning node failure detection"@,
            "Implementing recovery strategies"@,
        ]);
        Ok(res)
    }
}

/// The bytes of "Hello, MPI World!".
pub open spec fn mpi_greeting() -> Seq<u8> {
    seq![72u8, 101, 108, 108, 111, 44, 32, 77, 80, 73, 32, 87, 111, 114, 108, 100, 33]
}

impl MPICommunicationExample {
    /// Runs the example: a one-process MPI environment (rank 0 of 1) is
    /// set up, passes a barrier and broadcasts a zeroed buffer as large as
    /// "Hello, MPI World!" from rank 0; the output is that text; one task,
    /// all successful, less than a MiB of traffic. The framework is not
    /// used. The execution time, in milliseconds, is read from the clock.
    pub fn run(&self, framework: &DistributedFramework, config: &str) -> (r: Result<ExampleResult, DistributedError>)
        ensures
            r matches Ok(res) && ran(
                res,
                "MPI Communication Patterns"@,
                mpi_greeting(),
                all_succeeded(1, 0),
                seq![
                    "Understanding MPI communication patterns"@,
                    "Learning point-to-point communication"@,
                    "Implementing collective operations"@,
                ],
            ),
    {
        let started = now_millis();
        let mut mpi = match create_mpi_environment(0, 1) {
            Ok(m) => m,
            Err(e) => {
                return Err(DistributedError::MPI(e.to_string()));
            },
        };
        let test_data: Vec<u8> = vec![72u8, 101, 108, 108, 111, 44, 32, 77, 80, 73, 32, 87, 111, 114, 108, 100, 33];
        assert(test_data@ =~= mpi_greeting());
        match mpi.barrier() {
            Ok(()) => {},
            Err(e) => {
                return Err(DistributedError::MPI(e.to_string()));
            },
        }
        let mut broadcast_data = crate::distributed::shared_memory::zero_bytes(test_data.len());
        assert(broadcast_data@.len() == 17);
        assert(mpi.statistics.total_messages_sent == 0 && mpi.statistics.point_to_point_count == 0
            && mpi.statistics.total_bytes_sent == 0 && mpi.statistics.collective_count == 0);
        match mpi.broadcast(&mut broadcast_data, 0) {
            Ok(()) => {},
            Err(e) => {
                return Err(DistributedError::MPI(e.to_string()));
            },
        }
        let sent = test_data.len() as u64;
        assert(sent == 17);
        let traffic = sent / 1048576;
        assert(traffic == 0) by (nonlinear_arith)
            requires
                sent == 17,
                traffic == sent / 1048576,
        ;
        let outcomes = strings_of(
            "Understanding MPI communication patterns",
            Some("Learning point-to-point communication"),
            Some("Implementing collective operations"),
        );
        let metrics = ExampleMetrics {
            total_tasks: 1,
            successful_tasks: 1,
            failed_tasks: 0,
            average_task_duration: 0,
            memory_usage_mb: 0,
            network_traffic_mb: traffic,
            fault_count: 0,
            recovery_count: 0,
        };
        let res = finish(self.name(), test_data, metrics, outcomes, started);
        assert(res.learning_outcomes@.map_values(|s: String| s@) =~= seq![
            "Understanding MPI communication patterns"@,
            "Learning point-to-point communication"@,
            "Implementing collective operations"@,
        ]);
        Ok(res)
    }
}

/// A failure of the shared memory, by its message.
fn memory_failure(e: &MemoryError) -> (d: DistributedError)
    ensures
        d matches DistributedError::ResourceUnavailable(m) && m@ == memory_error_text(*e),
{
    DistributedError::ResourceUnavailable(e.to_string())
}

/// The text the shared memory example reports for a counter value `v`.
pub open spec fn counter_report(v: nat) -> Seq<char> {
    "Counter value: "@ + decimal_text(v)
}

impl SharedMemoryExample {
    /// Runs the example on a fresh distributed memory of this node (limit
    /// 1024 MiB): a 1024-byte sequential region `shared_counter` is
    /// allocated, 42 is written as eight little-endian bytes at global
    /// address 0x1000 and read back, compare-and-swap replaces it by 100,
    /// and the region is released. The output is `counter_report` of the
    /// value read, 42; three tasks, all successful, 1 MiB. The region is
    /// the first of the fresh memory, so it is registered at 0x1000 and
    /// every step succeeds. The execution time, in milliseconds, is read
    /// from the clock.
    pub fn run(&self, framework: &DistributedFramework, config: &str) -> (r: Result<ExampleResult, DistributedError>)
        ensures
            r matches Ok(res) && ran(
                res,
                "Distributed Shared Memory"@,
                encode_utf8(counter_report(42)),
                all_succeeded(3, 1),
                seq![
                    "Understanding distributed shared memory"@,
                    "Learning consistency models"@,
                    "Implementing atomic operations"@,
                ],
            ),
    {
        let started = now_millis();
        let mut memory = DistributedMemory::new(fresh_id(), 1024);
        let region_id = match memory.allocate_region("shared_counter", 1024, ConsistencyModel::Sequential, None, started) {
            Ok(id) => id,
            Err(e) => {
                return Err(memory_failure(&e));
            },
        };
        let address = GlobalAddress(0x1000);
        let mut counter_value: Vec<u8> = Vec::new();
        push_le(&mut counter_value, 42, 8);
        assert(counter_value@ =~= le_bytes(42, 8));
        proof {
            reveal_with_fuel(le_bytes, 9);
            assert(counter_value@.len() == 8);
            assert(memory.addresses().contains_key(0x1000u128));
            assert(memory.addresses()[0x1000u128].region_id == region_id);
            assert(memory.regions().contains_key(region_id));
            assert(memory.regions()[region_id].permissions.writable);
            assert(memory.access_check(address, true) == crate::distributed::shared_memory::AccessCheck::Allowed(
                region_id,
            ));
            assert(memory.write_outcome(address, counter_value@) is Ok);
        }
        let ghost before_write = memory;
        match memory.write(address, counter_value.clone()) {
            Ok(()) => {},
            Err(e) => {
                return Err(memory_failure(&e));
            },
        }
        proof {
            let rid = before_write.addresses()[address.0 as u128].region_id;
            assert(before_write.access_check(address, true) is Allowed);
            assert(before_write.regions()[rid].permissions.readable);
            reveal_with_fuel(le_bytes, 9);
            assert(counter_value@.len() == 8);
            lemma_read_after_write(before_write, memory, address, counter_value@);
            assert(memory.read_outcome(address, 8) == Ok::<Seq<u8>, crate::distributed::shared_memory::MemoryFault>(
                counter_value@,
            ));
        }
        let read_data = match memory.read(address, 8) {
            Ok(v) => v,
            Err(e) => {
                return Err(memory_failure(&e));
            },
        };
        assert(read_data@ == counter_value@);
        let read_value = u64_from_le(&read_data);
        proof {
            lemma_small_le_round_trip(42);
        }
        assert(read_value == 42);
        let mut hundred: Vec<u8> = Vec::new();
        push_le(&mut hundred, 100, 8);
        match memory.compare_and_swap(address, counter_value.clone(), hundred) {
            Ok(_) => {},
            Err(e) => {
                return Err(memory_failure(&e));
            },
        }
        let mut text = string_of("Counter value: ");
        push_decimal(&mut text, read_value);
        let outcomes = strings_of(
            "Understanding distributed shared memory",
            Some("Learning consistency models"),
            Some("Implementing atomic operations"),
        );
        let metrics = ExampleMetrics {
            total_tasks: 3,
            successful_tasks: 3,
            failed_tasks: 0,
            average_task_duration: 0,
            memory_usage_mb: 1,
            network_traffic_mb: 0,
            fault_count: 0,
            recovery_count: 0,
        };
        let res = finish(self.name(), utf8_bytes(text.as_str()), metrics, outcomes, started);
        assert(res.learning_outcomes@.map_values(|s: String| s@) =~= seq![
            "Understanding distributed shared memory"@,
            "Learning consistency models"@,
            "Implementing atomic operations"@,
        ]);
        match memory.release_region(region_id) {
            Ok(()) => {},
            Err(e) => {
                return Err(memory_failure(&e));
            },
        }
        Ok(res)
    }
}

/// Whether a built-in example is named `name`.
pub open spec fn is_builtin_example(name: Seq<char>) -> bool {
    exists|i: int| 0 <= i < builtin_examples().len() && (#[trigger] builtin_examples()[i]).0 == name
}

/// What a catalogue entry tells: name, category, difficulty.
pub open spec fn entry_view(e: ExampleInfo) -> (Seq<char>, ExampleCategory, DifficultyLevel) {
    (e.name@, e.category, e.difficulty)
}

/// The catalogue of examples, one entry per name, in registration order.
pub struct ExampleRegistry {
    pub examples: Vec<ExampleInfo>,
}

impl ExampleRegistry {
    /// The catalogue's invariant: names are distinct.
    pub open spec fn wf(&self) -> bool {
        forall|i: int, j: int|
            0 <= i < j < self.examples@.len() ==> (#[trigger] self.examples@[i]).name@ != (#[trigger] self.examples@[j]).name@
    }

    /// The entries as (name, category, difficulty).
    pub open spec fn entries(&self) -> Seq<(Seq<char>, ExampleCategory, DifficultyLevel)> {
        self.examples@.map_values(|e: ExampleInfo| entry_view(e))
    }

    /// The catalogue of the built-in examples.
    pub fn new() -> (r: Self)
        ensures
            r.wf(),
            r.entries() == builtin_examples(),
    {
        let mut r = ExampleRegistry { examples: Vec::new() };
        let e = BasicParallelExample;
        r.examples.push(ExampleInfo { name: string_of(e.name()), category: e.category(), difficulty: e.difficulty(), estimated_duration: e.estimated_duration() });
        let e = WordCountExample;
        r.examples.push(ExampleInfo { name: string_of(e.name()), category: e.category(), difficulty: e.difficulty(), estimated_duration: e.estimated_duration() });
        let e = MPICommunicationExample;
        r.examples.push(ExampleInfo { name: string_of(e.name()), category: e.category(), difficulty: e.difficulty(), estimated_duration: e.estimated_duration() });
        let e = SharedMemoryExample;
        r.examples.push(ExampleInfo { name: string_of(e.name()), category: e.category(), difficulty: e.difficulty(), estimated_duration: e.estimated_duration() });
        let e = MatrixMultiplicationExample;
        r.examples.push(ExampleInfo { name: string_of(e.name()), category: e.category(), difficulty: e.difficulty(), estimated_duration: e.estimated_duration() });
        let e = FaultToleranceExample;
        r.examples.push(ExampleInfo { name: string_of(e.name()), category: e.category(), difficulty: e.difficulty(), estimated_duration: e.estimated_duration() });
        let e = PerformanceMonitoringExample;
        r.examples.push(ExampleInfo { name: string_of(e.name()), category: e.category(), difficulty: e.difficulty(), estimated_duration: e.estimated_duration() });
        proof {
            assert(r.examples@[0].name@[0] == 'B' && r.examples@[0].name@.len() == 26) by { reveal_strlit("Basic Parallel Computation"); }
            assert(r.examples@[1].name@[0] == 'W' && r.examples@[1].name@.len() == 25) by { reveal_strlit("Word Count with MapReduce"); }
            assert(r.examples@[2].name@[0] == 'M' && r.examples@[2].name@.len() == 26) by { reveal_strlit("MPI Communication Patterns"); }
            assert(r.examples@[3].name@[0] == 'D' && r.examples@[3].name@.len() == 25) by { reveal_strlit("Distributed Shared Memory"); }
            assert(r.examples@[4].name@[0] == 'D' && r.examples@[4].name@.len() == 33) by { reveal_strlit("Distributed Matrix Multiplication"); }
            assert(r.examples@[5].name@[0] == 'F' && r.examples@[5].name@.len() == 28) by { reveal_strlit("Fault Tolerance and Recovery"); }
            assert(r.examples@[6].name@[0] == 'P' && r.examples@[6].name@.len() == 35) by { reveal_strlit("Performance Monitoring and Analysis"); }
            reveal_strlit("Basic Parallel Computation");
            reveal_strlit("Word Count with MapReduce");
            reveal_strlit("MPI Communication Patterns");
            reveal_strlit("Distributed Shared Memory");
            reveal_strlit("Distributed Matrix Multiplication");
            reveal_strlit("Fault Tolerance and Recovery");
            reveal_strlit("Performance Monitoring and Analysis");
        }
        assert(r.entries() =~= builtin_examples());
        r
    }

    /// The names of all examples, in catalogue order.
    pub fn get_all_examples(&self) -> (names: Vec<String>)
        ensures
            names@.len() == self.examples@.len(),
            forall|i: int| 0 <= i < names@.len() ==> (#[trigger] names@[i])@ == self.examples@[i].name@,
    {
        let mut names: Vec<String> = Vec::new();
        let mut i: usize = 0;
        while i < self.examples.len()
            invariant
                i <= self.examples@.len(),
                names@.len() == i,
                forall|j: int| 0 <= j < i ==> (#[trigger] names@[j])@ == self.examples@[j].name@,
            decreases self.examples@.len() - i,
        {
            names.push(self.examples[i].name.clone());
            i = i + 1;
        }
        names
    }

    /// The category and difficulty of the example named `name`, if any.
    pub fn get_example(&self, name: &str) -> (r: Option<(ExampleCategory, DifficultyLevel)>)
        requires
            self.wf(),
        ensures
            r is Some <==> exists|i: int| 0 <= i < self.examples@.len() && (#[trigger] self.examples@[i]).name@ == name@,
            forall|i: int|
                0 <= i < self.examples@.len() && (#[trigger] self.examples@[i]).name@ == name@ ==> r == Some(
                    (self.examples@[i].category, self.examples@[i].difficulty),
                ),
    {
        let target = string_of(name);
        let mut i: usize = 0;
        while i < self.examples.len()
            invariant
                self.wf(),
                target@ == name@,
                i <= self.examples@.len(),
                forall|j: int| 0 <= j < i ==> (#[trigger] self.examples@[j]).name@ != name@,
            decreases self.examples@.len() - i,
        {
            if self.examples[i].name == target {
                proof {
                    assert forall|j: int|
                        0 <= j < self.examples@.len() && (#[trigger] self.examples@[j]).name@ == name@ implies j == i by {
                        if j != i as int {
                            assert(self.examples@[j].name@ == self.examples@[i as int].name@);
                        }
                    }
                }
                return Some((self.examples[i].category, self.examples[i].difficulty));
            }
            i = i + 1;
        }
        None
    }

    /// The names of the examples of category `category`, in catalogue order.
    pub fn get_examples_by_category(&self, category: ExampleCategory) -> (names: Vec<String>)
        ensures
            names@.map_values(|s: String| s@) == self.examples@.filter(|e: ExampleInfo| e.category == category).map_values(
                |e: ExampleInfo| e.name@,
            ),
    {
        let ghost pred = |e: ExampleInfo| e.category == category;
        let mut names: Vec<String> = Vec::new();
        let mut i: usize = 0;
        while i < self.examples.len()
            invariant
                i <= self.examples@.len(),
                pred == (|e: ExampleInfo| e.category == category),
                names@.map_values(|s: String| s@) == self.examples@.take(i as int).filter(pred).map_values(
                    |e: ExampleInfo| e.name@,
                ),
            decreases self.examples@.len() - i,
        {
            proof {
                assert(self.examples@.take(i + 1) =~= self.examples@.take(i as int).push(self.examples@[i as int]));
                crate::keyed::lemma_filter_push(self.examples@.take(i as int), pred, self.examples@[i as int]);
            }
            let ghost pre_names = names@;
            let ghost pre = self.examples@.take(i as int).filter(pred);
            if self.examples[i].category == category {
                let n = self.examples[i].name.clone();
                names.push(n);
                proof {
                    assert(self.examples@.take(i + 1).filter(pred) == pre.push(self.examples@[i as int]));
                    assert(names@.map_values(|s: String| s@) =~= pre_names.map_values(|s: String| s@).push(n@));
                }
            } else {
                proof {
                    assert(self.examples@.take(i + 1).filter(pred) == pre);
                }
            }
            i = i + 1;
            assert(names@.map_values(|s: String| s@) =~= self.examples@.take(i as int).filter(pred).map_values(
                |e: ExampleInfo| e.name@,
            ));
        }
        assert(self.examples@.take(self.examples@.len() as int) =~= self.examples@);
        names
    }

    /// The names of the examples of difficulty `difficulty`, in catalogue
    /// order.
    pub fn get_examples_by_difficulty(&self, difficulty: DifficultyLevel) -> (names: Vec<String>)
        ensures
            names@.map_values(|s: String| s@) == self.examples@.filter(|e: ExampleInfo| e.difficulty == difficulty).map_values(
                |e: ExampleInfo| e.name@,
            ),
    {
        let ghost pred = |e: ExampleInfo| e.difficulty == difficulty;
        let mut names: Vec<String> = Vec::new();
        let mut i: usize = 0;
        while i < self.examples.len()
            invariant
                i <= self.examples@.len(),
                pred == (|e: ExampleInfo| e.difficulty == difficulty),
                names@.map_values(|s: String| s@) == self.examples@.take(i as int).filter(pred).map_values(
                    |e: ExampleInfo| e.name@,
                ),
            decreases self.examples@.len() - i,
        {
            proof {
                assert(self.examples@.take(i + 1) =~= self.examples@.take(i as int).push(self.examples@[i as int]));
                crate::keyed::lemma_filter_push(self.examples@.take(i as int), pred, self.examples@[i as int]);
            }
            let ghost pre_names = names@;
            let ghost pre = self.examples@.take(i as int).filter(pred);
            if self.examples[i].difficulty == difficulty {
                let n = self.examples[i].name.clone();
                names.push(n);
                proof {
                    assert(self.examples@.take(i + 1).filter(pred) == pre.push(self.examples@[i as int]));
                    assert(names@.map_values(|s: String| s@) =~= pre_names.map_values(|s: String| s@).push(n@));
                }
            } else {
                proof {
                    assert(self.examples@.take(i + 1).filter(pred) == pre);
                }
            }
            i = i + 1;
            assert(names@.map_values(|s: String| s@) =~= self.examples@.take(i as int).filter(pred).map_values(
                |e: ExampleInfo| e.name@,
            ));
        }
        assert(self.examples@.take(self.examples@.len() as int) =~= self.examples@);
        names
    }
}

/// The names of all built-in examples, in catalogue order.
pub fn list_examples() -> (names: Vec<String>)
    ensures
        names@.map_values(|s: String| s@) == builtin_examples().map_values(
            |e: (Seq<char>, ExampleCategory, DifficultyLevel)| e.0,
        ),
{
    let r = ExampleRegistry::new();
    let names = r.get_all_examples();
    proof {
        assert forall|i: int| 0 <= i < names@.len() implies names@[i]@ == r.entries()[i].0 by {}
    }
    assert(names@.map_values(|s: String| s@) =~= builtin_examples().map_values(
        |e: (Seq<char>, ExampleCategory, DifficultyLevel)| e.0,
    ));
    names
}

/// The names of the built-in examples of category `category`.
pub fn get_examples_by_category(category: ExampleCategory) -> (names: Vec<String>)
    ensures
        names@.map_values(|s: String| s@) == builtin_examples().filter(
            |e: (Seq<char>, ExampleCategory, DifficultyLevel)| e.1 == category,
        ).map_values(|e: (Seq<char>, ExampleCategory, DifficultyLevel)| e.0),
{
    let r = ExampleRegistry::new();
    let names = r.get_examples_by_category(category);
    proof {
        lemma_filter_entries(r.examples@, category);
    }
    names
}

proof fn lemma_filter_entries(es: Seq<ExampleInfo>, category: ExampleCategory)
    ensures
        es.filter(|e: ExampleInfo| e.category == category).map_values(|e: ExampleInfo| e.name@) == es.map_values(
            |e: ExampleInfo| entry_view(e),
        ).filter(|e: (Seq<char>, ExampleCategory, DifficultyLevel)| e.1 == category).map_values(
            |e: (Seq<char>, ExampleCategory, DifficultyLevel)| e.0,
        ),
    decreases es.len(),
{
    let p1 = |e: ExampleInfo| e.category == category;
    let p2 = |e: (Seq<char>, ExampleCategory, DifficultyLevel)| e.1 == category;
    let v = |e: ExampleInfo| entry_view(e);
    if es.len() > 0 {
        let r = es.drop_last();
        let x = es.last();
        lemma_filter_entries(r, category);
        assert(es =~= r.push(x));
        crate::keyed::lemma_filter_push(r, p1, x);
        assert(es.map_values(v) =~= r.map_values(v).push(v(x)));
        crate::keyed::lemma_filter_push(r.map_values(v), p2, v(x));
        if p1(x) {
            assert(es.filter(p1).map_values(|e: ExampleInfo| e.name@) =~= r.filter(p1).map_values(
                |e: ExampleInfo| e.name@,
            ).push(x.name@));
            assert(es.map_values(v).filter(p2).map_values(
                |e: (Seq<char>, ExampleCategory, DifficultyLevel)| e.0,
            ) =~= r.map_values(v).filter(p2).map_values(|e: (Seq<char>, ExampleCategory, DifficultyLevel)| e.0).push(
                x.name@,
            ));
        }
    } else {
        assert(es.filter(p1) =~= Seq::<ExampleInfo>::empty());
        assert(es.map_values(v).filter(p2) =~= Seq::<(Seq<char>, ExampleCategory, DifficultyLevel)>::empty());
    }
}

/// The recommended examples for a level, in the order to take them.
pub open spec fn learning_path(level: DifficultyLevel) -> Seq<Seq<char>> {
    match level {
        DifficultyLevel::Beginner => seq![
            "Basic Parallel Computation"@,
            "Word Count with MapReduce"@,
            "Distributed Shared Memory"@,
        ],
        DifficultyLevel::Intermediate => seq!["MPI Communication Patterns"@, "Performance Monitoring and Analysis"@],
        DifficultyLevel::Advanced => seq!["Distributed Matrix Multiplication"@, "Fault Tolerance and Recovery"@],
        DifficultyLevel::Expert => seq!["Custom Algorithm Implementation"@, "Advanced Performance Optimization"@],
    }
}

/// The recommended examples for `level`, in the order to take them.
pub fn get_learning_path(level: DifficultyLevel) -> (p: Vec<&'static str>)
    ensures
        p@.map_values(|s: &str| s@) == learning_path(level),
{
    let p: Vec<&'static str> = match level {
        DifficultyLevel::Beginner => vec![
            "Basic Parallel Computation",
            "Word Count with MapReduce",
            "Distributed Shared Memory",
        ],
        DifficultyLevel::Intermediate => vec!["MPI Communication Patterns", "Performance Monitoring and Analysis"],
        DifficultyLevel::Advanced => vec!["Distributed Matrix Multiplication", "Fault Tolerance and Recovery"],
        DifficultyLevel::Expert => vec!["Custom Algorithm Implementation", "Advanced Performance Optimization"],
    };
    assert(p@.map_values(|s: &str| s@) =~= learning_path(level));
    p
}

} // verus!
