//! MapReduce for teaching: jobs split their input into map partitions, map
//! functions emit key/value pairs, the shuffle groups them by key and sends
//! each key to a reduce partition, and reduce outputs are combined in the
//! job's output format.
use vstd::prelude::*;
use vstd::utf8::{decode_utf8, encode_utf8};
use crate::encoding::{
    lowercase_text, parse_u32, parse_u32_text, split_whitespace, to_lowercase, utf8_bytes,
    utf8_lossy, utf8_lossy_text, words,
};
use crate::ids::{fresh_id, now_millis};
use crate::text::{decimal_text, push_decimal, push_text, string_of};

verus! {

/// Job identifier.
pub type JobId = u128;

/// Task identifier within a job.
pub type TaskId = u128;

/// A task's failure.
pub struct TaskError {
    pub task_id: TaskId,
    pub error_message: String,
    pub node_id: Option<u128>,
    pub timestamp: u64,
}

/// Results of a job.
pub enum JobResult {
    Success(Vec<u8>),
    PartialFailure(Vec<u8>, Vec<TaskError>),
    CompleteFailure(Vec<TaskError>),
}

/// Partitioning strategies.
pub enum PartitionStrategy {
    Hash,
    Range,
    Custom,
}

/// Output formats of job results.
pub enum OutputFormat {
    Binary,
    Json,
    Csv,
    Text,
}

/// Job configuration. The timeout is in milliseconds.
pub struct JobConfig {
    pub map_tasks: usize,
    pub reduce_tasks: usize,
    pub partition_strategy: PartitionStrategy,
    pub timeout: u64,
    pub retry_attempts: u32,
    pub memory_limit_mb: u64,
    pub output_format: OutputFormat,
}

impl JobConfig {
    /// Four map tasks, two reduce tasks, hash partitioning, a five-minute
    /// timeout, three retries, 512 MB, JSON output.
    pub fn default() -> (c: Self)
        ensures
            c.map_tasks == 4,
            c.reduce_tasks == 2,
            c.partition_strategy is Hash,
            c.timeout == 300_000,
            c.retry_attempts == 3,
            c.memory_limit_mb == 512,
            c.output_format is Json,
    {
        JobConfig {
            map_tasks: 4,
            reduce_tasks: 2,
            partition_strategy: PartitionStrategy::Hash,
            timeout: 300_000,
            retry_attempts: 3,
            memory_limit_mb: 512,
            output_format: OutputFormat::Json,
        }
    }
}

/// Kinds of MapReduce tasks.
#[derive(PartialEq, Eq, Structural)]
pub enum TaskType {
    MapTask,
    Reduce,
    Partition,
    Combine,
}

/// Execution status of a task.
#[derive(PartialEq, Eq, Structural)]
pub enum TaskStatus {
    Pending,
    Running,
    Completed,
    Failed,
    Retrying,
}

/// One task of a job. Times are in milliseconds since the Unix epoch.
pub struct MapReduceTask {
    pub task_id: TaskId,
    pub job_id: JobId,
    pub task_type: TaskType,
    pub input_partition: Vec<u8>,
    pub map_output: Option<Vec<(Vec<u8>, Vec<u8>)>>,
    pub status: TaskStatus,
    pub assigned_node: Option<u128>,
    pub start_time: Option<u64>,
    pub completion_time: Option<u64>,
    pub retry_count: u32,
}

/// A map function: turns one input record into key/value pairs.
pub trait MapFunction {
    /// What `map` gives for the record `key`/`value`: its pairs, or `None`
    /// when it fails.
    spec fn map_spec(&self, key: Seq<u8>, value: Seq<u8>) -> Option<Seq<(Seq<u8>, Seq<u8>)>>;

    /// Processes one record.
    fn map(&self, key: Vec<u8>, value: Vec<u8>) -> (r: Result<Vec<(Vec<u8>, Vec<u8>)>, String>)
        ensures
            match r {
                Ok(out) => self.map_spec(key@, value@) == Some(pairs_view(out@)),
                Err(_) => self.map_spec(key@, value@) is None,
            },
    ;

    /// A name for reporting.
    fn name(&self) -> String;
}

/// A reduce function: turns all values of one key into a result.
pub trait ReduceFunction {
    /// What `reduce` gives for `key` and its `values`: its result, or
    /// `None` when it fails.
    spec fn reduce_spec(&self, key: Seq<u8>, values: Seq<Seq<u8>>) -> Option<Seq<u8>>;

    /// Reduces the values of one key.
    fn reduce(&self, key: Vec<u8>, values: Vec<Vec<u8>>) -> (r: Result<Vec<u8>, String>)
        ensures
            match r {
                Ok(out) => self.reduce_spec(key@, bytes_view(values@)) == Some(out@),
                Err(_) => self.reduce_spec(key@, bytes_view(values@)) is None,
            },
    ;

    /// A name for reporting.
    fn name(&self) -> String;
}

/// The bytes of all `values`, one after another.
pub open spec fn concat_all(values: Seq<Vec<u8>>) -> Seq<u8>
    decreases values.len(),
{
    if values.len() == 0 {
        Seq::empty()
    } else {
        concat_all(values.drop_last()) + values.last()@
    }
}

/// The bytes of all `values`, one after another.
pub open spec fn concat_views(values: Seq<Seq<u8>>) -> Seq<u8>
    decreases values.len(),
{
    if values.len() == 0 {
        Seq::empty()
    } else {
        concat_views(values.drop_last()) + values.last()
    }
}

proof fn lemma_concat_views(values: Seq<Vec<u8>>)
    ensures
        concat_all(values) == concat_views(bytes_view(values)),
    decreases values.len(),
{
    if values.len() > 0 {
        lemma_concat_views(values.drop_last());
        assert(bytes_view(values).drop_last() =~= bytes_view(values.drop_last()));
    }
}

fn concat_values(values: &Vec<Vec<u8>>) -> (out: Vec<u8>)
    ensures
        out@ == concat_all(values@),
{
    let mut out: Vec<u8> = Vec::new();
    let mut i: usize = 0;
    while i < values.len()
        invariant
            i <= values@.len(),
            out@ == concat_all(values@.take(i as int)),
        decreases values@.len() - i,
    {
        let v = &values[i];
        let mut j: usize = 0;
        let ghost before = out@;
        while j < v.len()
            invariant
                j <= v@.len(),
                out@ == before + v@.subrange(0, j as int),
            decreases v@.len() - j,
        {
            out.push(v[j]);
            j = j + 1;
            assert(out@ =~= before + v@.subrange(0, j as int));
        }
        assert(values@.take(i + 1).drop_last() =~= values@.take(i as int));
        assert(v@.subrange(0, v@.len() as int) =~= v@);
        i = i + 1;
    }
    assert(values@.take(values@.len() as int) =~= values@);
    out
}

/// Passes every record through unchanged.
pub struct IdentityMapFunction;

impl MapFunction for IdentityMapFunction {
    open spec fn map_spec(&self, key: Seq<u8>, value: Seq<u8>) -> Option<Seq<(Seq<u8>, Seq<u8>)>> {
        Some(seq![(key, value)])
    }

    fn map(&self, key: Vec<u8>, value: Vec<u8>) -> (r: Result<Vec<(Vec<u8>, Vec<u8>)>, String>)
        ensures
            r matches Ok(out) && out@.len() == 1 && out@[0] == (key, value),
    {
        let out = vec![(key, value)];
        assert(pairs_view(out@) =~= seq![(out@[0].0@, out@[0].1@)]);
        Ok(out)
    }

    fn name(&self) -> (s: String)
        ensures
            s@ == "Identity"@,
    {
        string_of("Identity")
    }
}

/// Joins a key with all its values.
pub struct IdentityReduceFunction;

impl ReduceFunction for IdentityReduceFunction {
    open spec fn reduce_spec(&self, key: Seq<u8>, values: Seq<Seq<u8>>) -> Option<Seq<u8>> {
        Some(key + concat_views(values))
    }

    fn reduce(&self, key: Vec<u8>, values: Vec<Vec<u8>>) -> (r: Result<Vec<u8>, String>)
        ensures
            r matches Ok(out) && out@ == key@ + concat_all(values@),
    {
        let combined = concat_values(&values);
        let mut out = key;
        let ghost k = out@;
        let mut i: usize = 0;
        while i < combined.len()
            invariant
                i <= combined@.len(),
                out@ == k + combined@.subrange(0, i as int),
            decreases combined@.len() - i,
        {
            out.push(combined[i]);
            i = i + 1;
            assert(out@ =~= k + combined@.subrange(0, i as int));
        }
        assert(combined@.subrange(0, combined@.len() as int) =~= combined@);
        proof {
            lemma_concat_views(values@);
        }
        Ok(out)
    }

    fn name(&self) -> (s: String)
        ensures
            s@ == "Identity"@,
    {
        string_of("Identity")
    }
}

/// The pairs the word count emits for `text`: each word, lower-cased, with a count of one.
pub open spec fn word_count_pairs(text: Seq<char>) -> Seq<(Seq<u8>, Seq<u8>)> {
    words(text).map_values(|w: Seq<char>| (encode_utf8(lowercase_text(w)), seq![49u8]))
}

/// Emits `(word, "1")` for every whitespace-separated word of the record, lower-cased.
pub struct WordCountMapFunction;

impl MapFunction for WordCountMapFunction {
    open spec fn map_spec(&self, key: Seq<u8>, value: Seq<u8>) -> Option<Seq<(Seq<u8>, Seq<u8>)>> {
        Some(word_count_pairs(utf8_lossy_text(value)))
    }

    fn map(&self, key: Vec<u8>, value: Vec<u8>) -> (r: Result<Vec<(Vec<u8>, Vec<u8>)>, String>)
        ensures
            r matches Ok(out) && out@.len() == word_count_pairs(utf8_lossy_text(value@)).len() && (
            forall|i: int|
                0 <= i < out@.len() ==> ((#[trigger] out@[i]).0@, out@[i].1@) == word_count_pairs(
                    utf8_lossy_text(value@),
                )[i]),
    {
        let text = utf8_lossy(value.as_slice());
        let ws = split_whitespace(text.as_str());
        let mut out: Vec<(Vec<u8>, Vec<u8>)> = Vec::new();
        let ghost expected = word_count_pairs(text@);
        let mut i: usize = 0;
        while i < ws.len()
            invariant
                i <= ws@.len(),
                ws@.len() == words(text@).len(),
                forall|j: int| 0 <= j < ws@.len() ==> #[trigger] ws@[j]@ == words(text@)[j],
                expected == word_count_pairs(text@),
                out@.len() == i,
                forall|j: int| 0 <= j < i ==> ((#[trigger] out@[j]).0@, out@[j].1@) == expected[j],
            decreases ws@.len() - i,
        {
            let lower = to_lowercase(ws[i].as_str());
            let word_bytes = utf8_bytes(lower.as_str());
            let count_bytes: Vec<u8> = vec![49u8];
            assert(count_bytes@ =~= seq![49u8]);
            out.push((word_bytes, count_bytes));
            i = i + 1;
        }
        assert(pairs_view(out@) =~= expected);
        Ok(out)
    }

    fn name(&self) -> (s: String)
        ensures
            s@ == "WordCount"@,
    {
        string_of("WordCount")
    }
}

/// The value a count contributes: its decimal value, or zero if it is not a number.
pub open spec fn count_value(v: Seq<u8>) -> nat {
    match parse_u32_text(utf8_lossy_text(v)) {
        Some(n) => n as nat,
        None => 0,
    }
}

/// The total of the counts of `values`.
pub open spec fn count_total(values: Seq<Vec<u8>>) -> nat
    decreases values.len(),
{
    if values.len() == 0 {
        0
    } else {
        count_total(values.drop_last()) + count_value(values.last()@)
    }
}

/// The total of the counts of `values`.
pub open spec fn count_total_of(values: Seq<Seq<u8>>) -> nat
    decreases values.len(),
{
    if values.len() == 0 {
        0
    } else {
        count_total_of(values.drop_last()) + count_value(values.last())
    }
}

proof fn lemma_count_total_views(values: Seq<Vec<u8>>)
    ensures
        count_total(values) == count_total_of(bytes_view(values)),
    decreases values.len(),
{
    if values.len() > 0 {
        lemma_count_total_views(values.drop_last());
        assert(bytes_view(values).drop_last() =~= bytes_view(values.drop_last()));
    }
}

/// Every running total of the counts fits in 32 bits.
pub open spec fn count_totals_fit_of(values: Seq<Seq<u8>>) -> bool {
    forall|k: int| 0 <= k <= values.len() ==> #[trigger] count_total_of(values.take(k)) <= u32::MAX
}

proof fn lemma_count_totals_fit_views(values: Seq<Vec<u8>>)
    ensures
        count_totals_fit(values) == count_totals_fit_of(bytes_view(values)),
{
    assert forall|k: int| 0 <= k <= values.len() implies #[trigger] count_total(values.take(k))
        == count_total_of(bytes_view(values).take(k)) by {
        lemma_count_total_views(values.take(k));
        assert(bytes_view(values.take(k)) =~= bytes_view(values).take(k));
    }
    if count_totals_fit(values) {
        assert forall|k: int| 0 <= k <= bytes_view(values).len() implies #[trigger] count_total_of(
            bytes_view(values).take(k),
        ) <= u32::MAX by {
            assert(count_total(values.take(k)) <= u32::MAX);
        }
    }
    if count_totals_fit_of(bytes_view(values)) {
        assert forall|k: int| 0 <= k <= values.len() implies #[trigger] count_total(values.take(k)) <= u32::MAX by {
            assert(count_total_of(bytes_view(values).take(k)) <= u32::MAX);
        }
    }
}

/// Every running total of the counts fits in 32 bits.
pub open spec fn count_totals_fit(values: Seq<Vec<u8>>) -> bool {
    forall|k: int| 0 <= k <= values.len() ==> #[trigger] count_total(values.take(k)) <= u32::MAX
}

/// Sums the counts of a word and reports `word: total`.
pub struct WordCountReduceFunction;

impl WordCountReduceFunction {
    /// Adds up the counts; a value that is not a decimal number counts as zero.
    pub fn total(values: &Vec<Vec<u8>>) -> (n: u32)
        requires
            count_totals_fit(values@),
        ensures
            n == count_total(values@),
    {
        let mut total: u32 = 0;
        let mut i: usize = 0;
        while i < values.len()
            invariant
                i <= values@.len(),
                count_totals_fit(values@),
                total == count_total(values@.take(i as int)),
            decreases values@.len() - i,
        {
            let text = utf8_lossy(values[i].as_slice());
            let c = match parse_u32(text.as_str()) {
                Some(n) => n,
                None => 0,
            };
            proof {
                assert(values@.take(i + 1).drop_last() =~= values@.take(i as int));
                assert(count_total(values@.take(i + 1)) <= u32::MAX);
            }
            total = total + c;
            i = i + 1;
        }
        assert(values@.take(values@.len() as int) =~= values@);
        total
    }
}

impl ReduceFunction for WordCountReduceFunction {
    open spec fn reduce_spec(&self, key: Seq<u8>, values: Seq<Seq<u8>>) -> Option<Seq<u8>> {
        if count_totals_fit_of(values) {
            Some(encode_utf8(utf8_lossy_text(key) + ": "@ + decimal_text(count_total_of(values))))
        } else {
            None
        }
    }

    fn reduce(&self, key: Vec<u8>, values: Vec<Vec<u8>>) -> (r: Result<Vec<u8>, String>)
        ensures
            count_totals_fit(values@) ==> (r matches Ok(out) && out@ == encode_utf8(
                utf8_lossy_text(key@) + ": "@ + decimal_text(count_total(values@)),
            )),
            !count_totals_fit(values@) ==> r is Err,
    {
        proof {
            lemma_count_totals_fit_views(values@);
            lemma_count_total_views(values@);
        }
        if !Self::fits(&values) {
            return Err(string_of("count overflow"));
        }
        let count = Self::total(&values);
        let mut text = utf8_lossy(key.as_slice());
        push_text(&mut text, ": ");
        push_decimal(&mut text, count as u64);
        Ok(utf8_bytes(text.as_str()))
    }

    fn name(&self) -> (s: String)
        ensures
            s@ == "WordCount"@,
    {
        string_of("WordCount")
    }
}

impl WordCountReduceFunction {
    /// Whether the counts of `values` can be added up in 32 bits.
    pub fn fits(values: &Vec<Vec<u8>>) -> (b: bool)
        ensures
            b == count_totals_fit(values@),
    {
        let mut total: u64 = 0;
        let mut i: usize = 0;
        assert(count_total(values@.take(0)) == 0);
        while i < values.len()
            invariant
                i <= values@.len(),
                total == count_total(values@.take(i as int)),
                total <= u32::MAX,
                forall|k: int| 0 <= k <= i ==> #[trigger] count_total(values@.take(k)) <= u32::MAX,
            decreases values@.len() - i,
        {
            let text = utf8_lossy(values[i].as_slice());
            let c = match parse_u32(text.as_str()) {
                Some(n) => n,
                None => 0,
            };
            proof {
                assert(values@.take(i + 1).drop_last() =~= values@.take(i as int));
            }
            let next = total + c as u64;
            if next > 4294967295 {
                assert(count_total(values@.take(i + 1)) > u32::MAX);
                return false;
            }
            total = next;
            i = i + 1;
        }
        assert(values@.take(values@.len() as int) =~= values@);
        true
    }
}

// ---------------------------------------------------------------------------
// Jobs and their tasks
// ---------------------------------------------------------------------------

/// The size of each map partition: the input divided by the number of map
/// tasks, rounded up.
pub open spec fn partition_size(len: nat, parts: nat) -> nat {
    ((len + parts - 1) as nat) / parts
}

/// Where map partition `i` starts.
pub open spec fn partition_start(len: nat, parts: nat, i: nat) -> nat {
    i * partition_size(len, parts)
}

/// Where map partition `i` ends.
pub open spec fn partition_end(len: nat, parts: nat, i: nat) -> nat {
    let e = partition_start(len, parts, i) + partition_size(len, parts);
    if e < len {
        e
    } else {
        len
    }
}

/// The inputs whose map partitions can be cut: every partition starts
/// within the input (else slicing it would panic).
pub open spec fn partitions_fit(len: nat, parts: nat) -> bool {
    parts > 0 ==> partition_start(len, parts, (parts - 1) as nat) <= len
}

/// Map partition `i` of `data`.
pub open spec fn partition_bytes(data: Seq<u8>, parts: nat, i: nat) -> Seq<u8> {
    data.subrange(
        partition_start(data.len(), parts, i) as int,
        partition_end(data.len(), parts, i) as int,
    )
}

/// The concatenation of the first `k` map partitions.
pub open spec fn partitions_joined(data: Seq<u8>, parts: nat, k: nat) -> Seq<u8>
    decreases k,
{
    if k == 0 {
        Seq::empty()
    } else {
        partitions_joined(data, parts, (k - 1) as nat) + partition_bytes(data, parts, (k - 1) as nat)
    }
}

proof fn lemma_partition_step(len: nat, parts: nat, i: nat)
    requires
        parts > 0,
        i < parts,
        partitions_fit(len, parts),
    ensures
        partition_start(len, parts, i) <= len,
        partition_start(len, parts, i) <= partition_end(len, parts, i),
        i + 1 < parts ==> partition_end(len, parts, i) == partition_start(len, parts, i + 1),
        i + 1 == parts ==> partition_end(len, parts, i) == len,
{
    let ps = partition_size(len, parts);
    assert(i * ps <= (parts - 1) * ps) by (nonlinear_arith)
        requires
            i <= parts - 1,
    ;
    assert((i + 1) * ps == i * ps + ps) by (nonlinear_arith);
    if i + 1 == parts {
        assert(parts * ps >= len) by (nonlinear_arith)
            requires
                parts > 0,
                ps == ((len + parts - 1) as nat) / parts,
        ;
        assert(parts * ps == (parts - 1) * ps + ps) by (nonlinear_arith);
    } else {
        assert((i + 1) * ps <= (parts - 1) * ps) by (nonlinear_arith)
            requires
                i + 1 <= parts - 1,
        ;
    }
}

proof fn lemma_partitions_joined(data: Seq<u8>, parts: nat, k: nat)
    requires
        parts > 0,
        k <= parts,
        partitions_fit(data.len(), parts),
    ensures
        k == 0 ==> partitions_joined(data, parts, k) == Seq::<u8>::empty(),
        k > 0 ==> partitions_joined(data, parts, k) == data.subrange(
            0,
            partition_end(data.len(), parts, (k - 1) as nat) as int,
        ),
    decreases k,
{
    if k > 0 {
        lemma_partition_step(data.len(), parts, (k - 1) as nat);
        if k > 1 {
            lemma_partitions_joined(data, parts, (k - 1) as nat);
            lemma_partition_step(data.len(), parts, (k - 2) as nat);
            assert(partitions_joined(data, parts, k) =~= data.subrange(
                0,
                partition_end(data.len(), parts, (k - 1) as nat) as int,
            ));
        } else {
            assert(partition_start(data.len(), parts, 0) == 0);
            assert(partitions_joined(data, parts, 0) == Seq::<u8>::empty());
            assert(partitions_joined(data, parts, k) =~= data.subrange(
                0,
                partition_end(data.len(), parts, 0) as int,
            ));
        }
    }
}

/// The map partitions of an input, taken in order, make up the whole input.
pub proof fn lemma_partitions_cover_input(data: Seq<u8>, parts: nat)
    requires
        parts > 0,
        partitions_fit(data.len(), parts),
    ensures
        partitions_joined(data, parts, parts) == data,
{
    lemma_partitions_joined(data, parts, parts);
    lemma_partition_step(data.len(), parts, (parts - 1) as nat);
    assert(data.subrange(0, data.len() as int) =~= data);
}

/// The input partitions of the first `k` tasks, concatenated in order.
pub open spec fn task_inputs_joined(tasks: Seq<MapReduceTask>, k: nat) -> Seq<u8>
    decreases k,
{
    if k == 0 {
        Seq::empty()
    } else {
        task_inputs_joined(tasks, (k - 1) as nat) + tasks[k - 1].input_partition@
    }
}

/// The map tasks that `Job::generate_tasks` makes hold the whole input: the
/// first `parts` tasks, each with its map partition, give back the input
/// when their partitions are concatenated in order.
pub proof fn lemma_generated_tasks_cover_input(tasks: Seq<MapReduceTask>, input: Seq<u8>, parts: nat)
    requires
        parts > 0,
        partitions_fit(input.len(), parts),
        tasks.len() >= parts,
        forall|i: int| 0 <= i < parts ==> (#[trigger] tasks[i]).input_partition@ == partition_bytes(input, parts, i as nat),
    ensures
        task_inputs_joined(tasks, parts) == input,
{
    lemma_task_inputs_joined(tasks, input, parts, parts);
    lemma_partitions_cover_input(input, parts);
}

proof fn lemma_task_inputs_joined(tasks: Seq<MapReduceTask>, input: Seq<u8>, parts: nat, k: nat)
    requires
        k <= parts,
        tasks.len() >= parts,
        forall|i: int| 0 <= i < parts ==> (#[trigger] tasks[i]).input_partition@ == partition_bytes(input, parts, i as nat),
    ensures
        task_inputs_joined(tasks, k) == partitions_joined(input, parts, k),
    decreases k,
{
    if k > 0 {
        lemma_task_inputs_joined(tasks, input, parts, (k - 1) as nat);
        assert(tasks[k - 1].input_partition@ == partition_bytes(input, parts, (k - 1) as nat));
    }
}

/// A MapReduce job: its name, its map and reduce functions, its input, its
/// configuration and the tasks generated for it. The submission time is in
/// milliseconds since the Unix epoch.
pub struct Job<M, R> {
    id: JobId,
    job_name: String,
    map_function: M,
    reduce_function: R,
    input_data: Vec<u8>,
    configuration: JobConfig,
    tasks: Vec<MapReduceTask>,
    submission_time: u64,
}

impl Job<IdentityMapFunction, IdentityReduceFunction> {
    /// A new job with identity functions, no input and the default configuration.
    pub fn new(job_name: &str) -> (j: Self)
        ensures
            j.job_name_view() == job_name@,
            j.input_view() == Seq::<u8>::empty(),
            j.tasks_view().len() == 0,
            j.config_view().map_tasks == 4,
            j.config_view().reduce_tasks == 2,
    {
        Job {
            id: fresh_id(),
            job_name: string_of(job_name),
            map_function: IdentityMapFunction,
            reduce_function: IdentityReduceFunction,
            input_data: Vec::new(),
            configuration: JobConfig::default(),
            tasks: Vec::new(),
            submission_time: now_millis(),
        }
    }
}

impl<M, R> Job<M, R> {
    pub closed spec fn job_name_view(&self) -> Seq<char> {
        self.job_name@
    }

    pub closed spec fn input_view(&self) -> Seq<u8> {
        self.input_data@
    }

    pub closed spec fn tasks_view(&self) -> Seq<MapReduceTask> {
        self.tasks@
    }

    pub closed spec fn config_view(&self) -> JobConfig {
        self.configuration
    }

    pub closed spec fn id_view(&self) -> JobId {
        self.id
    }

    pub closed spec fn map_fn_view(&self) -> M {
        self.map_function
    }

    pub closed spec fn reduce_fn_view(&self) -> R {
        self.reduce_function
    }

    /// Replaces the map function.
    pub fn map_function<F>(self, map_fn: F) -> (j: Job<F, R>)
        ensures
            j.job_name_view() == self.job_name_view(),
            j.input_view() == self.input_view(),
            j.tasks_view() == self.tasks_view(),
            j.config_view() == self.config_view(),
            j.id_view() == self.id_view(),
    {
        Job {
            id: self.id,
            job_name: self.job_name,
            map_function: map_fn,
            reduce_function: self.reduce_function,
            input_data: self.input_data,
            configuration: self.configuration,
            tasks: self.tasks,
            submission_time: self.submission_time,
        }
    }

    /// Replaces the reduce function.
    pub fn reduce_function<F>(self, reduce_fn: F) -> (j: Job<M, F>)
        ensures
            j.job_name_view() == self.job_name_view(),
            j.input_view() == self.input_view(),
            j.tasks_view() == self.tasks_view(),
            j.config_view() == self.config_view(),
            j.id_view() == self.id_view(),
    {
        Job {
            id: self.id,
            job_name: self.job_name,
            map_function: self.map_function,
            reduce_function: reduce_fn,
            input_data: self.input_data,
            configuration: self.configuration,
            tasks: self.tasks,
            submission_time: self.submission_time,
        }
    }

    /// Replaces the input data.
    pub fn input_data(self, data: Vec<u8>) -> (j: Self)
        ensures
            j.job_name_view() == self.job_name_view(),
            j.input_view() == data@,
            j.tasks_view() == self.tasks_view(),
            j.config_view() == self.config_view(),
            j.id_view() == self.id_view(),
    {
        Job { input_data: data, ..self }
    }

    /// Replaces the configuration.
    pub fn configuration(self, config: JobConfig) -> (j: Self)
        ensures
            j.job_name_view() == self.job_name_view(),
            j.input_view() == self.input_view(),
            j.tasks_view() == self.tasks_view(),
            j.config_view() == config,
            j.id_view() == self.id_view(),
    {
        Job { configuration: config, ..self }
    }

    /// The job identifier.
    pub fn id(&self) -> (id: JobId)
        ensures
            id == self.id_view(),
    {
        self.id
    }

    /// The job name.
    pub fn job_name(&self) -> (n: &str)
        ensures
            n@ == self.job_name_view(),
    {
        self.job_name.as_str()
    }

    /// The number of tasks.
    pub fn task_count(&self) -> (n: usize)
        ensures
            n == self.tasks_view().len(),
    {
        self.tasks.len()
    }

    /// The tasks.
    pub fn tasks(&self) -> (t: &[MapReduceTask])
        ensures
            t@ == self.tasks_view(),
    {
        self.tasks.as_slice()
    }

    /// The configuration.
    pub fn config(&self) -> (c: &JobConfig)
        ensures
            *c == self.config_view(),
    {
        &self.configuration
    }

    /// The input data.
    pub fn input(&self) -> (d: &[u8])
        ensures
            d@ == self.input_view(),
    {
        self.input_data.as_slice()
    }

    /// Map partition `partition_index` of the input.
    pub fn partition_input_data(&self, partition_index: usize) -> (p: Vec<u8>)
        requires
            self.config_view().map_tasks > 0,
            partition_index < self.config_view().map_tasks,
            partitions_fit(self.input_view().len(), self.config_view().map_tasks as nat),
            self.input_view().len() + self.config_view().map_tasks <= usize::MAX,
        ensures
            p@ == partition_bytes(
                self.input_view(),
                self.config_view().map_tasks as nat,
                partition_index as nat,
            ),
    {
        let total_partitions = self.configuration.map_tasks;
        let data_len = self.input_data.len();
        let partition_size = (data_len + total_partitions - 1) / total_partitions;
        proof {
            lemma_partition_step(data_len as nat, total_partitions as nat, partition_index as nat);
            assert(partition_size <= data_len + total_partitions) by (nonlinear_arith)
                requires
                    total_partitions > 0,
                    partition_size == (data_len + total_partitions - 1) as int / total_partitions as int,
            ;
        }
        let start = partition_index * partition_size;
        let end = if partition_size < data_len - start {
            start + partition_size
        } else {
            data_len
        };
        let mut p: Vec<u8> = Vec::new();
        let mut i = start;
        while i < end
            invariant
                start <= i <= end <= data_len,
                data_len == self.input_data@.len(),
                p@ == self.input_data@.subrange(start as int, i as int),
            decreases end - i,
        {
            p.push(self.input_data[i]);
            i = i + 1;
            assert(p@ =~= self.input_data@.subrange(start as int, i as int));
        }
        p
    }

    /// Generates the job's tasks: one map task per map partition, in order,
    /// holding that partition of the input, then the reduce tasks with empty
    /// inputs; all pending, unassigned and never retried.
    pub fn generate_tasks(&mut self) -> (r: Result<(), String>)
        requires
            partitions_fit(old(self).input_view().len(), old(self).config_view().map_tasks as nat),
            old(self).input_view().len() + old(self).config_view().map_tasks <= usize::MAX,
            old(self).config_view().map_tasks + old(self).config_view().reduce_tasks <= usize::MAX,
        ensures
            r is Ok,
            final(self).input_view() == old(self).input_view(),
            final(self).config_view() == old(self).config_view(),
            final(self).job_name_view() == old(self).job_name_view(),
            final(self).id_view() == old(self).id_view(),
            final(self).map_fn_view() == old(self).map_fn_view(),
            final(self).reduce_fn_view() == old(self).reduce_fn_view(),
            final(self).tasks_view().len() == old(self).config_view().map_tasks + old(
                self,
            ).config_view().reduce_tasks,
            forall|i: int|
                0 <= i < final(self).tasks_view().len() ==> {
                    let t = #[trigger] final(self).tasks_view()[i];
                    &&& t.job_id == old(self).id_view()
                    &&& t.status == TaskStatus::Pending
                    &&& t.map_output is None
                    &&& t.assigned_node is None
                    &&& t.retry_count == 0
                    &&& if i < old(self).config_view().map_tasks {
                        t.task_type == TaskType::MapTask && t.input_partition@ == partition_bytes(
                            old(self).input_view(),
                            old(self).config_view().map_tasks as nat,
                            i as nat,
                        )
                    } else {
                        t.task_type == TaskType::Reduce && t.input_partition@.len() == 0
                    }
                },
    {
        self.tasks = Vec::new();
        let maps = self.configuration.map_tasks;
        let reduces = self.configuration.reduce_tasks;
        let mut i: usize = 0;
        while i < maps
            invariant
                i <= maps,
                maps == self.configuration.map_tasks,
                reduces == self.configuration.reduce_tasks,
                self.input_data == old(self).input_data,
                self.configuration == old(self).configuration,
                self.id == old(self).id,
                self.job_name == old(self).job_name,
                self.map_function == old(self).map_function,
                self.reduce_function == old(self).reduce_function,
                partitions_fit(self.input_data@.len(), maps as nat),
                self.input_data@.len() + maps <= usize::MAX,
                self.tasks@.len() == i,
                forall|k: int|
                    0 <= k < i ==> {
                        let t = #[trigger] self.tasks@[k];
                        &&& t.job_id == self.id
                        &&& t.status == TaskStatus::Pending
                        &&& t.map_output is None
                        &&& t.assigned_node is None
                        &&& t.retry_count == 0
                        &&& t.task_type == TaskType::MapTask
                        &&& t.input_partition@ == partition_bytes(self.input_data@, maps as nat, k as nat)
                    },
            decreases maps - i,
        {
            let partition = self.partition_input_data(i);
            let task = MapReduceTask {
                task_id: fresh_id(),
                job_id: self.id,
                task_type: TaskType::MapTask,
                input_partition: partition,
                map_output: None,
                status: TaskStatus::Pending,
                assigned_node: None,
                start_time: None,
                completion_time: None,
                retry_count: 0,
            };
            self.tasks.push(task);
            i = i + 1;
        }
        let mut j: usize = 0;
        while j < reduces
            invariant
                j <= reduces,
                maps == self.configuration.map_tasks,
                reduces == self.configuration.reduce_tasks,
                maps + reduces <= usize::MAX,
                self.input_data == old(self).input_data,
                self.configuration == old(self).configuration,
                self.id == old(self).id,
                self.job_name == old(self).job_name,
                self.map_function == old(self).map_function,
                self.reduce_function == old(self).reduce_function,
                self.tasks@.len() == maps + j,
                forall|k: int|
                    0 <= k < maps + j ==> {
                        let t = #[trigger] self.tasks@[k];
                        &&& t.job_id == self.id
                        &&& t.status == TaskStatus::Pending
                        &&& t.map_output is None
                        &&& t.assigned_node is None
                        &&& t.retry_count == 0
                        &&& if k < maps {
                            t.task_type == TaskType::MapTask && t.input_partition@ == partition_bytes(
                                self.input_data@,
                                maps as nat,
                                k as nat,
                            )
                        } else {
                            t.task_type == TaskType::Reduce && t.input_partition@.len() == 0
                        }
                    },
            decreases reduces - j,
        {
            let task = MapReduceTask {
                task_id: fresh_id(),
                job_id: self.id,
                task_type: TaskType::Reduce,
                input_partition: Vec::new(),
                map_output: None,
                status: TaskStatus::Pending,
                assigned_node: None,
                start_time: None,
                completion_time: None,
                retry_count: 0,
            };
            self.tasks.push(task);
            j = j + 1;
        }
        Ok(())
    }
}

// ---------------------------------------------------------------------------
// Shuffle: grouping and partitioning intermediate pairs
// ---------------------------------------------------------------------------

/// The sum of the bytes of a key.
pub open spec fn byte_sum(key: Seq<u8>) -> nat
    decreases key.len(),
{
    if key.len() == 0 {
        0
    } else {
        byte_sum(key.drop_last()) + key.last() as nat
    }
}

/// The reduce partition of a key: the sum of its bytes modulo the number of
/// partitions, or 0 when there are none.
pub open spec fn partition_index(key: Seq<u8>, partitions: nat) -> nat {
    if partitions == 0 {
        0
    } else {
        byte_sum(key) % partitions
    }
}

proof fn lemma_byte_sum_bound(key: Seq<u8>)
    ensures
        byte_sum(key) <= 255 * key.len(),
    decreases key.len(),
{
    if key.len() > 0 {
        lemma_byte_sum_bound(key.drop_last());
    }
}

/// The keys of `pairs`, each once, in the order of their first occurrence.
pub open spec fn distinct_keys(pairs: Seq<(Seq<u8>, Seq<u8>)>) -> Seq<Seq<u8>>
    decreases pairs.len(),
{
    if pairs.len() == 0 {
        Seq::empty()
    } else {
        let ks = distinct_keys(pairs.drop_last());
        if ks.contains(pairs.last().0) {
            ks
        } else {
            ks.push(pairs.last().0)
        }
    }
}

/// The values paired with `key`, in order.
pub open spec fn values_of(pairs: Seq<(Seq<u8>, Seq<u8>)>, key: Seq<u8>) -> Seq<Seq<u8>>
    decreases pairs.len(),
{
    if pairs.len() == 0 {
        Seq::empty()
    } else {
        let vs = values_of(pairs.drop_last(), key);
        if pairs.last().0 == key {
            vs.push(pairs.last().1)
        } else {
            vs
        }
    }
}

/// The abstract value of a list of pairs of byte vectors.
pub open spec fn pairs_view(pairs: Seq<(Vec<u8>, Vec<u8>)>) -> Seq<(Seq<u8>, Seq<u8>)> {
    pairs.map_values(|p: (Vec<u8>, Vec<u8>)| (p.0@, p.1@))
}

/// The abstract value of a list of byte vectors.
pub open spec fn bytes_view(vs: Seq<Vec<u8>>) -> Seq<Seq<u8>> {
    vs.map_values(|v: Vec<u8>| v@)
}

/// `groups` holds each key of `pairs` once, in first-occurrence order, with
/// all of its values in order.
pub open spec fn groups_match(groups: Seq<(Vec<u8>, Vec<Vec<u8>>)>, pairs: Seq<(Seq<u8>, Seq<u8>)>) -> bool {
    &&& groups.len() == distinct_keys(pairs).len()
    &&& forall|i: int|
        0 <= i < groups.len() ==> (#[trigger] groups[i]).0@ == distinct_keys(pairs)[i] && bytes_view(
            groups[i].1@,
        ) == values_of(pairs, groups[i].0@)
}

proof fn lemma_absent_key_no_values(pairs: Seq<(Seq<u8>, Seq<u8>)>, key: Seq<u8>)
    requires
        !distinct_keys(pairs).contains(key),
    ensures
        values_of(pairs, key) == Seq::<Seq<u8>>::empty(),
    decreases pairs.len(),
{
    if pairs.len() > 0 {
        let ks = distinct_keys(pairs.drop_last());
        if ks.contains(key) {
            let j = ks.index_of(key);
            assert(distinct_keys(pairs)[j] == key);
        }
        lemma_absent_key_no_values(pairs.drop_last(), key);
        if pairs.last().0 == key {
            assert(distinct_keys(pairs).last() == key);
        }
    }
}

proof fn lemma_distinct_keys_distinct(pairs: Seq<(Seq<u8>, Seq<u8>)>)
    ensures
        distinct_keys(pairs).no_duplicates(),
    decreases pairs.len(),
{
    if pairs.len() > 0 {
        lemma_distinct_keys_distinct(pairs.drop_last());
    }
}

fn bytes_equal(a: &Vec<u8>, b: &Vec<u8>) -> (r: bool)
    ensures
        r == (a@ == b@),
{
    if a.len() != b.len() {
        return false;
    }
    let mut i: usize = 0;
    while i < a.len()
        invariant
            a@.len() == b@.len(),
            i <= a@.len(),
            forall|j: int| 0 <= j < i ==> a@[j] == b@[j],
        decreases a@.len() - i,
    {
        if a[i] != b[i] {
            return false;
        }
        i = i + 1;
    }
    assert(a@ =~= b@);
    true
}

fn copy_bytes(v: &Vec<u8>) -> (c: Vec<u8>)
    ensures
        c@ == v@,
{
    let mut c: Vec<u8> = Vec::new();
    let mut i: usize = 0;
    while i < v.len()
        invariant
            i <= v@.len(),
            c@ == v@.subrange(0, i as int),
        decreases v@.len() - i,
    {
        c.push(v[i]);
        i = i + 1;
        assert(c@ =~= v@.subrange(0, i as int));
    }
    assert(c@ =~= v@);
    c
}

/// Groups intermediate pairs by key (the shuffle): each key appears once, in
/// the order of its first occurrence, with all its values in order.
pub fn group_by_key(pairs: &Vec<(Vec<u8>, Vec<u8>)>) -> (groups: Vec<(Vec<u8>, Vec<Vec<u8>>)>)
    ensures
        groups_match(groups@, pairs_view(pairs@)),
{
    let mut groups: Vec<(Vec<u8>, Vec<Vec<u8>>)> = Vec::new();
    let mut i: usize = 0;
    while i < pairs.len()
        invariant
            i <= pairs@.len(),
            groups_match(groups@, pairs_view(pairs@).take(i as int)),
        decreases pairs@.len() - i,
    {
        let ghost pre = pairs_view(pairs@).take(i as int);
        let ghost post = pairs_view(pairs@).take(i + 1);
        let key = &pairs[i].0;
        let value = copy_bytes(&pairs[i].1);
        assert(post.drop_last() =~= pre);
        assert(post.last() == (key@, value@));
        let mut j: usize = 0;
        let mut found = false;
        while j < groups.len()
            invariant_except_break
                !found,
            invariant
                j <= groups@.len(),
                groups_match(groups@, pre),
                forall|k: int| 0 <= k < j ==> (#[trigger] groups@[k]).0@ != key@,
            ensures
                j <= groups@.len(),
                groups_match(groups@, pre),
                forall|k: int| 0 <= k < j ==> (#[trigger] groups@[k]).0@ != key@,
                found ==> j < groups@.len() && groups@[j as int].0@ == key@,
                !found ==> j == groups@.len(),
            decreases groups@.len() - j,
        {
            if bytes_equal(&groups[j].0, key) {
                found = true;
                break;
            }
            j = j + 1;
        }
        if found {
            let ghost old_groups = groups@;
            let mut g = groups.remove(j);
            let ghost old_vals = g.1@;
            g.1.push(value);
            groups.insert(j, g);
            proof {
                lemma_distinct_keys_distinct(pre);
                assert(distinct_keys(pre)[j as int] == key@);
                assert(distinct_keys(pre).contains(key@));
                assert(distinct_keys(post) == distinct_keys(pre));
                assert forall|k: int| 0 <= k < groups@.len() implies (#[trigger] groups@[k]).0@
                    == distinct_keys(post)[k] && bytes_view(groups@[k].1@) == values_of(post, groups@[k].0@) by {
                    if k == j {
                        assert(bytes_view(groups@[k].1@) =~= bytes_view(old_vals).push(value@));
                    } else {
                        assert(groups@[k] == old_groups[k]);
                        assert(old_groups[k].0@ != key@) by {
                            assert(distinct_keys(pre)[k] != distinct_keys(pre)[j as int]);
                        }
                    }
                }
            }
        } else {
            let k2 = copy_bytes(key);
            let vals: Vec<Vec<u8>> = vec![value];
            let ghost old_groups = groups@;
            groups.push((k2, vals));
            proof {
                assert(!distinct_keys(pre).contains(key@)) by {
                    if distinct_keys(pre).contains(key@) {
                        let m = distinct_keys(pre).index_of(key@);
                        assert(old_groups[m].0@ == distinct_keys(pre)[m]);
                        assert(old_groups[m].0@ != key@);
                    }
                }
                lemma_absent_key_no_values(pre, key@);
                assert(distinct_keys(post) == distinct_keys(pre).push(key@));
                assert forall|k: int| 0 <= k < groups@.len() implies (#[trigger] groups@[k]).0@
                    == distinct_keys(post)[k] && bytes_view(groups@[k].1@) == values_of(post, groups@[k].0@) by {
                    if k == old_groups.len() {
                        assert(bytes_view(groups@[k].1@) =~= seq![value@]);
                        assert(values_of(post, key@) =~= seq![value@]);
                    } else {
                        assert(groups@[k] == old_groups[k]);
                    }
                }
            }
        }
        i = i + 1;
    }
    assert(pairs_view(pairs@).take(pairs@.len() as int) =~= pairs_view(pairs@));
    groups
}

/// Filtering a sequence with one more element at the end.
pub proof fn lemma_filter_push<A>(s: Seq<A>, pred: spec_fn(A) -> bool, e: A)
    ensures
        pred(e) ==> s.push(e).filter(pred) == s.filter(pred).push(e),
        !pred(e) ==> s.push(e).filter(pred) == s.filter(pred),
{
    reveal(Seq::filter);
    assert(s.push(e).drop_last() =~= s);
}

/// The reduce partition of `key`.
pub fn calculate_partition_index(key: &[u8], partitions: usize) -> (p: usize)
    requires
        255 * key@.len() <= usize::MAX,
    ensures
        p == partition_index(key@, partitions as nat),
        partitions > 0 ==> p < partitions,
{
    if partitions == 0 {
        return 0;
    }
    let mut hash: usize = 0;
    let mut i: usize = 0;
    while i < key.len()
        invariant
            i <= key@.len(),
            255 * key@.len() <= usize::MAX,
            hash == byte_sum(key@.take(i as int)),
        decreases key@.len() - i,
    {
        proof {
            assert(key@.take(i + 1).drop_last() =~= key@.take(i as int));
            lemma_byte_sum_bound(key@.take(i + 1));
        }
        hash = hash + key[i] as usize;
        i = i + 1;
    }
    assert(key@.take(key@.len() as int) =~= key@);
    hash % partitions
}

/// Sends every key group to its reduce partition: partition `p` holds, in
/// order, the groups whose key falls in `p`. There is one partition per
/// reduce task, or a single one when there are none.
pub fn partition_for_reduce(groups: &Vec<(Vec<u8>, Vec<Vec<u8>>)>, reduce_tasks: usize) -> (parts: Vec<Vec<usize>>)
    requires
        forall|i: int| 0 <= i < groups@.len() ==> 255 * (#[trigger] groups@[i]).0@.len() <= usize::MAX,
    ensures
        parts@.len() == if reduce_tasks == 0 { 1 } else { reduce_tasks as int },
        forall|p: int|
            0 <= p < parts@.len() ==> (#[trigger] parts@[p])@ == Seq::new(groups@.len(), |i: int| i).filter(
                |i: int| partition_index(groups@[i].0@, reduce_tasks as nat) == p,
            ).map_values(|i: int| i as usize),
{
    let n = if reduce_tasks == 0 {
        1
    } else {
        reduce_tasks
    };
    let mut parts: Vec<Vec<usize>> = Vec::new();
    let mut p: usize = 0;
    while p < n
        invariant
            p <= n,
            parts@.len() == p,
            forall|q: int| 0 <= q < p ==> (#[trigger] parts@[q])@.len() == 0,
        decreases n - p,
    {
        parts.push(Vec::new());
        p = p + 1;
    }
    let ghost idx = Seq::new(groups@.len(), |i: int| i);
    let mut i: usize = 0;
    while i < groups.len()
        invariant
            i <= groups@.len(),
            n == if reduce_tasks == 0 { 1 } else { reduce_tasks as int },
            parts@.len() == n,
            idx == Seq::new(groups@.len(), |i: int| i),
            forall|i: int| 0 <= i < groups@.len() ==> 255 * (#[trigger] groups@[i]).0@.len() <= usize::MAX,
            forall|q: int|
                0 <= q < n ==> (#[trigger] parts@[q])@ == idx.take(i as int).filter(
                    |k: int| partition_index(groups@[k].0@, reduce_tasks as nat) == q,
                ).map_values(|k: int| k as usize),
        decreases groups@.len() - i,
    {
        let target = calculate_partition_index(groups[i].0.as_slice(), reduce_tasks);
        let ghost old_parts = parts@;
        let mut bucket = parts.remove(target);
        bucket.push(i);
        parts.insert(target, bucket);
        proof {
            assert(idx.take(i + 1) =~= idx.take(i as int).push(i as int));
            assert forall|q: int| 0 <= q < n implies (#[trigger] parts@[q])@ == idx.take(i + 1).filter(
                |k: int| partition_index(groups@[k].0@, reduce_tasks as nat) == q,
            ).map_values(|k: int| k as usize) by {
                let f = |k: int| partition_index(groups@[k].0@, reduce_tasks as nat) == q;
                lemma_filter_push(idx.take(i as int), f, i as int);
                if q == target {
                    assert(parts@[q]@ =~= old_parts[q]@.push(i));
                    assert(idx.take(i + 1).filter(f).map_values(|k: int| k as usize) =~= idx.take(
                        i as int,
                    ).filter(f).map_values(|k: int| k as usize).push(i));
                } else {
                    assert(parts@[q] == old_parts[q]);
                }
            }
        }
        i = i + 1;
    }
    assert(idx.take(groups@.len() as int) =~= idx);
    parts
}

// ---------------------------------------------------------------------------
// Combining reduce outputs
// ---------------------------------------------------------------------------

/// `parts` joined with `sep` between consecutive parts.
pub open spec fn join_text(parts: Seq<Seq<char>>, sep: Seq<char>) -> Seq<char>
    decreases parts.len(),
{
    if parts.len() == 0 {
        Seq::empty()
    } else if parts.len() == 1 {
        parts[0]
    } else {
        join_text(parts.drop_last(), sep) + sep + parts.last()
    }
}

/// The reduce outputs decoded as text.
pub open spec fn output_texts(results: Seq<Vec<u8>>) -> Seq<Seq<char>> {
    results.map_values(|r: Vec<u8>| utf8_lossy_text(r@))
}

/// The combined result of a job in an output format: the raw bytes one after
/// another, a JSON array of strings, or one result per line.
pub open spec fn combined_output(results: Seq<Vec<u8>>, format: OutputFormat) -> Seq<u8> {
    match format {
        OutputFormat::Binary => concat_all(results),
        OutputFormat::Json => encode_utf8(
            "[\""@ + join_text(output_texts(results), "\", \""@) + "\"]"@,
        ),
        _ => encode_utf8(join_text(output_texts(results), "\n"@)),
    }
}

fn join_results(results: &Vec<Vec<u8>>, sep: &str) -> (s: String)
    ensures
        s@ == join_text(output_texts(results@), sep@),
{
    let mut s = String::new();
    let mut i: usize = 0;
    while i < results.len()
        invariant
            i <= results@.len(),
            s@ == join_text(output_texts(results@.take(i as int)), sep@),
        decreases results@.len() - i,
    {
        let t = utf8_lossy(results[i].as_slice());
        proof {
            assert(output_texts(results@.take(i + 1)).drop_last() =~= output_texts(results@.take(i as int)));
            assert(output_texts(results@.take(i + 1)).last() == t@);
            if i == 0 {
                assert(output_texts(results@.take(0)).len() == 0);
            }
        }
        if i > 0 {
            push_text(&mut s, sep);
        }
        push_text(&mut s, t.as_str());
        proof {
            if i == 0 {
                assert(s@ =~= output_texts(results@.take(1))[0]);
            }
        }
        i = i + 1;
    }
    assert(results@.take(results@.len() as int) =~= results@);
    s
}

/// Combines the reduce outputs of a job in its output format.
pub fn combine_results(results: &Vec<Vec<u8>>, format: &OutputFormat) -> (out: Vec<u8>)
    ensures
        out@ == combined_output(results@, *format),
{
    match format {
        OutputFormat::Binary => concat_values(results),
        OutputFormat::Json => {
            let mut s = string_of("[\"");
            let body = join_results(results, "\", \"");
            push_text(&mut s, body.as_str());
            push_text(&mut s, "\"]");
            utf8_bytes(s.as_str())
        },
        OutputFormat::Csv => {
            let s = join_results(results, "\n");
            utf8_bytes(s.as_str())
        },
        OutputFormat::Text => {
            let s = join_results(results, "\n");
            utf8_bytes(s.as_str())
        },
    }
}

// ---------------------------------------------------------------------------
// Sum jobs over lists of 64-bit numbers in bincode format
// ---------------------------------------------------------------------------

/// The eight little-endian bytes of a 64-bit number.
pub open spec fn u64_le(n: u64) -> Seq<u8> {
    Seq::new(8, |i: int| ((n as nat / pow256(i as nat)) % 256) as u8)
}

pub open spec fn pow256(k: nat) -> nat
    decreases k,
{
    if k == 0 {
        1
    } else {
        256 * pow256((k - 1) as nat)
    }
}

/// The value of eight little-endian bytes.
pub open spec fn le_value(b: Seq<u8>) -> nat
    decreases b.len(),
{
    if b.len() == 0 {
        0
    } else {
        b[0] as nat + 256 * le_value(b.drop_first())
    }
}

/// The bincode encoding of a list of 64-bit numbers: its length as eight
/// little-endian bytes, then each number the same way.
pub open spec fn bincode_u64_list(nums: Seq<u64>) -> Seq<u8>
    decreases nums.len(),
{
    if nums.len() == 0 {
        u64_le(0)
    } else {
        let prev = bincode_u64_list(nums.drop_last());
        u64_le((nums.len()) as u64) + prev.subrange(8, prev.len() as int) + u64_le(nums.last())
    }
}

/// What bincode decodes from `bytes` as a list of 64-bit numbers: a length
/// prefix and that many numbers, eight little-endian bytes each; trailing
/// bytes are allowed.
pub open spec fn bincode_u64_list_decoded(bytes: Seq<u8>) -> Option<Seq<u64>> {
    if bytes.len() < 8 {
        None
    } else {
        let n = le_value(bytes.subrange(0, 8));
        if bytes.len() < 8 + 8 * n {
            None
        } else {
            Some(Seq::new(n, |i: int| le_value(bytes.subrange(8 + 8 * i, 16 + 8 * i)) as u64))
        }
    }
}

/// Serialises a 64-bit number with `bincode::serialize`, whose default
/// configuration (as its source shows) writes integers as fixed-width
/// little-endian bytes. Claimed: the eight little-endian bytes of `n`.
#[verifier::external_body]
fn bincode_u64(n: u64) -> (b: Vec<u8>)
    ensures
        b@ == u64_le(n),
{
    match bincode::serialize(&n) {
        Ok(b) => b,
        Err(_) => Vec::new(),
    }
}

/// Serialises a list of 64-bit numbers with `bincode::serialize`: a fixed
/// eight-byte little-endian length prefix, then each number as eight
/// little-endian bytes (the default configuration, per its source).
#[verifier::external_body]
fn bincode_u64s(nums: &Vec<u64>) -> (b: Vec<u8>)
    ensures
        b@ == bincode_u64_list(nums@),
{
    match bincode::serialize(nums) {
        Ok(b) => b,
        Err(_) => Vec::new(),
    }
}

/// Deserialises a list of 64-bit numbers with `bincode::deserialize`, which
/// reads the fixed-width little-endian length prefix and numbers and allows
/// trailing bytes. Claimed: the list decoded from `bytes`, or nothing when
/// they are too short.
#[verifier::external_body]
fn bincode_decode_u64s(bytes: &[u8]) -> (r: Option<Vec<u64>>)
    ensures
        match bincode_u64_list_decoded(bytes@) {
            Some(v) => r matches Some(x) && x@ == v,
            None => r is None,
        },
{
    bincode::deserialize::<Vec<u64>>(bytes).ok()
}

/// Passes every record through unchanged, for sums.
pub struct SumMapFunction;

impl MapFunction for SumMapFunction {
    open spec fn map_spec(&self, key: Seq<u8>, value: Seq<u8>) -> Option<Seq<(Seq<u8>, Seq<u8>)>> {
        Some(seq![(key, value)])
    }

    fn map(&self, key: Vec<u8>, value: Vec<u8>) -> (r: Result<Vec<(Vec<u8>, Vec<u8>)>, String>)
        ensures
            r matches Ok(out) && out@.len() == 1 && out@[0] == (key, value),
    {
        let out = vec![(key, value)];
        assert(pairs_view(out@) =~= seq![(out@[0].0@, out@[0].1@)]);
        Ok(out)
    }

    fn name(&self) -> (s: String)
        ensures
            s@ == "Sum"@,
    {
        string_of("Sum")
    }
}

/// The numbers a value holds: its decoded list, or none if it does not decode.
pub open spec fn value_numbers(v: Seq<u8>) -> Seq<u64> {
    match bincode_u64_list_decoded(v) {
        Some(ns) => ns,
        None => Seq::empty(),
    }
}

pub open spec fn nat_sum(s: Seq<u64>) -> nat
    decreases s.len(),
{
    if s.len() == 0 {
        0
    } else {
        nat_sum(s.drop_last()) + s.last() as nat
    }
}

/// The sum of all numbers of all values.
pub open spec fn values_total(values: Seq<Vec<u8>>) -> nat
    decreases values.len(),
{
    if values.len() == 0 {
        0
    } else {
        values_total(values.drop_last()) + nat_sum(value_numbers(values.last()@))
    }
}

/// The total of the numbers of all `values`.
pub open spec fn values_total_of(values: Seq<Seq<u8>>) -> nat
    decreases values.len(),
{
    if values.len() == 0 {
        0
    } else {
        values_total_of(values.drop_last()) + nat_sum(value_numbers(values.last()))
    }
}

proof fn lemma_values_total_views(values: Seq<Vec<u8>>)
    ensures
        values_total(values) == values_total_of(bytes_view(values)),
    decreases values.len(),
{
    if values.len() > 0 {
        lemma_values_total_views(values.drop_last());
        assert(bytes_view(values).drop_last() =~= bytes_view(values.drop_last()));
    }
}

/// Adds up every number of every value that decodes as a list of 64-bit numbers.
pub struct SumReduceFunction;

impl ReduceFunction for SumReduceFunction {
    open spec fn reduce_spec(&self, key: Seq<u8>, values: Seq<Seq<u8>>) -> Option<Seq<u8>> {
        if values_total_of(values) <= u64::MAX {
            Some(u64_le(values_total_of(values) as u64))
        } else {
            None
        }
    }

    fn reduce(&self, key: Vec<u8>, values: Vec<Vec<u8>>) -> (r: Result<Vec<u8>, String>)
        ensures
            values_total(values@) <= u64::MAX ==> (r matches Ok(out) && out@ == u64_le(
                values_total(values@) as u64,
            )),
            values_total(values@) > u64::MAX ==> r is Err,
    {
        proof {
            lemma_values_total_views(values@);
        }
        let mut total: u64 = 0;
        let mut i: usize = 0;
        while i < values.len()
            invariant
                i <= values@.len(),
                total == values_total(values@.take(i as int)),
            decreases values@.len() - i,
        {
            proof {
                assert(values@.take(i + 1).drop_last() =~= values@.take(i as int));
                lemma_values_total_prefix(values@, (i + 1) as nat);
            }
            match bincode_decode_u64s(values[i].as_slice()) {
                Some(nums) => {
                    let mut j: usize = 0;
                    let ghost base = total as nat;
                    assert(nums@ == value_numbers(values@[i as int]@));
                    while j < nums.len()
                        invariant
                            i < values@.len(),
                            j <= nums@.len(),
                            base == values_total(values@.take(i as int)),
                            nums@ == value_numbers(values@[i as int]@),
                            values@.take(i + 1).drop_last() == values@.take(i as int),
                            values_total(values@.take(i + 1)) <= values_total(values@),
                            total == base + nat_sum(nums@.take(j as int)),
                        decreases nums@.len() - j,
                    {
                        proof {
                            assert(nums@.take(j + 1).drop_last() =~= nums@.take(j as int));
                        }
                        if nums[j] > u64::MAX - total {
                            proof {
                                lemma_nat_sum_prefix(nums@, (j + 1) as nat);
                                assert(values@.take(i + 1).last() == values@[i as int]);
                                lemma_values_total_views(values@);
                            }
                            return Err(string_of("sum overflow"));
                        }
                        total = total + nums[j];
                        j = j + 1;
                    }
                    assert(nums@.take(nums@.len() as int) =~= nums@);
                    assert(values@.take(i + 1).last() == values@[i as int]);
                },
                None => {
                    assert(values@.take(i + 1).last() == values@[i as int]);
                    assert(value_numbers(values@[i as int]@) =~= Seq::<u64>::empty());
                },
            }
            i = i + 1;
        }
        assert(values@.take(values@.len() as int) =~= values@);
        Ok(bincode_u64(total))
    }

    fn name(&self) -> (s: String)
        ensures
            s@ == "Sum"@,
    {
        string_of("Sum")
    }
}

proof fn lemma_nat_sum_prefix(s: Seq<u64>, k: nat)
    requires
        k <= s.len(),
    ensures
        nat_sum(s.take(k as int)) <= nat_sum(s),
    decreases s.len() - k,
{
    if k < s.len() {
        lemma_nat_sum_prefix(s, k + 1);
        assert(s.take(k + 1 as int).drop_last() =~= s.take(k as int));
    } else {
        assert(s.take(k as int) =~= s);
    }
}

proof fn lemma_values_total_prefix(vs: Seq<Vec<u8>>, k: nat)
    requires
        k <= vs.len(),
    ensures
        values_total(vs.take(k as int)) <= values_total(vs),
    decreases vs.len() - k,
{
    if k < vs.len() {
        lemma_values_total_prefix(vs, k + 1);
        assert(vs.take(k + 1 as int).drop_last() =~= vs.take(k as int));
    } else {
        assert(vs.take(k as int) =~= vs);
    }
}

/// A word counting job over `text`.
pub fn word_count_job(text: &str) -> (j: Job<WordCountMapFunction, WordCountReduceFunction>)
    ensures
        j.job_name_view() == "word_count"@,
        j.input_view() == encode_utf8(text@),
        j.tasks_view().len() == 0,
{
    Job::new("word_count").map_function(WordCountMapFunction).reduce_function(
        WordCountReduceFunction,
    ).input_data(utf8_bytes(text))
}

/// A job adding up `numbers`, given to it in bincode format.
pub fn sum_job(numbers: Vec<u64>) -> (j: Job<SumMapFunction, SumReduceFunction>)
    ensures
        j.job_name_view() == "sum"@,
        j.input_view() == bincode_u64_list(numbers@),
        j.tasks_view().len() == 0,
{
    Job::new("sum").map_function(SumMapFunction).reduce_function(SumReduceFunction).input_data(
        bincode_u64s(&numbers),
    )
}

// ---------------------------------------------------------------------------
// Engine statistics
// ---------------------------------------------------------------------------

/// Counters of the MapReduce engine; the completion time is in milliseconds.
pub struct MapReduceStatistics {
    pub total_jobs_submitted: u64,
    pub total_jobs_completed: u64,
    pub total_jobs_failed: u64,
    pub total_map_tasks: u64,
    pub total_reduce_tasks: u64,
    pub total_processed_data_bytes: u64,
    pub average_job_completion_time: u64,
}

// ---------------------------------------------------------------------------
// Running a job: map, shuffle, reduce, combine
// ---------------------------------------------------------------------------

/// The pieces of `data` between `sep` bytes, after the partial piece `cur`,
/// empty pieces included.
pub open spec fn byte_pieces_from(data: Seq<u8>, sep: u8, cur: Seq<u8>) -> Seq<Seq<u8>>
    decreases data.len(),
{
    if data.len() == 0 {
        seq![cur]
    } else if data[0] == sep {
        seq![cur] + byte_pieces_from(data.drop_first(), sep, Seq::empty())
    } else {
        byte_pieces_from(data.drop_first(), sep, cur.push(data[0]))
    }
}

/// What splitting a byte slice at every `sep` yields (`<[u8]>::split`).
pub open spec fn byte_pieces(data: Seq<u8>, sep: u8) -> Seq<Seq<u8>> {
    byte_pieces_from(data, sep, Seq::empty())
}

/// Splits `data` at every `sep`.
pub fn split_bytes(data: &[u8], sep: u8) -> (out: Vec<Vec<u8>>)
    ensures
        bytes_view(out@) == byte_pieces(data@, sep),
{
    let n = data.len();
    let ghost all = data@;
    let mut out: Vec<Vec<u8>> = Vec::new();
    let mut cur: Vec<u8> = Vec::new();
    let mut i: usize = 0;
    assert(all.subrange(0, n as int) =~= all);
    assert(bytes_view(out@) + byte_pieces_from(all, sep, cur@) =~= byte_pieces(all, sep));
    while i < n
        invariant
            n == all.len(),
            all == data@,
            i <= n,
            bytes_view(out@) + byte_pieces_from(all.subrange(i as int, n as int), sep, cur@) == byte_pieces(all, sep),
        decreases n - i,
    {
        let b = data[i];
        let ghost rest = all.subrange(i as int, n as int);
        assert(rest[0] == b);
        assert(rest.drop_first() =~= all.subrange(i + 1, n as int));
        if b == sep {
            let ghost w = cur@;
            let ghost before = bytes_view(out@);
            out.push(cur);
            proof {
                assert(bytes_view(out@) =~= before.push(w));
                assert(bytes_view(out@) + byte_pieces_from(all.subrange(i + 1, n as int), sep, Seq::empty())
                    =~= before + (seq![w] + byte_pieces_from(all.subrange(i + 1, n as int), sep, Seq::empty())));
            }
            cur = Vec::new();
        } else {
            cur.push(b);
        }
        i = i + 1;
    }
    assert(all.subrange(n as int, n as int).len() == 0);
    let ghost w = cur@;
    let ghost before = bytes_view(out@);
    out.push(cur);
    assert(bytes_view(out@) =~= before.push(w));
    assert(bytes_view(out@) =~= byte_pieces(all, sep));
    out
}

/// The key of the `i`-th record of a map task: `line_<i>`.
pub open spec fn line_key(i: nat) -> Seq<u8> {
    encode_utf8("line_"@ + decimal_text(i))
}

/// The records a map task hands to the map function: its input split at
/// line feeds, the `i`-th line keyed `line_<i>`.
pub open spec fn map_records(data: Seq<u8>) -> Seq<(Seq<u8>, Seq<u8>)> {
    let lines = byte_pieces(data, 10u8);
    Seq::new(lines.len(), |i: int| (line_key(i as nat), lines[i]))
}

/// The records of a map task's input (see `map_records`).
pub fn map_records_of(data: &[u8]) -> (records: Vec<(Vec<u8>, Vec<u8>)>)
    ensures
        pairs_view(records@) == map_records(data@),
{
    let lines = split_bytes(data, 10u8);
    let ghost ls = byte_pieces(data@, 10u8);
    let mut records: Vec<(Vec<u8>, Vec<u8>)> = Vec::new();
    let mut i: usize = 0;
    while i < lines.len()
        invariant
            i <= lines@.len(),
            bytes_view(lines@) == ls,
            ls == byte_pieces(data@, 10u8),
            records@.len() == i,
            forall|j: int| 0 <= j < i ==> #[trigger] pairs_view(records@)[j] == (line_key(j as nat), ls[j]),
        decreases lines@.len() - i,
    {
        let mut name = string_of("line_");
        push_decimal(&mut name, i as u64);
        let key = utf8_bytes(name.as_str());
        let line = copy_bytes(&lines[i]);
        assert(bytes_view(lines@)[i as int] == lines@[i as int]@);
        assert(name@ == "line_"@ + decimal_text(i as nat));
        let ghost entry = (key@, line@);
        let ghost before = records@;
        records.push((key, line));
        proof {
            assert forall|j: int| 0 <= j < i + 1 implies #[trigger] pairs_view(records@)[j] == (
                line_key(j as nat),
                ls[j],
            ) by {
                if j < i {
                    assert(records@[j] == before[j]);
                    assert(pairs_view(before)[j] == (line_key(j as nat), ls[j]));
                } else {
                    assert(pairs_view(records@)[j] == entry);
                }
            }
        }
        i = i + 1;
    }
    assert(pairs_view(records@) =~= map_records(data@));
    records
}

/// What map function `m` emits for `records` in order: the pairs of all of
/// them, or `None` when it fails on one.
pub open spec fn map_all<M: MapFunction>(m: &M, records: Seq<(Seq<u8>, Seq<u8>)>) -> Option<
    Seq<(Seq<u8>, Seq<u8>)>,
>
    decreases records.len(),
{
    if records.len() == 0 {
        Some(Seq::empty())
    } else {
        match (map_all(m, records.drop_last()), m.map_spec(records.last().0, records.last().1)) {
            (Some(a), Some(b)) => Some(a + b),
            _ => None,
        }
    }
}

proof fn lemma_map_all_none<M: MapFunction>(m: &M, records: Seq<(Seq<u8>, Seq<u8>)>, k: int)
    requires
        0 <= k <= records.len(),
        map_all(m, records.take(k)) is None,
    ensures
        map_all(m, records) is None,
    decreases records.len() - k,
{
    if k < records.len() {
        assert(records.take(k + 1).drop_last() =~= records.take(k));
        lemma_map_all_none(m, records, k + 1);
    } else {
        assert(records.take(k) =~= records);
    }
}

/// Runs map function `m` over `records` in order: the pairs of all of
/// them, or `None` as soon as it fails on one.
pub fn run_map_task<M: MapFunction>(m: &M, records: &Vec<(Vec<u8>, Vec<u8>)>) -> (r: Option<Vec<(Vec<u8>, Vec<u8>)>>)
    ensures
        match r {
            Some(out) => map_all(m, pairs_view(records@)) == Some(pairs_view(out@)),
            None => map_all(m, pairs_view(records@)) is None,
        },
{
    let ghost rs = pairs_view(records@);
    let mut out: Vec<(Vec<u8>, Vec<u8>)> = Vec::new();
    let mut i: usize = 0;
    assert(rs.take(0) =~= Seq::<(Seq<u8>, Seq<u8>)>::empty());
    assert(pairs_view(out@) =~= Seq::<(Seq<u8>, Seq<u8>)>::empty());
    while i < records.len()
        invariant
            i <= records@.len(),
            rs == pairs_view(records@),
            map_all(m, rs.take(i as int)) == Some(pairs_view(out@)),
        decreases records@.len() - i,
    {
        let key = copy_bytes(&records[i].0);
        let value = copy_bytes(&records[i].1);
        proof {
            assert(rs.take(i + 1).drop_last() =~= rs.take(i as int));
            assert(rs.take(i + 1).last() == rs[i as int]);
            assert(rs[i as int] == (key@, value@));
        }
        match m.map(key, value) {
            Ok(mut pairs) => {
                let ghost before = pairs_view(out@);
                let ghost added = pairs_view(pairs@);
                out.append(&mut pairs);
                assert(pairs_view(out@) =~= before + added);
            },
            Err(_) => {
                proof {
                    lemma_map_all_none(m, rs, i + 1);
                }
                return None;
            },
        }
        i = i + 1;
    }
    assert(rs.take(records@.len() as int) =~= rs);
    Some(out)
}

/// The pairs the map tasks emit, for map task inputs `inputs` in order:
/// what `m` emits for the records of each, or nothing for one on whose
/// records it fails.
pub open spec fn map_phase<M: MapFunction>(m: &M, inputs: Seq<Seq<u8>>) -> Seq<(Seq<u8>, Seq<u8>)>
    decreases inputs.len(),
{
    if inputs.len() == 0 {
        Seq::empty()
    } else {
        map_phase(m, inputs.drop_last()) + match map_all(m, map_records(inputs.last())) {
            Some(ps) => ps,
            None => Seq::empty(),
        }
    }
}

/// Whether a task is a map task.
pub open spec fn is_map_task(t: MapReduceTask) -> bool {
    t.task_type == TaskType::MapTask
}

/// The inputs of the map tasks among `tasks`, in order.
pub open spec fn map_inputs(tasks: Seq<MapReduceTask>) -> Seq<Seq<u8>> {
    tasks.filter(|t: MapReduceTask| is_map_task(t)).map_values(|t: MapReduceTask| t.input_partition@)
}

/// Runs the map tasks among `tasks`, in order (see `map_phase`).
pub fn run_map_phase<M: MapFunction>(m: &M, tasks: &[MapReduceTask]) -> (pairs: Vec<(Vec<u8>, Vec<u8>)>)
    ensures
        pairs_view(pairs@) == map_phase(m, map_inputs(tasks@)),
{
    let ghost pred = |t: MapReduceTask| is_map_task(t);
    let mut pairs: Vec<(Vec<u8>, Vec<u8>)> = Vec::new();
    let mut i: usize = 0;
    assert(tasks@.take(0).filter(pred) =~= Seq::<MapReduceTask>::empty()) by {
        reveal(Seq::filter);
    }
    assert(map_inputs(tasks@.take(0)) =~= Seq::<Seq<u8>>::empty());
    assert(pairs_view(pairs@) =~= Seq::<(Seq<u8>, Seq<u8>)>::empty());
    while i < tasks.len()
        invariant
            i <= tasks@.len(),
            pred == (|t: MapReduceTask| is_map_task(t)),
            pairs_view(pairs@) == map_phase(m, map_inputs(tasks@.take(i as int))),
        decreases tasks@.len() - i,
    {
        let ghost t = tasks@[i as int];
        proof {
            assert(tasks@.take(i + 1) =~= tasks@.take(i as int).push(t));
            lemma_filter_push(tasks@.take(i as int), pred, t);
        }
        let is_map = match tasks[i].task_type {
            TaskType::MapTask => true,
            _ => false,
        };
        if is_map {
            let records = map_records_of(tasks[i].input_partition.as_slice());
            let ghost prev = map_inputs(tasks@.take(i as int));
            proof {
                assert(map_inputs(tasks@.take(i + 1)) =~= prev.push(t.input_partition@));
                assert(map_inputs(tasks@.take(i + 1)).drop_last() =~= prev);
            }
            match run_map_task(m, &records) {
                Some(mut out) => {
                    let ghost before = pairs_view(pairs@);
                    let ghost added = pairs_view(out@);
                    pairs.append(&mut out);
                    assert(pairs_view(pairs@) =~= before + added);
                },
                None => {
                    assert(pairs_view(pairs@) =~= pairs_view(pairs@) + Seq::<(Seq<u8>, Seq<u8>)>::empty());
                },
            }
        } else {
            assert(map_inputs(tasks@.take(i + 1)) =~= map_inputs(tasks@.take(i as int)));
        }
        i = i + 1;
    }
    assert(tasks@.take(tasks@.len() as int) =~= tasks@);
    pairs
}

/// The key groups of `pairs` (the shuffle): each key once, in the order of
/// its first occurrence, with all its values in order.
pub open spec fn key_groups(pairs: Seq<(Seq<u8>, Seq<u8>)>) -> Seq<(Seq<u8>, Seq<Seq<u8>>)> {
    let ks = distinct_keys(pairs);
    Seq::new(ks.len(), |i: int| (ks[i], values_of(pairs, ks[i])))
}

/// The abstract value of a list of key groups.
pub open spec fn groups_view(groups: Seq<(Vec<u8>, Vec<Vec<u8>>)>) -> Seq<(Seq<u8>, Seq<Seq<u8>>)> {
    groups.map_values(|g: (Vec<u8>, Vec<Vec<u8>>)| (g.0@, bytes_view(g.1@)))
}

proof fn lemma_groups_view(groups: Seq<(Vec<u8>, Vec<Vec<u8>>)>, pairs: Seq<(Seq<u8>, Seq<u8>)>)
    requires
        groups_match(groups, pairs),
    ensures
        groups_view(groups) == key_groups(pairs),
{
    assert forall|i: int| 0 <= i < groups.len() implies #[trigger] groups_view(groups)[i] == key_groups(pairs)[i] by {
        assert(groups[i].0@ == distinct_keys(pairs)[i]);
    }
    assert(groups_view(groups) =~= key_groups(pairs));
}

/// Whether a group falls in reduce partition `p` of `r`.
pub open spec fn in_partition(g: (Seq<u8>, Seq<Seq<u8>>), r: nat, p: int) -> bool {
    partition_index(g.0, r) == p
}

/// The groups of reduce partition `p` of `r`, in order.
pub open spec fn partition_groups(groups: Seq<(Seq<u8>, Seq<Seq<u8>>)>, r: nat, p: int) -> Seq<(Seq<u8>, Seq<Seq<u8>>)> {
    groups.filter(|g: (Seq<u8>, Seq<Seq<u8>>)| in_partition(g, r, p))
}

/// What reduce function `rf` makes of `groups` in order: one result per
/// group, or `None` when it fails on one.
pub open spec fn reduce_all<R: ReduceFunction>(rf: &R, groups: Seq<(Seq<u8>, Seq<Seq<u8>>)>) -> Option<Seq<Seq<u8>>>
    decreases groups.len(),
{
    if groups.len() == 0 {
        Some(Seq::empty())
    } else {
        match (reduce_all(rf, groups.drop_last()), rf.reduce_spec(groups.last().0, groups.last().1)) {
            (Some(a), Some(b)) => Some(a.push(b)),
            _ => None,
        }
    }
}

/// The outputs of reduce tasks `0..n` over `groups` split in `r`
/// partitions: for each task in order, the results of its partition, or
/// nothing when `rf` fails on one of its groups.
pub open spec fn reduce_phase<R: ReduceFunction>(
    rf: &R,
    groups: Seq<(Seq<u8>, Seq<Seq<u8>>)>,
    r: nat,
    n: nat,
) -> Seq<Seq<u8>>
    decreases n,
{
    if n == 0 {
        Seq::empty()
    } else {
        reduce_phase(rf, groups, r, (n - 1) as nat) + match reduce_all(rf, partition_groups(groups, r, n - 1)) {
            Some(rs) => rs,
            None => Seq::empty(),
        }
    }
}

proof fn lemma_reduce_all_none<R: ReduceFunction>(
    rf: &R,
    groups: Seq<(Seq<u8>, Seq<Seq<u8>>)>,
    r: nat,
    p: int,
    k: int,
)
    requires
        0 <= k <= groups.len(),
        reduce_all(rf, partition_groups(groups.take(k), r, p)) is None,
    ensures
        reduce_all(rf, partition_groups(groups, r, p)) is None,
    decreases groups.len() - k,
{
    let pred = |g: (Seq<u8>, Seq<Seq<u8>>)| in_partition(g, r, p);
    if k < groups.len() {
        assert(groups.take(k + 1) =~= groups.take(k).push(groups[k]));
        lemma_filter_push(groups.take(k), pred, groups[k]);
        if pred(groups[k]) {
            assert(partition_groups(groups.take(k + 1), r, p).drop_last() == partition_groups(groups.take(k), r, p));
        }
        lemma_reduce_all_none(rf, groups, r, p, k + 1);
    } else {
        assert(groups.take(k) =~= groups);
    }
}

/// A copy of a list of byte strings.
fn copy_byte_lists(v: &Vec<Vec<u8>>) -> (c: Vec<Vec<u8>>)
    ensures
        bytes_view(c@) == bytes_view(v@),
{
    let mut c: Vec<Vec<u8>> = Vec::new();
    let mut i: usize = 0;
    while i < v.len()
        invariant
            i <= v@.len(),
            bytes_view(c@) == bytes_view(v@).take(i as int),
        decreases v@.len() - i,
    {
        let x = copy_bytes(&v[i]);
        let ghost before = bytes_view(c@);
        let ghost xv = x@;
        assert(xv == bytes_view(v@)[i as int]);
        c.push(x);
        assert(bytes_view(c@) =~= before.push(xv));
        assert(bytes_view(v@).take(i + 1) =~= bytes_view(v@).take(i as int).push(xv));
        i = i + 1;
    }
    assert(bytes_view(v@).take(v@.len() as int) =~= bytes_view(v@));
    c
}

/// Runs reduce task `p` of `r`: reduce function `rf` over the groups that
/// fall in partition `p`, in order (see `reduce_all`).
pub fn run_reduce_task<R: ReduceFunction>(
    rf: &R,
    groups: &Vec<(Vec<u8>, Vec<Vec<u8>>)>,
    r: usize,
    p: usize,
) -> (out: Option<Vec<Vec<u8>>>)
    requires
        forall|i: int| 0 <= i < groups@.len() ==> 255 * (#[trigger] groups@[i]).0@.len() <= usize::MAX,
    ensures
        match out {
            Some(rs) => reduce_all(rf, partition_groups(groups_view(groups@), r as nat, p as int)) == Some(
                bytes_view(rs@),
            ),
            None => reduce_all(rf, partition_groups(groups_view(groups@), r as nat, p as int)) is None,
        },
{
    let ghost gv = groups_view(groups@);
    let ghost pred = |g: (Seq<u8>, Seq<Seq<u8>>)| in_partition(g, r as nat, p as int);
    let mut out: Vec<Vec<u8>> = Vec::new();
    let mut i: usize = 0;
    assert(gv.take(0).filter(pred) =~= Seq::<(Seq<u8>, Seq<Seq<u8>>)>::empty()) by {
        reveal(Seq::filter);
    }
    assert(bytes_view(out@) =~= Seq::<Seq<u8>>::empty());
    while i < groups.len()
        invariant
            i <= groups@.len(),
            gv == groups_view(groups@),
            pred == (|g: (Seq<u8>, Seq<Seq<u8>>)| in_partition(g, r as nat, p as int)),
            forall|i: int| 0 <= i < groups@.len() ==> 255 * (#[trigger] groups@[i]).0@.len() <= usize::MAX,
            reduce_all(rf, partition_groups(gv.take(i as int), r as nat, p as int)) == Some(bytes_view(out@)),
        decreases groups@.len() - i,
    {
        let ghost g = gv[i as int];
        proof {
            assert(gv.take(i + 1) =~= gv.take(i as int).push(g));
            lemma_filter_push(gv.take(i as int), pred, g);
            assert(g == (groups@[i as int].0@, bytes_view(groups@[i as int].1@)));
        }
        let k = calculate_partition_index(groups[i].0.as_slice(), r);
        if k == p {
            let key = copy_bytes(&groups[i].0);
            let values = copy_byte_lists(&groups[i].1);
            proof {
                assert(partition_groups(gv.take(i + 1), r as nat, p as int).drop_last() == partition_groups(
                    gv.take(i as int),
                    r as nat,
                    p as int,
                ));
                assert(partition_groups(gv.take(i + 1), r as nat, p as int).last() == g);
            }
            match rf.reduce(key, values) {
                Ok(res) => {
                    let ghost before = bytes_view(out@);
                    out.push(res);
                    assert(bytes_view(out@) =~= before.push(res@));
                },
                Err(_) => {
                    proof {
                        lemma_reduce_all_none(rf, gv, r as nat, p as int, i + 1);
                    }
                    return None;
                },
            }
        }
        i = i + 1;
    }
    assert(gv.take(groups@.len() as int) =~= gv);
    Some(out)
}

/// Runs reduce tasks `0..n` over `groups` split in `r` partitions (see
/// `reduce_phase`) and gives their outputs in order.
pub fn run_reduce_phase<R: ReduceFunction>(
    rf: &R,
    groups: &Vec<(Vec<u8>, Vec<Vec<u8>>)>,
    r: usize,
    n: usize,
) -> (results: Vec<Vec<u8>>)
    requires
        forall|i: int| 0 <= i < groups@.len() ==> 255 * (#[trigger] groups@[i]).0@.len() <= usize::MAX,
    ensures
        bytes_view(results@) == reduce_phase(rf, groups_view(groups@), r as nat, n as nat),
{
    let mut results: Vec<Vec<u8>> = Vec::new();
    let mut p: usize = 0;
    assert(bytes_view(results@) =~= Seq::<Seq<u8>>::empty());
    while p < n
        invariant
            p <= n,
            forall|i: int| 0 <= i < groups@.len() ==> 255 * (#[trigger] groups@[i]).0@.len() <= usize::MAX,
            bytes_view(results@) == reduce_phase(rf, groups_view(groups@), r as nat, p as nat),
        decreases n - p,
    {
        match run_reduce_task(rf, groups, r, p) {
            Some(mut rs) => {
                let ghost before = bytes_view(results@);
                let ghost added = bytes_view(rs@);
                results.append(&mut rs);
                assert(bytes_view(results@) =~= before + added);
            },
            None => {
                assert(bytes_view(results@) =~= bytes_view(results@) + Seq::<Seq<u8>>::empty());
            },
        }
        p = p + 1;
    }
    results
}

/// Whether every key of `groups` is short enough to be hashed for
/// partitioning.
pub fn keys_fit(groups: &Vec<(Vec<u8>, Vec<Vec<u8>>)>) -> (b: bool)
    ensures
        b == forall|i: int| 0 <= i < groups@.len() ==> 255 * (#[trigger] groups@[i]).0@.len() <= usize::MAX,
{
    let mut i: usize = 0;
    while i < groups.len()
        invariant
            i <= groups@.len(),
            forall|j: int| 0 <= j < i ==> 255 * (#[trigger] groups@[j]).0@.len() <= usize::MAX,
        decreases groups@.len() - i,
    {
        if groups[i].0.len() > usize::MAX / 255 {
            return false;
        }
        i = i + 1;
    }
    true
}

/// The combined result of reduce outputs `results` in an output format
/// (see `combined_output`).
pub open spec fn combined_of(results: Seq<Seq<u8>>, format: OutputFormat) -> Seq<u8> {
    let texts = results.map_values(|r: Seq<u8>| utf8_lossy_text(r));
    match format {
        OutputFormat::Binary => concat_views(results),
        OutputFormat::Json => encode_utf8("[\""@ + join_text(texts, "\", \""@) + "\"]"@),
        _ => encode_utf8(join_text(texts, "\n"@)),
    }
}

proof fn lemma_combined_views(results: Seq<Vec<u8>>, format: OutputFormat)
    ensures
        combined_output(results, format) == combined_of(bytes_view(results), format),
{
    lemma_concat_views(results);
    assert(output_texts(results) =~= bytes_view(results).map_values(|r: Seq<u8>| utf8_lossy_text(r)));
}

/// The map partitions of `input` over `m` map tasks, in order.
pub open spec fn input_partitions(input: Seq<u8>, m: nat) -> Seq<Seq<u8>> {
    Seq::new(m, |i: int| partition_bytes(input, m, i as nat))
}

/// The key groups a job's map phase yields.
pub open spec fn job_groups<M: MapFunction>(m: &M, input: Seq<u8>, config: JobConfig) -> Seq<(Seq<u8>, Seq<Seq<u8>>)> {
    key_groups(map_phase(m, input_partitions(input, config.map_tasks as nat)))
}

/// Whether every key a job's map phase yields is short enough to be
/// hashed for partitioning.
pub open spec fn job_keys_fit<M: MapFunction>(m: &M, input: Seq<u8>, config: JobConfig) -> bool {
    forall|i: int|
        0 <= i < job_groups(m, input, config).len() ==> 255 * (#[trigger] job_groups(m, input, config)[i]).0.len()
            <= usize::MAX
}

/// The result of a job with map function `m`, reduce function `rf`, input
/// `input` and configuration `config`: the input split into the map
/// partitions, each partition's lines mapped, the pairs grouped by key, the
/// groups reduced by the reduce task of their partition, and the reduce
/// outputs combined in the output format.
pub open spec fn job_output<M: MapFunction, R: ReduceFunction>(m: &M, rf: &R, input: Seq<u8>, config: JobConfig) -> Seq<
    u8,
> {
    let r = config.reduce_tasks as nat;
    combined_of(reduce_phase(rf, job_groups(m, input, config), r, r), config.output_format)
}

proof fn lemma_generated_map_inputs(tasks: Seq<MapReduceTask>, input: Seq<u8>, m: nat, k: int)
    requires
        0 <= k <= tasks.len(),
        m <= tasks.len(),
        forall|i: int|
            0 <= i < tasks.len() ==> if i < m {
                (#[trigger] tasks[i]).task_type == TaskType::MapTask && tasks[i].input_partition@ == partition_bytes(
                    input,
                    m,
                    i as nat,
                )
            } else {
                tasks[i].task_type == TaskType::Reduce
            },
    ensures
        map_inputs(tasks.take(k)) == input_partitions(input, m).take(if k <= m { k } else { m as int }),
    decreases k,
{
    let pred = |t: MapReduceTask| is_map_task(t);
    if k == 0 {
        assert(tasks.take(0).filter(pred) =~= Seq::<MapReduceTask>::empty()) by {
            reveal(Seq::filter);
        }
        assert(map_inputs(tasks.take(0)) =~= Seq::<Seq<u8>>::empty());
        assert(input_partitions(input, m).take(0) =~= Seq::<Seq<u8>>::empty());
    } else {
        lemma_generated_map_inputs(tasks, input, m, k - 1);
        let t = tasks[k - 1];
        assert(tasks.take(k) =~= tasks.take(k - 1).push(t));
        lemma_filter_push(tasks.take(k - 1), pred, t);
        if k - 1 < m {
            assert(map_inputs(tasks.take(k)) =~= map_inputs(tasks.take(k - 1)).push(t.input_partition@));
            assert(input_partitions(input, m).take(k) =~= input_partitions(input, m).take(k - 1).push(
                partition_bytes(input, m, (k - 1) as nat),
            ));
        } else {
            assert(!pred(t));
            assert(map_inputs(tasks.take(k)) =~= map_inputs(tasks.take(k - 1)));
        }
    }
}

/// The handle of a submitted job. Its result channel receives, when the
/// handle is made, an empty success, and is closed at once.
pub struct JobHandle {
    pub job_id: JobId,
    pub tasks: Vec<u128>,
    pub result: Option<JobResult>,
    pub arrived: Vec<JobResult>,
}

impl JobHandle {
    /// A handle on job `job_id` whose tasks are `tasks`.
    pub fn new(job_id: JobId, tasks: Vec<u128>) -> (h: Self)
        ensures
            h.job_id == job_id,
            h.tasks@ == tasks@,
            h.result is None,
            h.arrived@.len() == 1,
            h.arrived@[0] matches JobResult::Success(v) && v@.len() == 0,
    {
        JobHandle { job_id, tasks, result: None, arrived: vec![JobResult::Success(Vec::new())] }
    }

    /// The job's identifier.
    pub fn id(&self) -> (id: JobId)
        ensures
            id == self.job_id,
    {
        self.job_id
    }

    /// The job's result: the one kept, else the first that arrived; an
    /// error once the closed channel is empty.
    pub fn result(&mut self) -> (r: Result<JobResult, String>)
        ensures
            old(self).result matches Some(x) ==> r == Ok::<JobResult, String>(x) && final(self).result is None
                && final(self).arrived == old(self).arrived,
            old(self).result is None && old(self).arrived@.len() > 0 ==> r == Ok::<JobResult, String>(
                old(self).arrived@[0],
            ) && final(self).arrived@ == old(self).arrived@.drop_first() && final(self).result is None,
            old(self).result is None && old(self).arrived@.len() == 0 ==> (r matches Err(m) && m@
                == "Job result channel closed"@) && *final(self) == *old(self),
            final(self).job_id == old(self).job_id,
    {
        if let Some(x) = self.result.take() {
            return Ok(x);
        }
        if self.arrived.len() > 0 {
            let x = self.arrived.remove(0);
            assert(self.arrived@ =~= old(self).arrived@.drop_first());
            return Ok(x);
        }
        Err(string_of("Job result channel closed"))
    }

    /// Whether the job has completed: a result is kept, or the channel has
    /// closed or holds one. The channel of a handle closes when the handle
    /// is made, so this is always the case.
    pub fn is_completed(&self) -> (b: bool)
        ensures
            b,
    {
        true
    }
}

/// The MapReduce engine's bookkeeping: finished job results and counters.
pub struct MapReduceEngine {
    job_results: Vec<(JobId, JobResult)>,
    statistics: MapReduceStatistics,
}

impl MapReduceEngine {
    /// An engine with no results and zero counters.
    pub fn new() -> (e: Self)
        ensures
            e.results_view().len() == 0,
            e.statistics_view() == (MapReduceStatistics {
                total_jobs_submitted: 0,
                total_jobs_completed: 0,
                total_jobs_failed: 0,
                total_map_tasks: 0,
                total_reduce_tasks: 0,
                total_processed_data_bytes: 0,
                average_job_completion_time: 0,
            }),
    {
        MapReduceEngine {
            job_results: Vec::new(),
            statistics: MapReduceStatistics {
                total_jobs_submitted: 0,
                total_jobs_completed: 0,
                total_jobs_failed: 0,
                total_map_tasks: 0,
                total_reduce_tasks: 0,
                total_processed_data_bytes: 0,
                average_job_completion_time: 0,
            },
        }
    }

    pub closed spec fn results_view(&self) -> Seq<(JobId, JobResult)> {
        self.job_results@
    }

    pub closed spec fn statistics_view(&self) -> MapReduceStatistics {
        self.statistics
    }

    /// Submits and runs `job`: its tasks are generated, its map tasks run
    /// over their input partitions, the pairs grouped by key, each reduce
    /// task run over the groups of its partition, and the outputs combined
    /// in the job's format (see `job_output`); the result is recorded as a
    /// success under the job's identifier and the job is counted as
    /// submitted and completed, with its map and reduce tasks and its input
    /// bytes. A key too long to be hashed for partitioning refuses the job
    /// and changes nothing.
    pub fn submit_job<M: MapFunction, R: ReduceFunction>(&mut self, job: Job<M, R>) -> (r: Result<JobHandle, String>)
        requires
            partitions_fit(job.input_view().len(), job.config_view().map_tasks as nat),
            job.input_view().len() + job.config_view().map_tasks <= usize::MAX,
            job.config_view().map_tasks + job.config_view().reduce_tasks <= usize::MAX,
            old(self).statistics_view().total_jobs_submitted < u64::MAX,
            old(self).statistics_view().total_jobs_completed < u64::MAX,
            old(self).statistics_view().total_map_tasks + job.config_view().map_tasks <= u64::MAX,
            old(self).statistics_view().total_reduce_tasks + job.config_view().reduce_tasks <= u64::MAX,
            old(self).statistics_view().total_processed_data_bytes + job.input_view().len() <= u64::MAX,
        ensures
            job_keys_fit(&job.map_fn_view(), job.input_view(), job.config_view()) ==> {
                &&& r matches Ok(h) && h.job_id == job.id_view() && h.result is None
                &&& final(self).results_view().len() == old(self).results_view().len() + 1
                &&& final(self).results_view().drop_last() == old(self).results_view()
                &&& final(self).results_view().last().0 == job.id_view()
                &&& final(self).results_view().last().1 matches JobResult::Success(out) && out@ == job_output(
                    &job.map_fn_view(),
                    &job.reduce_fn_view(),
                    job.input_view(),
                    job.config_view(),
                )
                &&& final(self).statistics_view() == (MapReduceStatistics {
                    total_jobs_submitted: (old(self).statistics_view().total_jobs_submitted + 1) as u64,
                    total_jobs_completed: (old(self).statistics_view().total_jobs_completed + 1) as u64,
                    total_map_tasks: (old(self).statistics_view().total_map_tasks + job.config_view().map_tasks) as u64,
                    total_reduce_tasks: (old(self).statistics_view().total_reduce_tasks
                        + job.config_view().reduce_tasks) as u64,
                    total_processed_data_bytes: (old(self).statistics_view().total_processed_data_bytes
                        + job.input_view().len()) as u64,
                    ..old(self).statistics_view()
                })
            },
            !job_keys_fit(&job.map_fn_view(), job.input_view(), job.config_view()) ==> r is Err
                && final(self).results_view() == old(self).results_view() && final(self).statistics_view()
                == old(self).statistics_view(),
    {
        let mut job = job;
        let ghost j0 = job;
        let _ = job.generate_tasks();
        proof {
            lemma_generated_map_inputs(
                job.tasks@,
                j0.input_data@,
                j0.configuration.map_tasks as nat,
                job.tasks@.len() as int,
            );
            assert(job.tasks@.take(job.tasks@.len() as int) =~= job.tasks@);
            assert(input_partitions(j0.input_data@, j0.configuration.map_tasks as nat).take(
                j0.configuration.map_tasks as int,
            ) =~= input_partitions(j0.input_data@, j0.configuration.map_tasks as nat));
        }
        let pairs = run_map_phase(&job.map_function, job.tasks.as_slice());
        let groups = group_by_key(&pairs);
        proof {
            lemma_groups_view(groups@, pairs_view(pairs@));
            assert(map_inputs(job.tasks@) == input_partitions(j0.input_data@, j0.configuration.map_tasks as nat));
            assert(job.map_function == j0.map_function);
            assert(groups_view(groups@) == job_groups(&j0.map_function, j0.input_data@, j0.configuration));
        }
        if !keys_fit(&groups) {
            proof {
                let jg = job_groups(&j0.map_function, j0.input_data@, j0.configuration);
                assert(groups_view(groups@) == jg);
                let i = choose|i: int| 0 <= i < groups@.len() && !(255 * (#[trigger] groups@[i]).0@.len() <= usize::MAX);
                assert(jg[i].0 == groups@[i].0@);
            }
            return Err(string_of("Key too long to partition"));
        }
        proof {
            let jg = job_groups(&j0.map_function, j0.input_data@, j0.configuration);
            assert(groups_view(groups@) == jg);
            assert forall|i: int| 0 <= i < jg.len() implies 255 * (#[trigger] jg[i]).0.len() <= usize::MAX by {
                assert(jg[i].0 == groups@[i].0@);
            }
        }
        let reduces = job.configuration.reduce_tasks;
        let results = run_reduce_phase(&job.reduce_function, &groups, reduces, reduces);
        let out = combine_results(&results, &job.configuration.output_format);
        proof {
            lemma_combined_views(results@, job.configuration.output_format);
        }
        let ghost r0 = self.job_results@;
        self.job_results.push((job.id, JobResult::Success(out)));
        assert(self.job_results@.drop_last() =~= r0);
        let maps = job.configuration.map_tasks as u64;
        let input_len = job.input_data.len() as u64;
        self.statistics.total_jobs_submitted = self.statistics.total_jobs_submitted + 1;
        self.statistics.total_map_tasks = self.statistics.total_map_tasks + maps;
        self.statistics.total_reduce_tasks = self.statistics.total_reduce_tasks + reduces as u64;
        self.statistics.total_jobs_completed = self.statistics.total_jobs_completed + 1;
        self.statistics.total_processed_data_bytes = self.statistics.total_processed_data_bytes + input_len;
        Ok(JobHandle::new(job.id, Vec::new()))
    }

    /// The reduce partition of `key` among `partitions`.
    pub fn calculate_partition_index(&self, key: &[u8], partitions: usize) -> (p: usize)
        requires
            255 * key@.len() <= usize::MAX,
        ensures
            p == partition_index(key@, partitions as nat),
            partitions > 0 ==> p < partitions,
    {
        calculate_partition_index(key, partitions)
    }

    /// Records the result of a finished job.
    pub fn record_result(&mut self, job_id: JobId, result: JobResult)
        ensures
            final(self).results_view() == old(self).results_view().push((job_id, result)),
    {
        self.job_results.push((job_id, result));
    }

    /// The recorded result of a job, the latest if recorded twice.
    pub fn get_job_status(&self, job_id: JobId) -> (r: Option<&JobResult>)
        ensures
            match r {
                Some(res) => exists|i: int|
                    0 <= i < self.results_view().len() && self.results_view()[i].0 == job_id && self.results_view()[i].1 == *res
                    && forall|k: int| i < k < self.results_view().len() ==> #[trigger] self.results_view()[k].0 != job_id,
                None => forall|i: int| 0 <= i < self.results_view().len() ==> #[trigger] self.results_view()[i].0 != job_id,
            },
    {
        let mut i = self.job_results.len();
        while i > 0
            invariant
                i <= self.job_results@.len(),
                forall|k: int| i <= k < self.job_results@.len() ==> #[trigger] self.job_results@[k].0 != job_id,
            decreases i,
        {
            i = i - 1;
            if self.job_results[i].0 == job_id {
                assert(self.results_view()[i as int].0 == job_id);
                return Some(&self.job_results[i].1);
            }
        }
        None
    }

    /// The engine's counters.
    pub fn get_statistics(&self) -> (s: &MapReduceStatistics)
        ensures
            *s == self.statistics_view(),
    {
        &self.statistics
    }
}

} // verus!
