//! The distributed computing framework.
pub mod common;
pub mod error;
pub mod cluster;
pub mod mpi;
pub mod mapreduce;
pub mod communication;
pub mod fault_tolerance;
pub mod shared_memory;
pub mod monitoring;
pub mod examples;
pub mod scheduler;

use vstd::prelude::*;
use crate::distributed::cluster::{Cluster, ClusterConfig, Node};
use crate::distributed::error::DistributedError;
use crate::distributed::examples::{
    BasicParallelExample, DifficultyLevel, ExampleCategory, ExampleRegistry, FaultToleranceExample,
    MatrixMultiplicationExample, MPICommunicationExample, PerformanceMonitoringExample, SharedMemoryExample,
    WordCountExample, builtin_examples, is_builtin_example,
};
use crate::keyed::str_equal;
use crate::distributed::fault_tolerance::{FaultDetector, RecoveryLedger};
use crate::distributed::monitoring::PerformanceMonitor;
use crate::distributed::scheduler::{TaskPriority, TaskQueues, job_task};
use crate::distributed::mapreduce::{Job, JobHandle, JobResult};
use crate::ids::now_millis;
use crate::text::{push_text, string_of};

verus! {

/// The parts of the framework that hold state: the cluster, the task
/// queues, the performance monitor, the fault detector, the recovery
/// ledger and the catalogue of examples. Networking and background work
/// are run by the caller.
pub struct DistributedFramework {
    pub cluster: Cluster,
    pub scheduler: TaskQueues,
    pub monitoring: PerformanceMonitor,
    pub fault_detector: FaultDetector,
    pub recovery: RecoveryLedger,
    pub examples: ExampleRegistry,
}

impl DistributedFramework {
    /// A framework for a cluster configured by `config`: no members, empty
    /// queues, a monitor and detector with default settings, an empty
    /// ledger and the built-in examples.
    pub fn new(config: ClusterConfig) -> (r: Result<Self, DistributedError>)
        ensures
            r matches Ok(f) && {
                &&& f.cluster.wf()
                &&& f.cluster.config == config
                &&& f.cluster.members() == Map::<u128, Node>::empty()
                &&& forall|p: TaskPriority| #[trigger] f.scheduler.queue(p).len() == 0
                &&& f.monitoring.wf()
                &&& f.fault_detector.wf()
                &&& f.recovery.wf()
                &&& f.examples.wf()
                &&& f.examples.entries() == crate::distributed::examples::builtin_examples()
            },
    {
        Ok(
            DistributedFramework {
                cluster: Cluster::new(config),
                scheduler: TaskQueues::new(),
                monitoring: PerformanceMonitor::new(None),
                fault_detector: FaultDetector::new(None),
                recovery: RecoveryLedger::new(),
                examples: ExampleRegistry::new(),
            },
        )
    }

    /// Submits `job` now: one normal-priority task per task of the job
    /// joins the scheduler's queues (see `TaskQueues::submit_job`), all
    /// with the current time, and a handle on the job that holds their
    /// identifiers is returned. Nothing else changes.
    pub fn submit_job<M, R>(&mut self, job: &Job<M, R>) -> (h: JobHandle)
        ensures
            h.job_id == job.id_view(),
            h.result is None,
            h.arrived@.len() == 1,
            h.arrived@[0] matches JobResult::Success(v) && v@.len() == 0,
            h.tasks@.len() == job.tasks_view().len(),
            ({
                let q0 = old(self).scheduler.queue(TaskPriority::Normal);
                let q = final(self).scheduler.queue(TaskPriority::Normal);
                &&& q.len() == q0.len() + h.tasks@.len()
                &&& q.take(q0.len() as int) == q0
                &&& forall|i: int|
                    0 <= i < h.tasks@.len() ==> #[trigger] job_task(
                        q[q0.len() + i],
                        job.job_name_view(),
                        i,
                        h.tasks@[i],
                        q[q0.len() as int].submission_time,
                    )
            }),
            forall|p: TaskPriority|
                p != TaskPriority::Normal ==> #[trigger] final(self).scheduler.queue(p) == old(self).scheduler.queue(p),
            final(self).cluster == old(self).cluster,
            final(self).monitoring == old(self).monitoring,
            final(self).fault_detector == old(self).fault_detector,
            final(self).recovery == old(self).recovery,
            final(self).examples == old(self).examples,
    {
        let now = now_millis();
        let h = self.scheduler.submit_job(job, now);
        proof {
            let q0 = old(self).scheduler.queue(TaskPriority::Normal);
            let q = self.scheduler.queue(TaskPriority::Normal);
            if h.tasks@.len() > 0 {
                assert(job_task(q[q0.len() + 0int], job.job_name_view(), 0, h.tasks@[0], now));
            }
        }
        h
    }

    /// The category and difficulty of the example named `example_name`,
    /// the first step of running it; a configuration error when there is
    /// no such example.
    pub fn find_example(&self, example_name: &str) -> (r: Result<(ExampleCategory, DifficultyLevel), DistributedError>)
        requires
            self.examples.wf(),
        ensures
            (exists|i: int|
                0 <= i < self.examples.examples@.len() && (#[trigger] self.examples.examples@[i]).name@
                    == example_name@) ==> r is Ok,
            forall|i: int|
                0 <= i < self.examples.examples@.len() && (#[trigger] self.examples.examples@[i]).name@
                    == example_name@ ==> r == Ok::<(ExampleCategory, DifficultyLevel), DistributedError>(
                    (self.examples.examples@[i].category, self.examples.examples@[i].difficulty),
                ),
            !(exists|i: int|
                0 <= i < self.examples.examples@.len() && (#[trigger] self.examples.examples@[i]).name@
                    == example_name@) ==> (r matches Err(DistributedError::Configuration(m)) && m@ == "Example '"@
                + example_name@ + "' not found"@),
    {
        match self.examples.get_example(example_name) {
            Some(found) => Ok(found),
            None => {
                let mut m = string_of("Example '");
                push_text(&mut m, example_name);
                push_text(&mut m, "' not found");
                Err(DistributedError::Configuration(m))
            },
        }
    }

    /// Submits `job` (see `submit_job`) and waits for its result: the
    /// empty success that a new handle holds.
    pub(crate) fn run_job<M, R>(&mut self, job: Job<M, R>) -> (r: Result<JobResult, DistributedError>)
        ensures
            r matches Ok(JobResult::Success(v)) && v@.len() == 0,
            job_queued(*old(self), *final(self), job),
    {
        let mut h = self.submit_job(&job);
        proof {
            let q0 = old(self).scheduler.queue(TaskPriority::Normal);
            let q = self.scheduler.queue(TaskPriority::Normal);
            assert forall|i: int| 0 <= i < job.tasks_view().len() implies #[trigger] job_task(
                q[q0.len() + i],
                job.job_name_view(),
                i,
                q[q0.len() + i].id,
                q[q0.len() as int].submission_time,
            ) by {
                assert(job_task(q[q0.len() + i], job.job_name_view(), i, h.tasks@[i], q[q0.len() as int].submission_time));
            }
        }
        match h.result() {
            Ok(x) => Ok(x),
            Err(m) => Err(DistributedError::TaskExecution(m)),
        }
    }

    /// Runs the built-in example named `example_name`: its job is
    /// generated with `config` and submitted, and the first result its
    /// handle yields is returned; a configuration error when no built-in
    /// example has that name. The generated jobs have no tasks yet, so the
    /// queues stay as they were.
    pub fn run_example(&mut self, example_name: &str, config: &str) -> (r: Result<JobResult, DistributedError>)
        ensures
            is_builtin_example(example_name@) ==> (r matches Ok(JobResult::Success(v)) && v@.len() == 0),
            !is_builtin_example(example_name@) ==> (r matches Err(DistributedError::Configuration(m)) && m@
                == "Example '"@ + example_name@ + "' not found"@),
            forall|p: TaskPriority| #[trigger] final(self).scheduler.queue(p) == old(self).scheduler.queue(p),
            final(self).cluster == old(self).cluster,
            final(self).monitoring == old(self).monitoring,
            final(self).fault_detector == old(self).fault_detector,
            final(self).recovery == old(self).recovery,
            final(self).examples == old(self).examples,
    {
        proof {
            reveal_strlit("Basic Parallel Computation");
            reveal_strlit("Word Count with MapReduce");
            reveal_strlit("MPI Communication Patterns");
            reveal_strlit("Distributed Shared Memory");
            reveal_strlit("Distributed Matrix Multiplication");
            reveal_strlit("Fault Tolerance and Recovery");
            reveal_strlit("Performance Monitoring and Analysis");
        }
        if str_equal(example_name, "Basic Parallel Computation") {
            assert(builtin_examples()[0].0 == example_name@);
            let job = BasicParallelExample.generate_job(config);
            let ghost queued = job;
            let r = self.run_job(job);
            proof {
                lemma_taskless_job_changes_nothing(*old(self), *self, queued);
            }
            r
        } else if str_equal(example_name, "Word Count with MapReduce") {
            assert(builtin_examples()[1].0 == example_name@);
            let job = WordCountExample.generate_job(config);
            let ghost queued = job;
            let r = self.run_job(job);
            proof {
                lemma_taskless_job_changes_nothing(*old(self), *self, queued);
            }
            r
        } else if str_equal(example_name, "MPI Communication Patterns") {
            assert(builtin_examples()[2].0 == example_name@);
            let job = MPICommunicationExample.generate_job(config);
            let ghost queued = job;
            let r = self.run_job(job);
            proof {
                lemma_taskless_job_changes_nothing(*old(self), *self, queued);
            }
            r
        } else if str_equal(example_name, "Distributed Shared Memory") {
            assert(builtin_examples()[3].0 == example_name@);
            let job = SharedMemoryExample.generate_job(config);
            let ghost queued = job;
            let r = self.run_job(job);
            proof {
                lemma_taskless_job_changes_nothing(*old(self), *self, queued);
            }
            r
        } else if str_equal(example_name, "Distributed Matrix Multiplication") {
            assert(builtin_examples()[4].0 == example_name@);
            let job = MatrixMultiplicationExample.generate_job(config);
            let ghost queued = job;
            let r = self.run_job(job);
            proof {
                lemma_taskless_job_changes_nothing(*old(self), *self, queued);
            }
            r
        } else if str_equal(example_name, "Fault Tolerance and Recovery") {
            assert(builtin_examples()[5].0 == example_name@);
            let job = FaultToleranceExample.generate_job(config);
            let ghost queued = job;
            let r = self.run_job(job);
            proof {
                lemma_taskless_job_changes_nothing(*old(self), *self, queued);
            }
            r
        } else if str_equal(example_name, "Performance Monitoring and Analysis") {
            assert(builtin_examples()[6].0 == example_name@);
            let job = PerformanceMonitoringExample.generate_job(config);
            let ghost queued = job;
            let r = self.run_job(job);
            proof {
                lemma_taskless_job_changes_nothing(*old(self), *self, queued);
            }
            r
        } else {
            let mut m = string_of("Example '");
            push_text(&mut m, example_name);
            push_text(&mut m, "' not found");
            Err(DistributedError::Configuration(m))
        }
    }
}

/// `after` is `before` with one normal-priority task queued for each task
/// of `job`, in order (see `TaskQueues::submit_job`), all submitted at one
/// time, and nothing else changed.
pub open spec fn job_queued<M, R>(before: DistributedFramework, after: DistributedFramework, job: Job<M, R>) -> bool {
    let q0 = before.scheduler.queue(TaskPriority::Normal);
    let q = after.scheduler.queue(TaskPriority::Normal);
    &&& q.len() == q0.len() + job.tasks_view().len()
    &&& q.take(q0.len() as int) == q0
    &&& forall|i: int|
        0 <= i < job.tasks_view().len() ==> #[trigger] job_task(
            q[q0.len() + i],
            job.job_name_view(),
            i,
            q[q0.len() + i].id,
            q[q0.len() as int].submission_time,
        )
    &&& forall|p: TaskPriority| p != TaskPriority::Normal ==> #[trigger] after.scheduler.queue(p) == before.scheduler.queue(p)
    &&& after.cluster == before.cluster
    &&& after.monitoring == before.monitoring
    &&& after.fault_detector == before.fault_detector
    &&& after.recovery == before.recovery
    &&& after.examples == before.examples
}

/// Queuing a job that has no tasks changes no queue.
pub proof fn lemma_taskless_job_changes_nothing<M, R>(
    before: DistributedFramework,
    after: DistributedFramework,
    job: Job<M, R>,
)
    requires
        job_queued(before, after, job),
        job.tasks_view().len() == 0,
    ensures
        forall|p: TaskPriority| #[trigger] after.scheduler.queue(p) == before.scheduler.queue(p),
{
    let q0 = before.scheduler.queue(TaskPriority::Normal);
    let q = after.scheduler.queue(TaskPriority::Normal);
    assert(q =~= q.take(q0.len() as int));
    assert forall|p: TaskPriority| #[trigger] after.scheduler.queue(p) == before.scheduler.queue(p) by {
        if p == TaskPriority::Normal {
        }
    }
}

} // verus!
