//! The task scheduler's decisions: a bounded queue of tasks, and what a worker
//! records in the job store when it starts and finishes a task.
use vstd::prelude::*;
use crate::job::{created, lookup, recorded, updated, JobStatus, JobStore, JobView};
use crate::prover_input::{CairoVersionedInput, SnosPieInput};
use crate::sse::StatusEvent;

verus! {

/// What every task carries: the id of its job.
#[derive(Clone, Copy, Debug, PartialEq, Eq, Structural)]
pub struct TaskCommon {
    pub job_id: u64,
}

#[derive(Debug)]
pub struct ProveParams {
    pub common: TaskCommon,
    pub program_input: CairoVersionedInput,
}

#[derive(Debug)]
pub struct RunParams {
    pub common: TaskCommon,
    pub program_input: CairoVersionedInput,
}

#[derive(Debug)]
pub struct LayoutBridgeParams {
    pub common: TaskCommon,
    pub proof: Vec<u8>,
}

#[derive(Debug)]
pub struct SnosParams {
    pub common: TaskCommon,
    pub input: SnosPieInput,
}

/// A unit of scheduled work.
#[derive(Debug)]
pub enum Task {
    Run(RunParams),
    Prove(ProveParams),
    LayoutBridge(LayoutBridgeParams),
    Snos(SnosParams),
}

impl Task {
    pub open spec fn spec_job_id(&self) -> u64 {
        match self {
            Task::Run(p) => p.common.job_id,
            Task::Prove(p) => p.common.job_id,
            Task::LayoutBridge(p) => p.common.job_id,
            Task::Snos(p) => p.common.job_id,
        }
    }

    /// The fields every task shares.
    pub fn extract_common(&self) -> (r: TaskCommon)
        ensures
            r.job_id == self.spec_job_id(),
    {
        match self {
            Task::Run(p) => p.common,
            Task::Prove(p) => p.common,
            Task::LayoutBridge(p) => p.common,
            Task::Snos(p) => p.common,
        }
    }
}

/// Why a task was not queued.
#[derive(Debug)]
pub enum SubmitError {
    /// The queue is shut down; the task is dropped.
    Shutdown,
    /// The queue is full; the task is handed back, to be submitted again later.
    Full(Task),
}

/// What a worker gets from the queue.
#[derive(Debug)]
pub enum Dequeued {
    Task(Task),
    /// Nothing is queued yet; wait for a submission.
    Wait,
    /// The queue is shut down and drained; the worker stops.
    Exit,
}

/// A bounded first-in first-out queue of tasks that can be shut down.
#[derive(Debug)]
pub struct TaskQueue {
    tasks: Vec<Task>,
    capacity: usize,
    closed: bool,
}

impl TaskQueue {
    pub closed spec fn queued(&self) -> Seq<Task> {
        self.tasks@
    }

    pub closed spec fn spec_capacity(&self) -> usize {
        self.capacity
    }

    pub closed spec fn is_shut_down(&self) -> bool {
        self.closed
    }

    /// A queue for at most `capacity` tasks.
    pub fn new(capacity: usize) -> (r: TaskQueue)
        ensures
            r.queued() == Seq::<Task>::empty(),
            r.spec_capacity() == capacity,
            !r.is_shut_down(),
    {
        TaskQueue { tasks: Vec::new(), capacity, closed: false }
    }

    /// Queues `task` at the back, unless the queue is shut down or full.
    pub fn execute(&mut self, task: Task) -> (r: Result<(), SubmitError>)
        ensures
            final(self).spec_capacity() == old(self).spec_capacity(),
            final(self).is_shut_down() == old(self).is_shut_down(),
            old(self).is_shut_down() ==> (r matches Err(SubmitError::Shutdown)) && final(self).queued() == old(self).queued(),
            !old(self).is_shut_down() && old(self).queued().len() >= old(self).spec_capacity() ==> (r matches Err(
                SubmitError::Full(t)) && t == task) && final(self).queued() == old(self).queued(),
            !old(self).is_shut_down() && old(self).queued().len() < old(self).spec_capacity() ==> r is Ok
                && final(self).queued() == old(self).queued().push(task),
    {
        if self.closed {
            return Err(SubmitError::Shutdown);
        }
        if self.tasks.len() >= self.capacity {
            return Err(SubmitError::Full(task));
        }
        self.tasks.push(task);
        Ok(())
    }

    /// Takes the task at the front.
    pub fn next(&mut self) -> (r: Dequeued)
        ensures
            final(self).spec_capacity() == old(self).spec_capacity(),
            final(self).is_shut_down() == old(self).is_shut_down(),
            old(self).queued().len() > 0 ==> (r matches Dequeued::Task(t) && t == old(self).queued()[0])
                && final(self).queued() == old(self).queued().drop_first(),
            old(self).queued().len() == 0 ==> final(self).queued() == old(self).queued() && (if old(self).is_shut_down() {
                r is Exit
            } else {
                r is Wait
            }),
    {
        if self.tasks.len() > 0 {
            let t = self.tasks.remove(0);
            assert(self.tasks@ =~= old(self).tasks@.drop_first());
            Dequeued::Task(t)
        } else if self.closed {
            Dequeued::Exit
        } else {
            Dequeued::Wait
        }
    }

    /// Stops taking tasks; those queued are still handed out.
    pub fn shutdown(&mut self)
        ensures
            final(self).is_shut_down(),
            final(self).queued() == old(self).queued(),
            final(self).spec_capacity() == old(self).spec_capacity(),
    {
        self.closed = true;
    }

    pub fn len(&self) -> (r: usize)
        ensures
            r == self.queued().len(),
    {
        self.tasks.len()
    }
}

/// The store once a worker started the task of job `id`: a pending job becomes
/// running; any other job, or no job, is left alone.
pub open spec fn started(s: Seq<JobView>, id: u64) -> Seq<JobView> {
    match lookup(s, id) {
        Some(j) => if j.status == JobStatus::Pending {
            updated(s, id, JobStatus::Running, None)
        } else {
            s
        },
        None => s,
    }
}

/// Whether job `id` exists and is not terminal.
pub open spec fn is_open_job(s: Seq<JobView>, id: u64) -> bool {
    lookup(s, id) is Some && !lookup(s, id).unwrap().status.spec_is_terminal()
}

/// The store once the task of job `id` ended with `outcome`: a job that is not
/// terminal becomes Completed with the payload, or Failed with the error message.
pub open spec fn finished(s: Seq<JobView>, id: u64, outcome: Result<Seq<char>, Seq<char>>) -> Seq<JobView> {
    match lookup(s, id) {
        Some(j) => if j.status.spec_is_terminal() {
            s
        } else {
            match outcome {
                Ok(p) => updated(s, id, JobStatus::Completed, Some(p)),
                Err(m) => updated(s, id, JobStatus::Failed, Some(m)),
            }
        },
        None => s,
    }
}

pub open spec fn outcome_view(o: Result<String, String>) -> Result<Seq<char>, Seq<char>> {
    match o {
        Ok(p) => Ok(p@),
        Err(m) => Err(m@),
    }
}

/// Marks job `id` Running as its task starts.
pub fn start_job(store: &mut JobStore, id: u64)
    requires
        old(store).wf(),
    ensures
        final(store).wf(),
        final(store)@ == started(old(store)@, id),
{
    match store.get_job(id) {
        Some(j) => {
            if j.status == JobStatus::Pending {
                store.update_job_status(id, JobStatus::Running, None);
            }
        },
        None => {},
    }
}

/// Records how the task of job `id` ended, and returns the event to publish when
/// the job changed and someone subscribes: its new terminal status.
pub fn finish_job(store: &mut JobStore, id: u64, outcome: Result<String, String>, subscribers: usize) -> (r: Option<StatusEvent>)
    requires
        old(store).wf(),
    ensures
        final(store).wf(),
        final(store)@ == finished(old(store)@, id, outcome_view(outcome)),
        r == (if subscribers > 0 && is_open_job(old(store)@, id) {
            Some(StatusEvent { status: if outcome is Ok { JobStatus::Completed } else { JobStatus::Failed }, job_id: id })
        } else {
            None
        }),
{
    let j = match store.get_job(id) {
        Some(j) => j,
        None => return None,
    };
    if j.status.is_terminal() {
        return None;
    }
    let status = match outcome {
        Ok(payload) => {
            store.update_job_status(id, JobStatus::Completed, Some(payload));
            JobStatus::Completed
        },
        Err(message) => {
            store.update_job_status(id, JobStatus::Failed, Some(message));
            JobStatus::Failed
        },
    };
    if subscribers > 0 {
        Some(StatusEvent { status, job_id: id })
    } else {
        None
    }
}

/// A created job is Pending until its task starts, Running once it starts, and then
/// exactly one of Completed (on success) or Failed (on error).
pub proof fn job_lifecycle(s: Seq<JobView>, outcome: Result<Seq<char>, Seq<char>>)
    requires
        s.len() < u64::MAX,
    ensures
        ({
            let id = s.len() as u64;
            let s0 = created(s);
            let s1 = started(s0, id);
            let s2 = finished(s1, id, outcome);
            &&& lookup(s0, id) == Some(JobView { id, status: JobStatus::Pending, result: None })
            &&& lookup(s1, id) == Some(JobView { id, status: JobStatus::Running, result: None })
            &&& lookup(s2, id) is Some
            &&& lookup(s2, id).unwrap().status == (if outcome is Ok {
                JobStatus::Completed
            } else {
                JobStatus::Failed
            })
        }),
{
}

/// A terminal status is never left: updating any job, starting or finishing any task,
/// or creating a job, leaves a terminal job as it is.
pub proof fn terminal_status_is_final(
    s: Seq<JobView>,
    id: u64,
    other: u64,
    status: JobStatus,
    result: Option<Seq<char>>,
    outcome: Result<Seq<char>, Seq<char>>,
)
    requires
        lookup(s, id) is Some,
        lookup(s, id).unwrap().status.spec_is_terminal(),
    ensures
        lookup(recorded(s, other, status, result), id) == lookup(s, id),
        lookup(started(s, other), id) == lookup(s, id),
        lookup(finished(s, other, outcome), id) == lookup(s, id),
        s.len() < u64::MAX ==> lookup(created(s), id) == lookup(s, id),
{
}

} // verus!
