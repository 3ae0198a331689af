//! The job store: jobs with sequential ids and a status lifecycle.
use vstd::prelude::*;

verus! {

/// The status of a job.
#[derive(Clone, Copy, Debug, PartialEq, Eq, Structural)]
pub enum JobStatus {
    Pending,
    Running,
    Completed,
    Failed,
    Unknown,
}

impl JobStatus {
    /// Completed and Failed are terminal: a job never leaves them.
    pub open spec fn spec_is_terminal(self) -> bool {
        self == JobStatus::Completed || self == JobStatus::Failed
    }

    pub fn is_terminal(&self) -> (r: bool)
        ensures
            r == self.spec_is_terminal(),
    {
        match self {
            JobStatus::Completed | JobStatus::Failed => true,
            _ => false,
        }
    }
}

/// What the store knows of a job, as a mathematical value.
pub struct JobView {
    pub id: u64,
    pub status: JobStatus,
    pub result: Option<Seq<char>>,
}

/// A job record.
#[derive(Debug)]
pub struct Job {
    pub id: u64,
    pub status: JobStatus,
    pub result: Option<String>,
}

pub open spec fn opt_string_view(o: Option<String>) -> Option<Seq<char>> {
    match o {
        Some(s) => Some(s@),
        None => None,
    }
}

pub fn clone_opt_string(o: &Option<String>) -> (r: Option<String>)
    ensures
        opt_string_view(r) == opt_string_view(*o),
{
    match o {
        Some(s) => Some(s.clone()),
        None => None,
    }
}

pub open spec fn opt_job_view(o: Option<Job>) -> Option<JobView> {
    match o {
        Some(j) => Some(j@),
        None => None,
    }
}

impl View for Job {
    type V = JobView;

    open spec fn view(&self) -> JobView {
        JobView { id: self.id, status: self.status, result: opt_string_view(self.result) }
    }
}

impl Job {
    /// A copy of the record.
    pub fn snapshot(&self) -> (r: Job)
        ensures
            r@ == self@,
    {
        Job { id: self.id, status: self.status, result: clone_opt_string(&self.result) }
    }
}

/// The ordered collection of all jobs; the job with id `i` stands at index `i`.
#[derive(Debug)]
pub struct JobStore {
    jobs: Vec<Job>,
}

/// The store after a job was created: a Pending job with the next id.
pub open spec fn created(s: Seq<JobView>) -> Seq<JobView> {
    s.push(JobView { id: s.len() as u64, status: JobStatus::Pending, result: None })
}

/// The store after an update of `id`: nothing changes when no job has that id.
pub open spec fn updated(
    s: Seq<JobView>,
    id: u64,
    status: JobStatus,
    result: Option<Seq<char>>,
) -> Seq<JobView> {
    if id < s.len() {
        s.update(id as int, JobView { id, status, result })
    } else {
        s
    }
}

/// The store after a status update of `id`: a job that is not terminal takes the new
/// status and result; a terminal job, or an unknown id, leaves the store as it is.
pub open spec fn recorded(
    s: Seq<JobView>,
    id: u64,
    status: JobStatus,
    result: Option<Seq<char>>,
) -> Seq<JobView> {
    if id < s.len() && !s[id as int].status.spec_is_terminal() {
        updated(s, id, status, result)
    } else {
        s
    }
}

/// What a lookup of `id` finds.
pub open spec fn lookup(s: Seq<JobView>, id: u64) -> Option<JobView> {
    if id < s.len() {
        Some(s[id as int])
    } else {
        None
    }
}

impl View for JobStore {
    type V = Seq<JobView>;

    closed spec fn view(&self) -> Seq<JobView> {
        self.jobs@.map_values(|j: Job| j@)
    }
}

impl JobStore {
    /// Each job's id is its position, and every position fits an id.
    pub open spec fn wf(&self) -> bool {
        &&& self@.len() <= u64::MAX
        &&& forall|i: int| 0 <= i < self@.len() ==> #[trigger] self@[i].id == i
    }

    pub fn new() -> (r: JobStore)
        ensures
            r.wf(),
            r@ == Seq::<JobView>::empty(),
    {
        JobStore { jobs: Vec::new() }
    }

    pub fn len(&self) -> (r: usize)
        ensures
            r == self@.len(),
    {
        self.jobs.len()
    }

    /// Whether each job stands at the position of its id. Every store built with
    /// `new`, `create_job` and `update_job_status` is.
    pub fn is_well_formed(&self) -> (r: bool)
        ensures
            r == self.wf(),
    {
        let n = self.jobs.len();
        let mut i: usize = 0;
        while i < n
            invariant
                n == self.jobs@.len(),
                0 <= i <= n,
                forall|j: int| 0 <= j < i ==> #[trigger] self@[j].id == j,
            decreases n - i,
        {
            assert(self@[i as int] == self.jobs@[i as int]@);
            if (self.jobs[i].id as u128) != (i as u128) {
                assert(self@[i as int].id != i as int);
                return false;
            }
            i += 1;
        }
        true
    }

    /// Appends a Pending job and returns its id, the number of jobs before.
    pub fn create_job(&mut self) -> (id: u64)
        requires
            old(self).wf(),
            old(self)@.len() < u64::MAX,
        ensures
            final(self).wf(),
            id == old(self)@.len(),
            final(self)@ == created(old(self)@),
    {
        let id = self.jobs.len() as u64;
        self.jobs.push(Job { id, status: JobStatus::Pending, result: None });
        assert(self@ =~= created(old(self)@));
        id
    }

    /// Overwrites the status and result of job `job_id`; a no-op for an unknown id and
    /// for a job that is already Completed or Failed, which never changes again.
    pub fn update_job_status(&mut self, job_id: u64, status: JobStatus, result: Option<String>)
        requires
            old(self).wf(),
        ensures
            final(self).wf(),
            final(self)@ == recorded(old(self)@, job_id, status, opt_string_view(result)),
    {
        if job_id < self.jobs.len() as u64 && !self.jobs[job_id as usize].status.is_terminal() {
            let ghost rv = opt_string_view(result);
            let job = Job { id: job_id, status, result };
            self.jobs.set(job_id as usize, job);
            assert(old(self)@[job_id as int] == old(self).jobs@[job_id as int]@);
            assert(self@ =~= updated(old(self)@, job_id, status, rv));
        }
    }

    /// A snapshot of job `id`, if there is one.
    pub fn get_job(&self, id: u64) -> (r: Option<Job>)
        requires
            self.wf(),
        ensures
            opt_job_view(r) == lookup(self@, id),
    {
        if id < self.jobs.len() as u64 {
            assert(self@[id as int] == self.jobs@[id as int]@);
            Some(self.jobs[id as usize].snapshot())
        } else {
            None
        }
    }
}

/// The answer to a job status query.
#[derive(Debug)]
pub enum JobResponse {
    /// The job is pending or running.
    InProgress { id: u64, status: JobStatus },
    /// The job completed with this result.
    Completed { result: String, status: JobStatus },
    /// The job failed with this error, or its status is unknown.
    Failed { error: String },
    /// No job has this id.
    NotFound { id: u64 },
}

/// The answer to a query for job `id`, found as `job`, with its HTTP status: 200 for a
/// job in progress or completed, 500 for a failed or unknown one, 404 for none.
pub fn job_response(job: Option<Job>, id: u64) -> (r: (u16, JobResponse))
    ensures
        match job {
            None => r.0 == 404 && r.1 == (JobResponse::NotFound { id }),
            Some(j) => match j.status {
                JobStatus::Pending | JobStatus::Running => r.0 == 200 && r.1 == (JobResponse::InProgress {
                    id: j.id,
                    status: j.status,
                }),
                JobStatus::Completed => r.0 == 200 && (r.1 matches JobResponse::Completed { result, status }
                    && status == JobStatus::Completed && result@ == match j.result {
                        Some(s) => s@,
                        None => "No result available"@,
                    }),
                _ => r.0 == 500 && (r.1 matches JobResponse::Failed { error } && error@ == match j.result {
                    Some(s) if j.status == JobStatus::Failed => s@,
                    _ => "Unknown error"@,
                }),
            },
        },
{
    match job {
        None => (404, JobResponse::NotFound { id }),
        Some(j) => match j.status {
            JobStatus::Pending | JobStatus::Running => (200, JobResponse::InProgress { id: j.id, status: j.status }),
            JobStatus::Completed => {
                let result = match j.result {
                    Some(s) => s,
                    None => "No result available".to_owned(),
                };
                (200, JobResponse::Completed { result, status: JobStatus::Completed })
            },
            JobStatus::Failed => {
                let error = match j.result {
                    Some(s) => s,
                    None => "Unknown error".to_owned(),
                };
                (500, JobResponse::Failed { error })
            },
            JobStatus::Unknown => (500, JobResponse::Failed { error: "Unknown error".to_owned() }),
        },
    }
}

} // verus!
