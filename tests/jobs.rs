use prover::job::{job_response, Job, JobResponse, JobStatus, JobStore};
use prover::prover_input::{Cairo0ProverInput, CairoVersionedInput, Layout, RunMode};
use prover::scheduler::{finish_job, start_job, Dequeued, ProveParams, SubmitError, Task, TaskCommon, TaskQueue};
use prover::sse::StatusEvent;

fn prove_task(job_id: u64) -> Task {
    Task::Prove(ProveParams {
        common: TaskCommon { job_id },
        program_input: CairoVersionedInput::Cairo0(Cairo0ProverInput {
            program: b"{}".to_vec(),
            program_input: b"{}".to_vec(),
            layout: Layout::Recursive,
            n_queries: Some(16),
            pow_bits: Some(20),
            run_mode: RunMode::Bootload,
        }),
    })
}

#[test]
fn ids_are_sequential() {
    let mut store = JobStore::new();
    assert_eq!(store.create_job(), 0);
    assert_eq!(store.create_job(), 1);
    assert_eq!(store.create_job(), 2);
    assert_eq!(store.len(), 3);
}

#[test]
fn update_of_unknown_id_is_a_no_op() {
    let mut store = JobStore::new();
    let id = store.create_job();
    store.update_job_status(9, JobStatus::Failed, Some("x".to_string()));
    let j = store.get_job(id).unwrap();
    assert_eq!(j.status, JobStatus::Pending);
    assert!(store.get_job(9).is_none());
}

#[test]
fn job_lifecycle_pending_running_completed() {
    let mut store = JobStore::new();
    let id = store.create_job();
    assert_eq!(store.get_job(id).unwrap().status, JobStatus::Pending);
    start_job(&mut store, id);
    assert_eq!(store.get_job(id).unwrap().status, JobStatus::Running);
    let ev = finish_job(&mut store, id, Ok("proof".to_string()), 1);
    assert_eq!(ev, Some(StatusEvent { status: JobStatus::Completed, job_id: id }));
    let j = store.get_job(id).unwrap();
    assert_eq!(j.status, JobStatus::Completed);
    assert_eq!(j.result.as_deref(), Some("proof"));
    // a terminal job never reverts
    start_job(&mut store, id);
    assert_eq!(finish_job(&mut store, id, Err("late".to_string()), 1), None);
    let j = store.get_job(id).unwrap();
    assert_eq!(j.status, JobStatus::Completed);
    assert_eq!(j.result.as_deref(), Some("proof"));
}

#[test]
fn failed_pipeline_records_the_message() {
    let mut store = JobStore::new();
    let id = store.create_job();
    start_job(&mut store, id);
    assert_eq!(finish_job(&mut store, id, Err("prover exited".to_string()), 0), None);
    let j = store.get_job(id).unwrap();
    assert_eq!(j.status, JobStatus::Failed);
    assert_eq!(j.result.as_deref(), Some("prover exited"));
}

#[test]
fn stubbed_prove_task_completes_with_ok() {
    let mut store = JobStore::new();
    let mut queue = TaskQueue::new(100);
    let id = store.create_job();
    assert!(queue.execute(prove_task(id)).is_ok());
    let task = match queue.next() {
        Dequeued::Task(t) => t,
        _ => panic!("expected a task"),
    };
    let job_id = task.extract_common().job_id;
    start_job(&mut store, job_id);
    finish_job(&mut store, job_id, Ok("ok".to_string()), 0);
    let (code, response) = job_response(store.get_job(id), id);
    assert_eq!(code, 200);
    match response {
        JobResponse::Completed { result, status } => {
            assert_eq!(status, JobStatus::Completed);
            assert_eq!(result, "ok");
        }
        _ => panic!("expected a completed job"),
    }
}

#[test]
fn job_responses_by_status() {
    let pending = Job { id: 3, status: JobStatus::Pending, result: None };
    assert!(matches!(job_response(Some(pending), 3), (200, JobResponse::InProgress { id: 3, status: JobStatus::Pending })));
    let running = Job { id: 3, status: JobStatus::Running, result: None };
    assert!(matches!(job_response(Some(running), 3), (200, JobResponse::InProgress { id: 3, status: JobStatus::Running })));
    let failed = Job { id: 3, status: JobStatus::Failed, result: Some("boom".to_string()) };
    match job_response(Some(failed), 3) {
        (500, JobResponse::Failed { error }) => assert_eq!(error, "boom"),
        _ => panic!("expected a failure"),
    }
    let done = Job { id: 3, status: JobStatus::Completed, result: None };
    match job_response(Some(done), 3) {
        (200, JobResponse::Completed { result, .. }) => assert_eq!(result, "No result available"),
        _ => panic!("expected a completion"),
    }
    let unknown = Job { id: 3, status: JobStatus::Unknown, result: Some("x".to_string()) };
    match job_response(Some(unknown), 3) {
        (500, JobResponse::Failed { error }) => assert_eq!(error, "Unknown error"),
        _ => panic!("expected a failure"),
    }
    assert!(matches!(job_response(None, 8), (404, JobResponse::NotFound { id: 8 })));
}

#[test]
fn queue_is_bounded_fifo_and_drains_after_shutdown() {
    let mut queue = TaskQueue::new(2);
    assert!(matches!(queue.next(), Dequeued::Wait));
    assert!(queue.execute(prove_task(0)).is_ok());
    assert!(queue.execute(prove_task(1)).is_ok());
    match queue.execute(prove_task(2)) {
        Err(SubmitError::Full(t)) => assert_eq!(t.extract_common().job_id, 2),
        _ => panic!("expected a full queue"),
    }
    queue.shutdown();
    assert!(matches!(queue.execute(prove_task(3)), Err(SubmitError::Shutdown)));
    match queue.next() {
        Dequeued::Task(t) => assert_eq!(t.extract_common().job_id, 0),
        _ => panic!("expected a task"),
    }
    match queue.next() {
        Dequeued::Task(t) => assert_eq!(t.extract_common().job_id, 1),
        _ => panic!("expected a task"),
    }
    assert!(matches!(queue.next(), Dequeued::Exit));
}
