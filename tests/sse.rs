use prover::job::JobStatus;
use prover::sse::{StatusEvent, Subscription};

fn ev(status: JobStatus, job_id: u64) -> StatusEvent {
    StatusEvent { status, job_id }
}

#[test]
fn event_text_is_a_json_pair() {
    assert_eq!(ev(JobStatus::Completed, 3).to_text(), b"[\"Completed\",3]".to_vec());
    assert_eq!(ev(JobStatus::Failed, 1234567).to_text(), b"[\"Failed\",1234567]".to_vec());
    assert_eq!(ev(JobStatus::Running, 0).to_text(), b"[\"Running\",0]".to_vec());
}

#[test]
fn late_subscriber_gets_one_final_event() {
    let (mut sub, first) = Subscription::subscribe(5, JobStatus::Failed);
    assert_eq!(first, Some(ev(JobStatus::Failed, 5)));
    assert!(sub.is_done());
    assert_eq!(sub.on_event(ev(JobStatus::Completed, 5)), None);
}

#[test]
fn early_subscriber_streams_until_terminal() {
    let (mut sub, first) = Subscription::subscribe(5, JobStatus::Pending);
    assert_eq!(first, None);
    let events = [
        ev(JobStatus::Running, 4),
        ev(JobStatus::Running, 5),
        ev(JobStatus::Completed, 4),
        ev(JobStatus::Failed, 5),
        ev(JobStatus::Completed, 5),
    ];
    let sent: Vec<StatusEvent> = events.iter().filter_map(|e| sub.on_event(*e)).collect();
    assert_eq!(sent, vec![ev(JobStatus::Running, 5), ev(JobStatus::Failed, 5)]);
    assert!(sub.is_done());
    assert_eq!(sub.job_id(), 5);
}

#[test]
fn unknown_job_subscription_waits() {
    let (sub, first) = Subscription::subscribe(9, JobStatus::Unknown);
    assert_eq!(first, None);
    assert!(!sub.is_done());
}
