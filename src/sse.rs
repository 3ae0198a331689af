//! The completion notifier's subscriber side: events `(status, job_id)` filtered
//! to one job, ending after the job's terminal status.
use vstd::prelude::*;
use crate::job::JobStatus;
use crate::signed_request::{decimal, push_bytes, push_decimal};

verus! {

/// A status change of a job, as published to subscribers.
#[derive(Clone, Copy, Debug, PartialEq, Eq, Structural)]
pub struct StatusEvent {
    pub status: JobStatus,
    pub job_id: u64,
}

/// A status's name, as ASCII bytes.
pub open spec fn status_name(s: JobStatus) -> Seq<u8> {
    match s {
        JobStatus::Pending => seq![80u8, 101, 110, 100, 105, 110, 103],
        JobStatus::Running => seq![82u8, 117, 110, 110, 105, 110, 103],
        JobStatus::Completed => seq![67u8, 111, 109, 112, 108, 101, 116, 101, 100],
        JobStatus::Failed => seq![70u8, 97, 105, 108, 101, 100],
        JobStatus::Unknown => seq![85u8, 110, 107, 110, 111, 119, 110],
    }
}

/// The text of an event: the JSON array `["<status>",<job_id>]`.
pub open spec fn event_text(e: StatusEvent) -> Seq<u8> {
    seq![91u8, 34] + status_name(e.status) + seq![34u8, 44] + decimal(e.job_id as nat) + seq![93u8]
}

fn status_name_bytes(s: JobStatus) -> (r: Vec<u8>)
    ensures
        r@ == status_name(s),
{
    let r = match s {
        JobStatus::Pending => vec![80u8, 101, 110, 100, 105, 110, 103],
        JobStatus::Running => vec![82u8, 117, 110, 110, 105, 110, 103],
        JobStatus::Completed => vec![67u8, 111, 109, 112, 108, 101, 116, 101, 100],
        JobStatus::Failed => vec![70u8, 97, 105, 108, 101, 100],
        JobStatus::Unknown => vec![85u8, 110, 107, 110, 111, 119, 110],
    };
    assert(r@ =~= status_name(s));
    r
}

impl StatusEvent {
    /// The event's text, as sent to a subscriber.
    pub fn to_text(&self) -> (r: Vec<u8>)
        ensures
            r@ == event_text(*self),
    {
        let mut out: Vec<u8> = vec![91u8, 34];
        let name = status_name_bytes(self.status);
        push_bytes(&mut out, name.as_slice());
        out.push(34u8);
        out.push(44u8);
        push_decimal(&mut out, self.job_id);
        out.push(93u8);
        assert(out@ =~= event_text(*self));
        out
    }
}

/// One step of a subscription to `job_id`: once closed nothing passes; an event for
/// another job is dropped; an event for the job passes, and a terminal one closes.
pub open spec fn step(job_id: u64, closed: bool, e: StatusEvent) -> (Option<StatusEvent>, bool) {
    if closed {
        (None, true)
    } else if e.job_id != job_id {
        (None, false)
    } else {
        (Some(e), e.status.spec_is_terminal())
    }
}

/// What a subscription sends for a run of events, and whether it is closed after.
pub open spec fn run(job_id: u64, closed: bool, events: Seq<StatusEvent>) -> (Seq<StatusEvent>, bool)
    decreases events.len(),
{
    if events.len() == 0 {
        (Seq::empty(), closed)
    } else {
        let (sent, c) = run(job_id, closed, events.drop_last());
        let (o, c2) = step(job_id, c, events.last());
        (
            match o {
                Some(e) => sent.push(e),
                None => sent,
            },
            c2,
        )
    }
}

/// A subscriber's stream for one job.
#[derive(Debug)]
pub struct Subscription {
    job_id: u64,
    closed: bool,
}

impl Subscription {
    pub closed spec fn job(&self) -> u64 {
        self.job_id
    }

    /// The job this stream follows.
    pub fn job_id(&self) -> (r: u64)
        ensures
            r == self.job(),
    {
        self.job_id
    }

    pub closed spec fn is_closed(&self) -> bool {
        self.closed
    }

    /// Subscribes to `job_id` whose status is `current` at that moment (`Unknown`
    /// when there is no such job). A terminal status is sent at once and closes the
    /// stream; otherwise nothing is sent yet.
    pub fn subscribe(job_id: u64, current: JobStatus) -> (r: (Subscription, Option<StatusEvent>))
        ensures
            r.0.job() == job_id,
            current.spec_is_terminal() ==> r.0.is_closed() && r.1 == Some(StatusEvent { status: current, job_id }),
            !current.spec_is_terminal() ==> !r.0.is_closed() && r.1.is_none(),
    {
        if current.is_terminal() {
            (Subscription { job_id, closed: true }, Some(StatusEvent { status: current, job_id }))
        } else {
            (Subscription { job_id, closed: false }, None)
        }
    }

    /// Whether the stream has ended.
    pub fn is_done(&self) -> (r: bool)
        ensures
            r == self.is_closed(),
    {
        self.closed
    }

    /// Handles a published event; returns what is sent to the subscriber.
    pub fn on_event(&mut self, e: StatusEvent) -> (r: Option<StatusEvent>)
        ensures
            final(self).job() == old(self).job(),
            (r, final(self).is_closed()) == step(old(self).job(), old(self).is_closed(), e),
    {
        if self.closed || e.job_id != self.job_id {
            return None;
        }
        if e.status.is_terminal() {
            self.closed = true;
        }
        Some(e)
    }
}

/// Whether `events` hold a terminal event for `job_id`.
pub open spec fn has_terminal(job_id: u64, events: Seq<StatusEvent>) -> bool {
    exists|i: int| 0 <= i < events.len() && (#[trigger] events[i]).job_id == job_id && events[i].status.spec_is_terminal()
}

proof fn lemma_closed_stays_silent(job_id: u64, events: Seq<StatusEvent>)
    ensures
        run(job_id, true, events) == (Seq::<StatusEvent>::empty(), true),
    decreases events.len(),
{
    if events.len() > 0 {
        lemma_closed_stays_silent(job_id, events.drop_last());
    }
}

proof fn lemma_open_until_terminal(job_id: u64, events: Seq<StatusEvent>)
    ensures
        run(job_id, false, events).1 == has_terminal(job_id, events),
    decreases events.len(),
{
    if events.len() > 0 {
        let pre = events.drop_last();
        lemma_open_until_terminal(job_id, pre);
        if has_terminal(job_id, pre) {
            let i = choose|i: int| 0 <= i < pre.len() && (#[trigger] pre[i]).job_id == job_id && pre[i].status.spec_is_terminal();
            assert(events[i] == pre[i]);
        }
        if has_terminal(job_id, events) && !has_terminal(job_id, pre) {
            let i = choose|i: int| 0 <= i < events.len() && (#[trigger] events[i]).job_id == job_id && events[i].status.spec_is_terminal();
            if i < pre.len() {
                assert(pre[i] == events[i]);
            }
        }
    }
}

proof fn lemma_run_append(job_id: u64, closed: bool, a: Seq<StatusEvent>, b: Seq<StatusEvent>)
    ensures
        run(job_id, closed, a + b) == ({
            let (s1, c1) = run(job_id, closed, a);
            let (s2, c2) = run(job_id, c1, b);
            (s1 + s2, c2)
        }),
    decreases b.len(),
{
    if b.len() == 0 {
        assert(a + b =~= a);
        let (s1, c1) = run(job_id, closed, a);
        assert(s1 + Seq::<StatusEvent>::empty() =~= s1);
    } else {
        lemma_run_append(job_id, closed, a, b.drop_last());
        assert((a + b).drop_last() =~= a + b.drop_last());
        let (s1, c1) = run(job_id, closed, a);
        let (s2, c2) = run(job_id, c1, b.drop_last());
        let (o, c3) = step(job_id, c2, b.last());
        match o {
            Some(e) => { assert((s1 + s2).push(e) =~= s1 + s2.push(e)); },
            None => {},
        }
    }
}

/// A subscriber that comes after the job finished gets exactly one event, the final
/// status, and its stream is closed whatever is published afterwards.
pub proof fn late_subscriber_gets_final_event(job_id: u64, current: JobStatus, later: Seq<StatusEvent>)
    requires
        current.spec_is_terminal(),
    ensures
        run(job_id, true, later) == (Seq::<StatusEvent>::empty(), true),
{
    lemma_closed_stays_silent(job_id, later);
}

/// A subscriber that comes before the job finished gets, as the last event of its
/// stream, the job's first terminal event, and its stream closes right after it.
pub proof fn early_subscriber_gets_final_event(job_id: u64, events: Seq<StatusEvent>, k: int)
    requires
        0 <= k < events.len(),
        events[k].job_id == job_id,
        events[k].status.spec_is_terminal(),
        !has_terminal(job_id, events.take(k)),
    ensures
        run(job_id, false, events).0.len() > 0,
        run(job_id, false, events).0.last() == events[k],
        run(job_id, false, events).1,
        run(job_id, false, events) == run(job_id, false, events.take(k + 1)),
{
    let pre = events.take(k);
    let upto = events.take(k + 1);
    let post = events.subrange(k + 1, events.len() as int);
    lemma_open_until_terminal(job_id, pre);
    assert(upto.drop_last() =~= pre);
    assert(events =~= upto + post);
    lemma_run_append(job_id, false, upto, post);
    lemma_closed_stays_silent(job_id, post);
    let (s1, c1) = run(job_id, false, upto);
    assert(s1 + Seq::<StatusEvent>::empty() =~= s1);
}

} // verus!
