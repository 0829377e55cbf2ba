//! What the background config writer has been asked to do.
//!
//! Saving flushes the file to disk, which can take a noticeable moment on a slow disk, and the
//! window saves on every change of a setting, so the window hands the text to a writer thread.
//! Changes that arrive while a write is going on are merged: only the newest state is written
//! next. The thread and its lock are the application's; this is the queue they guard.

use vstd::prelude::*;

verus! {

/// What the writer thread has been asked to do.
#[derive(Debug)]
pub struct Queue {
    /// The newest config text and where it goes; older ones that were not written yet are gone.
    pub pending: Option<(String, String)>,
    /// The writer is being shut down: write what is pending, then end.
    pub stop: bool,
}

/// What the writer thread does next.
#[derive(Debug, PartialEq, Eq)]
pub enum Job {
    /// Write `text` to `path`.
    Write { path: String, text: String },
    /// End: nothing is pending and the writer is being shut down.
    Stop,
    /// Wait to be woken.
    Wait,
}

/// The queue after `(path, text)` was submitted.
pub open spec fn submitted(q: Queue, job: (String, String)) -> Queue {
    Queue { pending: Some(job), stop: q.stop }
}

/// The queue after the writer was asked to end.
pub open spec fn stopped(q: Queue) -> Queue {
    Queue { pending: q.pending, stop: true }
}

/// The queue after the writer looked at it, and what it does next.
pub open spec fn next_spec(q: Queue) -> (Queue, Job) {
    let after = Queue { pending: None, stop: q.stop };
    match q.pending {
        Some(job) => (after, Job::Write { path: job.0, text: job.1 }),
        None => (after, if q.stop {
            Job::Stop
        } else {
            Job::Wait
        }),
    }
}

impl Queue {
    /// Nothing asked yet.
    pub fn new() -> (r: Self)
        ensures
            r.pending is None,
            !r.stop,
    {
        Queue { pending: None, stop: false }
    }

    /// Queues `text` to be written to `path`, in place of what was pending.
    pub fn submit(&mut self, path: String, text: String)
        ensures
            *final(self) == submitted(*old(self), (path, text)),
    {
        self.pending = Some((path, text));
    }

    /// Asks the writer to end once what is pending is written.
    pub fn shut_down(&mut self)
        ensures
            *final(self) == stopped(*old(self)),
    {
        self.stop = true;
    }

    /// What the writer does next: what is pending is written first (and taken out of the queue),
    /// even when the writer is being shut down.
    pub fn next_job(&mut self) -> (r: Job)
        ensures
            (*final(self), r) == next_spec(*old(self)),
    {
        match self.pending.take() {
            Some((path, text)) => Job::Write { path, text },
            None => {
                if self.stop {
                    Job::Stop
                } else {
                    Job::Wait
                }
            },
        }
    }
}

/// Of two submissions before the writer looks, only the newer is written, and nothing is written
/// twice.
pub proof fn lemma_newest_wins(q: Queue, older: (String, String), newer: (String, String))
    ensures
        next_spec(submitted(submitted(q, older), newer)).1 == (Job::Write {
            path: newer.0,
            text: newer.1,
        }),
        next_spec(next_spec(submitted(submitted(q, older), newer)).0).1 != (Job::Write {
            path: older.0,
            text: older.1,
        }),
{
}

/// Shutting the writer down loses nothing: what is pending is written before the writer ends.
pub proof fn lemma_nothing_lost_at_shutdown(q: Queue, job: (String, String))
    ensures
        next_spec(stopped(submitted(q, job))).1 == (Job::Write { path: job.0, text: job.1 }),
        next_spec(next_spec(stopped(submitted(q, job))).0).1 == Job::Stop,
{
}

/// What happens over `events`, from the queue `q` on: `Some(job)` is a submission of `job`, `None`
/// the writer taking its next job. The queue afterwards, and the writer's jobs in order.
pub open spec fn run_events(q: Queue, events: Seq<Option<(String, String)>>) -> (Queue, Seq<Job>)
    decreases events.len(),
{
    if events.len() == 0 {
        (q, Seq::empty())
    } else {
        let (q1, jobs) = run_events(q, events.drop_last());
        match events.last() {
            Some(job) => (submitted(q1, job), jobs),
            None => (next_spec(q1).0, jobs.push(next_spec(q1).1)),
        }
    }
}

/// The newest submission among `events`, if any.
pub open spec fn last_submitted(events: Seq<Option<(String, String)>>) -> Option<(String, String)>
    decreases events.len(),
{
    if events.len() == 0 {
        None
    } else {
        match events.last() {
            Some(job) => Some(job),
            None => last_submitted(events.drop_last()),
        }
    }
}

/// The last of `jobs` that writes, as the path and the text it writes.
pub open spec fn last_written(jobs: Seq<Job>) -> Option<(String, String)>
    decreases jobs.len(),
{
    if jobs.len() == 0 {
        None
    } else {
        match jobs.last() {
            Job::Write { path, text } => Some((path, text)),
            _ => last_written(jobs.drop_last()),
        }
    }
}

/// The writer's jobs once it is shut down with the queue `q`, up to its end.
pub open spec fn shutdown_jobs(q: Queue) -> Seq<Job> {
    let (q1, first) = next_spec(stopped(q));
    if first is Write {
        seq![first, next_spec(q1).1]
    } else {
        seq![first]
    }
}

/// Along any history from an empty queue, what is pending is the newest submission, and when
/// nothing is pending the newest submission is the last thing written.
proof fn lemma_run_events(events: Seq<Option<(String, String)>>)
    ensures
        ({
            let (q, jobs) = run_events(Queue { pending: None, stop: false }, events);
            &&& !q.stop
            &&& q.pending is Some ==> q.pending == last_submitted(events)
            &&& q.pending is None ==> last_written(jobs) == last_submitted(events)
        }),
    decreases events.len(),
{
    if events.len() > 0 {
        lemma_run_events(events.drop_last());
        let (q1, jobs) = run_events(Queue { pending: None, stop: false }, events.drop_last());
        if events.last() is None {
            let jobs2 = jobs.push(next_spec(q1).1);
            assert(jobs2.drop_last() =~= jobs);
        }
    }
}

/// However submissions and the writer's work interleave, once the writer is shut down the newest
/// submission is the last thing it writes (nothing is written when nothing was submitted), and it
/// then ends.
pub proof fn lemma_newest_written_last(events: Seq<Option<(String, String)>>)
    ensures
        ({
            let (q, jobs) = run_events(Queue { pending: None, stop: false }, events);
            let all = jobs + shutdown_jobs(q);
            &&& last_written(all) == last_submitted(events)
            &&& all.last() == Job::Stop
        }),
{
    lemma_run_events(events);
    let (q, jobs) = run_events(Queue { pending: None, stop: false }, events);
    let all = jobs + shutdown_jobs(q);
    match q.pending {
        Some(job) => {
            let w = Job::Write { path: job.0, text: job.1 };
            assert(next_spec(stopped(q)).1 == w);
            assert(shutdown_jobs(q) == seq![w, Job::Stop]);
            assert(all.last() == Job::Stop);
            assert(all.drop_last() =~= jobs.push(w));
            assert(last_written(all) == last_written(all.drop_last()));
            assert(all.drop_last().last() == w);
            assert(last_written(all.drop_last()) == Some(job));
        },
        None => {
            assert(all.drop_last() =~= jobs);
        },
    }
}

} // verus!
