//! A round-robin scheduler: a queue of processes and a counter of process
//! identifiers. All state is explicit and owned; callers hold the scheduler
//! exclusively while they use it.

use vstd::prelude::*;
use std::collections::VecDeque;
use crate::process::{Process, ProcessState};

verus! {

/// A queued process.
#[derive(Debug)]
pub struct ScheduledProcess {
    pub process: Process,
}

/// First index of a `Ready` process in `q`, or `None`.
pub open spec fn spec_first_ready(q: Seq<ScheduledProcess>) -> Option<int>
    decreases q.len(),
{
    if q.len() == 0 {
        None
    } else if q[0].process.state == ProcessState::Ready {
        Some(0int)
    } else {
        match spec_first_ready(q.drop_first()) {
            Some(i) => Some(i + 1),
            None => None,
        }
    }
}

/// The round-robin scheduler.
#[derive(Debug)]
pub struct Scheduler {
    queue: VecDeque<ScheduledProcess>,
    next_pid: u64,
}

impl Scheduler {
    /// The queued processes, front to back.
    pub closed spec fn spec_queue(&self) -> Seq<ScheduledProcess> {
        self.queue@
    }

    /// The next process identifier to hand out.
    pub closed spec fn spec_next_pid(&self) -> u64 {
        self.next_pid
    }

    /// An empty scheduler whose identifier counter starts at 1.
    pub fn new() -> (r: Self)
        ensures
            r.spec_queue().len() == 0,
            r.spec_next_pid() == 1,
    {
        Scheduler { queue: VecDeque::new(), next_pid: 1 }
    }

    /// Append a process to the back of the queue.
    pub fn add_process(&mut self, process: Process)
        ensures
            final(self).spec_queue() == old(self).spec_queue().push(
                (ScheduledProcess { process }),
            ),
            final(self).spec_next_pid() == old(self).spec_next_pid(),
    {
        let scheduled = ScheduledProcess { process };
        self.queue.push_back(scheduled);
    }

    /// Fetch the first `Ready` process, marked `Running`, rotating the
    /// entries skipped over to the back of the queue. When no queued
    /// process is `Ready`, every entry is inspected once and the queue is
    /// left in its original order.
    pub fn next_process(&mut self) -> (r: Option<ScheduledProcess>)
        ensures
            final(self).spec_next_pid() == old(self).spec_next_pid(),
            spec_first_ready(old(self).spec_queue()) is None ==> r is None
                && final(self).spec_queue() == old(self).spec_queue(),
            spec_first_ready(old(self).spec_queue()) matches Some(i) ==> {
                let q = old(self).spec_queue();
                &&& r matches Some(s)
                &&& s.process.pid == q[i].process.pid
                &&& s.process.name == q[i].process.name
                &&& s.process.state == ProcessState::Running
                &&& final(self).spec_queue() == q.subrange(i + 1, q.len() as int) + q.subrange(
                    0,
                    i,
                )
            },
    {
        let ghost q = self.queue@;
        let len = self.queue.len();
        let mut n: usize = 0;
        while n < len
            invariant
                n <= len == q.len(),
                q == old(self).spec_queue(),
                self.next_pid == old(self).next_pid,
                self.queue@ =~= q.subrange(n as int, len as int) + q.subrange(0, n as int),
                forall|k: int|
                    0 <= k < n ==> #[trigger] q[k].process.state != ProcessState::Ready,
            decreases len - n,
        {
            let popped = self.queue.pop_front();
            match popped {
                Some(mut scheduled) => {
                    proof {
                        assert(q.subrange(n as int, len as int)[0] == q[n as int]);
                    }
                    if scheduled.process.state == ProcessState::Ready {
                        scheduled.process.state = ProcessState::Running;
                        proof {
                            lemma_first_ready_found(q, n as int);
                            assert(self.queue@ =~= q.subrange(n + 1, len as int) + q.subrange(
                                0,
                                n as int,
                            ));
                        }
                        return Some(scheduled);
                    } else {
                        self.queue.push_back(scheduled);
                        proof {
                            assert(self.queue@ =~= q.subrange(n + 1, len as int) + q.subrange(
                                0,
                                n + 1,
                            ));
                        }
                        n = n + 1;
                    }
                },
                None => {
                    // cannot happen: n < len entries are still queued
                    proof {
                        assert(false);
                    }
                },
            }
        }
        proof {
            lemma_first_ready_none(q);
            assert(self.queue@ =~= q);
        }
        None
    }

    /// Requeue a process unless it has terminated.
    pub fn complete_process(&mut self, process: Process)
        ensures
            final(self).spec_next_pid() == old(self).spec_next_pid(),
            process.state == ProcessState::Terminated ==> final(self).spec_queue() == old(self).spec_queue(),
            process.state != ProcessState::Terminated ==> final(self).spec_queue() == old(self).spec_queue().push((ScheduledProcess { process })),
    {
        if process.state != ProcessState::Terminated {
            let scheduled = ScheduledProcess { process };
            self.queue.push_back(scheduled);
        }
    }

    /// Hand out the next process identifier and advance the counter; each
    /// call returns a value no earlier or later call returns.
    pub fn generate_pid(&mut self) -> (r: u64)
        requires
            old(self).spec_next_pid() < u64::MAX,
        ensures
            r == old(self).spec_next_pid(),
            final(self).spec_next_pid() == old(self).spec_next_pid() + 1,
            final(self).spec_queue() == old(self).spec_queue(),
    {
        let pid = self.next_pid;
        self.next_pid = self.next_pid + 1;
        pid
    }
}

/// The first ready index really is `i` when everything before it is not
/// ready.
proof fn lemma_first_ready_found(q: Seq<ScheduledProcess>, i: int)
    requires
        0 <= i < q.len(),
        q[i].process.state == ProcessState::Ready,
        forall|k: int| 0 <= k < i ==> #[trigger] q[k].process.state != ProcessState::Ready,
    ensures
        spec_first_ready(q) == Some(i),
    decreases i,
{
    if i > 0 {
        lemma_first_ready_found(q.drop_first(), i - 1);
    }
}

/// A queue with no ready process has no first ready index.
proof fn lemma_first_ready_none(q: Seq<ScheduledProcess>)
    requires
        forall|k: int| 0 <= k < q.len() ==> #[trigger] q[k].process.state != ProcessState::Ready,
    ensures
        spec_first_ready(q) is None,
    decreases q.len(),
{
    if q.len() > 0 {
        lemma_first_ready_none(q.drop_first());
    }
}

} // verus!
