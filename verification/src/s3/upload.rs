//! Uploads: whether a file goes up in one request or in parts, and the
//! bookkeeping of a multipart upload whose parts are sent a few at a time.

use vstd::prelude::*;

use crate::error::{Error, ErrorModel};
use crate::s3::multipart::{MAX_PART_CONCURRENCY, PART_SIZE};

verus! {

/// Whether a file of `total_bytes` goes up in parts.
pub fn uses_multipart(total_bytes: u64) -> (r: bool)
    ensures
        r == (total_bytes > PART_SIZE),
{
    total_bytes > PART_SIZE
}

/// What the sending loop of a multipart upload does next.
#[derive(Debug, Clone, Copy, PartialEq, Eq, Structural)]
pub enum LoopStep {
    /// Wait for a part to finish (or for an interruption).
    Wait,
    /// Start more parts.
    Refill,
    /// Leave the loop.
    Stop,
}

/// The state of a multipart upload's parts: how many there are, how many
/// have been started, are running and have finished, and whether the upload
/// was cancelled.
#[derive(Debug)]
pub struct PartScheduler {
    total: usize,
    next: usize,
    running: usize,
    completed: usize,
    cancelled: bool,
}

impl PartScheduler {
    /// The number of parts.
    pub closed spec fn total(self) -> nat {
        self.total as nat
    }

    /// The parts started so far; they are the first ones, in order.
    pub closed spec fn started(self) -> nat {
        self.next as nat
    }

    /// The parts being sent.
    pub closed spec fn running(self) -> nat {
        self.running as nat
    }

    /// The parts that finished.
    pub closed spec fn completed(self) -> nat {
        self.completed as nat
    }

    /// The upload was cancelled (interrupted, or a part failed).
    pub closed spec fn cancelled(self) -> bool {
        self.cancelled
    }

    /// What holds in every state: no more parts started than there are, no
    /// more running at once than allowed, and every started part either
    /// running or finished.
    pub open spec fn wf(self) -> bool {
        &&& self.started() <= self.total()
        &&& self.running() <= MAX_PART_CONCURRENCY
        &&& self.completed() + self.running() == self.started()
    }

    /// A part may start now: parts are left, fewer than the allowed number
    /// are running, and the upload was not cancelled.
    pub open spec fn can_start(self) -> bool {
        self.started() < self.total() && self.running() < MAX_PART_CONCURRENCY && !self.cancelled()
    }

    /// The scheduler of an upload of `total` parts, none started.
    pub fn new(total: usize) -> (s: PartScheduler)
        ensures
            s.wf(),
            s.total() == total,
            s.started() == 0,
            s.running() == 0,
            s.completed() == 0,
            !s.cancelled(),
    {
        PartScheduler { total, next: 0, running: 0, completed: 0, cancelled: false }
    }

    /// The index of the next part to start, where one may start now: parts
    /// are left, fewer than the allowed number are running, and the upload
    /// was not cancelled.
    pub fn start_next(&mut self) -> (r: Option<usize>)
        requires
            old(self).wf(),
        ensures
            final(self).wf(),
            final(self).total() == old(self).total(),
            final(self).cancelled() == old(self).cancelled(),
            final(self).completed() == old(self).completed(),
            old(self).can_start() ==> r == Some(old(self).started() as usize),
            old(self).can_start() ==> final(self).started() == old(self).started() + 1,
            old(self).can_start() ==> final(self).running() == old(self).running() + 1,
            !old(self).can_start() ==> r is None,
            !old(self).can_start() ==> final(self).started() == old(self).started(),
            !old(self).can_start() ==> final(self).running() == old(self).running(),
    {
        if self.next < self.total && self.running < MAX_PART_CONCURRENCY && !self.cancelled {
            let i = self.next;
            self.next = self.next + 1;
            self.running = self.running + 1;
            Some(i)
        } else {
            None
        }
    }

    /// A running part finished.
    pub fn part_finished(&mut self)
        requires
            old(self).wf(),
            old(self).running() > 0,
        ensures
            final(self).wf(),
            final(self).total() == old(self).total(),
            final(self).started() == old(self).started(),
            final(self).running() == old(self).running() - 1,
            final(self).completed() == old(self).completed() + 1,
            final(self).cancelled() == old(self).cancelled(),
    {
        self.running = self.running - 1;
        self.completed = self.completed + 1;
    }

    /// The upload is cancelled: no part starts any more.
    pub fn cancel(&mut self)
        requires
            old(self).wf(),
        ensures
            final(self).wf(),
            final(self).cancelled(),
            final(self).total() == old(self).total(),
            final(self).started() == old(self).started(),
            final(self).running() == old(self).running(),
            final(self).completed() == old(self).completed(),
    {
        self.cancelled = true;
    }

    /// What the sending loop does with nothing more to start now: wait
    /// while parts run; with none running, stop once cancelled or all are
    /// started, else start more.
    pub fn step(&self) -> (r: LoopStep)
        requires
            self.wf(),
        ensures
            self.running() > 0 ==> r == LoopStep::Wait,
            self.running() == 0 && (self.cancelled() || self.started() >= self.total()) ==> r
                == LoopStep::Stop,
            self.running() == 0 && !self.cancelled() && self.started() < self.total() ==> r
                == LoopStep::Refill,
    {
        if self.running > 0 {
            LoopStep::Wait
        } else if self.cancelled || self.next >= self.total {
            LoopStep::Stop
        } else {
            LoopStep::Refill
        }
    }

    /// Whether the loop ends after a part finished or the user interrupted:
    /// once cancelled and nothing runs.
    pub fn done_after_event(&self) -> (r: bool)
        ensures
            r == (self.cancelled() && self.running() == 0),
    {
        self.cancelled && self.running == 0
    }

    /// How the upload ends once the loop is left: interrupted where it was
    /// cancelled, incomplete where parts are missing, else ready to
    /// complete.
    pub fn outcome(&self) -> (r: Result<bool, Error>)
        ensures
            self.cancelled() ==> r == Ok::<bool, Error>(false),
            !self.cancelled() && self.completed() != self.total() ==> (r matches Err(e) && e@
                == ErrorModel::MultipartIncomplete(self.total(), self.completed())),
            !self.cancelled() && self.completed() == self.total() ==> r == Ok::<bool, Error>(true),
    {
        if self.cancelled {
            Ok(false)
        } else if self.completed != self.total {
            Err(Error::MultipartIncomplete(self.total, self.completed))
        } else {
            Ok(true)
        }
    }
}

} // verus!
