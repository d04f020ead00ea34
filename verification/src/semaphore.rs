//! A counting, blocking semaphore over the scheduler's priority wait queue,
//! together with a history model in which its laws are proved.
//!
//! The executable type holds the state a semaphore protects under its lock:
//! the permit count and the queue of waiting tasks. Blocking itself is the
//! scheduler's business: a caller that cannot take a permit is told to
//! block, parks itself, and runs the step again when woken.

use vstd::prelude::*;

use crate::scheduler::{PriorityTaskQueue, TaskHandle, WakeupReason};

verus! {

/// What one locked attempt to acquire a permit decided.
#[derive(Clone, Copy, Debug, PartialEq, Eq, Structural)]
pub enum AcquireStep {
    /// A permit was taken; the acquire returns true.
    Acquired,
    /// The wakeup deadline has elapsed; the acquire returns false.
    TimedOut,
    /// No permit is available: the task is queued and must block.
    Block,
}

/// A counting, blocking semaphore: a signed permit count and the tasks
/// waiting for a permit. A negative count demands that many extra releases
/// before the first permit can be taken.
pub struct Semaphore {
    pub count: isize,
    pub queue: PriorityTaskQueue,
}

impl Semaphore {
    /// A semaphore holding `count` permits; the count may be negative.
    pub fn new(count: isize) -> (r: Semaphore)
        ensures
            r.count == count,
            r.queue.items@.len() == 0,
    {
        Semaphore { count, queue: PriorityTaskQueue::new() }
    }

    /// Takes a permit without blocking when one is available; reports
    /// whether it did.
    pub fn try_acquire(&mut self) -> (r: bool)
        ensures
            r == (old(self).count > 0),
            final(self).count == if old(self).count > 0 {
                old(self).count - 1
            } else {
                old(self).count as int
            },
            final(self).queue.items@ == old(self).queue.items@,
    {
        if self.count > 0 {
            self.count = self.count - 1;
            true
        } else {
            false
        }
    }

    /// One pass of the acquire loop, run with the semaphore's lock held.
    /// Takes a permit when one is there; otherwise gives up if the caller
    /// was woken by its timer, and else queues the caller, which must then
    /// block and re-run the step when woken.
    pub fn acquire_step(&mut self, current: TaskHandle, last_wakeup_reason: WakeupReason) -> (r:
        AcquireStep)
        ensures
            old(self).count > 0 ==> {
                &&& r == AcquireStep::Acquired
                &&& final(self).count == old(self).count - 1
                &&& final(self).queue.items@ == old(self).queue.items@
            },
            old(self).count <= 0 && last_wakeup_reason == WakeupReason::Timer ==> {
                &&& r == AcquireStep::TimedOut
                &&& final(self).count == old(self).count
                &&& (old(self).queue.contains_id(current.id) ==> exists|i: int|
                    {
                        &&& 0 <= i < old(self).queue.items.len()
                        &&& (#[trigger] old(self).queue.items[i]).id == current.id
                        &&& final(self).queue.items@ == old(self).queue.items@.remove(i)
                    })
                &&& (!old(self).queue.contains_id(current.id) ==> final(self).queue.items@ == old(
                    self,
                ).queue.items@)
            },
            old(self).count <= 0 && last_wakeup_reason != WakeupReason::Timer ==> {
                &&& r == AcquireStep::Block
                &&& final(self).count == old(self).count
                &&& final(self).queue.items@ == old(self).queue.items@.push(current)
            },
    {
        if self.count > 0 {
            self.count = self.count - 1;
            AcquireStep::Acquired
        } else if last_wakeup_reason == WakeupReason::Timer {
            self.queue.remove(current);
            AcquireStep::TimedOut
        } else {
            self.queue.push(current);
            AcquireStep::Block
        }
    }

    /// Returns a permit. When tasks are waiting, the first of the highest
    /// queued priority is removed from the queue and handed back so that
    /// the caller can wake it; it takes its permit when it re-runs its
    /// acquire step.
    pub fn release(&mut self) -> (woken: Option<TaskHandle>)
        requires
            old(self).count < isize::MAX,
        ensures
            final(self).count == old(self).count + 1,
            match woken {
                Some(t) => exists|i: int|
                    {
                        &&& 0 <= i < old(self).queue.items.len()
                        &&& t == old(self).queue.items[i]
                        &&& final(self).queue.items@ == old(self).queue.items@.remove(i)
                        &&& forall|j: int|
                            0 <= j < old(self).queue.items.len() ==> (#[trigger] old(
                                self,
                            ).queue.items[j]).priority <= t.priority
                        &&& forall|j: int|
                            0 <= j < i ==> (#[trigger] old(self).queue.items[j]).priority
                                < t.priority
                    },
                None => {
                    &&& old(self).queue.items@.len() == 0
                    &&& final(self).queue.items@ == old(self).queue.items@
                },
            },
    {
        self.count = self.count + 1;
        self.queue.pop()
    }
}

/// The history of one semaphore, at the level its laws speak of: how it
/// started and what the tasks using it have done so far. The executable
/// operations change `count` and the queue length exactly as the
/// transitions below do; the remaining fields count events.
pub struct SemaphoreModel {
    /// The count the semaphore was created with.
    pub initial: int,
    /// The current permit count.
    pub count: int,
    /// How many tasks sit in the wait queue.
    pub waiting: int,
    /// How many tasks a release has woken that have not yet re-run their
    /// acquire step.
    pub pending_wakeups: int,
    /// How many acquires have succeeded: the permits still outstanding.
    pub successes: int,
    /// How many releases have completed.
    pub releases: int,
}

/// The invariant every reachable semaphore history satisfies: the permit
/// accounting balances, the event counts are counts, and a positive permit
/// count coexists with waiting tasks only while their wakeups are still in
/// flight.
pub open spec fn model_inv(m: SemaphoreModel) -> bool {
    &&& m.count + m.successes == m.initial + m.releases
    &&& m.waiting >= 0
    &&& m.pending_wakeups >= 0
    &&& m.successes >= 0
    &&& m.releases >= 0
    &&& (m.waiting > 0 ==> m.count <= m.pending_wakeups)
}

/// A freshly created semaphore with initial count `k`.
pub open spec fn model_new(k: int) -> SemaphoreModel {
    SemaphoreModel {
        initial: k,
        count: k,
        waiting: 0,
        pending_wakeups: 0,
        successes: 0,
        releases: 0,
    }
}

/// A task takes a permit: `try_acquire` returning true, or an acquire step
/// that ends in `Acquired`. `was_woken` says whether the task had been
/// woken by a release.
pub open spec fn model_acquire_success(
    pre: SemaphoreModel,
    post: SemaphoreModel,
    was_woken: bool,
) -> bool {
    &&& pre.count > 0
    &&& (was_woken ==> pre.pending_wakeups > 0)
    &&& post == SemaphoreModel {
        count: pre.count - 1,
        successes: pre.successes + 1,
        pending_wakeups: pre.pending_wakeups - if was_woken {
            1int
        } else {
            0int
        },
        ..pre
    }
}

/// A task finds no permit and queues itself: an acquire step that ends in
/// `Block`.
pub open spec fn model_block(pre: SemaphoreModel, post: SemaphoreModel, was_woken: bool) -> bool {
    &&& pre.count <= 0
    &&& (was_woken ==> pre.pending_wakeups > 0)
    &&& post == SemaphoreModel {
        waiting: pre.waiting + 1,
        pending_wakeups: pre.pending_wakeups - if was_woken {
            1int
        } else {
            0int
        },
        ..pre
    }
}

/// A timer-woken task gives up and leaves the queue: an acquire step that
/// ends in `TimedOut`.
pub open spec fn model_timeout(pre: SemaphoreModel, post: SemaphoreModel) -> bool {
    &&& pre.count <= 0
    &&& pre.waiting > 0
    &&& post == SemaphoreModel { waiting: pre.waiting - 1, ..pre }
}

/// A release returns a permit and, when tasks are waiting, wakes one.
pub open spec fn model_release(pre: SemaphoreModel, post: SemaphoreModel) -> bool {
    &&& post == SemaphoreModel {
        count: pre.count + 1,
        releases: pre.releases + 1,
        waiting: if pre.waiting > 0 {
            pre.waiting - 1
        } else {
            0int
        },
        pending_wakeups: pre.pending_wakeups + if pre.waiting > 0 {
            1int
        } else {
            0int
        },
        ..pre
    }
}

/// Law: a new semaphore satisfies the invariant.
pub proof fn lemma_new_satisfies_inv(k: int)
    ensures
        model_inv(model_new(k)),
{
}

/// Law: taking a permit preserves the invariant; in particular the permit
/// accounting `count + outstanding permits == initial + releases` holds at
/// every quiescent moment.
pub proof fn lemma_acquire_success_preserves_inv(
    pre: SemaphoreModel,
    post: SemaphoreModel,
    was_woken: bool,
)
    requires
        model_inv(pre),
        model_acquire_success(pre, post, was_woken),
    ensures
        model_inv(post),
{
}

/// Law: queueing a task preserves the invariant.
pub proof fn lemma_block_preserves_inv(pre: SemaphoreModel, post: SemaphoreModel, was_woken: bool)
    requires
        model_inv(pre),
        model_block(pre, post, was_woken),
    ensures
        model_inv(post),
{
}

/// Law: giving up on a timeout preserves the invariant.
pub proof fn lemma_timeout_preserves_inv(pre: SemaphoreModel, post: SemaphoreModel)
    requires
        model_inv(pre),
        model_timeout(pre, post),
    ensures
        model_inv(post),
{
}

/// Law: a release preserves the invariant: it always wakes a waiter when
/// the queue is non-empty, so a positive count never coexists with a
/// waiting task whose wakeup is not in flight.
pub proof fn lemma_release_preserves_inv(pre: SemaphoreModel, post: SemaphoreModel)
    requires
        model_inv(pre),
        model_release(pre, post),
    ensures
        model_inv(post),
{
}

/// Law: at a quiescent moment, when no wakeup is in flight, a positive
/// permit count means the wait queue is empty.
pub proof fn lemma_positive_count_queue_empty(m: SemaphoreModel)
    requires
        model_inv(m),
        m.pending_wakeups == 0,
        m.count > 0,
    ensures
        m.waiting == 0,
{
}

/// Law: a semaphore created with no permits and never released never hands
/// out a permit: its count stays at or below zero, so every acquire blocks
/// and every `try_acquire` fails.
pub proof fn lemma_no_release_no_permit(m: SemaphoreModel)
    requires
        model_inv(m),
        m.initial == 0,
        m.releases == 0,
    ensures
        m.count <= 0,
{
}

/// Law: a semaphore created with a negative count cannot hand out a permit
/// until more releases have happened than the count was below zero; with
/// initial count `-n`, no acquire can succeed within the first `n`
/// releases.
pub proof fn lemma_negative_count_needs_releases(m: SemaphoreModel)
    requires
        model_inv(m),
        m.initial < 0,
        m.releases <= -m.initial,
    ensures
        m.count <= 0,
{
}

} // verus!
