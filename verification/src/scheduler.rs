//! The slice of the scheduler interface that the synchronisation primitive
//! and the descriptor-table manager consume: task handles, task states, and
//! the priority queue of waiting tasks.

use vstd::prelude::*;

verus! {

/// What a task is currently doing, as far as this crate needs to know.
#[derive(Clone, Copy, Debug, PartialEq, Eq, Structural)]
pub enum TaskStatus {
    Running,
    Ready,
    Blocked,
    Idle,
}

/// Why a blocked task was woken.
#[derive(Clone, Copy, Debug, PartialEq, Eq, Structural)]
pub enum WakeupReason {
    /// Woken by the primitive it slept on.
    Custom,
    /// Woken because its deadline elapsed.
    Timer,
}

/// A non-owning handle to a task record owned by the scheduler.
#[derive(Clone, Copy, Debug, PartialEq, Eq, Structural)]
pub struct TaskHandle {
    /// Identifier of the task in the scheduler's task table.
    pub id: u64,
    /// Scheduling priority; higher is served first.
    pub priority: u8,
    /// The core the task runs on.
    pub core_id: u32,
}

/// Waiting tasks, served highest priority first and first come, first
/// served within one priority.
pub struct PriorityTaskQueue {
    pub items: Vec<TaskHandle>,
}

impl PriorityTaskQueue {
    /// The handle with identifier `id` is queued.
    pub open spec fn contains_id(self, id: u64) -> bool {
        exists|i: int| 0 <= i < self.items.len() && (#[trigger] self.items[i]).id == id
    }

    /// An empty queue.
    pub fn new() -> (r: PriorityTaskQueue)
        ensures
            r.items@.len() == 0,
    {
        PriorityTaskQueue { items: Vec::new() }
    }

    /// How many tasks are waiting.
    pub fn len(&self) -> (r: usize)
        ensures
            r == self.items@.len(),
    {
        self.items.len()
    }

    /// Appends a task; among equal priorities it will be served after the
    /// tasks already queued.
    pub fn push(&mut self, task: TaskHandle)
        ensures
            final(self).items@ == old(self).items@.push(task),
    {
        self.items.push(task);
    }

    /// Removes and returns the first task of the highest queued priority;
    /// nothing when the queue is empty.
    pub fn pop(&mut self) -> (r: Option<TaskHandle>)
        ensures
            match r {
                Some(t) => exists|i: int|
                    {
                        &&& 0 <= i < old(self).items.len()
                        &&& t == old(self).items[i]
                        &&& final(self).items@ == old(self).items@.remove(i)
                        &&& forall|j: int|
                            0 <= j < old(self).items.len() ==> (#[trigger] old(
                                self,
                            ).items[j]).priority <= t.priority
                        &&& forall|j: int|
                            0 <= j < i ==> (#[trigger] old(self).items[j]).priority < t.priority
                    },
                None => {
                    &&& old(self).items@.len() == 0
                    &&& *final(self) == *old(self)
                },
            },
    {
        if self.items.len() == 0 {
            return None;
        }
        let n = self.items.len();
        let mut best: usize = 0;
        let mut idx: usize = 1;
        while idx < n
            invariant
                n == self.items.len(),
                0 < n,
                best < idx <= n,
                forall|j: int|
                    0 <= j < idx ==> (#[trigger] self.items[j]).priority
                        <= self.items[best as int].priority,
                forall|j: int|
                    0 <= j < best ==> (#[trigger] self.items[j]).priority
                        < self.items[best as int].priority,
            decreases n - idx,
        {
            if self.items[idx].priority > self.items[best].priority {
                best = idx;
            }
            idx += 1;
        }
        let t = self.items[best];
        self.items.remove(best);
        Some(t)
    }

    /// Removes the first queued handle with the given task's identifier;
    /// does nothing when the task is not queued.
    pub fn remove(&mut self, task: TaskHandle)
        ensures
            old(self).contains_id(task.id) ==> exists|i: int|
                {
                    &&& 0 <= i < old(self).items.len()
                    &&& (#[trigger] old(self).items[i]).id == task.id
                    &&& forall|j: int| 0 <= j < i ==> (#[trigger] old(self).items[j]).id != task.id
                    &&& final(self).items@ == old(self).items@.remove(i)
                },
            !old(self).contains_id(task.id) ==> *final(self) == *old(self),
    {
        let n = self.items.len();
        let mut idx: usize = 0;
        while idx < n
            invariant
                self == old(self),
                n == self.items.len(),
                idx <= n,
                forall|j: int| 0 <= j < idx ==> (#[trigger] self.items[j]).id != task.id,
            decreases n - idx,
        {
            if self.items[idx].id == task.id {
                self.items.remove(idx);
                proof {
                    assert(old(self).items[idx as int].id == task.id);
                }
                return ;
            }
            idx += 1;
        }
        proof {
            if self.contains_id(task.id) {
                let i = choose|i: int|
                    0 <= i < self.items.len() && (#[trigger] self.items[i]).id == task.id;
                assert(false);
            }
        }
    }
}

} // verus!
