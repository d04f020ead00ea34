use hermit_core::scheduler::{PriorityTaskQueue, TaskHandle, WakeupReason};
use hermit_core::semaphore::{AcquireStep, Semaphore};

fn task(id: u64, priority: u8) -> TaskHandle {
    TaskHandle { id, priority, core_id: 0 }
}

#[test]
fn one_permit_two_tasks() {
    let mut s = Semaphore::new(1);
    let a = task(1, 10);
    let b = task(2, 10);
    // Task A takes the single permit.
    assert_eq!(s.acquire_step(a, WakeupReason::Custom), AcquireStep::Acquired);
    // Task B cannot take one without blocking.
    assert!(!s.try_acquire());
    assert_eq!(s.acquire_step(b, WakeupReason::Custom), AcquireStep::Block);
    // Task A releases; B is woken and takes the permit on its next step.
    let woken = s.release();
    assert_eq!(woken, Some(b));
    assert_eq!(s.acquire_step(b, WakeupReason::Custom), AcquireStep::Acquired);
    assert_eq!(s.count, 0);
    assert_eq!(s.queue.len(), 0);
}

#[test]
fn timeout_leaves_queue_empty() {
    let mut s = Semaphore::new(0);
    let a = task(1, 10);
    assert_eq!(s.acquire_step(a, WakeupReason::Custom), AcquireStep::Block);
    // No releaser runs; the timer fires and the task gives up.
    assert_eq!(s.acquire_step(a, WakeupReason::Timer), AcquireStep::TimedOut);
    assert_eq!(s.count, 0);
    assert_eq!(s.queue.len(), 0);
}

#[test]
fn empty_semaphore_never_grants() {
    let mut s = Semaphore::new(0);
    assert!(!s.try_acquire());
    assert!(!s.try_acquire());
    let a = task(1, 10);
    assert_eq!(s.acquire_step(a, WakeupReason::Custom), AcquireStep::Block);
    assert_eq!(s.count, 0);
}

#[test]
fn negative_count_needs_extra_releases() {
    let mut s = Semaphore::new(-3);
    assert!(!s.try_acquire());
    for _ in 0..3 {
        assert_eq!(s.release(), None);
        assert!(!s.try_acquire());
    }
    // The fourth release finally yields a permit.
    assert_eq!(s.release(), None);
    assert!(s.try_acquire());
    assert_eq!(s.count, 0);
}

#[test]
fn release_wakes_highest_priority_first() {
    let mut s = Semaphore::new(0);
    let low = task(1, 1);
    let high_first = task(2, 7);
    let high_second = task(3, 7);
    assert_eq!(s.acquire_step(low, WakeupReason::Custom), AcquireStep::Block);
    assert_eq!(s.acquire_step(high_first, WakeupReason::Custom), AcquireStep::Block);
    assert_eq!(s.acquire_step(high_second, WakeupReason::Custom), AcquireStep::Block);
    assert_eq!(s.release(), Some(high_first));
    assert_eq!(s.release(), Some(high_second));
    assert_eq!(s.release(), Some(low));
    assert_eq!(s.release(), None);
}

#[test]
fn queue_is_fifo_within_priority() {
    let mut q = PriorityTaskQueue::new();
    q.push(task(1, 1));
    q.push(task(2, 5));
    q.push(task(3, 5));
    q.push(task(4, 3));
    assert_eq!(q.pop(), Some(task(2, 5)));
    assert_eq!(q.pop(), Some(task(3, 5)));
    assert_eq!(q.pop(), Some(task(4, 3)));
    assert_eq!(q.pop(), Some(task(1, 1)));
    assert_eq!(q.pop(), None);
}

#[test]
fn queue_remove_takes_out_one_task() {
    let mut q = PriorityTaskQueue::new();
    q.push(task(1, 1));
    q.push(task(2, 2));
    q.push(task(3, 3));
    q.remove(task(2, 2));
    assert_eq!(q.len(), 2);
    assert_eq!(q.pop(), Some(task(3, 3)));
    assert_eq!(q.pop(), Some(task(1, 1)));
    // Removing an absent task changes nothing.
    q.remove(task(9, 9));
    assert_eq!(q.pop(), None);
}
