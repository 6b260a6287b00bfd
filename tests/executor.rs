use trashos::queue::ScancodeQueue;
use trashos::task::executor::Executor;
use trashos::task::timer::Poll;

#[test]
fn completed_task_leaves_pending_task_stays() {
    let mut e = Executor::new();
    let done = e.spawn().unwrap();
    let never = e.spawn().unwrap();
    assert_ne!(done, never);
    assert_eq!(e.next_task(), Some(done));
    e.task_polled(done, Poll::Ready);
    assert_eq!(e.next_task(), Some(never));
    e.task_polled(never, Poll::Pending);
    assert_eq!(e.next_task(), None);
    assert_eq!(e.task_count(), 1);
    assert!(e.contains(never));
    assert!(!e.contains(done));
}

#[test]
fn woken_task_is_polled_again_and_stale_ids_skipped() {
    let mut e = Executor::new();
    let a = e.spawn().unwrap();
    let b = e.spawn().unwrap();
    assert_eq!(e.next_task(), Some(a));
    e.task_polled(a, Poll::Pending);
    assert!(e.wake(a));
    assert!(e.wake(b));
    assert_eq!(e.next_task(), Some(b));
    e.task_polled(b, Poll::Ready);
    // b's queued identity is stale now
    assert_eq!(e.next_task(), Some(a));
    e.task_polled(a, Poll::Ready);
    assert_eq!(e.next_task(), None);
    assert_eq!(e.task_count(), 0);
}

#[test]
fn spawn_fails_when_ready_queue_full() {
    let mut e = Executor::new();
    for i in 0..Executor::QUEUE_CAPACITY as u64 {
        assert_eq!(e.spawn(), Some(i));
    }
    assert_eq!(e.spawn(), None);
    assert_eq!(e.task_count(), Executor::QUEUE_CAPACITY);
    assert!(!e.wake(0));
}

#[test]
fn scancode_queue_drops_excess_keeps_order() {
    let mut q = ScancodeQueue::new();
    let mut kept = 0;
    for i in 0..(ScancodeQueue::CAPACITY + 5) {
        if q.add_scancode(i as u8) {
            kept += 1;
        }
    }
    assert_eq!(kept, ScancodeQueue::CAPACITY);
    for i in 0..ScancodeQueue::CAPACITY {
        assert_eq!(q.next_scancode(), Some(i as u8));
    }
    assert_eq!(q.next_scancode(), None);
}

#[test]
fn scancode_queue_empty_pops_none() {
    let mut q = ScancodeQueue::new();
    assert_eq!(q.next_scancode(), None);
    assert!(q.add_scancode(0x1e));
    assert!(q.add_scancode(0x9e));
    assert_eq!(q.next_scancode(), Some(0x1e));
    assert_eq!(q.next_scancode(), Some(0x9e));
    assert_eq!(q.next_scancode(), None);
}
