use trashos::task::timer::{sleep, Poll, Timer};

fn ticks_after(n: u64) -> u64 {
    let mut t = Timer::new();
    let before = t.now();
    for _ in 0..n {
        t.tick();
    }
    t.now() - before
}

#[test]
fn no_tick_no_change() {
    assert_eq!(ticks_after(0), 0);
}

#[test]
fn one_tick_one_more() {
    assert_eq!(ticks_after(1), 1);
}

#[test]
fn thousand_ticks_thousand_more() {
    assert_eq!(ticks_after(1000), 1000);
}

#[test]
fn sleeper_ready_on_delta_th_tick() {
    for d in [1u64, 2, 3, 10] {
        let mut t = Timer::new();
        t.tick();
        let s = sleep(&t, d);
        assert_eq!(s.target_ticks(), 1 + d);
        assert_eq!(s.poll(&mut t, 9), Poll::Pending);
        for k in 1..=d {
            let woken = t.tick();
            assert_eq!(woken, vec![9]);
            let r = s.poll(&mut t, 9);
            if k < d {
                assert_eq!(r, Poll::Pending);
            } else {
                assert_eq!(r, Poll::Ready);
            }
        }
        // a ready sleeper registers nothing
        assert_eq!(t.tick(), Vec::<u64>::new());
        assert_eq!(s.poll(&mut t, 9), Poll::Ready);
    }
}

#[test]
fn sleeper_with_zero_delta_is_ready_at_once() {
    let mut t = Timer::new();
    let s = sleep(&t, 0);
    assert_eq!(s.poll(&mut t, 1), Poll::Ready);
    assert_eq!(t.tick(), Vec::<u64>::new());
}

#[test]
fn ticks_before_first_poll_count() {
    let mut t = Timer::new();
    let s = sleep(&t, 2);
    t.tick();
    t.tick();
    assert_eq!(s.poll(&mut t, 1), Poll::Ready);
}

#[test]
fn tick_wakes_every_registered_task_in_order() {
    let mut t = Timer::new();
    assert!(t.register_waker(5));
    assert!(t.register_waker(3));
    assert!(t.register_waker(5));
    assert_eq!(t.tick(), vec![5, 3, 5]);
    assert_eq!(t.tick(), Vec::<u64>::new());
    assert_eq!(t.now(), 2);
}

#[test]
fn full_waker_registry_drops_newest() {
    let mut t = Timer::new();
    for i in 0..Timer::WAKER_CAPACITY as u64 {
        assert!(t.register_waker(i));
    }
    assert!(!t.register_waker(1000));
    let woken = t.tick();
    assert_eq!(woken.len(), Timer::WAKER_CAPACITY);
    assert_eq!(woken[0], 0);
    assert_eq!(*woken.last().unwrap(), Timer::WAKER_CAPACITY as u64 - 1);
}
