use std::cell::Cell;
use std::rc::Rc;

use local_runtime::clock::{Duration, Instant};
use local_runtime::task::Poll;
use local_runtime::timer::{timeout, timeout_at, Sweep, TimedOut, Timer, TimerQueue};
use local_runtime::Id;

/// A waker that only notes that it was called.
#[derive(Clone, Default)]
struct MockWaker(Rc<Cell<bool>>);

impl MockWaker {
    fn wake(&self) {
        self.0.set(true);
    }

    fn get(&self) -> bool {
        self.0.get()
    }
}

/// A clock that moves only when a test lets time pass.
struct TestClock(Instant);

impl TestClock {
    fn new() -> Self {
        TestClock(Instant::after_origin(Duration::from_secs(1_000)))
    }

    fn now(&self) -> Instant {
        self.0
    }

    fn sleep(&mut self, d: Duration) {
        self.0 = self.0.checked_add(&d).unwrap();
    }

    fn ago(&self, d: Duration) -> Instant {
        Instant::after_origin(self.0.elapsed().saturating_sub(&d))
    }

    fn after(&self, d: Duration) -> Instant {
        self.0.checked_add(&d).unwrap()
    }
}

/// Sweeps the queue at `now` and calls the wakers of the timers that were due.
fn next_timeout_at(tq: &mut TimerQueue<MockWaker>, now: Instant) -> Option<Duration> {
    let Sweep { fired, timeout } = tq.next_timeout(now);
    for entry in fired {
        entry.waker.wake();
    }
    timeout
}

#[test]
fn next_timeout() {
    let wakers: Vec<MockWaker> = (0..3).map(|_| MockWaker::default()).collect();
    let mut clock = TestClock::new();
    let mut tq = TimerQueue::new();
    assert!(next_timeout_at(&mut tq, clock.now()).is_none());

    // First 2 timers should expire, but 3rd should not
    tq.register(clock.now(), wakers[0].clone());
    tq.register(clock.ago(Duration::from_secs(1)), wakers[1].clone());
    tq.register(clock.after(Duration::from_millis(50)), wakers[2].clone());
    assert!(Duration::from_millis(40).lt(&next_timeout_at(&mut tq, clock.now()).unwrap()));

    assert!(wakers[0].get());
    assert!(wakers[1].get());
    assert!(!wakers[2].get());

    // After waiting, the 3rd timer should expire
    clock.sleep(Duration::from_millis(50));
    assert!(next_timeout_at(&mut tq, clock.now()).is_none());
    assert!(wakers[2].get());

    assert!(tq.is_empty());
}

#[test]
fn modify() {
    let wakers: Vec<MockWaker> = (0..2).map(|_| MockWaker::default()).collect();
    let mut clock = TestClock::new();
    let mut tq = TimerQueue::new();

    let expiry = clock.after(Duration::from_millis(10));
    let id = tq.register(expiry, wakers[0].clone());
    assert!(next_timeout_at(&mut tq, clock.now()).is_some());

    // Replace 1st waker with 2nd one, which should fire
    assert!(tq.modify(id, expiry, wakers[1].clone()));
    clock.sleep(Duration::from_millis(10));
    assert!(next_timeout_at(&mut tq, clock.now()).is_none());
    assert!(!wakers[0].get());
    assert!(wakers[1].get());

    assert!(tq.is_empty());
}

#[test]
fn cancel() {
    let waker = MockWaker::default();
    let clock = TestClock::new();
    let mut tq = TimerQueue::new();

    let expiry = clock.after(Duration::from_secs(10));
    let id = tq.register(expiry, waker.clone());
    assert!(next_timeout_at(&mut tq, clock.now()).is_some());

    // After cancelling timer, the waker shouldn't fire
    tq.cancel(id, expiry);
    assert!(next_timeout_at(&mut tq, clock.now()).is_none());
    assert!(!waker.get());

    assert!(tq.is_empty());
}

#[test]
fn timer_expired() {
    let waker = MockWaker::default();
    let clock = TestClock::new();
    let mut queue: TimerQueue<MockWaker> = TimerQueue::new();
    let mut timer = Timer::at(clock.now());

    assert!(timer.poll(&mut queue, clock.now(), waker).is_ready());
    assert!(timer.timer_id().is_none());

    assert!(queue.is_empty());
}

#[test]
fn timer() {
    let waker = MockWaker::default();
    let mut clock = TestClock::new();
    let mut queue: TimerQueue<MockWaker> = TimerQueue::new();
    let mut timer = Timer::delay(clock.now(), Duration::from_millis(10));

    assert!(timer.poll(&mut queue, clock.now(), waker.clone()).is_pending());
    assert!(timer.timer_id().is_some());
    assert_eq!(queue.len(), 1);

    clock.sleep(Duration::from_millis(10));
    assert!(timer.poll(&mut queue, clock.now(), waker).is_ready());
    assert!(timer.timer_id().is_none());
    assert!(queue.is_empty());
}

#[test]
fn timeouts() {
    let waker = MockWaker::default();
    let clock = TestClock::new();
    let mut queue: TimerQueue<MockWaker> = TimerQueue::new();

    let mut guarded = timeout(Timer::at(clock.now()), clock.now(), Duration::from_secs(10));
    let child = guarded.get_mut().poll(&mut queue, clock.now(), waker.clone());
    let res1 = guarded.poll(child, &mut queue, clock.now(), waker.clone());
    assert!(matches!(res1, Poll::Ready(Ok(()))));
    assert!(queue.is_empty());

    let mut guarded =
        timeout_at(Timer::delay(clock.now(), Duration::from_secs(10)), clock.now());
    let child = guarded.get_mut().poll(&mut queue, clock.now(), waker.clone());
    let res2 = guarded.poll(child, &mut queue, clock.now(), waker.clone());
    assert!(matches!(res2, Poll::Ready(Err(_))));
    // The computation inside is given up together with the timeout.
    guarded.cancel(&mut queue);
    let mut inner = guarded.into_inner();
    inner.cancel(&mut queue);
    assert!(queue.is_empty());
}

#[test]
fn timeout_wins_over_a_computation_that_never_completes() {
    let waker = MockWaker::default();
    let mut clock = TestClock::new();
    let mut queue: TimerQueue<MockWaker> = TimerQueue::new();
    let start = clock.now();
    let mut guarded = timeout((), clock.now(), Duration::from_millis(10));

    let first: Poll<Result<u8, TimedOut>> =
        guarded.poll(Poll::Pending, &mut queue, clock.now(), waker.clone());
    assert!(first.is_pending());
    let sleep = next_timeout_at(&mut queue, clock.now()).unwrap();
    assert_eq!(sleep, Duration::from_millis(10));
    assert!(!waker.get());

    clock.sleep(sleep);
    assert!(next_timeout_at(&mut queue, clock.now()).is_none());
    assert!(waker.get());
    let second: Poll<Result<u8, TimedOut>> =
        guarded.poll(Poll::Pending, &mut queue, clock.now(), waker.clone());
    match second {
        Poll::Ready(Err(err)) => assert_eq!(err.message(), "Future timed out"),
        _ => panic!("the timeout has expired"),
    }
    assert!(Duration::from_millis(10).le(&clock.now().saturating_duration_since(&start)));
    assert!(queue.is_empty());
}

#[test]
fn a_ready_computation_leaves_the_timer_alone() {
    let waker = MockWaker::default();
    let clock = TestClock::new();
    let mut queue: TimerQueue<MockWaker> = TimerQueue::new();
    // Even with the deadline long gone the result of the computation wins.
    let mut guarded = timeout_at(7u8, clock.ago(Duration::from_secs(5)));
    assert_eq!(*guarded.get_ref(), 7);
    let out = guarded.poll(Poll::Ready(42u8), &mut queue, clock.now(), waker);
    assert_eq!(out, Poll::Ready(Ok(42)));
    assert!(queue.is_empty());
}

#[test]
fn ids_count_up_from_one() {
    let clock = TestClock::new();
    let mut tq = TimerQueue::new();
    let a = tq.register(clock.now(), 0u8);
    let b = tq.register(clock.now(), 1u8);
    let c = tq.register(clock.ago(Duration::from_secs(1)), 2u8);
    assert_eq!(a.get(), 1);
    assert_eq!(b.get(), 2);
    assert_eq!(c.get(), 3);
    assert_eq!(tq.len(), 3);
}

#[test]
fn id_wraps_to_one_never_zero() {
    assert_eq!(Id::new(1).overflowing_incr().get(), 2);
    assert_eq!(Id::new(u64::MAX - 1).overflowing_incr().get(), u64::MAX);
    assert_eq!(Id::new(u64::MAX).overflowing_incr().get(), 1);
    assert!(Id::new(5).same(&Id::new(5)));
    assert!(!Id::new(5).same(&Id::new(6)));
}

#[test]
fn timers_fire_by_deadline_then_id() {
    let clock = TestClock::new();
    let mut tq = TimerQueue::new();
    let late = clock.after(Duration::from_millis(30));
    let soon = clock.after(Duration::from_millis(10));
    tq.register(late, "late-1");
    tq.register(soon, "soon-2");
    tq.register(late, "late-3");
    tq.register(soon, "soon-4");
    tq.register(clock.after(Duration::from_millis(20)), "mid-5");
    let sweep = tq.next_timeout(clock.after(Duration::from_secs(1)));
    let order: Vec<(&str, u64)> = sweep.fired.iter().map(|e| (e.waker, e.id.get())).collect();
    assert_eq!(
        order,
        vec![("soon-2", 2), ("soon-4", 4), ("mid-5", 5), ("late-1", 1), ("late-3", 3)]
    );
    assert!(sweep.timeout.is_none());
    assert!(tq.is_empty());
}

#[test]
fn next_timeout_returns_the_span_to_the_earliest_deadline() {
    let clock = TestClock::new();
    let mut tq = TimerQueue::new();
    tq.register(clock.after(Duration::from_millis(70)), 'a');
    tq.register(clock.after(Duration::from_nanos(1_500)), 'b');
    tq.register(clock.now(), 'c');
    let sweep = tq.next_timeout(clock.now());
    assert_eq!(sweep.fired.len(), 1);
    assert_eq!(sweep.fired[0].waker, 'c');
    assert_eq!(sweep.fired[0].expiry, clock.now());
    assert_eq!(sweep.timeout, Some(Duration::from_nanos(1_500)));
    assert_eq!(tq.len(), 2);
    // A deadline that is exactly now is due.
    let sweep = tq.next_timeout(clock.after(Duration::from_nanos(1_500)));
    assert_eq!(sweep.fired.len(), 1);
    assert_eq!(sweep.fired[0].waker, 'b');
    assert_eq!(sweep.timeout, Some(Duration::from_nanos(70_000_000 - 1_500)));
}

#[test]
fn cancel_is_idempotent() {
    let clock = TestClock::new();
    let mut tq = TimerQueue::new();
    let expiry = clock.after(Duration::from_secs(1));
    let keep = tq.register(expiry, 'k');
    let gone = tq.register(expiry, 'g');
    tq.cancel(gone, expiry);
    assert_eq!(tq.len(), 1);
    tq.cancel(gone, expiry);
    assert_eq!(tq.len(), 1);
    // The same id under another deadline is another key.
    tq.cancel(keep, clock.after(Duration::from_secs(2)));
    assert_eq!(tq.len(), 1);
    let sweep = tq.next_timeout(expiry);
    assert_eq!(sweep.fired.len(), 1);
    assert_eq!(sweep.fired[0].waker, 'k');
    assert_eq!(sweep.fired[0].id, keep);
}

#[test]
fn modify_of_a_missing_timer_changes_nothing() {
    let clock = TestClock::new();
    let mut tq = TimerQueue::new();
    let expiry = clock.after(Duration::from_secs(1));
    let id = tq.register(expiry, 1u8);
    assert!(!tq.modify(id, clock.after(Duration::from_secs(2)), 9));
    assert!(!tq.modify(id.overflowing_incr(), expiry, 9));
    assert!(tq.modify(id, expiry, 5));
    let sweep = tq.next_timeout(expiry);
    assert_eq!(sweep.fired.len(), 1);
    assert_eq!(sweep.fired[0].waker, 5);
}

#[test]
fn zero_duration_sleep_is_over_at_the_next_poll() {
    let clock = TestClock::new();
    let mut queue: TimerQueue<u8> = TimerQueue::new();
    let mut timer = Timer::delay(clock.now(), Duration::from_millis(0));
    assert_eq!(timer.expiry(), clock.now());
    assert_eq!(timer.poll(&mut queue, clock.now(), 0), Poll::Ready(()));
    assert!(queue.is_empty());
}

#[test]
fn polling_a_registered_timer_replaces_its_waker() {
    let mut clock = TestClock::new();
    let mut queue: TimerQueue<u8> = TimerQueue::new();
    let mut timer = Timer::delay(clock.now(), Duration::from_millis(5));
    assert!(timer.poll(&mut queue, clock.now(), 1).is_pending());
    let id = timer.timer_id().unwrap();
    assert!(timer.poll(&mut queue, clock.now(), 2).is_pending());
    assert_eq!(timer.timer_id(), Some(id));
    assert_eq!(queue.len(), 1);
    clock.sleep(Duration::from_millis(5));
    let sweep = queue.next_timeout(clock.now());
    assert_eq!(sweep.fired.len(), 1);
    assert_eq!(sweep.fired[0].waker, 2);
    assert!(timer.poll(&mut queue, clock.now(), 3).is_ready());
    assert!(timer.timer_id().is_none());
}

#[test]
fn dropping_a_timer_cancels_its_registration() {
    let clock = TestClock::new();
    let mut queue: TimerQueue<u8> = TimerQueue::new();
    let mut timer = Timer::checked_delay(clock.now(), Duration::from_secs(3)).unwrap();
    assert!(timer.poll(&mut queue, clock.now(), 1).is_pending());
    assert_eq!(queue.len(), 1);
    timer.cancel(&mut queue);
    assert!(queue.is_empty());
    assert!(timer.timer_id().is_none());
    timer.cancel(&mut queue);
    assert!(queue.is_empty());
    assert!(Timer::checked_delay(
        Instant::after_origin(Duration::new(u64::MAX, 999_999_999)),
        Duration::from_nanos(1)
    )
    .is_none());
}

#[test]
fn the_queue_answers_what_is_pending() {
    let clock = TestClock::new();
    let mut tq = TimerQueue::new();
    let expiry = clock.after(Duration::from_secs(1));
    assert_eq!(tq.upcoming_id().get(), 1);
    assert!(!tq.contains(tq.upcoming_id(), expiry));
    let id = tq.register(expiry, 'a');
    assert_eq!(tq.upcoming_id().get(), 2);
    assert!(tq.contains(id, expiry));
    assert!(!tq.contains(id, clock.now()));
    assert!(!tq.contains(tq.upcoming_id(), expiry));
    tq.cancel(id, expiry);
    assert!(!tq.contains(id, expiry));

    let guarded = timeout_at((), expiry);
    assert_eq!(guarded.get_timer().expiry(), expiry);
    assert!(guarded.get_timer().timer_id().is_none());
}
