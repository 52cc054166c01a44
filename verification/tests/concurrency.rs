use std::cell::{Cell, RefCell};
use std::collections::VecDeque;
use std::rc::Rc;

use local_runtime::clock::{Duration, Instant};
use local_runtime::concurrency::{
    absorb, future_emission, poll_join, poll_merged, stream_emission, Emission, FlagWaker,
    FutureSource, Inflight, JoinFuture, MergeFutureStream, MergeSource, MergeStream, StreamSource,
};
use local_runtime::task::{LocalFuture, LocalStream, Poll};
use local_runtime::timer::{Timer, TimerQueue};

/// What a scripted child does at one poll.
enum Step<T> {
    Pending,
    PendingAndWake,
    Ready(T),
}

/// A child that follows a script and counts how often it is polled.
struct Script<T> {
    steps: VecDeque<Step<T>>,
    polls: Rc<Cell<usize>>,
}

impl<T> Script<T> {
    fn new(steps: Vec<Step<T>>) -> (Self, Rc<Cell<usize>>) {
        let polls = Rc::new(Cell::new(0));
        (Script { steps: steps.into(), polls: polls.clone() }, polls)
    }

    fn step(&mut self, cx: &mut FlagWaker<u8>) -> Poll<T> {
        self.polls.set(self.polls.get() + 1);
        match self.steps.pop_front().expect("polled beyond the script") {
            Step::Pending => Poll::Pending,
            Step::PendingAndWake => {
                cx.wake();
                Poll::Pending
            }
            Step::Ready(value) => Poll::Ready(value),
        }
    }
}

impl<T> LocalFuture<FlagWaker<u8>> for Script<T> {
    type Output = T;

    fn poll(&mut self, cx: &mut FlagWaker<u8>) -> Poll<T> {
        self.step(cx)
    }
}

/// A scripted stream: each ready step is an item, and `None` ends it.
struct ScriptStream(Script<Option<u32>>);

impl LocalStream<FlagWaker<u8>> for ScriptStream {
    type Item = u32;

    fn poll_next(&mut self, cx: &mut FlagWaker<u8>) -> Poll<Option<u32>> {
        self.0.step(cx)
    }
}

fn counts(polls: &[Rc<Cell<usize>>]) -> Vec<usize> {
    polls.iter().map(|p| p.get()).collect()
}

#[test]
fn flag_waker_starts_awoken_and_is_cleared_by_reading() {
    let mut flag = FlagWaker::from(7u8);
    assert!(flag.check_awoken());
    assert!(!flag.check_awoken());
    flag.set_awoken();
    assert!(flag.check_awoken());
    assert!(!flag.check_awoken());
    // A wake sets the flag and passes on to the waker behind it.
    assert_eq!(*flag.wake(), 7);
    assert!(flag.check_awoken());
}

#[test]
fn inflight_settles_on_a_value() {
    let mut slot: Inflight<u8, u32> = Inflight::Fut(1);
    assert!(slot.settle(Poll::Pending));
    assert!(matches!(slot, Inflight::Fut(1)));
    assert!(!slot.settle(Poll::Ready(9)));
    assert_eq!(slot.unwrap_done(), 9);
}

#[test]
fn join_polls_only_the_children_that_were_woken() {
    let (a, pa) = Script::new(vec![Step::Pending, Step::Ready(1)]);
    let (b, pb) = Script::new(vec![Step::Pending, Step::Pending, Step::Ready(2)]);
    let (c, pc) = Script::new(vec![Step::Ready(3)]);
    let polls = [pa, pb, pc];
    let mut join = JoinFuture::new(vec![a, b, c]);
    assert_eq!(join.len(), 3);

    // At first every child is polled.
    assert!(join.poll(&0u8).is_pending());
    assert_eq!(counts(&polls), vec![1, 1, 1]);
    // Without a wake nobody is polled.
    assert!(join.poll(&0u8).is_pending());
    assert!(join.poll(&0u8).is_pending());
    assert_eq!(counts(&polls), vec![1, 1, 1]);
    // Only the child that was woken is polled, and once for any number of wakes.
    join.wake(1);
    join.wake(1);
    assert!(join.poll(&0u8).is_pending());
    assert_eq!(counts(&polls), vec![1, 2, 1]);
    // A wake of a finished child polls nobody.
    join.wake(2);
    assert!(join.poll(&0u8).is_pending());
    assert_eq!(counts(&polls), vec![1, 2, 1]);
    join.wake(0);
    assert!(join.poll(&0u8).is_pending());
    assert_eq!(counts(&polls), vec![2, 2, 1]);
    join.wake(1);
    assert_eq!(join.poll(&0u8), Poll::Ready(vec![1, 2, 3]));
    assert_eq!(counts(&polls), vec![2, 3, 1]);
}

#[test]
fn join_of_ready_children_is_ready_at_once() {
    let (a, _) = Script::new(vec![Step::Ready('a')]);
    let (b, _) = Script::new(vec![Step::Ready('b')]);
    let mut join = JoinFuture::new(vec![a, b]);
    assert_eq!(join.poll(&0u8), Poll::Ready(vec!['a', 'b']));
    let mut none: JoinFuture<Script<u8>, u8> = JoinFuture::new(Vec::new());
    assert_eq!(none.poll(&0u8), Poll::Ready(Vec::new()));
}

#[test]
fn a_child_that_wakes_itself_is_polled_again() {
    let (a, pa) = Script::new(vec![Step::PendingAndWake, Step::Pending, Step::Ready(5)]);
    let mut join = JoinFuture::new(vec![a]);
    assert!(join.poll(&0u8).is_pending());
    assert!(join.poll(&0u8).is_pending());
    assert_eq!(pa.get(), 2);
    assert!(join.poll(&0u8).is_pending());
    assert_eq!(pa.get(), 2);
    join.wake(0);
    assert_eq!(join.poll(&0u8), Poll::Ready(vec![5]));
}

#[test]
fn poll_join_leaves_done_and_sleeping_slots_alone() {
    let (a, pa) = Script::new(vec![Step::Ready(1u8)]);
    let (b, pb) = Script::new(vec![Step::Ready(2u8)]);
    let mut slots = vec![Inflight::Done(9u8), Inflight::Fut(a), Inflight::Fut(b)];
    let mut asleep = FlagWaker::from(3u8);
    asleep.check_awoken();
    let mut wakers = vec![None, Some(asleep), None];
    assert!(poll_join(&mut slots, &mut wakers, &1u8).is_pending());
    assert_eq!((pa.get(), pb.get()), (0, 1));
    assert!(matches!(slots[0], Inflight::Done(9)));
    assert!(matches!(slots[1], Inflight::Fut(_)));
    assert!(matches!(slots[2], Inflight::Done(2)));
    assert!(wakers[0].is_none());
    // The child that was polled for the first time got a waker in front of the join's.
    assert_eq!(*wakers[2].as_mut().unwrap().wake(), 1);
    assert_eq!(*wakers[1].as_mut().unwrap().wake(), 3);
    assert!(poll_join(&mut slots, &mut wakers, &1u8).is_ready());
    assert_eq!(pa.get(), 1);
}

#[test]
fn emissions_tell_futures_from_streams() {
    assert_eq!(
        match future_emission(Poll::Ready(4u8)) {
            Poll::Ready(e) => (e.item, e.done),
            Poll::Pending => panic!("ready"),
        },
        (Some(4), true)
    );
    assert!(future_emission(Poll::<u8>::Pending).is_pending());
    assert_eq!(
        match stream_emission(Poll::Ready(Some(4u8))) {
            Poll::Ready(e) => (e.item, e.done),
            Poll::Pending => panic!("ready"),
        },
        (Some(4), false)
    );
    assert_eq!(
        match stream_emission(Poll::Ready(None::<u8>)) {
            Poll::Ready(e) => (e.item, e.done),
            Poll::Pending => panic!("ready"),
        },
        (None, true)
    );
    assert!(stream_emission(Poll::<Option<u8>>::Pending).is_pending());
}

#[test]
fn absorb_vacates_counts_and_reasserts_the_flag() {
    let mut flag = FlagWaker::from(0u8);
    flag.check_awoken();
    let mut slot = Some('x');
    let mut none_count = 2usize;
    // An item from a child that goes on.
    let item = absorb(&mut slot, &mut flag, &mut none_count, Emission { item: Some(1u8), done: false });
    assert_eq!((item, slot, none_count), (Some(1), Some('x'), 2));
    assert!(flag.check_awoken());
    // The end of a child, without an item.
    let item = absorb(&mut slot, &mut flag, &mut none_count, Emission { item: None::<u8>, done: true });
    assert_eq!((item, slot, none_count), (None, None, 3));
    assert!(!flag.check_awoken());
    // A last item.
    let mut slot = Some('y');
    let item = absorb(&mut slot, &mut flag, &mut none_count, Emission { item: Some(2u8), done: true });
    assert_eq!((item, slot, none_count), (Some(2), None, 4));
    assert!(flag.check_awoken());
    // Nothing at all.
    let mut slot = Some('z');
    let item = absorb(&mut slot, &mut flag, &mut none_count, Emission { item: None::<u8>, done: false });
    assert_eq!((item, slot, none_count), (None, Some('z'), 4));
    assert!(!flag.check_awoken());
}

#[test]
fn merge_futures_yields_in_order_of_completion() {
    let (a, pa) = Script::new(vec![Step::Pending, Step::Pending, Step::Ready('a')]);
    let (b, pb) = Script::new(vec![Step::Ready('b')]);
    let (c, pc) = Script::new(vec![Step::Pending, Step::Ready('c')]);
    let polls = [pa, pb, pc];
    let mut merge = MergeFutureStream::new(vec![a, b, c]);
    assert_eq!(merge.len(), 3);
    assert_eq!(merge.finished(), 0);

    assert_eq!(merge.poll_next(&0u8), Poll::Ready(Some('b')));
    assert_eq!(counts(&polls), vec![1, 1, 0]);
    assert_eq!(merge.finished(), 1);
    // The next poll starts at the slot that yielded, which is vacant now, and goes on.
    assert_eq!(merge.poll_next(&0u8), Poll::Pending);
    assert_eq!(counts(&polls), vec![1, 1, 1]);
    // Nobody was woken: nobody is polled.
    assert_eq!(merge.poll_next(&0u8), Poll::Pending);
    assert_eq!(counts(&polls), vec![1, 1, 1]);
    merge.wake(2);
    assert_eq!(merge.poll_next(&0u8), Poll::Ready(Some('c')));
    assert_eq!(counts(&polls), vec![1, 1, 2]);
    merge.wake(0);
    assert_eq!(merge.poll_next(&0u8), Poll::Pending);
    merge.wake(0);
    assert_eq!(merge.poll_next(&0u8), Poll::Ready(Some('a')));
    assert_eq!(counts(&polls), vec![3, 1, 2]);
    assert_eq!(merge.finished(), 3);
    assert_eq!(merge.poll_next(&0u8), Poll::Ready(None));
    assert_eq!(merge.poll_next(&0u8), Poll::Ready(None));
    assert_eq!(counts(&polls), vec![3, 1, 2]);
}

#[test]
fn merge_without_children_ends_at_once() {
    let mut futures: MergeFutureStream<Script<u8>, u8> = MergeFutureStream::new(Vec::new());
    assert_eq!(futures.poll_next(&0u8), Poll::Ready(None));
    let mut streams: MergeStream<ScriptStream, u8> = MergeStream::new(Vec::new());
    assert_eq!(streams.poll_next(&0u8), Poll::Ready(None));
}

#[test]
fn merge_starts_each_poll_where_the_last_one_stopped() {
    // Every child is ready at its first poll: the start slot decides who goes first.
    let (a, _) = Script::new(vec![Step::Ready(0)]);
    let (b, _) = Script::new(vec![Step::Ready(1)]);
    let (c, _) = Script::new(vec![Step::Ready(2)]);
    let mut merge = MergeFutureStream::new(vec![a, b, c]);
    assert_eq!(merge.poll_next(&0u8), Poll::Ready(Some(0)));
    assert_eq!(merge.poll_next(&0u8), Poll::Ready(Some(1)));
    assert_eq!(merge.poll_next(&0u8), Poll::Ready(Some(2)));
    assert_eq!(merge.poll_next(&0u8), Poll::Ready(None));
}

#[test]
fn merge_streams_comes_back_to_the_stream_that_yielded() {
    let (a, pa) = Script::new(vec![
        Step::Ready(Some(10)),
        Step::Ready(Some(11)),
        Step::Pending,
        Step::Ready(None),
    ]);
    let (b, pb) = Script::new(vec![Step::Ready(Some(20)), Step::Ready(None)]);
    let polls = [pa, pb];
    let mut merge = MergeStream::new(vec![ScriptStream(a), ScriptStream(b)]);
    // A stream that yields keeps its flag and is visited first at the next poll.
    assert_eq!(merge.poll_next(&0u8), Poll::Ready(Some(10)));
    assert_eq!(merge.poll_next(&0u8), Poll::Ready(Some(11)));
    assert_eq!(counts(&polls), vec![2, 0]);
    // Once it is pending the round goes on to the other stream.
    assert_eq!(merge.poll_next(&0u8), Poll::Ready(Some(20)));
    assert_eq!(counts(&polls), vec![3, 1]);
    assert_eq!(merge.finished(), 0);
    // The end of a stream yields nothing and the round goes on.
    assert_eq!(merge.poll_next(&0u8), Poll::Pending);
    assert_eq!(counts(&polls), vec![3, 2]);
    assert_eq!(merge.finished(), 1);
    merge.wake(0);
    assert_eq!(merge.poll_next(&0u8), Poll::Ready(None));
    assert_eq!(merge.finished(), 2);
    assert_eq!(counts(&polls), vec![4, 2]);
}

#[test]
fn poll_merged_keeps_count_of_vacant_slots() {
    let (a, _) = Script::new(vec![Step::Pending]);
    let (b, _) = Script::new(vec![Step::Ready(7u8)]);
    let mut pollers = vec![None, Some(FutureSource::new(a)), Some(FutureSource::new(b))];
    let mut wakers = vec![None, None, None];
    let mut idx = 2usize;
    let mut none_count = 1usize;
    assert_eq!(
        poll_merged(&mut pollers, &mut wakers, &mut idx, &mut none_count, &0u8),
        Poll::Ready(Some(7))
    );
    assert_eq!((idx, none_count), (2, 2));
    assert!(pollers[2].is_none() && pollers[1].is_some());
    assert_eq!(
        poll_merged(&mut pollers, &mut wakers, &mut idx, &mut none_count, &0u8),
        Poll::Pending
    );
    assert_eq!((idx, none_count), (2, 2));
    assert_eq!(pollers.iter().filter(|p| p.is_some()).count() + none_count, pollers.len());
}

#[test]
fn a_future_source_hands_on_the_value_and_ends() {
    let (a, polls) = Script::new(vec![Step::Pending, Step::PendingAndWake, Step::Ready('v')]);
    let mut future = FutureSource::new(a);
    let mut cx = FlagWaker::from(0u8);
    cx.check_awoken();
    assert!(future.poll_source(&mut cx).is_pending());
    assert!(!cx.check_awoken());
    // What the child does to its context reaches the caller.
    assert!(future.poll_source(&mut cx).is_pending());
    assert!(cx.check_awoken());
    match future.poll_source(&mut cx) {
        Poll::Ready(e) => assert_eq!((e.item, e.done), (Some('v'), true)),
        Poll::Pending => panic!("ready"),
    }
    assert_eq!(polls.get(), 3);
}

#[test]
fn sources_map_what_their_child_returns() {
    let (a, _) = Script::new(vec![Step::Ready(Some(1)), Step::Ready(None)]);
    let mut stream = StreamSource::new(ScriptStream(a));
    let mut cx = FlagWaker::from(0u8);
    match stream.poll_source(&mut cx) {
        Poll::Ready(e) => assert_eq!((e.item, e.done), (Some(1), false)),
        Poll::Pending => panic!("ready"),
    }
    match stream.poll_source(&mut cx) {
        Poll::Ready(e) => assert_eq!((e.item, e.done), (None, true)),
        Poll::Pending => panic!("ready"),
    }
}

/// A clock that the driver moves, and the timer queue of the thread.
struct World {
    queue: RefCell<TimerQueue<usize>>,
    now: Cell<Instant>,
}

impl World {
    fn new() -> Rc<World> {
        Rc::new(World {
            queue: RefCell::new(TimerQueue::new()),
            now: Cell::new(Instant::after_origin(Duration::from_secs(1))),
        })
    }

    fn elapsed_since(&self, start: Instant) -> Duration {
        self.now.get().saturating_duration_since(&start)
    }

    /// Calls the timers that are due, or lets time pass until the next one is. Hands back
    /// the slots to wake.
    fn turn(&self) -> Vec<usize> {
        let sweep = self.queue.borrow_mut().next_timeout(self.now.get());
        if sweep.fired.is_empty() {
            let sleep = sweep.timeout.expect("something is left to wait for");
            self.now.set(self.now.get().checked_add(&sleep).unwrap());
            let sweep = self.queue.borrow_mut().next_timeout(self.now.get());
            sweep.fired.into_iter().map(|e| e.waker).collect()
        } else {
            sweep.fired.into_iter().map(|e| e.waker).collect()
        }
    }
}

/// Sleeps, one after the other, for each of the spans, and then finishes with a value.
struct Sleeps {
    world: Rc<World>,
    slot: usize,
    spans: VecDeque<Duration>,
    timer: Option<Timer>,
    value: u8,
}

impl Sleeps {
    fn new(world: &Rc<World>, slot: usize, millis: &[u64], value: u8) -> Self {
        Sleeps {
            world: world.clone(),
            slot,
            spans: millis.iter().map(|m| Duration::from_millis(*m)).collect(),
            timer: None,
            value,
        }
    }
}

impl LocalFuture<FlagWaker<()>> for Sleeps {
    type Output = u8;

    fn poll(&mut self, _cx: &mut FlagWaker<()>) -> Poll<u8> {
        loop {
            if self.timer.is_none() {
                match self.spans.pop_front() {
                    Some(span) => self.timer = Some(Timer::delay(self.world.now.get(), span)),
                    None => return Poll::Ready(self.value),
                }
            }
            let timer = self.timer.as_mut().unwrap();
            let now = self.world.now.get();
            match timer.poll(&mut self.world.queue.borrow_mut(), now, self.slot) {
                Poll::Ready(()) => self.timer = None,
                Poll::Pending => return Poll::Pending,
            }
        }
    }
}

/// Yields a value each time its period has passed.
struct Periodic {
    world: Rc<World>,
    slot: usize,
    period: Duration,
    timer: Timer,
    value: u8,
}

impl Periodic {
    fn new(world: &Rc<World>, slot: usize, millis: u64, value: u8) -> Self {
        let period = Duration::from_millis(millis);
        Periodic {
            world: world.clone(),
            slot,
            period,
            timer: Timer::delay(world.now.get(), period),
            value,
        }
    }
}

impl LocalStream<FlagWaker<()>> for Periodic {
    type Item = u8;

    fn poll_next(&mut self, _cx: &mut FlagWaker<()>) -> Poll<Option<u8>> {
        let now = self.world.now.get();
        match self.timer.poll(&mut self.world.queue.borrow_mut(), now, self.slot) {
            Poll::Ready(()) => {
                let next = self.timer.expiry().checked_add(&self.period).unwrap();
                self.timer = Timer::at(next);
                Poll::Ready(Some(self.value))
            }
            Poll::Pending => Poll::Pending,
        }
    }
}

#[test]
fn parallel_sleeps_take_as_long_as_the_longest() {
    let world = World::new();
    let start = world.now.get();
    let mut join = JoinFuture::new(vec![
        Sleeps::new(&world, 0, &[100], 0),
        Sleeps::new(&world, 1, &[50, 70], 1),
        Sleeps::new(&world, 2, &[100], 2),
    ]);
    let values = loop {
        match join.poll(&()) {
            Poll::Ready(values) => break values,
            Poll::Pending => {
                for slot in world.turn() {
                    join.wake(slot);
                }
            }
        }
    };
    assert_eq!(values, vec![0, 1, 2]);
    let elapsed = world.elapsed_since(start);
    assert!(Duration::from_millis(120).le(&elapsed));
    assert!(elapsed.lt(&Duration::from_millis(150)));
    assert_eq!(elapsed, Duration::from_millis(120));
    assert!(world.queue.borrow().is_empty());
}

#[test]
fn merged_futures_come_in_the_order_of_their_sleeps() {
    let world = World::new();
    let mut merge = MergeFutureStream::new(vec![
        Sleeps::new(&world, 0, &[], 1),
        Sleeps::new(&world, 1, &[5], 2),
        Sleeps::new(&world, 2, &[3], 3),
    ]);
    let mut seen = Vec::new();
    loop {
        match merge.poll_next(&()) {
            Poll::Ready(Some(value)) => seen.push(value),
            Poll::Ready(None) => break,
            Poll::Pending => {
                for slot in world.turn() {
                    merge.wake(slot);
                }
            }
        }
    }
    assert_eq!(seen, vec![1, 3, 2]);
}

#[test]
fn merged_streams_interleave_by_their_periods() {
    let world = World::new();
    let mut merge =
        MergeStream::new(vec![Periodic::new(&world, 0, 14, 1), Periodic::new(&world, 1, 6, 2)]);
    let mut seen = Vec::new();
    while seen.len() < 6 {
        match merge.poll_next(&()) {
            Poll::Ready(Some(value)) => seen.push(value),
            Poll::Ready(None) => panic!("a periodic stream does not end"),
            Poll::Pending => {
                for slot in world.turn() {
                    merge.wake(slot);
                }
            }
        }
    }
    assert_eq!(seen, vec![2, 2, 1, 2, 2, 1]);
}

#[test]
fn a_wake_is_passed_on_to_the_waker_of_the_combinator() {
    let (a, _) = Script::new(vec![Step::Pending, Step::Ready(1)]);
    let mut join = JoinFuture::new(vec![a]);
    // A child that was never polled has no waker yet.
    assert_eq!(join.wake(0), None);
    assert!(join.poll(&9u8).is_pending());
    assert_eq!(join.wake(0), Some(&9));
    // The waker of the first poll stays, whatever the later polls hand in.
    assert_eq!(join.poll(&8u8), Poll::Ready(vec![1]));

    let (b, _) = Script::new(vec![Step::<u8>::Pending]);
    let mut merge = MergeFutureStream::new(vec![b]);
    assert_eq!(merge.wake(0), None);
    assert_eq!(merge.poll_next(&4u8), Poll::Pending);
    assert_eq!(merge.wake(0), Some(&4));

    let (c, _) = Script::new(vec![Step::Pending]);
    let mut merge = MergeStream::new(vec![ScriptStream(c)]);
    assert_eq!(merge.poll_next(&5u8), Poll::Pending);
    assert_eq!(merge.wake(0), Some(&5));
}
