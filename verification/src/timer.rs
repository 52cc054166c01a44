//! The timer queue, the one-shot timer that sleeps on it, and the timeout around another
//! computation.

use crate::clock::{Duration, Instant};
use crate::task::Poll;
use crate::Id;
use vstd::prelude::*;

verus! {

/// One pending timer: its deadline and id, which together are its key, and the waker to
/// call when the deadline has passed.
#[derive(Debug)]
pub struct TimerEntry<W> {
    pub expiry: Instant,
    pub id: Id,
    pub waker: W,
}

impl<W> TimerEntry<W> {
    /// The key that addresses the timer.
    pub open spec fn key(&self) -> (Instant, Id) {
        (self.expiry, self.id)
    }
}

/// The order in which timers fire: by deadline, and among equal deadlines by id.
pub open spec fn key_lt(a: (Instant, Id), b: (Instant, Id)) -> bool {
    a.0@ < b.0@ || (a.0@ == b.0@ && a.1@ < b.1@)
}

/// Whether the timers stand in the order in which they fire, no key twice.
pub open spec fn sorted<W>(entries: Seq<TimerEntry<W>>) -> bool {
    &&& forall|i: int| 0 <= i < entries.len() ==> (#[trigger] entries[i]).expiry.wf()
    &&& forall|i: int, j: int|
        0 <= i < j < entries.len() ==> key_lt(
            (#[trigger] entries[i]).key(),
            (#[trigger] entries[j]).key(),
        )
}

/// The timers as a map from key to waker.
pub open spec fn queue_map<W>(entries: Seq<TimerEntry<W>>) -> Map<(Instant, Id), W> {
    Map::new(
        |k: (Instant, Id)| exists|i: int| 0 <= i < entries.len() && (#[trigger] entries[i]).key() == k,
        |k: (Instant, Id)|
            entries[choose|i: int| 0 <= i < entries.len() && (#[trigger] entries[i]).key() == k].waker,
    )
}

/// How many of the timers, which stand in firing order, are due at `now`: the first
/// position whose deadline lies after `now`, or the length where there is none.
pub open spec fn due_count<W>(entries: Seq<TimerEntry<W>>, now: Instant) -> int
    decreases entries.len(),
{
    if entries.len() == 0 {
        0
    } else if entries[0].expiry@ <= now@ {
        1 + due_count(entries.skip(1), now)
    } else {
        0
    }
}

/// In a sorted queue a key stands at one position only.
pub proof fn lemma_key_position<W>(entries: Seq<TimerEntry<W>>, i: int, j: int)
    requires
        sorted(entries),
        0 <= i < entries.len(),
        0 <= j < entries.len(),
        entries[i].key() == entries[j].key(),
    ensures
        i == j,
{
    if i < j {
        assert(key_lt(entries[i].key(), entries[j].key()));
    } else if j < i {
        assert(key_lt(entries[j].key(), entries[i].key()));
    }
}

/// In a sorted queue the map holds, under the key of each timer, that timer's waker.
pub proof fn lemma_lookup<W>(entries: Seq<TimerEntry<W>>, i: int)
    requires
        sorted(entries),
        0 <= i < entries.len(),
    ensures
        queue_map(entries).contains_key(entries[i].key()),
        queue_map(entries)[entries[i].key()] == entries[i].waker,
{
    let k = entries[i].key();
    let j = choose|j: int| 0 <= j < entries.len() && (#[trigger] entries[j]).key() == k;
    lemma_key_position(entries, i, j);
}

/// The timers that are due at `now` are the first `due_count` of a sorted queue, and no
/// other.
pub proof fn lemma_due_prefix<W>(entries: Seq<TimerEntry<W>>, now: Instant)
    requires
        sorted(entries),
    ensures
        0 <= due_count(entries, now) <= entries.len(),
        forall|i: int|
            0 <= i < entries.len() ==> ((#[trigger] entries[i]).expiry@ <= now@ <==> i < due_count(
                entries,
                now,
            )),
    decreases entries.len(),
{
    if entries.len() > 0 {
        let rest = entries.skip(1);
        assert forall|i: int| 0 <= i < rest.len() implies (#[trigger] rest[i]).expiry.wf() by {
            assert(rest[i] == entries[i + 1]);
        }
        assert forall|i: int, j: int| 0 <= i < j < rest.len() implies key_lt(
            (#[trigger] rest[i]).key(),
            (#[trigger] rest[j]).key(),
        ) by {
            assert(rest[i] == entries[i + 1]);
            assert(rest[j] == entries[j + 1]);
        }
        lemma_due_prefix(rest, now);
        assert forall|i: int| 0 <= i < entries.len() implies ((#[trigger] entries[i]).expiry@
            <= now@ <==> i < due_count(entries, now)) by {
            if i > 0 {
                assert(rest[i - 1] == entries[i]);
                assert(key_lt(entries[0].key(), entries[i].key()));
            }
        }
    }
}

/// The outcome of sweeping the queue: the timers that were due, in the order in which they
/// fire, and how long to sleep until the next one.
#[derive(Debug)]
pub struct Sweep<W> {
    /// The timers that were due. The caller calls the waker of each, first to last.
    pub fired: Vec<TimerEntry<W>>,
    /// The span from the time of the sweep to the earliest deadline left, or `None` where
    /// no timer is left.
    pub timeout: Option<Duration>,
}

/// The pending timers of one thread, ordered by deadline and id.
///
/// `W` is the type of the wakers, which the queue stores and hands back but never calls.
/// The view is the map from key to waker.
#[derive(Debug)]
pub struct TimerQueue<W> {
    current_id: Id,
    timers: Vec<TimerEntry<W>>,
}

impl<W> View for TimerQueue<W> {
    type V = Map<(Instant, Id), W>;

    open spec fn view(&self) -> Map<(Instant, Id), W> {
        queue_map(self.entries())
    }
}

impl<W> TimerQueue<W> {
    /// The pending timers, in the order in which they fire.
    pub closed spec fn entries(&self) -> Seq<TimerEntry<W>> {
        self.timers@
    }

    /// The id that the next registration gets.
    pub closed spec fn next_id(&self) -> Id {
        self.current_id
    }

    /// The timers stand in firing order, and the next id is not zero.
    pub open spec fn wf(&self) -> bool {
        sorted(self.entries()) && self.next_id().wf()
    }

    /// An empty queue, whose first id is 1.
    pub fn new() -> (queue: Self)
        ensures
            queue.wf(),
            queue.entries().len() == 0,
            queue@ == Map::<(Instant, Id), W>::empty(),
            queue.next_id()@ == 1,
    {
        let queue = TimerQueue { current_id: Id::new(1), timers: Vec::new() };
        assert(queue@ =~= Map::<(Instant, Id), W>::empty());
        queue
    }

    /// How many timers are pending.
    pub fn len(&self) -> (len: usize)
        ensures
            len == self.entries().len(),
    {
        self.timers.len()
    }

    /// Whether no timer is pending.
    pub fn is_empty(&self) -> (empty: bool)
        ensures
            empty == (self.entries().len() == 0),
            empty == (self@ == Map::<(Instant, Id), W>::empty()),
    {
        proof {
            if self.timers.len() > 0 {
                assert(self.entries()[0].key() == self.entries()[0].key());
                assert(self@.contains_key(self.entries()[0].key()));
            } else {
                assert(self@ =~= Map::<(Instant, Id), W>::empty());
            }
        }
        self.timers.len() == 0
    }

    /// The position of the first timer whose key is not before `(expiry, id)`.
    fn position(&self, expiry: &Instant, id: &Id) -> (at: usize)
        requires
            self.wf(),
        ensures
            at <= self.entries().len(),
            forall|i: int| 0 <= i < at ==> key_lt((#[trigger] self.entries()[i]).key(), (*expiry, *id)),
            forall|i: int|
                at <= i < self.entries().len() ==> !key_lt(
                    (#[trigger] self.entries()[i]).key(),
                    (*expiry, *id),
                ),
    {
        let mut low: usize = 0;
        let mut high: usize = self.timers.len();
        while low < high
            invariant
                self.wf(),
                low <= high <= self.timers.len(),
                forall|i: int|
                    0 <= i < low ==> key_lt((#[trigger] self.entries()[i]).key(), (*expiry, *id)),
                forall|i: int|
                    high <= i < self.entries().len() ==> !key_lt(
                        (#[trigger] self.entries()[i]).key(),
                        (*expiry, *id),
                    ),
            decreases high - low,
        {
            let mid: usize = low + (high - low) / 2;
            let entry = &self.timers[mid];
            let before: bool = entry.expiry.lt(expiry) || (entry.expiry.same(expiry)
                && entry.id.get() < id.get());
            assert(before == key_lt(self.entries()[mid as int].key(), (*expiry, *id)));
            if before {
                assert forall|i: int| 0 <= i < mid + 1 implies key_lt(
                    (#[trigger] self.entries()[i]).key(),
                    (*expiry, *id),
                ) by {
                    if i < mid {
                        assert(key_lt(self.entries()[i].key(), self.entries()[mid as int].key()));
                    }
                }
                low = mid + 1;
            } else {
                assert forall|i: int| mid <= i < self.entries().len() implies !key_lt(
                    (#[trigger] self.entries()[i]).key(),
                    (*expiry, *id),
                ) by {
                    if mid < i {
                        assert(key_lt(self.entries()[mid as int].key(), self.entries()[i].key()));
                    }
                }
                high = mid;
            }
        }
        low
    }

    /// Where the timer with key `(expiry, id)` stands, if it is pending.
    fn find(&self, expiry: &Instant, id: &Id) -> (found: Option<usize>)
        requires
            self.wf(),
        ensures
            match found {
                Some(at) => at < self.entries().len() && self.entries()[at as int].key() == (
                    *expiry,
                    *id,
                ),
                None => !self@.contains_key((*expiry, *id)),
            },
    {
        let at: usize = self.position(expiry, id);
        if at < self.timers.len() && self.timers[at].expiry.same(expiry) && self.timers[at].id.same(
            id,
        ) {
            Some(at)
        } else {
            proof {
                use_type_invariant(expiry);
                if self@.contains_key((*expiry, *id)) {
                    let j = choose|j: int|
                        0 <= j < self.entries().len() && (#[trigger] self.entries()[j]).key() == (
                            *expiry,
                            *id,
                        );
                    if j >= at {
                        if j > at {
                            assert(key_lt(self.entries()[at as int].key(), self.entries()[j].key()));
                        }
                    }
                }
            }
            None
        }
    }

    /// Whether the timer with key `(expiry, id)` is pending. A registration that finds the
    /// next id pending under its deadline replaces that timer, and a change of a timer that
    /// is not pending changes nothing: whoever wants to report either asks here first.
    pub fn contains(&self, id: Id, expiry: Instant) -> (found: bool)
        requires
            self.wf(),
        ensures
            found == self@.contains_key((expiry, id)),
    {
        match self.find(&expiry, &id) {
            Some(at) => {
                proof {
                    lemma_lookup(self.entries(), at as int);
                }
                true
            },
            None => false,
        }
    }

    /// The id that the next registration gets.
    pub fn upcoming_id(&self) -> (id: Id)
        ensures
            id == self.next_id(),
    {
        self.current_id
    }

    /// Registers a timer for `expiry` and returns its id: the next id of the queue, which
    /// then moves on by one and starts again at 1 after the largest number. A timer that is
    /// pending under the same key is replaced.
    pub fn register(&mut self, expiry: Instant, waker: W) -> (id: Id)
        requires
            old(self).wf(),
        ensures
            final(self).wf(),
            id == old(self).next_id(),
            final(self).next_id()@ == Id::successor(old(self).next_id()@),
            final(self)@ == old(self)@.insert((expiry, id), waker),
            final(self).entries().len() == if old(self)@.contains_key((expiry, id)) {
                old(self).entries().len()
            } else {
                old(self).entries().len() + 1
            },
    {
        let id = self.current_id;
        self.current_id = id.overflowing_incr();
        let ghost before = self.timers@;
        proof {
            use_type_invariant(expiry);
        }
        let at: usize = self.position(&expiry, &id);
        if at < self.timers.len() && self.timers[at].expiry.same(&expiry) && self.timers[at].id.same(
            &id,
        ) {
            self.timers[at].waker = waker;
            proof {
                lemma_lookup(before, at as int);
                lemma_replaced(before, self.timers@, at as int, waker);
            }
        } else {
            proof {
                if queue_map(before).contains_key((expiry, id)) {
                    let j = choose|j: int|
                        0 <= j < before.len() && (#[trigger] before[j]).key() == (expiry, id);
                    if j > at {
                        assert(key_lt(before[at as int].key(), before[j].key()));
                    }
                }
            }
            self.timers.insert(at, TimerEntry { expiry, id, waker });
            proof {
                if at < before.len() {
                    assert(!key_lt(before[at as int].key(), (expiry, id)));
                }
                assert forall|i: int| at <= i < before.len() implies key_lt(
                    (expiry, id),
                    (#[trigger] before[i]).key(),
                ) by {
                    if i > at {
                        assert(key_lt(before[at as int].key(), before[i].key()));
                    }
                }
                lemma_inserted(before, self.timers@, at as int);
            }
        }
        id
    }

    /// Replaces the waker of the timer with key `(expiry, id)`, and says whether that timer
    /// was pending. Where it was not, nothing changes.
    pub fn modify(&mut self, id: Id, expiry: Instant, waker: W) -> (found: bool)
        requires
            old(self).wf(),
        ensures
            final(self).wf(),
            final(self).next_id() == old(self).next_id(),
            found == old(self)@.contains_key((expiry, id)),
            final(self)@ == if found {
                old(self)@.insert((expiry, id), waker)
            } else {
                old(self)@
            },
            final(self).entries().len() == old(self).entries().len(),
    {
        let ghost before = self.timers@;
        match self.find(&expiry, &id) {
            Some(at) => {
                self.timers[at].waker = waker;
                proof {
                    lemma_replaced(before, self.timers@, at as int, waker);
                }
                true
            },
            None => false,
        }
    }

    /// Removes the timer with key `(expiry, id)`. Where it is not pending, because it has
    /// fired or was cancelled before, nothing changes.
    pub fn cancel(&mut self, id: Id, expiry: Instant)
        requires
            old(self).wf(),
        ensures
            final(self).wf(),
            final(self).next_id() == old(self).next_id(),
            final(self)@ == old(self)@.remove((expiry, id)),
            final(self).entries().len() == if old(self)@.contains_key((expiry, id)) {
                old(self).entries().len() - 1
            } else {
                old(self).entries().len() as int
            },
    {
        let ghost before = self.timers@;
        match self.find(&expiry, &id) {
            Some(at) => {
                let _ = self.timers.remove(at);
                proof {
                    lemma_lookup(before, at as int);
                    lemma_removed(before, self.timers@, at as int);
                }
            },
            None => {
                assert(self@ =~= self@.remove((expiry, id)));
            },
        }
    }

    /// Takes every timer whose deadline is not after `now` out of the queue and hands them
    /// back in the order in which they fire, together with the span from `now` to the
    /// earliest deadline that is left.
    pub fn next_timeout(&mut self, now: Instant) -> (sweep: Sweep<W>)
        requires
            old(self).wf(),
        ensures
            final(self).wf(),
            final(self).next_id() == old(self).next_id(),
            0 <= due_count(old(self).entries(), now) <= old(self).entries().len(),
            sweep.fired@ == old(self).entries().take(due_count(old(self).entries(), now)),
            final(self).entries() == old(self).entries().skip(due_count(old(self).entries(), now)),
            sweep.fired.len() + final(self).entries().len() == old(self).entries().len(),
            forall|i: int|
                0 <= i < sweep.fired.len() ==> (#[trigger] sweep.fired[i]).expiry@ <= now@,
            forall|i: int|
                0 <= i < final(self).entries().len() ==> (#[trigger] final(self).entries()[i]).expiry@
                    > now@,
            match sweep.timeout {
                None => final(self).entries().len() == 0,
                Some(d) => final(self).entries().len() > 0 && d@ == final(self).entries()[0].expiry@
                    - now@,
            },
    {
        let ghost before = self.timers@;
        proof {
            lemma_due_prefix(before, now);
        }
        let n: usize = self.timers.len();
        let mut due: usize = 0;
        while due < n && self.timers[due].expiry.le(&now)
            invariant
                n == self.timers.len(),
                self.timers@ == before,
                due <= n,
                due <= due_count(before, now),
                forall|i: int|
                    0 <= i < before.len() ==> ((#[trigger] before[i]).expiry@ <= now@ <==> i
                        < due_count(before, now)),
            decreases n - due,
        {
            due = due + 1;
        }
        assert(due == due_count(before, now));
        let mut rest = self.timers.split_off(due);
        core::mem::swap(&mut self.timers, &mut rest);
        let fired = rest;
        assert(fired@ =~= before.take(due as int));
        assert(self.timers@ =~= before.skip(due as int));
        let timeout = if self.timers.len() == 0 {
            None
        } else {
            Some(self.timers[0].expiry.saturating_duration_since(&now))
        };
        Sweep { fired, timeout }
    }
}

/// Giving the timer at one position another waker gives its key that waker in the map.
proof fn lemma_replaced<W>(before: Seq<TimerEntry<W>>, after: Seq<TimerEntry<W>>, at: int, waker: W)
    requires
        sorted(before),
        0 <= at < before.len(),
        after.len() == before.len(),
        after[at].key() == before[at].key(),
        after[at].waker == waker,
        forall|i: int| 0 <= i < before.len() && i != at ==> after[i] == before[i],
    ensures
        sorted(after),
        queue_map(after) == queue_map(before).insert(before[at].key(), waker),
{
    assert forall|i: int| 0 <= i < after.len() implies (#[trigger] after[i]).key() == before[i].key() by {}
    assert forall|i: int| 0 <= i < after.len() implies (#[trigger] after[i]).expiry.wf() by {
        assert(before[i].expiry.wf());
    }
    assert forall|i: int, j: int| 0 <= i < j < after.len() implies key_lt(
        (#[trigger] after[i]).key(),
        (#[trigger] after[j]).key(),
    ) by {
        assert(key_lt(before[i].key(), before[j].key()));
    }
    let target = queue_map(before).insert(before[at].key(), waker);
    assert forall|k: (Instant, Id)| queue_map(after).contains_key(k) implies target.contains_key(
        k,
    ) && queue_map(after)[k] == target[k] by {
        let i = choose|i: int| 0 <= i < after.len() && (#[trigger] after[i]).key() == k;
        lemma_lookup(after, i);
        lemma_lookup(before, i);
    }
    assert forall|k: (Instant, Id)| target.contains_key(k) implies queue_map(after).contains_key(
        k,
    ) by {
        if k == before[at].key() {
            lemma_lookup(after, at);
        } else {
            let i = choose|i: int| 0 <= i < before.len() && (#[trigger] before[i]).key() == k;
            lemma_lookup(after, i);
        }
    }
    assert(queue_map(after) =~= target);
}

/// Putting a timer between those before it and those after it adds its key to the map.
proof fn lemma_inserted<W>(before: Seq<TimerEntry<W>>, after: Seq<TimerEntry<W>>, at: int)
    requires
        sorted(before),
        0 <= at <= before.len(),
        after.len() == before.len() + 1,
        after[at].expiry.wf(),
        after == before.insert(at, after[at]),
        forall|i: int| 0 <= i < at ==> key_lt((#[trigger] before[i]).key(), after[at].key()),
        forall|i: int| at <= i < before.len() ==> key_lt(after[at].key(), (#[trigger] before[i]).key()),
    ensures
        sorted(after),
        queue_map(after) == queue_map(before).insert(after[at].key(), after[at].waker),
{
    let entry = after[at];
    assert forall|i: int| 0 <= i < after.len() implies (#[trigger] after[i]).expiry.wf() by {
        if i < at {
            assert(after[i] == before[i]);
        } else if i > at {
            assert(after[i] == before[i - 1]);
        }
    }
    assert forall|i: int, j: int| 0 <= i < j < after.len() implies key_lt(
        (#[trigger] after[i]).key(),
        (#[trigger] after[j]).key(),
    ) by {
        if j < at {
            assert(after[i] == before[i] && after[j] == before[j]);
        } else if j == at {
            assert(after[i] == before[i]);
        } else if i < at {
            assert(after[i] == before[i] && after[j] == before[j - 1]);
        } else if i == at {
            assert(after[j] == before[j - 1]);
        } else {
            assert(after[i] == before[i - 1] && after[j] == before[j - 1]);
        }
    }
    let target = queue_map(before).insert(entry.key(), entry.waker);
    assert forall|k: (Instant, Id)| queue_map(after).contains_key(k) implies target.contains_key(
        k,
    ) && queue_map(after)[k] == target[k] by {
        let i = choose|i: int| 0 <= i < after.len() && (#[trigger] after[i]).key() == k;
        lemma_lookup(after, i);
        if i < at {
            assert(after[i] == before[i]);
            lemma_lookup(before, i);
        } else if i > at {
            assert(after[i] == before[i - 1]);
            lemma_lookup(before, i - 1);
        }
    }
    assert forall|k: (Instant, Id)| target.contains_key(k) implies queue_map(after).contains_key(
        k,
    ) by {
        if k == entry.key() {
            lemma_lookup(after, at);
        } else {
            let i = choose|i: int| 0 <= i < before.len() && (#[trigger] before[i]).key() == k;
            if i < at {
                assert(after[i] == before[i]);
                lemma_lookup(after, i);
            } else {
                assert(after[i + 1] == before[i]);
                lemma_lookup(after, i + 1);
            }
        }
    }
    assert(queue_map(after) =~= target);
}

/// Taking the timer at one position out takes its key out of the map.
proof fn lemma_removed<W>(before: Seq<TimerEntry<W>>, after: Seq<TimerEntry<W>>, at: int)
    requires
        sorted(before),
        0 <= at < before.len(),
        after == before.remove(at),
    ensures
        sorted(after),
        queue_map(after) == queue_map(before).remove(before[at].key()),
{
    assert forall|i: int| 0 <= i < after.len() implies (#[trigger] after[i]).expiry.wf() by {
        if i < at {
            assert(after[i] == before[i]);
        } else {
            assert(after[i] == before[i + 1]);
        }
    }
    assert forall|i: int, j: int| 0 <= i < j < after.len() implies key_lt(
        (#[trigger] after[i]).key(),
        (#[trigger] after[j]).key(),
    ) by {
        let bi = if i < at { i } else { i + 1 };
        let bj = if j < at { j } else { j + 1 };
        assert(after[i] == before[bi] && after[j] == before[bj]);
    }
    let target = queue_map(before).remove(before[at].key());
    assert forall|k: (Instant, Id)| queue_map(after).contains_key(k) implies target.contains_key(
        k,
    ) && queue_map(after)[k] == target[k] by {
        let i = choose|i: int| 0 <= i < after.len() && (#[trigger] after[i]).key() == k;
        lemma_lookup(after, i);
        let bi = if i < at { i } else { i + 1 };
        assert(after[i] == before[bi]);
        lemma_lookup(before, bi);
        if k == before[at].key() {
            lemma_key_position(before, bi, at);
        }
    }
    assert forall|k: (Instant, Id)| target.contains_key(k) implies queue_map(after).contains_key(
        k,
    ) by {
        let i = choose|i: int| 0 <= i < before.len() && (#[trigger] before[i]).key() == k;
        let ai = if i < at { i } else { i - 1 };
        assert(after[ai] == before[i]);
        lemma_lookup(after, ai);
    }
    assert(queue_map(after) =~= target);
}

/// Two sorted queues that hold the same map hold the same timers at the same positions: the
/// map decides the order in which the timers fire.
pub proof fn lemma_map_decides_order<W>(a: Seq<TimerEntry<W>>, b: Seq<TimerEntry<W>>)
    requires
        sorted(a),
        sorted(b),
        queue_map(a) == queue_map(b),
    ensures
        a == b,
    decreases a.len(),
{
    if a.len() == 0 {
        if b.len() > 0 {
            lemma_lookup(b, 0);
            assert(queue_map(a).contains_key(b[0].key()));
        }
        assert(a =~= b);
    } else {
        lemma_lookup(a, 0);
        assert(queue_map(b).contains_key(a[0].key()));
        let j = choose|j: int| 0 <= j < b.len() && (#[trigger] b[j]).key() == a[0].key();
        lemma_lookup(b, 0);
        assert(queue_map(a).contains_key(b[0].key()));
        let i = choose|i: int| 0 <= i < a.len() && (#[trigger] a[i]).key() == b[0].key();
        // Neither first key can stand behind the other queue's first key.
        if j > 0 {
            assert(key_lt(b[0].key(), b[j].key()));
            if i > 0 {
                assert(key_lt(a[0].key(), a[i].key()));
            }
        }
        assert(j == 0);
        lemma_lookup(b, j);
        Instant::lemma_view_injective(a[0].expiry, b[0].expiry);
        assert(a[0] == b[0]);
        lemma_removed(a, a.remove(0), 0);
        lemma_removed(b, b.remove(0), 0);
        lemma_map_decides_order(a.remove(0), b.remove(0));
        assert(a =~= seq![a[0]] + a.remove(0));
        assert(b =~= seq![b[0]] + b.remove(0));
    }
}

/// What a sweep at `now` does to each pending timer. One whose deadline is not after `now`
/// is fired, at its position among the due ones, and is pending no longer. One whose
/// deadline is after `now` stays pending, and the sleep that the sweep returns ends no
/// later than that deadline; for the earliest of those it is the span from `now` to the
/// deadline.
pub proof fn lemma_sweep_fires_what_is_due<W>(entries: Seq<TimerEntry<W>>, now: Instant, i: int)
    requires
        sorted(entries),
        0 <= i < entries.len(),
    ensures
        0 <= due_count(entries, now) <= entries.len(),
        sorted(entries.skip(due_count(entries, now))),
        entries[i].expiry@ <= now@ ==> {
            &&& i < due_count(entries, now)
            &&& entries.take(due_count(entries, now))[i] == entries[i]
            &&& !queue_map(entries.skip(due_count(entries, now))).contains_key(entries[i].key())
        },
        entries[i].expiry@ > now@ ==> {
            &&& due_count(entries, now) <= i
            &&& queue_map(entries.skip(due_count(entries, now))).contains_key(entries[i].key())
            &&& entries.skip(due_count(entries, now))[0].expiry@ - now@ <= entries[i].expiry@ - now@
            &&& i == due_count(entries, now) ==> entries.skip(due_count(entries, now))[0].expiry@
                - now@ == entries[i].expiry@ - now@
        },
{
    let due = due_count(entries, now);
    lemma_due_prefix(entries, now);
    let rest = entries.skip(due);
    assert forall|a: int| 0 <= a < rest.len() implies (#[trigger] rest[a]).expiry.wf() by {
        assert(rest[a] == entries[a + due]);
    }
    assert forall|a: int, b: int| 0 <= a < b < rest.len() implies key_lt(
        (#[trigger] rest[a]).key(),
        (#[trigger] rest[b]).key(),
    ) by {
        assert(rest[a] == entries[a + due] && rest[b] == entries[b + due]);
    }
    if entries[i].expiry@ <= now@ {
        if queue_map(rest).contains_key(entries[i].key()) {
            let j = choose|j: int| 0 <= j < rest.len() && (#[trigger] rest[j]).key() == entries[i].key();
            assert(rest[j] == entries[j + due]);
            lemma_key_position(entries, i, j + due);
        }
    } else {
        assert(rest[i - due] == entries[i]);
        lemma_lookup(rest, i - due);
        assert(rest[0] == entries[due]);
        if i > due {
            assert(key_lt(entries[due].key(), entries[i].key()));
        }
    }
}

/// Cancelling a timer twice leaves the queue as cancelling it once does.
pub proof fn lemma_cancel_is_idempotent<W>(queue: Map<(Instant, Id), W>, id: Id, expiry: Instant)
    ensures
        queue.remove((expiry, id)).remove((expiry, id)) == queue.remove((expiry, id)),
{
    assert(queue.remove((expiry, id)).remove((expiry, id)) =~= queue.remove((expiry, id)));
}

/// The number after an id's is never zero: after the largest it is 1.
pub proof fn lemma_next_id_is_never_zero(value: u64)
    ensures
        Id::successor(value) != 0,
        Id::successor(u64::MAX) == 1,
        value < u64::MAX ==> Id::successor(value) == value + 1,
{
}

/// What one poll of a timer at `now` does. Where the deadline has come, the timer is done
/// and its registration, if it has one, is cancelled. Where it has not, a timer without a
/// registration is registered with `waker` under the queue's next id, and one with a
/// registration has its waker replaced, if the queue still holds it.
pub open spec fn timer_polled<W>(
    timer: Timer,
    queue: TimerQueue<W>,
    now: Instant,
    waker: W,
    timer_after: Timer,
    queue_after: TimerQueue<W>,
    outcome: Poll<()>,
) -> bool {
    let key_of = |id: Id| (timer.deadline(), id);
    &&& timer_after.deadline() == timer.deadline()
    &&& if timer.deadline()@ <= now@ {
        &&& outcome == Poll::Ready(())
        &&& timer_after.registration() is None
        &&& queue_after.next_id() == queue.next_id()
        &&& queue_after@ == match timer.registration() {
            Some(id) => queue@.remove(key_of(id)),
            None => queue@,
        }
    } else {
        &&& outcome == Poll::<()>::Pending
        &&& match timer.registration() {
            None => {
                &&& timer_after.registration() == Some(queue.next_id())
                &&& queue_after.next_id()@ == Id::successor(queue.next_id()@)
                &&& queue_after@ == queue@.insert(key_of(queue.next_id()), waker)
            },
            Some(id) => {
                &&& timer_after.registration() == Some(id)
                &&& queue_after.next_id() == queue.next_id()
                &&& queue_after@ == if queue@.contains_key(key_of(id)) {
                    queue@.insert(key_of(id), waker)
                } else {
                    queue@
                }
            },
        }
    }
}

/// A timer that finishes once its deadline has come.
#[derive(Debug)]
pub struct Timer {
    expiry: Instant,
    timer_id: Option<Id>,
}

impl Timer {
    /// The point in time at which the timer expires.
    pub closed spec fn deadline(&self) -> Instant {
        self.expiry
    }

    /// The id under which the timer is registered in the queue, if it is.
    pub closed spec fn registration(&self) -> Option<Id> {
        self.timer_id
    }

    /// A timer that expires at `expiry`. It is not registered before its first poll.
    pub fn at(expiry: Instant) -> (timer: Timer)
        ensures
            timer.deadline() == expiry,
            timer.registration() is None,
    {
        Timer { expiry, timer_id: None }
    }

    /// A timer that expires `delay` after `now`.
    pub fn delay(now: Instant, delay: Duration) -> (timer: Timer)
        requires
            now@ + delay@ < (u64::MAX + 1) * 1_000_000_000,
        ensures
            timer.deadline()@ == now@ + delay@,
            timer.deadline().wf(),
            timer.registration() is None,
    {
        let expiry = now.checked_add(&delay);
        Timer { expiry: expiry.unwrap(), timer_id: None }
    }

    /// A timer that expires `delay` after `now`, or `None` where the clock cannot hold that
    /// point in time.
    pub fn checked_delay(now: Instant, delay: Duration) -> (timer: Option<Timer>)
        ensures
            timer is Some <==> now@ + delay@ < (u64::MAX + 1) * 1_000_000_000,
            timer matches Some(t) ==> t.deadline()@ == now@ + delay@ && t.deadline().wf()
                && t.registration() is None,
    {
        match now.checked_add(&delay) {
            Some(expiry) => Some(Timer { expiry, timer_id: None }),
            None => None,
        }
    }

    /// The point in time at which the timer expires.
    pub fn expiry(&self) -> (expiry: Instant)
        ensures
            expiry == self.deadline(),
    {
        self.expiry
    }

    /// The id under which the timer is registered in the queue, if it is.
    pub fn timer_id(&self) -> (id: Option<Id>)
        ensures
            id == self.registration(),
    {
        self.timer_id
    }

    /// Polls the timer at `now`: it is ready once its deadline has come, and until then
    /// keeps `waker` registered in the queue.
    pub fn poll<W>(&mut self, queue: &mut TimerQueue<W>, now: Instant, waker: W) -> (outcome: Poll<()>)
        requires
            old(queue).wf(),
        ensures
            final(queue).wf(),
            timer_polled(*old(self), *old(queue), now, waker, *final(self), *final(queue), outcome),
    {
        if self.expiry.le(&now) {
            match self.timer_id {
                Some(id) => {
                    queue.cancel(id, self.expiry);
                    self.timer_id = None;
                },
                None => {},
            }
            return Poll::Ready(());
        }
        match self.timer_id {
            None => {
                let id = queue.register(self.expiry, waker);
                self.timer_id = Some(id);
            },
            Some(id) => {
                let _ = queue.modify(id, self.expiry, waker);
            },
        }
        Poll::Pending
    }

    /// Gives the timer up: cancels its registration, if it has one.
    pub fn cancel<W>(&mut self, queue: &mut TimerQueue<W>)
        requires
            old(queue).wf(),
        ensures
            final(queue).wf(),
            final(self).deadline() == old(self).deadline(),
            final(self).registration() is None,
            final(queue).next_id() == old(queue).next_id(),
            final(queue)@ == match old(self).registration() {
                Some(id) => old(queue)@.remove((old(self).deadline(), id)),
                None => old(queue)@,
            },
    {
        match self.timer_id {
            Some(id) => {
                queue.cancel(id, self.expiry);
                self.timer_id = None;
            },
            None => {},
        }
    }
}

/// A timer whose deadline has come is ready at its first poll and never enters the queue;
/// so a sleep of no length at all is over at the next poll.
pub proof fn lemma_due_timer_is_ready<W>(
    timer: Timer,
    queue: TimerQueue<W>,
    now: Instant,
    waker: W,
    timer_after: Timer,
    queue_after: TimerQueue<W>,
    outcome: Poll<()>,
)
    requires
        timer.registration() is None,
        timer.deadline()@ <= now@,
        timer_polled(timer, queue, now, waker, timer_after, queue_after, outcome),
    ensures
        outcome == Poll::Ready(()),
        queue_after@ == queue@,
        timer_after.registration() is None,
{
}

/// The error of a computation that did not finish before its timeout.
#[derive(Debug, PartialEq, Eq)]
pub struct TimedOut(());

impl TimedOut {
    /// What the error says.
    pub fn message(&self) -> (text: &'static str)
        ensures
            text@ == "Future timed out"@,
    {
        "Future timed out"
    }
}

/// What a timeout makes of the outcome of polling the computation inside it. A computation
/// that is ready wins, and the timer is not looked at. Else the timer is polled, and the
/// timeout has expired where the timer is ready.
pub open spec fn timeout_settled<T, W>(
    child: Poll<T>,
    timer: Timer,
    queue: TimerQueue<W>,
    now: Instant,
    waker: W,
    timer_after: Timer,
    queue_after: TimerQueue<W>,
    outcome: Poll<Result<T, TimedOut>>,
) -> bool {
    match child {
        Poll::Ready(value) => {
            &&& outcome == Poll::Ready(Ok::<T, TimedOut>(value))
            &&& timer_after == timer
            &&& queue_after == queue
        },
        Poll::Pending => {
            &&& timer_polled(
                timer,
                queue,
                now,
                waker,
                timer_after,
                queue_after,
                if timer.deadline()@ <= now@ {
                    Poll::Ready(())
                } else {
                    Poll::Pending
                },
            )
            &&& if timer.deadline()@ <= now@ {
                outcome matches Poll::Ready(Err(_))
            } else {
                outcome is Pending
            }
        },
    }
}

/// A computation together with a timer that cuts it short.
///
/// The timeout does not poll the computation itself: whoever drives it polls the
/// computation first, through [`Timeout::get_mut`], and hands the outcome to
/// [`Timeout::poll`]. So the timer queue is not held while the computation runs, and the
/// computation may use the queue itself.
#[derive(Debug)]
pub struct Timeout<F> {
    timer: Timer,
    fut: F,
}

impl<F> Timeout<F> {
    /// The timer that cuts the computation short.
    pub closed spec fn timer(&self) -> Timer {
        self.timer
    }

    /// The computation inside.
    pub closed spec fn inner(&self) -> F {
        self.fut
    }

    /// The computation inside.
    pub fn get_ref(&self) -> (fut: &F)
        ensures
            *fut == self.inner(),
    {
        &self.fut
    }

    /// The timer that cuts the computation short.
    pub fn get_timer(&self) -> (timer: &Timer)
        ensures
            *timer == self.timer(),
    {
        &self.timer
    }

    /// The computation inside, to poll it.
    pub fn get_mut(&mut self) -> (fut: &mut F)
        ensures
            *fut == old(self).inner(),
            final(self).inner() == *final(fut),
            final(self).timer() == old(self).timer(),
    {
        &mut self.fut
    }

    /// Settles one poll of the timeout, given the outcome `child` of polling the computation
    /// inside it. A computation that is ready wins, and the timer is not looked at. Else
    /// the timer is polled at `now`, with `waker` to be called at the deadline, and the
    /// timeout has expired where the timer is ready.
    pub fn poll<T, W>(
        &mut self,
        child: Poll<T>,
        queue: &mut TimerQueue<W>,
        now: Instant,
        waker: W,
    ) -> (outcome: Poll<Result<T, TimedOut>>)
        requires
            old(queue).wf(),
        ensures
            final(queue).wf(),
            final(self).inner() == old(self).inner(),
            timeout_settled(
                child,
                old(self).timer(),
                *old(queue),
                now,
                waker,
                final(self).timer(),
                *final(queue),
                outcome,
            ),
    {
        match child {
            Poll::Ready(value) => Poll::Ready(Ok(value)),
            Poll::Pending => match self.timer.poll(queue, now, waker) {
                Poll::Ready(_) => Poll::Ready(Err(TimedOut(()))),
                Poll::Pending => Poll::Pending,
            },
        }
    }

    /// Gives the timeout up: cancels the timer's registration, if it has one.
    pub fn cancel<W>(&mut self, queue: &mut TimerQueue<W>)
        requires
            old(queue).wf(),
        ensures
            final(queue).wf(),
            final(self).inner() == old(self).inner(),
            final(self).timer().deadline() == old(self).timer().deadline(),
            final(self).timer().registration() is None,
            final(queue).next_id() == old(queue).next_id(),
            final(queue)@ == match old(self).timer().registration() {
                Some(id) => old(queue)@.remove((old(self).timer().deadline(), id)),
                None => old(queue)@,
            },
    {
        self.timer.cancel(queue);
    }

    /// Hands the computation back.
    pub fn into_inner(self) -> (fut: F)
        ensures
            fut == self.inner(),
    {
        self.fut
    }
}

/// Runs `fut` with a timeout of `limit` from `now` on.
pub fn timeout<F>(fut: F, now: Instant, limit: Duration) -> (guarded: Timeout<F>)
    requires
        now@ + limit@ < (u64::MAX + 1) * 1_000_000_000,
    ensures
        guarded.inner() == fut,
        guarded.timer().deadline()@ == now@ + limit@,
        guarded.timer().registration() is None,
{
    Timeout { timer: Timer::delay(now, limit), fut }
}

/// Runs `fut` until `expiry` at the latest.
pub fn timeout_at<F>(fut: F, expiry: Instant) -> (guarded: Timeout<F>)
    ensures
        guarded.inner() == fut,
        guarded.timer().deadline() == expiry,
        guarded.timer().registration() is None,
{
    Timeout { timer: Timer::at(expiry), fut }
}

} // verus!
