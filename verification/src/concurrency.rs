//! Combinators that poll several children and touch only those that were woken.
//!
//! Each child is polled in the context of a waker of its own, a [`FlagWaker`], which notes
//! that the child was woken and passes the wake on to the waker of the combinator. A child
//! is polled only while its flag is set, and the flag is cleared just before the poll.

use crate::select::reversed;
use crate::task::{LocalFuture, LocalStream, Poll};
use vstd::prelude::*;

verus! {

/// A waker in front of another one: it holds a flag, set from the start, which a wake sets
/// and which the reader clears as it reads it.
#[derive(Debug)]
pub struct FlagWaker<W> {
    waker: W,
    awoken: bool,
}

impl<W> FlagWaker<W> {
    /// The waker that wakes are passed on to.
    pub closed spec fn upstream(&self) -> W {
        self.waker
    }

    /// Whether a wake has come in since the flag was last read.
    pub closed spec fn is_awoken(&self) -> bool {
        self.awoken
    }

    /// A waker in front of `waker`, with its flag set.
    pub fn from(waker: W) -> (flag: Self)
        ensures
            flag.is_awoken(),
            flag.upstream() == waker,
    {
        FlagWaker { waker, awoken: true }
    }

    /// The waker that wakes are passed on to.
    pub fn waker(&self) -> (upstream: &W)
        ensures
            *upstream == self.upstream(),
    {
        &self.waker
    }

    /// Reads the flag and clears it.
    pub fn check_awoken(&mut self) -> (awoken: bool)
        ensures
            awoken == old(self).is_awoken(),
            !final(self).is_awoken(),
            final(self).upstream() == old(self).upstream(),
    {
        let awoken: bool = self.awoken;
        self.awoken = false;
        awoken
    }

    /// Sets the flag.
    pub fn set_awoken(&mut self)
        ensures
            final(self).is_awoken(),
            final(self).upstream() == old(self).upstream(),
    {
        self.awoken = true;
    }

    /// Takes a wake: sets the flag and hands back the waker to pass the wake on to.
    pub fn wake(&mut self) -> (upstream: &W)
        ensures
            final(self).is_awoken(),
            final(self).upstream() == old(self).upstream(),
            *upstream == old(self).upstream(),
    {
        self.awoken = true;
        &self.waker
    }
}

/// Whether the child behind a slot's waker is due for a poll: its flag is set, or it has no
/// waker yet, because it was never polled.
pub open spec fn slot_awoken<W>(waker: Option<FlagWaker<W>>) -> bool {
    match waker {
        None => true,
        Some(flag) => flag.is_awoken(),
    }
}

/// One child of a join: still running, or finished with its value.
#[derive(Debug)]
pub enum Inflight<F, T> {
    Fut(F),
    Done(T),
}

impl<F, T> Inflight<F, T> {
    /// The value of a finished child.
    pub fn unwrap_done(self) -> (value: T)
        requires
            self is Done,
        ensures
            self == Inflight::<F, T>::Done(value),
    {
        match self {
            Inflight::Done(value) => value,
            Inflight::Fut(_) => vstd::pervasive::unreached(),
        }
    }

    /// Records what a poll of the child returned, and says whether the child is still
    /// running: a value finishes the slot, and a pending child stays as it is.
    pub fn settle(&mut self, outcome: Poll<T>) -> (pending: bool)
        ensures
            match outcome {
                Poll::Ready(value) => !pending && *final(self) == Inflight::<F, T>::Done(value),
                Poll::Pending => pending && *final(self) == *old(self),
            },
    {
        match outcome {
            Poll::Ready(value) => {
                *self = Inflight::Done(value);
                false
            },
            Poll::Pending => true,
        }
    }
}

/// How many of the slots hold a child that is still running.
pub open spec fn running_count<F, T>(slots: Seq<Inflight<F, T>>) -> nat
    decreases slots.len(),
{
    if slots.len() == 0 {
        0
    } else if slots.last() is Fut {
        1 + running_count(slots.drop_last())
    } else {
        running_count(slots.drop_last())
    }
}

/// How many of the slots hold the value of a finished child.
pub open spec fn done_count<F, T>(slots: Seq<Inflight<F, T>>) -> nat
    decreases slots.len(),
{
    if slots.len() == 0 {
        0
    } else if slots.last() is Done {
        1 + done_count(slots.drop_last())
    } else {
        done_count(slots.drop_last())
    }
}

/// The running and the finished children of a join are all its children.
pub proof fn lemma_join_slots_add_up<F, T>(slots: Seq<Inflight<F, T>>)
    ensures
        running_count(slots) + done_count(slots) == slots.len(),
        running_count(slots) == 0 <==> forall|i: int| 0 <= i < slots.len() ==> slots[i] is Done,
    decreases slots.len(),
{
    if slots.len() > 0 {
        let front = slots.drop_last();
        lemma_join_slots_add_up(front);
        if running_count(slots) == 0 {
            assert forall|i: int| 0 <= i < slots.len() implies slots[i] is Done by {
                if i < front.len() {
                    assert(front[i] == slots[i]);
                }
            }
        }
        if forall|i: int| 0 <= i < slots.len() ==> slots[i] is Done {
            assert forall|i: int| 0 <= i < front.len() implies front[i] is Done by {
                assert(front[i] == slots[i]);
            }
        }
    }
}

/// Whether a slot of a join is due for a poll: its child is running, and the flag of its
/// waker is set or it has no waker yet.
pub open spec fn join_slot_due<F, T, W>(slot: Inflight<F, T>, waker: Option<FlagWaker<W>>) -> bool {
    slot is Fut && slot_awoken(waker)
}

/// What one poll does to a slot of a join and its waker. The child `fut` of the slot was
/// polled in the context `context`: the waker of the slot, which stands in front of the
/// waker it had, or of a clone of `cx` where it had none, and whose flag was cleared
/// before the poll. The waker is left as the poll left the context. The slot holds the
/// value where the child finished, and else the child as the poll left it.
pub open spec fn join_slot_polled<F, T, W: Clone>(
    slot: Inflight<F, T>,
    waker: Option<FlagWaker<W>>,
    cx: W,
    fut: F,
    fut_after: F,
    context: FlagWaker<W>,
    context_after: FlagWaker<W>,
    outcome: Poll<T>,
    slot_after: Inflight<F, T>,
    waker_after: Option<FlagWaker<W>>,
) -> bool {
    &&& slot == Inflight::<F, T>::Fut(fut)
    &&& !context.is_awoken()
    &&& match waker {
        Some(flag) => context.upstream() == flag.upstream(),
        None => cloned(cx, context.upstream()),
    }
    &&& waker_after == Some(context_after)
    &&& slot_after == match outcome {
        Poll::Ready(value) => Inflight::<F, T>::Done(value),
        Poll::Pending => Inflight::<F, T>::Fut(fut_after),
    }
}

/// Polls every running child whose flag is set, once and in slot order, and is ready when
/// no child is left running.
///
/// A child that has no waker yet gets one in front of a clone of `cx`. What a child
/// returns is up to it. Every slot that was due is as one poll of its child left it, which
/// [`join_slot_polled`] spells out; every other slot is as it was.
pub fn poll_join<F, W>(
    inflights: &mut Vec<Inflight<F, F::Output>>,
    wakers: &mut Vec<Option<FlagWaker<W>>>,
    cx: &W,
) -> (out: Poll<()>) where F: LocalFuture<FlagWaker<W>>, W: Clone
    requires
        old(inflights).len() == old(wakers).len(),
    ensures
        final(inflights).len() == old(inflights).len(),
        final(wakers).len() == old(wakers).len(),
        forall|i: int|
            #![trigger final(inflights)[i]]
            0 <= i < old(inflights).len() ==> (
            if join_slot_due(old(inflights)[i], old(wakers)[i]) {
                exists|fut: &mut F, context: &mut FlagWaker<W>, outcome: Poll<F::Output>|
                    #[trigger] call_ensures(F::poll, (fut, context), outcome) && join_slot_polled(
                        old(inflights)[i],
                        old(wakers)[i],
                        *cx,
                        *fut,
                        *final(fut),
                        *context,
                        *final(context),
                        outcome,
                        final(inflights)[i],
                        final(wakers)[i],
                    )
            } else {
                final(inflights)[i] == old(inflights)[i] && final(wakers)[i] == old(wakers)[i]
            }),
        out is Ready <==> forall|i: int|
            0 <= i < final(inflights).len() ==> final(inflights)[i] is Done,
        out is Ready <==> running_count(final(inflights)@) == 0,
{
    let n: usize = inflights.len();
    let mut out: Poll<()> = Poll::Ready(());
    let mut i: usize = 0;
    while i < n
        invariant
            i <= n,
            inflights.len() == n,
            wakers.len() == n,
            old(inflights).len() == n,
            old(wakers).len() == n,
            forall|j: int|
                #![trigger inflights[j]]
                0 <= j < i ==> (
                if join_slot_due(old(inflights)[j], old(wakers)[j]) {
                    exists|fut: &mut F, context: &mut FlagWaker<W>, outcome: Poll<F::Output>|
                        #[trigger] call_ensures(F::poll, (fut, context), outcome) && join_slot_polled(
                            old(inflights)[j],
                            old(wakers)[j],
                            *cx,
                            *fut,
                            *final(fut),
                            *context,
                            *final(context),
                            outcome,
                            inflights[j],
                            wakers[j],
                        )
                } else {
                    inflights[j] == old(inflights)[j] && wakers[j] == old(wakers)[j]
                }),
            forall|j: int| i <= j < n ==> #[trigger] inflights[j] == old(inflights)[j],
            forall|j: int| i <= j < n ==> #[trigger] wakers[j] == old(wakers)[j],
            out is Ready <==> forall|j: int| 0 <= j < i ==> inflights[j] is Done,
        decreases n - i,
    {
        let ghost slots_before = inflights@;
        let ghost wakers_before = wakers@;
        let running: bool = match &inflights[i] {
            Inflight::Fut(_) => true,
            Inflight::Done(_) => false,
        };
        if running {
            if wakers[i].is_none() {
                wakers[i] = Some(FlagWaker::from(cx.clone()));
            }
            let mut pending: bool = true;
            match &mut wakers[i] {
                Some(flag) => {
                    if flag.check_awoken() {
                        let outcome = match &mut inflights[i] {
                            Inflight::Fut(fut) => fut.poll(flag),
                            Inflight::Done(_) => Poll::Pending,
                        };
                        pending = inflights[i].settle(outcome);
                    }
                },
                None => {},
            }
            if pending {
                out = Poll::Pending;
            }
        }
        assert(forall|j: int|
            #![trigger inflights[j]]
            #![trigger slots_before[j]]
            0 <= j < i ==> inflights[j] == slots_before[j]);
        assert(forall|j: int|
            #![trigger wakers[j]]
            #![trigger wakers_before[j]]
            0 <= j < i ==> wakers[j] == wakers_before[j]);
        assert forall|j: int| #![trigger inflights[j]] 0 <= j < i implies (if join_slot_due(
            old(inflights)[j],
            old(wakers)[j],
        ) {
            exists|fut: &mut F, context: &mut FlagWaker<W>, outcome: Poll<F::Output>|
                #[trigger] call_ensures(F::poll, (fut, context), outcome) && join_slot_polled(
                    old(inflights)[j],
                    old(wakers)[j],
                    *cx,
                    *fut,
                    *final(fut),
                    *context,
                    *final(context),
                    outcome,
                    inflights[j],
                    wakers[j],
                )
        } else {
            inflights[j] == old(inflights)[j] && wakers[j] == old(wakers)[j]
        }) by {
            assert(inflights[j] == slots_before[j]);
            assert(wakers[j] == wakers_before[j]);
        }
        assert(if join_slot_due(old(inflights)[i as int], old(wakers)[i as int]) {
            exists|fut: &mut F, context: &mut FlagWaker<W>, outcome: Poll<F::Output>|
                #[trigger] call_ensures(F::poll, (fut, context), outcome) && join_slot_polled(
                    old(inflights)[i as int],
                    old(wakers)[i as int],
                    *cx,
                    *fut,
                    *final(fut),
                    *context,
                    *final(context),
                    outcome,
                    inflights[i as int],
                    wakers[i as int],
                )
        } else {
            inflights[i as int] == old(inflights)[i as int] && wakers[i as int] == old(wakers)[i as int]
        });
        i = i + 1;
    }
    proof {
        lemma_join_slots_add_up(inflights@);
    }
    out
}

/// Waits for all of its children: polls those that were woken and, once every child has
/// finished, hands out their values in slot order.
///
/// `F` is the type of the children and `W` that of the waker of the join itself, which
/// each child's own waker passes wakes on to.
pub struct JoinFuture<F: LocalFuture<FlagWaker<W>>, W> {
    inflight: Option<Vec<Inflight<F, F::Output>>>,
    wakers: Vec<Option<FlagWaker<W>>>,
}

impl<F: LocalFuture<FlagWaker<W>>, W> JoinFuture<F, W> {
    /// The slots of the children, or `None` once the join has handed out their values.
    pub closed spec fn slots(&self) -> Option<Seq<Inflight<F, F::Output>>> {
        match self.inflight {
            Some(slots) => Some(slots@),
            None => None,
        }
    }

    /// The wakers of the children, one for each slot; `None` for a child that was never
    /// polled.
    pub closed spec fn flags(&self) -> Seq<Option<FlagWaker<W>>> {
        self.wakers@
    }

    /// Every slot has its place for a waker.
    pub open spec fn wf(&self) -> bool {
        self.slots() matches Some(slots) ==> slots.len() == self.flags().len()
    }

    /// A join over `futures`, none of which has been polled.
    pub fn new(futures: Vec<F>) -> (join: Self)
        ensures
            join.wf(),
            join.slots() == Some(futures@.map_values(|fut: F| Inflight::<F, F::Output>::Fut(fut))),
            join.flags().len() == futures.len(),
            forall|i: int| 0 <= i < futures.len() ==> #[trigger] join.flags()[i] is None,
    {
        let ghost all = futures@;
        let mut rest = reversed(futures);
        let mut slots: Vec<Inflight<F, F::Output>> = Vec::new();
        let mut wakers: Vec<Option<FlagWaker<W>>> = Vec::new();
        while rest.len() > 0
            invariant
                slots.len() + rest.len() == all.len(),
                wakers.len() == slots.len(),
                forall|i: int| 0 <= i < rest.len() ==> #[trigger] rest[i] == all[all.len() - 1 - i],
                forall|i: int|
                    0 <= i < slots.len() ==> #[trigger] slots[i] == Inflight::<F, F::Output>::Fut(
                        all[i],
                    ),
                forall|i: int| 0 <= i < wakers.len() ==> #[trigger] wakers[i] is None,
            decreases rest.len(),
        {
            match rest.pop() {
                Some(fut) => {
                    slots.push(Inflight::Fut(fut));
                    wakers.push(None);
                },
                None => {},
            }
        }
        assert(slots@ =~= all.map_values(|fut: F| Inflight::<F, F::Output>::Fut(fut)));
        JoinFuture { inflight: Some(slots), wakers }
    }

    /// How many children the join has.
    pub fn len(&self) -> (len: usize)
        ensures
            len == self.flags().len(),
    {
        self.wakers.len()
    }

    /// Takes the wake of the child at `slot`: sets the flag of its waker, so that the next
    /// poll of the join polls the child, and hands back the waker to pass the wake on to. A
    /// child that was never polled has no waker yet and is polled in any case.
    pub fn wake(&mut self, slot: usize) -> (upstream: Option<&W>)
        requires
            slot < old(self).flags().len(),
        ensures
            match upstream {
                Some(waker) => old(self).flags()[slot as int] matches Some(flag) && *waker
                    == flag.upstream(),
                None => old(self).flags()[slot as int] is None,
            },
            final(self).slots() == old(self).slots(),
            final(self).flags().len() == old(self).flags().len(),
            slot_awoken(final(self).flags()[slot as int]),
            final(self).flags()[slot as int] is Some == old(self).flags()[slot as int] is Some,
            forall|i: int|
                0 <= i < final(self).flags().len() && i != slot ==> #[trigger] final(self).flags()[i]
                    == old(self).flags()[i],
    {
        match &mut self.wakers[slot] {
            Some(flag) => Some(flag.wake()),
            None => None,
        }
    }

    /// Polls the join: every running child whose flag is set is polled once, as
    /// [`poll_join`] does, and the join is ready with the values of all children, in slot
    /// order, when none is left running. A join that has handed out its values is not
    /// polled again.
    pub fn poll(&mut self, cx: &W) -> (out: Poll<Vec<F::Output>>) where W: Clone
        requires
            old(self).wf(),
            old(self).slots() is Some,
        ensures
            final(self).wf(),
            final(self).flags().len() == old(self).flags().len(),
            match out {
                Poll::Ready(values) => {
                    &&& final(self).slots() is None
                    &&& values.len() == old(self).flags().len()
                    &&& forall|i: int|
                        #![trigger values[i]]
                        0 <= i < values.len() ==> (
                        if join_slot_due(old(self).slots()->0[i], old(self).flags()[i]) {
                            exists|fut: &mut F, context: &mut FlagWaker<W>, outcome: Poll<F::Output>|
                                #[trigger] call_ensures(F::poll, (fut, context), outcome) && join_slot_polled(
                                    old(self).slots()->0[i],
                                    old(self).flags()[i],
                                    *cx,
                                    *fut,
                                    *final(fut),
                                    *context,
                                    *final(context),
                                    outcome,
                                    Inflight::<F, F::Output>::Done(values[i]),
                                    final(self).flags()[i],
                                )
                        } else {
                            Inflight::<F, F::Output>::Done(values[i]) == old(self).slots()->0[i] && final(self).flags()[i] == old(self).flags()[i]
                        })
                },
                Poll::Pending => {
                    &&& final(self).slots() matches Some(slots)
                    &&& slots.len() == old(self).flags().len()
                    &&& running_count(slots) > 0
                    &&& forall|i: int|
                        #![trigger slots[i]]
                        0 <= i < slots.len() ==> (
                        if join_slot_due(old(self).slots()->0[i], old(self).flags()[i]) {
                            exists|fut: &mut F, context: &mut FlagWaker<W>, outcome: Poll<F::Output>|
                                #[trigger] call_ensures(F::poll, (fut, context), outcome) && join_slot_polled(
                                    old(self).slots()->0[i],
                                    old(self).flags()[i],
                                    *cx,
                                    *fut,
                                    *final(fut),
                                    *context,
                                    *final(context),
                                    outcome,
                                    slots[i],
                                    final(self).flags()[i],
                                )
                        } else {
                            slots[i] == old(self).slots()->0[i] && final(self).flags()[i] == old(self).flags()[i]
                        })
                },
            },
    {
        let mut slots = match self.inflight.take() {
            Some(slots) => slots,
            None => vstd::pervasive::unreached(),
        };
        match poll_join(&mut slots, &mut self.wakers, cx) {
            Poll::Pending => {
                self.inflight = Some(slots);
                Poll::Pending
            },
            Poll::Ready(_) => {
                let ghost settled = slots@;
                let mut rest = reversed(slots);
                let mut values: Vec<F::Output> = Vec::new();
                while rest.len() > 0
                    invariant
                        values.len() + rest.len() == settled.len(),
                        forall|i: int| 0 <= i < settled.len() ==> (#[trigger] settled[i]) is Done,
                        forall|i: int|
                            0 <= i < rest.len() ==> #[trigger] rest[i] == settled[settled.len() - 1
                                - i],
                        forall|i: int|
                            0 <= i < values.len() ==> settled[i] == Inflight::<F, F::Output>::Done(
                                #[trigger] values[i],
                            ),
                    decreases rest.len(),
                {
                    match rest.pop() {
                        Some(slot) => {
                            assert(slot == settled[values.len() as int]);
                            values.push(slot.unwrap_done());
                        },
                        None => {},
                    }
                }
                assert forall|i: int| 0 <= i < values.len() implies settled[i] == Inflight::<
                    F,
                    F::Output,
                >::Done(#[trigger] values[i]) by {}
                Poll::Ready(values)
            },
        }
    }
}

/// What a child of a merge hands over when a poll of it is ready: an item to yield, if it
/// has one, and whether the child has ended.
#[derive(Debug)]
pub struct Emission<T> {
    /// The item to yield.
    pub item: Option<T>,
    /// Whether the child has ended and its slot becomes vacant.
    pub done: bool,
}

/// What a ready future hands over to a merge: its value, and it has ended.
pub open spec fn spec_future_emission<T>(outcome: Poll<T>) -> Poll<Emission<T>> {
    match outcome {
        Poll::Ready(value) => Poll::Ready(Emission { item: Some(value), done: true }),
        Poll::Pending => Poll::Pending,
    }
}

/// What a ready stream hands over to a merge: an item, and it goes on; or no item, and it
/// has ended.
pub open spec fn spec_stream_emission<T>(outcome: Poll<Option<T>>) -> Poll<Emission<T>> {
    match outcome {
        Poll::Ready(Some(item)) => Poll::Ready(Emission { item: Some(item), done: false }),
        Poll::Ready(None) => Poll::Ready(Emission { item: None, done: true }),
        Poll::Pending => Poll::Pending,
    }
}

/// What the outcome of polling a future means to a merge.
pub fn future_emission<T>(outcome: Poll<T>) -> (emission: Poll<Emission<T>>)
    ensures
        emission == spec_future_emission(outcome),
{
    match outcome {
        Poll::Ready(value) => Poll::Ready(Emission { item: Some(value), done: true }),
        Poll::Pending => Poll::Pending,
    }
}

/// What the outcome of polling a stream means to a merge.
pub fn stream_emission<T>(outcome: Poll<Option<T>>) -> (emission: Poll<Emission<T>>)
    ensures
        emission == spec_stream_emission(outcome),
{
    match outcome {
        Poll::Ready(Some(item)) => Poll::Ready(Emission { item: Some(item), done: false }),
        Poll::Ready(None) => Poll::Ready(Emission { item: None, done: true }),
        Poll::Pending => Poll::Pending,
    }
}

/// A child of a merge: something that is polled for emissions.
pub trait MergeSource<C> {
    /// The items that the child yields.
    type Item;

    /// Polls the child once.
    fn poll_source(&mut self, cx: &mut C) -> Poll<Emission<Self::Item>>;
}

/// A future as the child of a merge: it yields its value and ends.
#[derive(Debug)]
pub struct FutureSource<F> {
    fut: F,
}

impl<F> FutureSource<F> {
    /// The future inside.
    pub closed spec fn inner(&self) -> F {
        self.fut
    }

    /// The child that polls `fut`.
    pub fn new(fut: F) -> (source: Self)
        ensures
            source.inner() == fut,
    {
        FutureSource { fut }
    }
}

impl<C, F: LocalFuture<C>> MergeSource<C> for FutureSource<F> {
    type Item = F::Output;

    /// Polls the future once and hands on what it returned, as a merge reads it: a value
    /// is the item of a child that has ended, and a pending future is a pending child.
    fn poll_source(&mut self, cx: &mut C) -> (emission: Poll<Emission<F::Output>>)
        ensures
            exists|fut: &mut F, context: &mut C, outcome: Poll<F::Output>|
                {
                    &&& *fut == old(self).inner()
                    &&& *final(fut) == final(self).inner()
                    &&& *context == *old(cx)
                    &&& *final(context) == *final(cx)
                    &&& call_ensures(F::poll, (fut, context), outcome)
                    &&& emission == spec_future_emission(outcome)
                },
    {
        future_emission(self.fut.poll(cx))
    }
}

/// A stream as the child of a merge: it yields item after item and ends with its
/// terminator.
#[derive(Debug)]
pub struct StreamSource<S> {
    stream: S,
}

impl<S> StreamSource<S> {
    /// The stream inside.
    pub closed spec fn inner(&self) -> S {
        self.stream
    }

    /// The child that polls `stream`.
    pub fn new(stream: S) -> (source: Self)
        ensures
            source.inner() == stream,
    {
        StreamSource { stream }
    }
}

impl<C, S: LocalStream<C>> MergeSource<C> for StreamSource<S> {
    type Item = S::Item;

    /// Polls the stream once and hands on what it returned, as a merge reads it: an item
    /// is the item of a child that goes on, the terminator ends the child without an item,
    /// and a pending stream is a pending child.
    fn poll_source(&mut self, cx: &mut C) -> (emission: Poll<Emission<S::Item>>)
        ensures
            exists|stream: &mut S, context: &mut C, outcome: Poll<Option<S::Item>>|
                {
                    &&& *stream == old(self).inner()
                    &&& *final(stream) == final(self).inner()
                    &&& *context == *old(cx)
                    &&& *final(context) == *final(cx)
                    &&& call_ensures(S::poll_next, (stream, context), outcome)
                    &&& emission == spec_stream_emission(outcome)
                },
    {
        stream_emission(self.stream.poll_next(cx))
    }
}

/// How many of the slots are vacant.
pub open spec fn vacant_count<P>(slots: Seq<Option<P>>) -> nat
    decreases slots.len(),
{
    if slots.len() == 0 {
        0
    } else if slots.last() is None {
        1 + vacant_count(slots.drop_last())
    } else {
        vacant_count(slots.drop_last())
    }
}

/// How many of the slots hold a child.
pub open spec fn occupied_count<P>(slots: Seq<Option<P>>) -> nat
    decreases slots.len(),
{
    if slots.len() == 0 {
        0
    } else if slots.last() is Some {
        1 + occupied_count(slots.drop_last())
    } else {
        occupied_count(slots.drop_last())
    }
}

/// The pending and the vacant slots of a merge are all its slots.
pub proof fn lemma_merge_slots_add_up<P>(slots: Seq<Option<P>>)
    ensures
        occupied_count(slots) + vacant_count(slots) == slots.len(),
        vacant_count(slots) == slots.len() <==> forall|i: int|
            0 <= i < slots.len() ==> slots[i] is None,
    decreases slots.len(),
{
    if slots.len() > 0 {
        let front = slots.drop_last();
        lemma_merge_slots_add_up(front);
        if vacant_count(slots) == slots.len() {
            assert forall|i: int| 0 <= i < slots.len() implies slots[i] is None by {
                if i < front.len() {
                    assert(front[i] == slots[i]);
                }
            }
        }
        if forall|i: int| 0 <= i < slots.len() ==> slots[i] is None {
            assert forall|i: int| 0 <= i < front.len() implies front[i] is None by {
                assert(front[i] == slots[i]);
            }
        }
    }
}

/// Vacating one occupied slot makes one more slot vacant.
pub proof fn lemma_vacate<P>(slots: Seq<Option<P>>, i: int)
    requires
        0 <= i < slots.len(),
        slots[i] is Some,
    ensures
        vacant_count(slots.update(i, None)) == vacant_count(slots) + 1,
        vacant_count(slots) < slots.len(),
    decreases slots.len(),
{
    let after = slots.update(i, None);
    lemma_merge_slots_add_up(slots.drop_last());
    if i == slots.len() - 1 {
        assert(after.drop_last() =~= slots.drop_last());
    } else {
        lemma_vacate(slots.drop_last(), i);
        assert(after.drop_last() =~= slots.drop_last().update(i, None));
    }
}

/// Two rows of slots that are vacant at the same places have equally many vacant slots.
pub proof fn lemma_same_vacancies<P>(a: Seq<Option<P>>, b: Seq<Option<P>>)
    requires
        a.len() == b.len(),
        forall|i: int| 0 <= i < a.len() ==> (a[i] is None <==> b[i] is None),
    ensures
        vacant_count(a) == vacant_count(b),
    decreases a.len(),
{
    if a.len() > 0 {
        assert forall|i: int| 0 <= i < a.drop_last().len() implies (a.drop_last()[i] is None
            <==> b.drop_last()[i] is None) by {
            assert(a.drop_last()[i] == a[i] && b.drop_last()[i] == b[i]);
        }
        lemma_same_vacancies(a.drop_last(), b.drop_last());
    }
}

/// The state of a merge: the slots of the children, their wakers, the slot at which the
/// next poll starts, and how many slots are vacant.
pub struct MergeState<P, W> {
    pub pollers: Seq<Option<P>>,
    pub wakers: Seq<Option<FlagWaker<W>>>,
    pub idx: usize,
    pub none_count: usize,
}

impl<P, W> MergeState<P, W> {
    /// Every slot has its place for a waker, the start slot is one of the slots, and the
    /// count of the vacant slots is right.
    pub open spec fn wf(self) -> bool {
        &&& self.pollers.len() == self.wakers.len()
        &&& self.pollers.len() > 0 ==> self.idx < self.pollers.len()
        &&& self.none_count == vacant_count(self.pollers)
    }

    /// Whether the child at `slot` is due for a poll: the slot is occupied and the flag of
    /// its waker is set.
    pub open spec fn due(self, slot: int) -> bool {
        self.pollers[slot] is Some && slot_awoken(self.wakers[slot])
    }
}

/// What one poll of a merge does, whatever its children return.
///
/// A slot that is vacant, or whose flag is clear, is left alone. No vacant slot is filled
/// again. The merge ends with `None` only when every slot is vacant, and with no slot at
/// all it ends at once. It is pending only when it has gone once round all slots, back
/// to where it started, and some slot is still occupied. It yields an item only from a child
/// that was due, and then stops at that child's slot with the flag set, so that the next
/// poll starts there.
pub open spec fn merge_polled<P, W, T>(
    before: MergeState<P, W>,
    after: MergeState<P, W>,
    out: Poll<Option<T>>,
) -> bool {
    &&& after.pollers.len() == before.pollers.len()
    &&& after.wf()
    &&& after.none_count >= before.none_count
    &&& forall|i: int|
        0 <= i < before.pollers.len() && !before.due(i) ==> #[trigger] after.pollers[i]
            == before.pollers[i]
    &&& forall|i: int|
        0 <= i < before.pollers.len() && !before.due(i) ==> #[trigger] after.wakers[i]
            == before.wakers[i]
    &&& forall|i: int|
        0 <= i < before.pollers.len() && (#[trigger] after.pollers[i]) is Some
            ==> before.pollers[i] is Some
    &&& match out {
        Poll::Ready(None) => after.none_count == after.pollers.len(),
        Poll::Pending => {
            &&& after.none_count < after.pollers.len()
            &&& after.idx == before.idx
        },
        Poll::Ready(Some(_)) => {
            &&& before.pollers.len() > 0
            &&& before.due(after.idx as int)
            &&& slot_awoken(after.wakers[after.idx as int])
        },
    }
}

/// Takes in what a child handed over. A child that has ended leaves its slot vacant and is
/// counted. An item is passed on, and the child's flag is set again, so that the next poll
/// of the merge comes back to this child first.
pub fn absorb<P, T, W>(
    slot: &mut Option<P>,
    flag: &mut FlagWaker<W>,
    none_count: &mut usize,
    emission: Emission<T>,
) -> (item: Option<T>)
    requires
        *old(none_count) < usize::MAX,
    ensures
        item == emission.item,
        *final(slot) == if emission.done {
            None
        } else {
            *old(slot)
        },
        *final(none_count) == if emission.done {
            *old(none_count) + 1
        } else {
            *old(none_count) as int
        },
        final(flag).upstream() == old(flag).upstream(),
        final(flag).is_awoken() == (old(flag).is_awoken() || emission.item is Some),
{
    if emission.done {
        *slot = None;
        *none_count = *none_count + 1;
    }
    match emission.item {
        Some(item) => {
            flag.set_awoken();
            Some(item)
        },
        None => None,
    }
}

/// How far `slot` lies behind `start` when going round `len` slots.
pub open spec fn offset(start: int, slot: int, len: int) -> int {
    if slot >= start {
        slot - start
    } else {
        slot + len - start
    }
}

/// What one poll does to a slot of a merge and its waker. The child `poller` of the slot
/// was polled in the context `context`: the waker of the slot, which stands in front of the
/// waker it had, or of a clone of `cx` where it had none, and whose flag was cleared
/// before the poll. A pending child stays, as the poll left it, and so does its waker. What
/// a ready child handed over is taken in as [`absorb`] says: a child that has ended leaves
/// its slot vacant, the item is `item`, and an item sets the flag of the waker again.
pub open spec fn merge_slot_polled<P, T, W: Clone>(
    slot: Option<P>,
    waker: Option<FlagWaker<W>>,
    cx: W,
    poller: P,
    poller_after: P,
    context: FlagWaker<W>,
    context_after: FlagWaker<W>,
    polled: Poll<Emission<T>>,
    slot_after: Option<P>,
    waker_after: Option<FlagWaker<W>>,
    item: Option<T>,
) -> bool {
    &&& slot == Some(poller)
    &&& !context.is_awoken()
    &&& match waker {
        Some(flag) => context.upstream() == flag.upstream(),
        None => cloned(cx, context.upstream()),
    }
    &&& match polled {
        Poll::Pending => {
            &&& slot_after == Some(poller_after)
            &&& waker_after == Some(context_after)
            &&& item is None
        },
        Poll::Ready(emission) => {
            &&& slot_after == if emission.done {
                None
            } else {
                Some(poller_after)
            }
            &&& item == emission.item
            &&& waker_after matches Some(flag) && flag.upstream() == context_after.upstream()
                && flag.is_awoken() == (context_after.is_awoken() || emission.item is Some)
        },
    }
}

/// Whether one poll of a merge, which began at the slot `start` and left the start slot at
/// `stop`, came to `slot` on its round. A pending poll came to every slot. A poll that
/// yielded an item came to the slots from `start` up to the one that yielded, which is
/// `stop`. A poll that ended the merge came to the slots from `start` up to the one before
/// `stop`, and to all of them where `stop` is `start` again.
pub open spec fn merge_reached<T>(
    start: int,
    stop: int,
    len: int,
    out: Poll<Option<T>>,
    slot: int,
) -> bool {
    match out {
        Poll::Pending => true,
        Poll::Ready(Some(_)) => offset(start, slot, len) <= offset(start, stop, len),
        Poll::Ready(None) => len > 0 && (offset(start, stop, len) == 0 || offset(
            start,
            slot,
            len,
        ) < offset(start, stop, len)),
    }
}

/// The item that one poll of a merge took from the child at `slot`: the item that the poll
/// yielded, at the slot where it stopped, and none at any other slot.
pub open spec fn merge_item_at<T>(stop: int, out: Poll<Option<T>>, slot: int) -> Option<T> {
    match out {
        Poll::Ready(Some(item)) => if slot == stop {
            Some(item)
        } else {
            None
        },
        _ => None,
    }
}

/// Polls the children of a merge, beginning at the start slot and going round once, and
/// yields the first item that a child hands over.
///
/// Only a child whose flag is set is polled, and the flag is cleared before the poll. A
/// child that has no waker yet gets one in front of a clone of `cx`. The start slot moves
/// on past every slot that yields nothing. What a child returns is up to it. Every slot
/// that the round came to and that was due is as one poll of its child left it, which
/// [`merge_slot_polled`] spells out, and every other slot is as it was; [`merge_polled`]
/// says what holds of the poll as a whole.
pub fn poll_merged<P, W>(
    pollers: &mut Vec<Option<P>>,
    wakers: &mut Vec<Option<FlagWaker<W>>>,
    idx: &mut usize,
    none_count: &mut usize,
    cx: &W,
) -> (out: Poll<Option<P::Item>>) where P: MergeSource<FlagWaker<W>>, W: Clone
    requires
        (MergeState {
            pollers: old(pollers)@,
            wakers: old(wakers)@,
            idx: *old(idx),
            none_count: *old(none_count),
        }).wf(),
    ensures
        merge_polled(
            MergeState {
                pollers: old(pollers)@,
                wakers: old(wakers)@,
                idx: *old(idx),
                none_count: *old(none_count),
            },
            MergeState {
                pollers: final(pollers)@,
                wakers: final(wakers)@,
                idx: *final(idx),
                none_count: *final(none_count),
            },
            out,
        ),
        forall|j: int|
            #![trigger final(pollers)[j]]
            0 <= j < old(pollers).len() ==> (
            if old(pollers)[j] is Some && slot_awoken(old(wakers)[j]) && merge_reached(*old(idx) as int, *final(idx) as int, old(pollers).len() as int, out, j) {
                exists|poller: &mut P, context: &mut FlagWaker<W>, polled: Poll<Emission<P::Item>>|
                    #[trigger] call_ensures(P::poll_source, (poller, context), polled)
                        && merge_slot_polled(
                        old(pollers)[j],
                        old(wakers)[j],
                        *cx,
                        *poller,
                        *final(poller),
                        *context,
                        *final(context),
                        polled,
                        final(pollers)[j],
                        final(wakers)[j],
                        merge_item_at(*final(idx) as int, out, j),
                    )
            } else {
                final(pollers)[j] == old(pollers)[j] && final(wakers)[j] == old(wakers)[j]
            }),
{
    let len: usize = pollers.len();
    if len == 0 {
        return Poll::Ready(None);
    }
    let ghost start = *idx as int;
    let mut visited: usize = 0;
    while visited < len
        invariant
            visited <= len,
            len > 0,
            pollers.len() == len,
            wakers.len() == len,
            old(pollers).len() == len,
            old(wakers).len() == len,
            0 <= start < len,
            start == *old(idx),
            *idx < len,
            offset(start, *idx as int, len as int) == visited || (visited == len && *idx == start),
            *none_count == vacant_count(pollers@),
            *none_count >= *old(none_count),
            visited > 0 ==> *none_count < len,
            forall|j: int|
                0 <= j < len && offset(start, j, len as int) >= visited ==> #[trigger] pollers[j]
                    == old(pollers)[j],
            forall|j: int|
                0 <= j < len && offset(start, j, len as int) >= visited ==> #[trigger] wakers[j]
                    == old(wakers)[j],
            forall|j: int|
                0 <= j < len && (old(pollers)[j] is None || !slot_awoken(old(wakers)[j]))
                    ==> #[trigger] pollers[j] == old(pollers)[j],
            forall|j: int|
                0 <= j < len && (old(pollers)[j] is None || !slot_awoken(old(wakers)[j]))
                    ==> #[trigger] wakers[j] == old(wakers)[j],
            forall|j: int| 0 <= j < len && (#[trigger] pollers[j]) is Some ==> old(pollers)[j] is Some,
            forall|j: int|
                #![trigger pollers[j]]
                0 <= j < len ==> (
                if old(pollers)[j] is Some && slot_awoken(old(wakers)[j]) && offset(start, j, len as int) < visited {
                    exists|poller: &mut P, context: &mut FlagWaker<W>, polled: Poll<Emission<P::Item>>|
                        #[trigger] call_ensures(P::poll_source, (poller, context), polled)
                            && merge_slot_polled(
                            old(pollers)[j],
                            old(wakers)[j],
                            *cx,
                            *poller,
                            *final(poller),
                            *context,
                            *final(context),
                            polled,
                            pollers[j],
                            wakers[j],
                            None::<P::Item>,
                        )
                } else {
                    pollers[j] == old(pollers)[j] && wakers[j] == old(wakers)[j]
                }),
        decreases len - visited,
    {
        let i: usize = *idx;
        let ghost slots_before = pollers@;
        let ghost wakers_before = wakers@;
        assert(slots_before[i as int] == old(pollers)[i as int]);
        assert(wakers_before[i as int] == old(wakers)[i as int]);
        if pollers[i].is_some() {
            proof {
                lemma_vacate(slots_before, i as int);
            }
            if wakers[i].is_none() {
                wakers[i] = Some(FlagWaker::from(cx.clone()));
            }
            match &mut wakers[i] {
                Some(flag) => {
                    if flag.check_awoken() {
                        let polled = match &mut pollers[i] {
                            Some(poller) => poller.poll_source(flag),
                            None => Poll::Pending,
                        };
                        let ghost slots_mid = pollers@;
                        proof {
                            assert(slots_mid[i as int] is Some);
                            assert forall|j: int| 0 <= j < len implies (slots_before[j] is None
                                <==> slots_mid[j] is None) by {
                                if j != i {
                                    assert(slots_mid[j] == slots_before[j]);
                                }
                            }
                            lemma_same_vacancies(slots_before, slots_mid);
                            lemma_vacate(slots_mid, i as int);
                        }
                        match polled {
                            Poll::Ready(emission) => {
                                let ghost ended = emission.done;
                                let item = absorb(&mut pollers[i], flag, none_count, emission);
                                proof {
                                    if ended {
                                        assert(pollers@ =~= slots_mid.update(i as int, None));
                                    } else {
                                        assert(pollers@ =~= slots_mid);
                                    }
                                }
                                match item {
                                    Some(value) => {
                                        assert(forall|j: int|
                                            #![trigger pollers[j]]
                                            #![trigger slots_before[j]]
                                            0 <= j < len && j != i ==> pollers[j] == slots_before[j]);
                                        assert(forall|j: int|
                                            #![trigger wakers[j]]
                                            #![trigger wakers_before[j]]
                                            0 <= j < len && j != i ==> wakers[j] == wakers_before[j]);
                                        assert forall|j: int|
                                            #![trigger pollers[j]]
                                            0 <= j < len implies (
                                            if old(pollers)[j] is Some && slot_awoken(old(wakers)[j]) && offset(start, j, len as int) <= visited {
                                                exists|poller: &mut P, context: &mut FlagWaker<W>, polled: Poll<Emission<P::Item>>|
                                                    #[trigger] call_ensures(P::poll_source, (poller, context), polled)
                                                        && merge_slot_polled(
                                                        old(pollers)[j],
                                                        old(wakers)[j],
                                                        *cx,
                                                        *poller,
                                                        *final(poller),
                                                        *context,
                                                        *final(context),
                                                        polled,
                                                        pollers[j],
                                                        wakers[j],
                                                        (if j == i { Some(value) } else { None::<P::Item> }),
                                                    )
                                            } else {
                                                pollers[j] == old(pollers)[j] && wakers[j] == old(wakers)[j]
                                            }) by {
                                            if j != i {
                                                assert(pollers[j] == slots_before[j]);
                                                assert(wakers[j] == wakers_before[j]);
                                            }
                                        }
                                        return Poll::Ready(Some(value));
                                    },
                                    None => {},
                                }
                            },
                            Poll::Pending => {},
                        }
                    }
                },
                None => {},
            }
        }
        assert(forall|j: int|
            #![trigger pollers[j]]
            #![trigger slots_before[j]]
            0 <= j < len && j != i ==> pollers[j] == slots_before[j]);
        assert(forall|j: int|
            #![trigger wakers[j]]
            #![trigger wakers_before[j]]
            0 <= j < len && j != i ==> wakers[j] == wakers_before[j]);
        assert forall|j: int| #![trigger pollers[j]] 0 <= j < len implies (
        if old(pollers)[j] is Some && slot_awoken(old(wakers)[j]) && offset(start, j, len as int) < visited + 1 {
            exists|poller: &mut P, context: &mut FlagWaker<W>, polled: Poll<Emission<P::Item>>|
                #[trigger] call_ensures(P::poll_source, (poller, context), polled)
                    && merge_slot_polled(
                    old(pollers)[j],
                    old(wakers)[j],
                    *cx,
                    *poller,
                    *final(poller),
                    *context,
                    *final(context),
                    polled,
                    pollers[j],
                    wakers[j],
                    None::<P::Item>,
                )
        } else {
            pollers[j] == old(pollers)[j] && wakers[j] == old(wakers)[j]
        }) by {
            if j != i {
                assert(pollers[j] == slots_before[j]);
                assert(wakers[j] == wakers_before[j]);
            }
        }
        *idx = if i + 1 == len {
            0
        } else {
            i + 1
        };
        proof {
            lemma_merge_slots_add_up(pollers@);
        }
        if *none_count == len {
            return Poll::Ready(None);
        }
        visited = visited + 1;
    }
    Poll::Pending
}

/// Polls its futures side by side and yields their values in the order in which they
/// finish. It ends once every future has finished.
pub struct MergeFutureStream<F, W> {
    futures: Vec<Option<FutureSource<F>>>,
    wakers: Vec<Option<FlagWaker<W>>>,
    idx: usize,
    none_count: usize,
}

impl<F, W> MergeFutureStream<F, W> {
    /// The state of the merge.
    pub closed spec fn state(&self) -> MergeState<FutureSource<F>, W> {
        MergeState {
            pollers: self.futures@,
            wakers: self.wakers@,
            idx: self.idx,
            none_count: self.none_count,
        }
    }

    /// The state of the merge is well formed.
    pub open spec fn wf(&self) -> bool {
        self.state().wf()
    }

    /// A merge over `futures`, none of which has been polled.
    pub fn new(futures: Vec<F>) -> (merge: Self)
        ensures
            merge.wf(),
            merge.state().pollers.len() == futures.len(),
            forall|i: int|
                0 <= i < futures.len() ==> ((#[trigger] merge.state().pollers[i]) matches Some(source)
                    && source.inner() == futures[i]),
            forall|i: int| 0 <= i < futures.len() ==> #[trigger] merge.state().wakers[i] is None,
            merge.state().idx == 0,
            merge.state().none_count == 0,
    {
        let ghost all = futures@;
        let mut rest = reversed(futures);
        let mut sources: Vec<Option<FutureSource<F>>> = Vec::new();
        let mut wakers: Vec<Option<FlagWaker<W>>> = Vec::new();
        while rest.len() > 0
            invariant
                sources.len() + rest.len() == all.len(),
                wakers.len() == sources.len(),
                vacant_count(sources@) == 0,
                forall|i: int| 0 <= i < rest.len() ==> #[trigger] rest[i] == all[all.len() - 1 - i],
                forall|i: int|
                    0 <= i < sources.len() ==> ((#[trigger] sources[i]) matches Some(source)
                        && source.inner() == all[i]),
                forall|i: int| 0 <= i < wakers.len() ==> #[trigger] wakers[i] is None,
            decreases rest.len(),
        {
            let ghost before = sources@;
            match rest.pop() {
                Some(child) => {
                    sources.push(Some(FutureSource::new(child)));
                    wakers.push(None);
                    assert(sources@.drop_last() =~= before);
                },
                None => {},
            }
        }
        MergeFutureStream { futures: sources, wakers, idx: 0, none_count: 0 }
    }

    /// How many slots the merge has.
    pub fn len(&self) -> (len: usize)
        ensures
            len == self.state().pollers.len(),
    {
        self.futures.len()
    }

    /// How many futures have ended.
    pub fn finished(&self) -> (count: usize)
        ensures
            count == self.state().none_count,
    {
        self.none_count
    }

    /// Takes the wake of the future at `slot`: sets the flag of its waker, so that the next
    /// poll of the merge polls it, and hands back the waker to pass the wake on to. A
    /// future that was never polled has no waker yet and is polled in any case.
    pub fn wake(&mut self, slot: usize) -> (upstream: Option<&W>)
        requires
            old(self).wf(),
            slot < old(self).state().pollers.len(),
        ensures
            match upstream {
                Some(waker) => old(self).state().wakers[slot as int] matches Some(flag) && *waker
                    == flag.upstream(),
                None => old(self).state().wakers[slot as int] is None,
            },
            final(self).wf(),
            final(self).state().pollers == old(self).state().pollers,
            final(self).state().idx == old(self).state().idx,
            final(self).state().none_count == old(self).state().none_count,
            final(self).state().wakers.len() == old(self).state().wakers.len(),
            slot_awoken(final(self).state().wakers[slot as int]),
            forall|i: int|
                0 <= i < final(self).state().wakers.len() && i != slot
                    ==> #[trigger] final(self).state().wakers[i] == old(self).state().wakers[i],
    {
        match &mut self.wakers[slot] {
            Some(flag) => Some(flag.wake()),
            None => None,
        }
    }

    /// Polls the merge for its next item, as [`poll_merged`] does: every slot that the round
    /// came to and that was due was polled once, with its flag cleared before, and what it
    /// handed over was taken in; every other slot is as it was.
    pub fn poll_next(&mut self, cx: &W) -> (out: Poll<Option<F::Output>>) where
        F: LocalFuture<FlagWaker<W>>,
        W: Clone,
        requires
            old(self).wf(),
        ensures
            final(self).wf(),
            merge_polled(old(self).state(), final(self).state(), out),
            forall|j: int|
                #![trigger final(self).state().pollers[j]]
                0 <= j < old(self).state().pollers.len() ==> (
                if old(self).state().pollers[j] is Some && slot_awoken(old(self).state().wakers[j]) && merge_reached(
                    old(self).state().idx as int,
                    final(self).state().idx as int,
                    old(self).state().pollers.len() as int,
                    out,
                    j,
                ) {
                    exists|poller: &mut FutureSource<F>, context: &mut FlagWaker<W>, polled: Poll<Emission<F::Output>>|
                        #[trigger] call_ensures(FutureSource::<F>::poll_source, (poller, context), polled)
                            && merge_slot_polled(
                            old(self).state().pollers[j],
                            old(self).state().wakers[j],
                            *cx,
                            *poller,
                            *final(poller),
                            *context,
                            *final(context),
                            polled,
                            final(self).state().pollers[j],
                            final(self).state().wakers[j],
                            merge_item_at(final(self).state().idx as int, out, j),
                        )
                } else {
                    final(self).state().pollers[j] == old(self).state().pollers[j] && final(self).state().wakers[j] == old(self).state().wakers[j]
                }),
    {
        poll_merged(&mut self.futures, &mut self.wakers, &mut self.idx, &mut self.none_count, cx)
    }
}

/// Polls its streams side by side and yields their items as they come, one at a time. It
/// ends once every stream has ended.
pub struct MergeStream<S, W> {
    streams: Vec<Option<StreamSource<S>>>,
    wakers: Vec<Option<FlagWaker<W>>>,
    idx: usize,
    none_count: usize,
}

impl<S, W> MergeStream<S, W> {
    /// The state of the merge.
    pub closed spec fn state(&self) -> MergeState<StreamSource<S>, W> {
        MergeState {
            pollers: self.streams@,
            wakers: self.wakers@,
            idx: self.idx,
            none_count: self.none_count,
        }
    }

    /// The state of the merge is well formed.
    pub open spec fn wf(&self) -> bool {
        self.state().wf()
    }

    /// A merge over `streams`, none of which has been polled.
    pub fn new(streams: Vec<S>) -> (merge: Self)
        ensures
            merge.wf(),
            merge.state().pollers.len() == streams.len(),
            forall|i: int|
                0 <= i < streams.len() ==> ((#[trigger] merge.state().pollers[i]) matches Some(source)
                    && source.inner() == streams[i]),
            forall|i: int| 0 <= i < streams.len() ==> #[trigger] merge.state().wakers[i] is None,
            merge.state().idx == 0,
            merge.state().none_count == 0,
    {
        let ghost all = streams@;
        let mut rest = reversed(streams);
        let mut sources: Vec<Option<StreamSource<S>>> = Vec::new();
        let mut wakers: Vec<Option<FlagWaker<W>>> = Vec::new();
        while rest.len() > 0
            invariant
                sources.len() + rest.len() == all.len(),
                wakers.len() == sources.len(),
                vacant_count(sources@) == 0,
                forall|i: int| 0 <= i < rest.len() ==> #[trigger] rest[i] == all[all.len() - 1 - i],
                forall|i: int|
                    0 <= i < sources.len() ==> ((#[trigger] sources[i]) matches Some(source)
                        && source.inner() == all[i]),
                forall|i: int| 0 <= i < wakers.len() ==> #[trigger] wakers[i] is None,
            decreases rest.len(),
        {
            let ghost before = sources@;
            match rest.pop() {
                Some(child) => {
                    sources.push(Some(StreamSource::new(child)));
                    wakers.push(None);
                    assert(sources@.drop_last() =~= before);
                },
                None => {},
            }
        }
        MergeStream { streams: sources, wakers, idx: 0, none_count: 0 }
    }

    /// How many slots the merge has.
    pub fn len(&self) -> (len: usize)
        ensures
            len == self.state().pollers.len(),
    {
        self.streams.len()
    }

    /// How many streams have ended.
    pub fn finished(&self) -> (count: usize)
        ensures
            count == self.state().none_count,
    {
        self.none_count
    }

    /// Takes the wake of the stream at `slot`: sets the flag of its waker, so that the next
    /// poll of the merge polls it, and hands back the waker to pass the wake on to. A
    /// stream that was never polled has no waker yet and is polled in any case.
    pub fn wake(&mut self, slot: usize) -> (upstream: Option<&W>)
        requires
            old(self).wf(),
            slot < old(self).state().pollers.len(),
        ensures
            match upstream {
                Some(waker) => old(self).state().wakers[slot as int] matches Some(flag) && *waker
                    == flag.upstream(),
                None => old(self).state().wakers[slot as int] is None,
            },
            final(self).wf(),
            final(self).state().pollers == old(self).state().pollers,
            final(self).state().idx == old(self).state().idx,
            final(self).state().none_count == old(self).state().none_count,
            final(self).state().wakers.len() == old(self).state().wakers.len(),
            slot_awoken(final(self).state().wakers[slot as int]),
            forall|i: int|
                0 <= i < final(self).state().wakers.len() && i != slot
                    ==> #[trigger] final(self).state().wakers[i] == old(self).state().wakers[i],
    {
        match &mut self.wakers[slot] {
            Some(flag) => Some(flag.wake()),
            None => None,
        }
    }

    /// Polls the merge for its next item, as [`poll_merged`] does: every slot that the round
    /// came to and that was due was polled once, with its flag cleared before, and what it
    /// handed over was taken in; every other slot is as it was.
    pub fn poll_next(&mut self, cx: &W) -> (out: Poll<Option<S::Item>>) where
        S: LocalStream<FlagWaker<W>>,
        W: Clone,
        requires
            old(self).wf(),
        ensures
            final(self).wf(),
            merge_polled(old(self).state(), final(self).state(), out),
            forall|j: int|
                #![trigger final(self).state().pollers[j]]
                0 <= j < old(self).state().pollers.len() ==> (
                if old(self).state().pollers[j] is Some && slot_awoken(old(self).state().wakers[j]) && merge_reached(
                    old(self).state().idx as int,
                    final(self).state().idx as int,
                    old(self).state().pollers.len() as int,
                    out,
                    j,
                ) {
                    exists|poller: &mut StreamSource<S>, context: &mut FlagWaker<W>, polled: Poll<Emission<S::Item>>|
                        #[trigger] call_ensures(StreamSource::<S>::poll_source, (poller, context), polled)
                            && merge_slot_polled(
                            old(self).state().pollers[j],
                            old(self).state().wakers[j],
                            *cx,
                            *poller,
                            *final(poller),
                            *context,
                            *final(context),
                            polled,
                            final(self).state().pollers[j],
                            final(self).state().wakers[j],
                            merge_item_at(final(self).state().idx as int, out, j),
                        )
                } else {
                    final(self).state().pollers[j] == old(self).state().pollers[j] && final(self).state().wakers[j] == old(self).state().wakers[j]
                }),
    {
        poll_merged(&mut self.streams, &mut self.wakers, &mut self.idx, &mut self.none_count, cx)
    }
}

} // verus!
