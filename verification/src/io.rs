//! The adapter that turns a blocking-style operation on a descriptor into one that
//! suspends: an operation that would block registers with the reactor and is pending.

use crate::reactor::unix::{NotifierFd, PollReactor, Timeout};
use crate::reactor::{EventHandle, Interest, PollEntry, PollFlags};
use crate::select::pick;
use crate::task::Poll;
use vstd::prelude::*;

verus! {

/// `std::io::Error`, the error that an I/O operation of the standard library fails with. It
/// is carried through as it is; nothing is known of what it holds.
#[verifier::external_type_specification]
#[verifier::external_body]
pub struct ExIoError(std::io::Error);

/// Calls `std::io::Error::kind` and says whether the kind is `ErrorKind::WouldBlock`.
/// Nothing is claimed of the answer: [`Failure::from_io`], which calls this, carries it on
/// as it comes.
#[verifier::external_body]
fn is_would_block(err: &std::io::Error) -> (would_block: bool) {
    err.kind() == std::io::ErrorKind::WouldBlock
}

/// A failed attempt at an operation: the error, and whether it says that the operation would
/// block, which is all that the adapter has to know of it.
#[derive(Debug)]
pub struct Failure<E> {
    /// Whether the operation would block: it did nothing, and is to be tried again once the
    /// source is ready.
    pub would_block: bool,
    /// The error itself.
    pub error: E,
}

impl Failure<std::io::Error> {
    /// The failure that an error of the standard library stands for: it would block exactly
    /// when the error's kind says so, which is read off the error here.
    pub fn from_io(error: std::io::Error) -> (failure: Self)
        ensures
            failure.error == error,
    {
        let would_block: bool = is_would_block(&error);
        Failure { would_block, error }
    }
}

/// What an attempt came to, without the mark on its failure.
pub open spec fn attempt_result<P, E>(attempt: Result<P, Failure<E>>) -> Result<P, E> {
    match attempt {
        Ok(value) => Ok(value),
        Err(failure) => Err(failure.error),
    }
}

/// Whether an attempt failed because the operation would block.
pub open spec fn attempt_blocks<P, E>(attempt: Result<P, Failure<E>>) -> bool {
    attempt matches Err(failure) && failure.would_block
}

/// The status flags of a descriptor with the non-blocking flag added, or `None` where the
/// descriptor has that flag already and nothing is to be set.
pub open spec fn spec_with_nonblocking(previous: u32, nonblock: u32) -> Option<u32> {
    if previous | nonblock != previous {
        Some(previous | nonblock)
    } else {
        None
    }
}

/// The status flags to set on a descriptor so that it does not block, given the flags that
/// it has and the platform's non-blocking flag; `None` where nothing is to be set.
pub fn with_nonblocking(previous: u32, nonblock: u32) -> (flags: Option<u32>)
    ensures
        flags == spec_with_nonblocking(previous, nonblock),
{
    let new: u32 = previous | nonblock;
    if new != previous {
        Some(new)
    } else {
        None
    }
}

/// Makes the descriptor `fd` non-blocking: reads its status flags with `get` and, where the
/// flag `nonblock` is missing, sets the flags with that flag added through `set`. A
/// descriptor that has the flag already is left alone, and the first failure is handed on.
///
/// What the two system calls return is up to them: the result is `Ok` exactly when `get`
/// succeeded and `set`, where it was called, did.
pub fn set_nonblocking<E, G, S>(fd: i32, nonblock: u32, get: G, set: S) -> (res: Result<(), E>) where
    G: FnOnce(i32) -> Result<u32, E>,
    S: FnOnce(i32, u32) -> Result<(), E>,

    requires
        get.requires((fd,)),
        forall|flags: u32| set.requires((fd, flags)),
    ensures
        match res {
            Ok(_) => exists|previous: u32|
                {
                    &&& get.ensures((fd,), Ok::<u32, E>(previous))
                    &&& spec_with_nonblocking(previous, nonblock) matches Some(new) ==> set.ensures(
                        (fd, new),
                        Ok::<(), E>(()),
                    )
                },
            Err(err) => {
                ||| get.ensures((fd,), Err::<u32, E>(err))
                ||| exists|previous: u32|
                    {
                        &&& get.ensures((fd,), Ok::<u32, E>(previous))
                        &&& spec_with_nonblocking(previous, nonblock) matches Some(new)
                            && set.ensures((fd, new), Err::<(), E>(err))
                    }
            },
        },
{
    match get(fd) {
        Err(err) => Err(err),
        Ok(previous) => match with_nonblocking(previous, nonblock) {
            None => Ok(()),
            Some(new) => match set(fd, new) {
                Ok(done) => {
                    assert(done == ());
                    Ok(())
                },
                Err(err) => Err(err),
            },
        },
    }
}

/// Whether the reactor holds, for the current cycle, what it held before and after that the
/// registration of `fd` with `interest` and `waker`.
pub open spec fn registered_after<N: NotifierFd, Tm: Timeout, W>(
    before: PollReactor<N, Tm, W>,
    after: PollReactor<N, Tm, W>,
    fd: i32,
    interest: Interest,
    waker: W,
) -> bool {
    &&& after.wf()
    &&& after.entries() == before.entries().push(
        PollEntry { fd, events: PollFlags::of_interest(interest) },
    )
    &&& after.wakers() == before.wakers().push(waker)
    &&& after.flag_notifier() == before.flag_notifier()
    &&& after.timeout_source() == before.timeout_source()
}

/// What becomes of one attempt at an operation on the source `fd`. A result is ready, and
/// so is a failure; only the failure that says the operation would block registers the
/// source with the reactor, with `interest` and `waker`, and is pending.
pub open spec fn event_settled<P, E, N: NotifierFd, Tm: Timeout, W>(
    attempt: Result<P, E>,
    would_block: bool,
    fd: i32,
    interest: Interest,
    waker: W,
    before: PollReactor<N, Tm, W>,
    after: PollReactor<N, Tm, W>,
    out: Poll<Result<P, E>>,
) -> bool {
    if attempt is Err && would_block {
        out is Pending && registered_after(before, after, fd, interest, waker)
    } else {
        out == Poll::Ready(attempt) && after == before
    }
}

/// Settles one attempt at an operation, given its result and, for a failure, whether it
/// says that the operation would block.
pub fn settle_event<P, E, N: NotifierFd, Tm: Timeout, W>(
    handle: &EventHandle,
    reactor: &mut PollReactor<N, Tm, W>,
    interest: Interest,
    waker: W,
    attempt: Result<P, E>,
    would_block: bool,
) -> (out: Poll<Result<P, E>>)
    requires
        old(reactor).wf(),
    ensures
        final(reactor).wf(),
        event_settled(
            attempt,
            would_block,
            handle@,
            interest,
            waker,
            *old(reactor),
            *final(reactor),
            out,
        ),
{
    match attempt {
        Ok(value) => Poll::Ready(Ok(value)),
        Err(err) => {
            if would_block {
                reactor.register(handle, interest, waker);
                Poll::Pending
            } else {
                Poll::Ready(Err(err))
            }
        },
    }
}

/// A source of I/O together with its handle in the reactor.
///
/// The handle is given up, which deregisters the source, before the source itself is
/// handed back or dropped.
#[derive(Debug)]
pub struct Async<T> {
    handle: EventHandle,
    inner: T,
}

impl<T> Async<T> {
    /// The descriptor under which the source is known to the reactor.
    pub closed spec fn fd(&self) -> i32 {
        self.handle@
    }

    /// The source inside.
    pub closed spec fn source(&self) -> T {
        self.inner
    }

    /// Wraps a source that is open at `fd`, as it is: the caller has seen to it that the
    /// descriptor does not block.
    pub fn without_nonblocking<N: NotifierFd, Tm: Timeout, W>(
        reactor: &PollReactor<N, Tm, W>,
        inner: T,
        fd: i32,
    ) -> (wrapped: Self)
        ensures
            wrapped.source() == inner,
            wrapped.fd() == fd,
    {
        let handle = reactor.source(fd);
        Async { handle, inner }
    }

    /// Wraps a source that is open at `fd`, after `nonblocking` has made the descriptor
    /// non-blocking. Where that fails, the failure is handed on and the source is dropped.
    pub fn new<E, F, N: NotifierFd, Tm: Timeout, W>(
        reactor: &PollReactor<N, Tm, W>,
        inner: T,
        fd: i32,
        nonblocking: F,
    ) -> (wrapped: Result<Self, E>) where F: FnOnce(i32) -> Result<(), E>
        requires
            nonblocking.requires((fd,)),
        ensures
            match wrapped {
                Ok(w) => nonblocking.ensures((fd,), Ok::<(), E>(())) && w.source() == inner
                    && w.fd() == fd,
                Err(err) => nonblocking.ensures((fd,), Err::<(), E>(err)),
            },
    {
        match nonblocking(fd) {
            Ok(done) => {
                assert(done == ());
                Ok(Async::without_nonblocking(reactor, inner, fd))
            },
            Err(err) => Err(err),
        }
    }

    /// The source inside.
    pub fn get_ref(&self) -> (inner: &T)
        ensures
            *inner == self.source(),
    {
        &self.inner
    }

    /// The source inside, to change it.
    pub fn get_mut(&mut self) -> (inner: &mut T)
        ensures
            *inner == old(self).source(),
            final(self).source() == *final(inner),
            final(self).fd() == old(self).fd(),
    {
        &mut self.inner
    }

    /// The handle of the source in the reactor.
    pub fn handle(&self) -> (handle: &EventHandle)
        ensures
            handle@ == self.fd(),
    {
        &self.handle
    }

    /// Deregisters the source from the reactor and only then hands it back, so that the
    /// reactor holds no registration of a descriptor that the caller may close.
    pub fn into_inner<N: NotifierFd, Tm: Timeout, W>(
        self,
        reactor: &mut PollReactor<N, Tm, W>,
    ) -> (inner: T)
        requires
            old(reactor).wf(),
        ensures
            inner == self.source(),
            final(reactor).wf(),
            final(reactor).entries() == pick(
                old(reactor).entries(),
                crate::reactor::unix::other_sources(old(reactor).entries(), self.fd()),
            ),
            final(reactor).wakers() == pick(
                old(reactor).wakers(),
                crate::reactor::unix::other_sources(old(reactor).entries(), self.fd()),
            ),
            forall|i: int|
                0 <= i < final(reactor).entries().len() ==> #[trigger] final(reactor).entries()[i].fd
                    != self.fd(),
            final(reactor).flag_notifier() == old(reactor).flag_notifier(),
            final(reactor).timeout_source() == old(reactor).timeout_source(),
    {
        reactor.deregister(&self.handle);
        self.inner
    }

    /// Attempts the operation `f` on the source. Its result is ready, and so is its
    /// failure, unless the failure says that the operation would block: then the source is
    /// registered with the reactor, with `interest` and `waker`, and the outcome is pending.
    ///
    /// What `f` returns is up to it. Whatever it was, the outcome and the reactor are what
    /// [`settle_event`] makes of it.
    pub fn poll_event<'a, P, E, F, N: NotifierFd, Tm: Timeout, W>(
        &'a self,
        reactor: &mut PollReactor<N, Tm, W>,
        interest: Interest,
        waker: W,
        f: F,
    ) -> (out: Poll<Result<P, E>>) where F: FnOnce(&'a T) -> Result<P, Failure<E>>
        requires
            old(reactor).wf(),
            f.requires((&self.source(),)),
        ensures
            final(reactor).wf(),
            exists|attempt: Result<P, Failure<E>>|
                f.ensures((&self.source(),), attempt) && event_settled(
                    attempt_result(attempt),
                    attempt_blocks(attempt),
                    self.fd(),
                    interest,
                    waker,
                    *old(reactor),
                    *final(reactor),
                    out,
                ),
            out matches Poll::Ready(_) ==> *final(reactor) == *old(reactor),
            out is Pending ==> registered_after(
                *old(reactor),
                *final(reactor),
                self.fd(),
                interest,
                waker,
            ),
    {
        let attempt = f(&self.inner);
        let ghost seen = attempt;
        let out = match attempt {
            Ok(value) => settle_event(&self.handle, reactor, interest, waker, Ok(value), false),
            Err(failure) => settle_event(
                &self.handle,
                reactor,
                interest,
                waker,
                Err(failure.error),
                failure.would_block,
            ),
        };
        assert(f.ensures((&self.source(),), seen) && event_settled(
            attempt_result(seen),
            attempt_blocks(seen),
            self.fd(),
            interest,
            waker,
            *old(reactor),
            *reactor,
            out,
        ));
        out
    }

    /// As [`Async::poll_event`], for an operation that changes the source: the outcome and
    /// the reactor are what [`settle_event`] makes of what `f` returned, and the source is as
    /// `f` left it.
    pub fn poll_event_mut<'a, P, E, F, N: NotifierFd, Tm: Timeout, W>(
        &'a mut self,
        reactor: &mut PollReactor<N, Tm, W>,
        interest: Interest,
        waker: W,
        f: F,
    ) -> (out: Poll<Result<P, E>>) where F: FnOnce(&'a mut T) -> Result<P, Failure<E>>
        requires
            old(reactor).wf(),
            forall|inner: &mut T| *inner == old(self).source() ==> f.requires((inner,)),
        ensures
            final(reactor).wf(),
            final(self).fd() == old(self).fd(),
            exists|inner: &mut T, attempt: Result<P, Failure<E>>|
                {
                    &&& *inner == old(self).source()
                    &&& *final(inner) == final(self).source()
                    &&& f.ensures((inner,), attempt)
                    &&& event_settled(
                        attempt_result(attempt),
                        attempt_blocks(attempt),
                        old(self).fd(),
                        interest,
                        waker,
                        *old(reactor),
                        *final(reactor),
                        out,
                    )
                },
            out matches Poll::Ready(_) ==> *final(reactor) == *old(reactor),
            out is Pending ==> registered_after(
                *old(reactor),
                *final(reactor),
                old(self).fd(),
                interest,
                waker,
            ),
    {
        match f(&mut self.inner) {
            Ok(value) => settle_event(&self.handle, reactor, interest, waker, Ok(value), false),
            Err(failure) => settle_event(
                &self.handle,
                reactor,
                interest,
                waker,
                Err(failure.error),
                failure.would_block,
            ),
        }
    }
}

} // verus!
