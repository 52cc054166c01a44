//! The core of a single-threaded asynchronous runtime for Unix: the decisions of a `poll(2)`
//! reactor, a timer queue keyed by deadlines, and combinators that poll only the children
//! that were woken.
//!
//! Nothing in this crate touches the operating system. The program around it owns the
//! descriptors and the clock, carries out what the functions here decide, and reports back
//! what the kernel answered.

pub mod clock;
pub mod concurrency;
pub mod io;
pub mod reactor;
pub mod select;
pub mod task;
pub mod timer;

pub use crate::concurrency::{JoinFuture, MergeFutureStream, MergeStream};
pub use crate::io::Async;
pub use crate::reactor::unix::PollReactor;
pub use crate::timer::{timeout, timeout_at, TimedOut, Timer};
use vstd::prelude::*;

verus! {

/// A non-zero number that, together with a deadline, addresses one registered timer.
#[derive(Clone, Copy, Debug, PartialEq, Eq, Hash)]
pub struct Id {
    value: u64,
}

impl View for Id {
    type V = u64;

    closed spec fn view(&self) -> u64 {
        self.value
    }
}

impl Id {
    /// An id is never zero.
    #[verifier::type_invariant]
    pub open spec fn wf(&self) -> bool {
        self@ != 0
    }

    /// The number that follows `value`: one more, and 1 after the largest.
    pub open spec fn successor(value: u64) -> u64 {
        if value == u64::MAX {
            1
        } else {
            (value + 1) as u64
        }
    }

    /// The id with the given number.
    pub fn new(value: u64) -> (id: Id)
        requires
            value != 0,
        ensures
            id@ == value,
            id.wf(),
    {
        Id { value }
    }

    /// The id's number.
    pub fn get(&self) -> (value: u64)
        ensures
            value == self@,
            value != 0,
    {
        proof {
            use_type_invariant(self);
        }
        self.value
    }

    /// The id that follows this one; after the largest number it starts again at 1, never 0.
    pub fn overflowing_incr(&self) -> (next: Id)
        ensures
            next@ == Id::successor(self@),
            next@ != 0,
            next.wf(),
    {
        if self.value == u64::MAX {
            Id { value: 1 }
        } else {
            Id { value: self.value + 1 }
        }
    }

    /// Whether the two ids carry the same number.
    pub fn same(&self, other: &Id) -> (same: bool)
        ensures
            same == (self@ == other@),
            same == (*self == *other),
    {
        self.value == other.value
    }
}

} // verus!
