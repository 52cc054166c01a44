//! What a readiness reactor speaks of: interests, poll events, poll entries and handles.

pub mod unix;

use vstd::prelude::*;
use vstd::std_specs::convert::FromSpecImpl;

verus! {

/// The I/O directions that a registration cares about.
#[derive(Clone, Copy, Debug, PartialEq, Eq, Structural)]
pub struct Interest {
    pub read: bool,
    pub write: bool,
}

impl Interest {
    /// Interest in reading only.
    pub fn read() -> (interest: Interest)
        ensures
            interest == (Interest { read: true, write: false }),
    {
        Interest { read: true, write: false }
    }

    /// Interest in writing only.
    pub fn write() -> (interest: Interest)
        ensures
            interest == (Interest { read: false, write: true }),
    {
        Interest { read: false, write: true }
    }

    /// Interest in both directions.
    pub fn both() -> (interest: Interest)
        ensures
            interest == (Interest { read: true, write: true }),
    {
        Interest { read: true, write: true }
    }
}

/// A set of `poll(2)` events, requested or returned.
///
/// The five events that the reactor tells apart have a field each; `other` stands for
/// every further event of the platform (an invalid descriptor, a half-closed peer, the
/// band events), of which the reactor only needs to know whether any is set.
#[derive(Clone, Copy, Debug, PartialEq, Eq, Structural)]
pub struct PollFlags {
    /// Data can be read.
    pub input: bool,
    /// Urgent data can be read.
    pub priority: bool,
    /// Data can be written.
    pub output: bool,
    /// The descriptor is in an error state.
    pub error: bool,
    /// The peer hung up.
    pub hangup: bool,
    /// Some event other than the five above.
    pub other: bool,
}

impl PollFlags {
    /// The set that a read interest asks for.
    pub open spec fn read_events() -> PollFlags {
        PollFlags {
            input: true,
            priority: true,
            output: false,
            error: true,
            hangup: true,
            other: false,
        }
    }

    /// The set that a write interest asks for.
    pub open spec fn write_events() -> PollFlags {
        PollFlags {
            input: false,
            priority: false,
            output: true,
            error: true,
            hangup: true,
            other: false,
        }
    }

    /// The events on which a waiter is resumed: input, output, hang-up, error and priority.
    pub open spec fn wake_events() -> PollFlags {
        PollFlags {
            input: true,
            priority: true,
            output: true,
            error: true,
            hangup: true,
            other: false,
        }
    }

    /// The set with every event that is in `self` or in `other`.
    pub open spec fn spec_union(self, other: PollFlags) -> PollFlags {
        PollFlags {
            input: self.input || other.input,
            priority: self.priority || other.priority,
            output: self.output || other.output,
            error: self.error || other.error,
            hangup: self.hangup || other.hangup,
            other: self.other || other.other,
        }
    }

    /// Whether some event is in both sets.
    pub open spec fn spec_intersects(self, other: PollFlags) -> bool {
        ||| self.input && other.input
        ||| self.priority && other.priority
        ||| self.output && other.output
        ||| self.error && other.error
        ||| self.hangup && other.hangup
        ||| self.other && other.other
    }

    /// Whether the set holds no event at all.
    pub open spec fn spec_is_empty(self) -> bool {
        !self.input && !self.priority && !self.output && !self.error && !self.hangup
            && !self.other
    }

    /// Whether a waiter that sees these returned events is resumed.
    pub open spec fn spec_wakes(self) -> bool {
        self.spec_intersects(PollFlags::wake_events())
    }

    /// The events that an interest asks the kernel for.
    pub open spec fn of_interest(interest: Interest) -> PollFlags {
        let none = PollFlags {
            input: false,
            priority: false,
            output: false,
            error: false,
            hangup: false,
            other: false,
        };
        let with_read = if interest.read {
            none.spec_union(PollFlags::read_events())
        } else {
            none
        };
        if interest.write {
            with_read.spec_union(PollFlags::write_events())
        } else {
            with_read
        }
    }

    /// The empty set.
    pub fn empty() -> (flags: PollFlags)
        ensures
            flags.spec_is_empty(),
            flags == PollFlags::of_interest(Interest { read: false, write: false }),
    {
        PollFlags {
            input: false,
            priority: false,
            output: false,
            error: false,
            hangup: false,
            other: false,
        }
    }

    /// The set that holds the input event alone.
    pub fn input_only() -> (flags: PollFlags)
        ensures
            flags == PollFlags::spec_input_only(),
    {
        PollFlags {
            input: true,
            priority: false,
            output: false,
            error: false,
            hangup: false,
            other: false,
        }
    }

    /// The set that holds the input event alone.
    pub open spec fn spec_input_only() -> PollFlags {
        PollFlags {
            input: true,
            priority: false,
            output: false,
            error: false,
            hangup: false,
            other: false,
        }
    }

    /// The set with every event that is in `self` or in `other`.
    pub fn union(self, other: PollFlags) -> (flags: PollFlags)
        ensures
            flags == self.spec_union(other),
    {
        PollFlags {
            input: self.input || other.input,
            priority: self.priority || other.priority,
            output: self.output || other.output,
            error: self.error || other.error,
            hangup: self.hangup || other.hangup,
            other: self.other || other.other,
        }
    }

    /// Whether some event is in both sets.
    pub fn intersects(self, other: PollFlags) -> (hit: bool)
        ensures
            hit == self.spec_intersects(other),
    {
        (self.input && other.input) || (self.priority && other.priority) || (self.output
            && other.output) || (self.error && other.error) || (self.hangup && other.hangup)
            || (self.other && other.other)
    }

    /// Whether the set holds no event at all.
    pub fn is_empty(self) -> (empty: bool)
        ensures
            empty == self.spec_is_empty(),
    {
        !self.input && !self.priority && !self.output && !self.error && !self.hangup
            && !self.other
    }

    /// Whether a waiter that sees these returned events is resumed: one of input, output,
    /// hang-up, error or priority is among them.
    pub fn wakes(self) -> (wakes: bool)
        ensures
            wakes == self.spec_wakes(),
            wakes == (self.input || self.priority || self.output || self.error || self.hangup),
    {
        self.input || self.priority || self.output || self.error || self.hangup
    }
}

impl From<Interest> for PollFlags {
    /// The events that an interest asks the kernel for: reading asks for input, priority,
    /// hang-up and error; writing asks for output, hang-up and error.
    fn from(val: Interest) -> (flags: PollFlags) {
        let mut flags = PollFlags::empty();
        if val.read {
            flags = flags.union(
                PollFlags {
                    input: true,
                    priority: true,
                    output: false,
                    error: true,
                    hangup: true,
                    other: false,
                },
            );
        }
        if val.write {
            flags = flags.union(
                PollFlags {
                    input: false,
                    priority: false,
                    output: true,
                    error: true,
                    hangup: true,
                    other: false,
                },
            );
        }
        flags
    }
}

impl FromSpecImpl<Interest> for PollFlags {
    open spec fn obeys_from_spec() -> bool {
        true
    }

    open spec fn from_spec(val: Interest) -> PollFlags {
        PollFlags::of_interest(val)
    }
}

/// Every event that an interest asks for resumes the waiter when it is returned, whatever
/// direction the interest named: an error or a hang-up wakes a reader and a writer alike.
pub proof fn lemma_requested_events_wake(interest: Interest, revents: PollFlags)
    requires
        revents.spec_intersects(PollFlags::of_interest(interest)),
    ensures
        revents.spec_wakes(),
{
}

/// An error or a hang-up alone resumes the waiter.
pub proof fn lemma_error_and_hangup_wake(revents: PollFlags)
    requires
        revents.error || revents.hangup,
    ensures
        revents.spec_wakes(),
{
}

/// One entry of the list handed to `poll(2)`: a descriptor and the events asked of it.
#[derive(Clone, Copy, Debug, PartialEq, Eq, Structural)]
pub struct PollEntry {
    pub fd: i32,
    pub events: PollFlags,
}

/// Identifies one source inside the reactor. The reactor hands it out, and takes it back
/// when the source is deregistered, which has to happen before the descriptor is closed.
#[derive(Debug, PartialEq, Eq)]
pub struct EventHandle {
    fd: i32,
}

impl View for EventHandle {
    type V = i32;

    /// The descriptor that the handle stands for.
    closed spec fn view(&self) -> i32 {
        self.fd
    }
}

impl EventHandle {
    pub(crate) fn new(fd: i32) -> (handle: EventHandle)
        ensures
            handle@ == fd,
    {
        EventHandle { fd }
    }

    /// The descriptor that the handle stands for.
    pub fn fd(&self) -> (fd: i32)
        ensures
            fd == self@,
    {
        self.fd
    }
}

} // verus!
