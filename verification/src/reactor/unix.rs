//! A reactor over `poll(2)`: the notifier that interrupts a wait, the two ways of timing a
//! wait out, and the bookkeeping of one poll cycle.
//!
//! One cycle runs in three steps. [`PollReactor::prepare_wait`] says what to hand to the
//! kernel. The caller programs the timer descriptor, if the plan names one, and calls
//! `poll(2)`. [`PollReactor::finish_wait`] takes the kernel's answer and says whom to resume;
//! where a system call failed, [`PollReactor::abort_wait`] ends the cycle instead.
//! [`PollReactor::wait`] runs the whole cycle around functions that make the system calls
//! and call the wakers: it also hands the wakers on, has the notifier's descriptor drained
//! and clears the notifier.

use crate::clock::Duration;
use crate::reactor::{EventHandle, Interest, PollEntry, PollFlags};
use crate::select::{lemma_pick_contains, pick, take_picked};
use vstd::prelude::*;

verus! {

/// What one notification writes into the notifier's descriptor.
#[derive(Clone, Copy, Debug, PartialEq, Eq, Structural)]
pub enum Signal {
    /// An event counter is raised by this much, written as the eight bytes of the number in
    /// the machine's byte order.
    Count(u64),
    /// A single byte.
    Byte(u8),
}

/// How many bytes are read from the notifier's descriptor to drain it. With at most one
/// pending notification this empties a pipe and resets an event counter.
pub const DRAIN_LEN: usize = 8;

/// A kernel object through which another thread interrupts a wait.
pub trait NotifierFd {
    /// The descriptor that becomes readable while a notification is pending.
    spec fn readable(&self) -> i32;

    /// The descriptor that a notification is written to.
    spec fn writable(&self) -> i32;

    /// What one notification writes.
    spec fn signal(&self) -> Signal;

    /// The descriptor to poll and to drain.
    fn read_fd(&self) -> (fd: i32)
        ensures
            fd == self.readable(),
    ;

    /// The descriptor to write a notification to.
    fn write_fd(&self) -> (fd: i32)
        ensures
            fd == self.writable(),
    ;

    /// What to write for one notification.
    fn notify(&self) -> (signal: Signal)
        ensures
            signal == self.signal(),
    ;

    /// Appends the entry that asks for input on the readable descriptor.
    fn register(&self, pollfds: &mut Vec<PollEntry>)
        ensures
            final(pollfds)@ == old(pollfds)@.push(
                (PollEntry { fd: self.readable(), events: PollFlags::spec_input_only() }),
            ),
    ;
}

/// An event counter of the kernel (Linux `eventfd`), read and written through one descriptor.
#[derive(Debug)]
pub struct EventFd {
    fd: i32,
}

impl EventFd {
    /// The notifier over the event counter open at `fd`.
    pub fn new(fd: i32) -> (notifier: EventFd)
        ensures
            notifier.readable() == fd,
            notifier.writable() == fd,
    {
        EventFd { fd }
    }
}

impl NotifierFd for EventFd {
    closed spec fn readable(&self) -> i32 {
        self.fd
    }

    closed spec fn writable(&self) -> i32 {
        self.fd
    }

    open spec fn signal(&self) -> Signal {
        Signal::Count(1)
    }

    fn read_fd(&self) -> (fd: i32) {
        self.fd
    }

    fn write_fd(&self) -> (fd: i32) {
        self.fd
    }

    fn notify(&self) -> (signal: Signal) {
        Signal::Count(1)
    }

    fn register(&self, pollfds: &mut Vec<PollEntry>) {
        pollfds.push(PollEntry { fd: self.fd, events: PollFlags::input_only() });
    }
}

/// A pipe: notifications are written to one end and polled and drained at the other.
#[derive(Debug)]
pub struct PipeFd {
    read: i32,
    write: i32,
}

impl PipeFd {
    /// The notifier over the pipe whose ends are open at `read` and `write`.
    pub fn new(read: i32, write: i32) -> (notifier: PipeFd)
        ensures
            notifier.readable() == read,
            notifier.writable() == write,
    {
        PipeFd { read, write }
    }
}

impl NotifierFd for PipeFd {
    closed spec fn readable(&self) -> i32 {
        self.read
    }

    closed spec fn writable(&self) -> i32 {
        self.write
    }

    open spec fn signal(&self) -> Signal {
        Signal::Byte(0)
    }

    fn read_fd(&self) -> (fd: i32) {
        self.read
    }

    fn write_fd(&self) -> (fd: i32) {
        self.write
    }

    fn notify(&self) -> (signal: Signal) {
        Signal::Byte(0)
    }

    fn register(&self, pollfds: &mut Vec<PollEntry>) {
        pollfds.push(PollEntry { fd: self.read, events: PollFlags::input_only() });
    }
}

/// What one call of `notify` does to the flag, and whether it writes to the descriptor: the
/// flag is set in any case, and only the call that found it clear writes.
pub open spec fn notify_step(notified: bool) -> (bool, bool) {
    (true, !notified)
}

/// How many writes `calls` calls of `notify` in a row make, with no `clear` between them.
pub open spec fn writes_in(notified: bool, calls: nat) -> nat
    decreases calls,
{
    if calls == 0 {
        0
    } else {
        let (after, wrote) = notify_step(notified);
        let rest = writes_in(after, (calls - 1) as nat);
        if wrote {
            1 + rest
        } else {
            rest
        }
    }
}

/// However often `notify` is called between two calls of `clear`, the descriptor receives
/// at most one write, and none at all where a notification is already pending.
pub proof fn lemma_notify_writes_at_most_once(notified: bool, calls: nat)
    ensures
        writes_in(notified, calls) <= 1,
        notified ==> writes_in(notified, calls) == 0,
        !notified && calls > 0 ==> writes_in(notified, calls) == 1,
    decreases calls,
{
    if calls > 0 {
        lemma_notify_writes_at_most_once(true, (calls - 1) as nat);
    }
}

/// A notifier with a flag beside it, so that a pending notification is written only once.
#[derive(Debug)]
pub struct FlagNotifier<N: NotifierFd> {
    inner: N,
    is_notified: bool,
}

impl<N: NotifierFd> FlagNotifier<N> {
    /// Whether a notification is pending.
    pub closed spec fn notified(&self) -> bool {
        self.is_notified
    }

    /// The kernel object underneath.
    pub closed spec fn kernel(&self) -> N {
        self.inner
    }

    /// A notifier over `inner` with nothing pending.
    pub fn new(inner: N) -> (notifier: Self)
        ensures
            !notifier.notified(),
            notifier.kernel() == inner,
    {
        FlagNotifier { inner, is_notified: false }
    }

    /// Marks a notification as pending and says whether the caller has to write it to the
    /// descriptor: only the call that found nothing pending does.
    pub fn notify(&mut self) -> (write: bool)
        ensures
            (final(self).notified(), write) == notify_step(old(self).notified()),
            final(self).kernel() == old(self).kernel(),
    {
        let write: bool = !self.is_notified;
        self.is_notified = true;
        write
    }

    /// Forgets the pending notification. The caller drains the descriptor first, so that
    /// whoever notifies afterwards finds an empty descriptor.
    pub fn clear(&mut self)
        ensures
            !final(self).notified(),
            final(self).kernel() == old(self).kernel(),
    {
        self.is_notified = false;
    }

    /// Marks a notification as pending without a write.
    pub fn set_to_notified(&mut self)
        ensures
            final(self).notified(),
            final(self).kernel() == old(self).kernel(),
    {
        self.is_notified = true;
    }

    /// Whether a notification is pending.
    pub fn is_notified(&self) -> (notified: bool)
        ensures
            notified == self.notified(),
    {
        self.is_notified
    }

    /// The kernel object underneath.
    pub fn get_ref(&self) -> (inner: &N)
        ensures
            *inner == self.kernel(),
    {
        &self.inner
    }
}

/// The largest timeout that `poll(2)` takes, in milliseconds.
pub const MAX_POLL_TIMEOUT: i32 = i32::MAX;

/// The timeout argument of `poll(2)` for a requested sleep: -1, which waits without limit,
/// where none is requested; else the span in milliseconds, rounded up where it is not a
/// whole number of them, and no more than the largest timeout.
pub open spec fn spec_poll_timeout(duration: Option<Duration>) -> int {
    match duration {
        None => -1,
        Some(d) => {
            let millis = (d@ + 999_999) / 1_000_000;
            if millis > MAX_POLL_TIMEOUT {
                MAX_POLL_TIMEOUT as int
            } else {
                millis as int
            }
        },
    }
}

/// The timeout argument of `poll(2)` for a requested sleep.
pub fn poll_timeout(duration: Option<Duration>) -> (timeout: i32)
    ensures
        timeout == spec_poll_timeout(duration),
{
    match duration {
        None => -1,
        Some(d) => {
            let nanos: u128 = d.as_nanos();
            proof {
                use_type_invariant(d);
            }
            let millis: u128 = (nanos + 999_999) / 1_000_000;
            if millis > 2_147_483_647u128 {
                MAX_POLL_TIMEOUT
            } else {
                millis as i32
            }
        },
    }
}

/// No request waits without limit, an empty span does not wait, and a span above nothing
/// and below a millisecond waits one millisecond.
pub proof fn lemma_poll_timeout_rounds_up(duration: Duration)
    ensures
        spec_poll_timeout(None) == -1,
        duration@ == 0 ==> spec_poll_timeout(Some(duration)) == 0,
        0 < duration@ < 1_000_000 ==> spec_poll_timeout(Some(duration)) == 1,
        0 <= spec_poll_timeout(Some(duration)) <= MAX_POLL_TIMEOUT,
        spec_poll_timeout(Some(duration)) < MAX_POLL_TIMEOUT ==> duration@ <= spec_poll_timeout(
            Some(duration),
        ) * 1_000_000 < duration@ + 1_000_000,
{
}

/// A point or span of time as the kernel takes it.
#[derive(Clone, Copy, Debug, PartialEq, Eq, Structural)]
pub struct Timespec {
    pub tv_sec: i64,
    pub tv_nsec: i64,
}

/// The setting of a timer descriptor: when it first expires, and the period after that.
#[derive(Clone, Copy, Debug, PartialEq, Eq, Structural)]
pub struct Itimerspec {
    pub it_interval: Timespec,
    pub it_value: Timespec,
}

/// The setting of a one-shot timer descriptor for a requested sleep. No request disarms the
/// timer, which is what a setting of zero does. An empty span is set as one nanosecond,
/// so that it does not disarm the timer. Seconds beyond what the kernel's field holds are
/// cut to the largest that it holds.
pub open spec fn spec_timer_setting(duration: Option<Duration>) -> Itimerspec {
    let value = match duration {
        None => Timespec { tv_sec: 0, tv_nsec: 0 },
        Some(d) => Timespec {
            tv_sec: if d.secs_part() > i64::MAX {
                i64::MAX
            } else {
                d.secs_part() as i64
            },
            tv_nsec: if d@ == 0 {
                1
            } else {
                d.nanos_part() as i64
            },
        },
    };
    Itimerspec { it_interval: Timespec { tv_sec: 0, tv_nsec: 0 }, it_value: value }
}

/// The setting of a one-shot timer descriptor for a requested sleep.
pub fn timer_setting(duration: Option<Duration>) -> (setting: Itimerspec)
    ensures
        setting == spec_timer_setting(duration),
{
    let value = match duration {
        None => Timespec { tv_sec: 0, tv_nsec: 0 },
        Some(d) => {
            let secs: u64 = d.as_secs();
            let nanos: u32 = d.subsec_nanos();
            Timespec {
                tv_sec: if secs > 9_223_372_036_854_775_807u64 {
                    i64::MAX
                } else {
                    secs as i64
                },
                tv_nsec: if d.is_zero() {
                    1
                } else {
                    nanos as i64
                },
            }
        },
    };
    Itimerspec { it_interval: Timespec { tv_sec: 0, tv_nsec: 0 }, it_value: value }
}

/// A timer set for a requested sleep is armed: its first expiry is not zero.
pub proof fn lemma_timer_setting_is_armed(duration: Duration)
    requires
        duration.wf(),
    ensures
        spec_timer_setting(Some(duration)).it_value != (Timespec { tv_sec: 0, tv_nsec: 0 }),
        spec_timer_setting(None).it_value == (Timespec { tv_sec: 0, tv_nsec: 0 }),
{
    let value = spec_timer_setting(Some(duration)).it_value;
    if duration@ != 0 && value.tv_nsec == 0 {
        assert(duration.nanos_part() == 0);
        assert(duration.secs_part() != 0) by (nonlinear_arith)
            requires
                duration.secs_part() * 1_000_000_000 + 0 != 0,
        ;
    }
}

/// What a timeout source asks of one wait.
#[derive(Clone, Copy, Debug, PartialEq, Eq, Structural)]
pub struct TimeoutPlan {
    /// The timeout argument of `poll(2)`.
    pub poll_timeout: i32,
    /// The setting to program into the timer descriptor before the wait, if there is one.
    pub timer: Option<Itimerspec>,
}

/// A way of ending a wait after a requested sleep.
pub trait Timeout {
    /// What the source asks of a wait that should sleep for `duration` at most.
    spec fn plan(&self, duration: Option<Duration>) -> TimeoutPlan;

    /// The entries that the source adds to the poll list.
    spec fn poll_entries(&self) -> Seq<PollEntry>;

    /// What to hand to `poll(2)`, and what to program first, for the requested sleep.
    fn set_timeout(&self, duration: Option<Duration>) -> (plan: TimeoutPlan)
        ensures
            plan == self.plan(duration),
    ;

    /// Appends the source's entries to the poll list.
    fn register(&self, pollfds: &mut Vec<PollEntry>)
        ensures
            final(pollfds)@ == old(pollfds)@ + self.poll_entries(),
    ;
}

/// Times a wait out through the timeout argument of `poll(2)`, to the millisecond.
#[derive(Debug)]
pub struct PollTimeout;

impl PollTimeout {
    /// The source that uses the timeout argument of `poll(2)`.
    pub fn new() -> (source: PollTimeout) {
        PollTimeout
    }
}

impl Timeout for PollTimeout {
    open spec fn plan(&self, duration: Option<Duration>) -> TimeoutPlan {
        TimeoutPlan { poll_timeout: spec_poll_timeout(duration) as i32, timer: None }
    }

    open spec fn poll_entries(&self) -> Seq<PollEntry> {
        Seq::empty()
    }

    fn set_timeout(&self, duration: Option<Duration>) -> (plan: TimeoutPlan) {
        TimeoutPlan { poll_timeout: poll_timeout(duration), timer: None }
    }

    fn register(&self, pollfds: &mut Vec<PollEntry>) {
        assert(pollfds@ + Seq::<PollEntry>::empty() =~= pollfds@);
    }
}

/// Times a wait out through a timer descriptor (Linux `timerfd`), to the nanosecond.
#[derive(Debug)]
pub struct TimerFd {
    fd: i32,
}

impl TimerFd {
    /// The descriptor of the timer.
    pub closed spec fn timer(&self) -> i32 {
        self.fd
    }

    /// The source over the monotonic timer open at `fd`.
    pub fn new(fd: i32) -> (source: TimerFd)
        ensures
            source.timer() == fd,
    {
        TimerFd { fd }
    }

    /// The descriptor to program.
    pub fn fd(&self) -> (fd: i32)
        ensures
            fd == self.timer(),
    {
        self.fd
    }
}

impl Timeout for TimerFd {
    open spec fn plan(&self, duration: Option<Duration>) -> TimeoutPlan {
        TimeoutPlan { poll_timeout: -1i32, timer: Some(spec_timer_setting(duration)) }
    }

    open spec fn poll_entries(&self) -> Seq<PollEntry> {
        seq![PollEntry { fd: self.timer(), events: PollFlags::spec_input_only() }]
    }

    fn set_timeout(&self, duration: Option<Duration>) -> (plan: TimeoutPlan) {
        TimeoutPlan { poll_timeout: -1, timer: Some(timer_setting(duration)) }
    }

    fn register(&self, pollfds: &mut Vec<PollEntry>) {
        pollfds.push(PollEntry { fd: self.fd, events: PollFlags::input_only() });
        assert(pollfds@ =~= old(pollfds)@ + self.poll_entries());
    }
}

/// Whether `poll(2)` returned any event at position `i`.
pub open spec fn ready_at(revents: Seq<PollFlags>, i: int) -> bool {
    0 <= i < revents.len() && !revents[i].spec_is_empty()
}

/// Whether the events returned at position `i` resume a waiter.
pub open spec fn woken_at(revents: Seq<PollFlags>, i: int) -> bool {
    0 <= i < revents.len() && revents[i].spec_wakes()
}

/// How many positions from `from` up to, not including, `to` returned any event.
pub open spec fn count_ready(revents: Seq<PollFlags>, from: int, to: int) -> nat
    decreases to - from,
{
    if from >= to {
        0
    } else if ready_at(revents, to - 1) {
        1 + count_ready(revents, from, to - 1)
    } else {
        count_ready(revents, from, to - 1)
    }
}

/// For each of the first `users` positions, whether its returned events resume a waiter.
pub open spec fn wake_marks(revents: Seq<PollFlags>, users: int) -> Seq<bool> {
    Seq::new(users as nat, |i: int| woken_at(revents, i))
}

/// Whether the wakers are gone through after `poll(2)` returned `ready`. They are not where
/// nothing was ready, nor where one or two entries were ready and just as many of the
/// entries behind the registered ones, those of the notifier and the timer, returned
/// events: then no registered entry did.
pub open spec fn dispatches(ready: usize, revents: Seq<PollFlags>, users: int) -> bool {
    ready != 0 && !((ready == 1 || ready == 2) && count_ready(
        revents,
        users,
        revents.len() as int,
    ) == ready)
}

/// The wakers to call after `poll(2)` returned `ready` and the events `revents`: where the
/// wakers are gone through, those whose entry returned an event that resumes a waiter, in
/// the order of their registration; else none.
pub open spec fn woken_by<W>(wakers: Seq<W>, ready: usize, revents: Seq<PollFlags>) -> Seq<W> {
    if dispatches(ready, revents, wakers.len() as int) {
        pick(wakers, wake_marks(revents, wakers.len() as int))
    } else {
        Seq::empty()
    }
}

/// For each entry, whether it belongs to a descriptor other than `fd`.
pub open spec fn other_sources(entries: Seq<PollEntry>, fd: i32) -> Seq<bool> {
    Seq::new(entries.len(), |i: int| entries[i].fd != fd)
}

/// Counting over two adjoining ranges adds up.
pub proof fn lemma_count_ready_split(revents: Seq<PollFlags>, from: int, mid: int, to: int)
    requires
        from <= mid <= to,
    ensures
        count_ready(revents, from, to) == count_ready(revents, from, mid) + count_ready(
            revents,
            mid,
            to,
        ),
    decreases to - mid,
{
    if mid < to {
        lemma_count_ready_split(revents, from, mid, to - 1);
    }
}

/// A range that holds a ready position counts at least one.
pub proof fn lemma_count_ready_positive(revents: Seq<PollFlags>, from: int, to: int, i: int)
    requires
        from <= i < to,
        ready_at(revents, i),
    ensures
        count_ready(revents, from, to) >= 1,
    decreases to - from,
{
    if i < to - 1 {
        lemma_count_ready_positive(revents, from, to - 1, i);
    }
}

/// A registered waiter is resumed whenever the kernel reports, on its entry, an event
/// that its interest asked for: where `ready` is the kernel's count of the entries that
/// returned events, the wakers are gone through and this one is among those picked.
pub proof fn lemma_ready_registration_is_woken<W>(
    wakers: Seq<W>,
    entries: Seq<PollEntry>,
    interest: Interest,
    revents: Seq<PollFlags>,
    ready: usize,
    i: int,
)
    requires
        entries.len() == wakers.len(),
        wakers.len() <= revents.len(),
        0 <= i < wakers.len(),
        entries[i].events == PollFlags::of_interest(interest),
        revents[i].spec_intersects(entries[i].events),
        ready == count_ready(revents, 0, revents.len() as int),
    ensures
        dispatches(ready, revents, wakers.len() as int),
        pick(wakers, wake_marks(revents, wakers.len() as int)).contains(wakers[i]),
{
    let users = wakers.len() as int;
    lemma_count_ready_split(revents, 0, users, revents.len() as int);
    lemma_count_ready_positive(revents, 0, users, i);
    lemma_pick_contains(wakers, wake_marks(revents, users), i);
}

/// A reactor over `poll(2)`. It collects, for one cycle at a time, the descriptors to wait
/// on and a waker for each, and after the wait says which wakers to call.
///
/// `N` is the notifier that interrupts a wait, `T` the source of its timeout, and `W` the
/// type of the wakers, which the reactor stores and hands back but never calls.
pub struct PollReactor<N: NotifierFd, T: Timeout, W> {
    notifier: FlagNotifier<N>,
    timeout: T,
    pollfds: Vec<PollEntry>,
    wakers: Vec<W>,
}

impl<N: NotifierFd, T: Timeout, W> PollReactor<N, T, W> {
    /// The entries registered for the current cycle, in the order of their registration.
    pub closed spec fn entries(&self) -> Seq<PollEntry> {
        self.pollfds@
    }

    /// The wakers registered for the current cycle: one for each entry, at its position.
    pub closed spec fn wakers(&self) -> Seq<W> {
        self.wakers@
    }

    /// The reactor's notifier.
    pub closed spec fn flag_notifier(&self) -> FlagNotifier<N> {
        self.notifier
    }

    /// The reactor's timeout source.
    pub closed spec fn timeout_source(&self) -> T {
        self.timeout
    }

    /// Every entry has its waker.
    pub open spec fn wf(&self) -> bool {
        self.entries().len() == self.wakers().len()
    }

    /// The whole list that one wait hands to `poll(2)`: the registered entries, then the
    /// notifier's entry, then those of the timeout source.
    pub open spec fn poll_list(&self) -> Seq<PollEntry> {
        self.entries().push(
            PollEntry {
                fd: self.flag_notifier().kernel().readable(),
                events: PollFlags::spec_input_only(),
            },
        ) + self.timeout_source().poll_entries()
    }

    /// A reactor with nothing registered and no notification pending.
    pub fn new(notifier: N, timeout: T) -> (reactor: Self)
        ensures
            reactor.wf(),
            reactor.entries().len() == 0,
            reactor.wakers().len() == 0,
            !reactor.flag_notifier().notified(),
            reactor.flag_notifier().kernel() == notifier,
            reactor.timeout_source() == timeout,
    {
        PollReactor {
            notifier: FlagNotifier::new(notifier),
            timeout,
            pollfds: Vec::new(),
            wakers: Vec::new(),
        }
    }

    /// The handle for the source open at `fd`. The caller keeps the descriptor open for as
    /// long as the handle is registered.
    pub fn source(&self, fd: i32) -> (handle: EventHandle)
        ensures
            handle@ == fd,
    {
        EventHandle::new(fd)
    }

    /// Registers, for the current cycle, interest in `source` and the waker to resume when
    /// it is ready.
    pub fn register(&mut self, source: &EventHandle, interest: Interest, waker: W)
        requires
            old(self).wf(),
        ensures
            final(self).wf(),
            final(self).entries() == old(self).entries().push(
                (PollEntry { fd: source@, events: PollFlags::of_interest(interest) }),
            ),
            final(self).wakers() == old(self).wakers().push(waker),
            final(self).flag_notifier() == old(self).flag_notifier(),
            final(self).timeout_source() == old(self).timeout_source(),
    {
        self.pollfds.push(PollEntry { fd: source.fd(), events: PollFlags::from(interest) });
        self.wakers.push(waker);
    }

    /// Removes every registration of the handle's source from the current cycle, together
    /// with the wakers that were registered for it.
    pub fn deregister(&mut self, handle: &EventHandle)
        requires
            old(self).wf(),
        ensures
            final(self).wf(),
            final(self).entries() == pick(
                old(self).entries(),
                other_sources(old(self).entries(), handle@),
            ),
            final(self).wakers() == pick(
                old(self).wakers(),
                other_sources(old(self).entries(), handle@),
            ),
            forall|i: int|
                0 <= i < final(self).entries().len() ==> #[trigger] final(self).entries()[i].fd
                    != handle@,
            final(self).flag_notifier() == old(self).flag_notifier(),
            final(self).timeout_source() == old(self).timeout_source(),
    {
        let fd: i32 = handle.fd();
        let n: usize = self.pollfds.len();
        let mut keep: Vec<bool> = Vec::new();
        let mut i: usize = 0;
        while i < n
            invariant
                i <= n,
                n == self.pollfds.len(),
                self.pollfds@ == old(self).pollfds@,
                keep.len() == i,
                forall|j: int| 0 <= j < i ==> keep[j] == (self.pollfds[j].fd != fd),
            decreases n - i,
        {
            keep.push(self.pollfds[i].fd != fd);
            i = i + 1;
        }
        assert(keep@ =~= other_sources(old(self).entries(), fd));
        let mut pollfds: Vec<PollEntry> = Vec::new();
        let mut wakers: Vec<W> = Vec::new();
        core::mem::swap(&mut self.pollfds, &mut pollfds);
        core::mem::swap(&mut self.wakers, &mut wakers);
        let ghost all_wakers = wakers@;
        let ghost all_entries = pollfds@;
        self.pollfds = take_picked(pollfds, &keep);
        self.wakers = take_picked(wakers, &keep);
        proof {
            crate::select::lemma_pick_same_len(all_entries, all_wakers, keep@);
            assert forall|i: int| 0 <= i < self.entries().len() implies #[trigger] self.entries()[i].fd
                != fd by {
                crate::select::lemma_pick_only(all_entries, keep@, self.entries()[i]);
            }
        }
    }

    /// The reactor's notifier.
    pub fn notifier(&self) -> (notifier: &FlagNotifier<N>)
        ensures
            *notifier == self.flag_notifier(),
    {
        &self.notifier
    }

    /// Marks a notification as pending and says whether the caller has to write it to the
    /// notifier's descriptor.
    pub fn notify(&mut self) -> (write: bool)
        ensures
            (final(self).flag_notifier().notified(), write) == notify_step(
                old(self).flag_notifier().notified(),
            ),
            final(self).flag_notifier().kernel() == old(self).flag_notifier().kernel(),
            final(self).entries() == old(self).entries(),
            final(self).wakers() == old(self).wakers(),
            final(self).timeout_source() == old(self).timeout_source(),
    {
        self.notifier.notify()
    }

    /// Ends a cycle after the wakers were called and the notifier's descriptor was drained:
    /// forgets the pending notification.
    pub fn clear_notifier(&mut self)
        ensures
            !final(self).flag_notifier().notified(),
            final(self).flag_notifier().kernel() == old(self).flag_notifier().kernel(),
            final(self).entries() == old(self).entries(),
            final(self).wakers() == old(self).wakers(),
            final(self).timeout_source() == old(self).timeout_source(),
    {
        self.notifier.clear();
    }

    /// The reactor's timeout source.
    pub fn timeout(&self) -> (timeout: &T)
        ensures
            *timeout == self.timeout_source(),
    {
        &self.timeout
    }

    /// How many entries are registered for the current cycle.
    pub fn registered(&self) -> (count: usize)
        ensures
            count == self.entries().len(),
    {
        self.pollfds.len()
    }

    /// Whether nothing is registered for the current cycle: no entry and no waker.
    pub fn is_idle(&self) -> (idle: bool)
        ensures
            idle == (self.entries().len() == 0 && self.wakers().len() == 0),
    {
        self.pollfds.len() == 0 && self.wakers.len() == 0
    }

    /// Starts a wait of at most `timeout`: says what the timeout source asks for and what
    /// list to hand to `poll(2)`. The registrations stay as they are.
    pub fn prepare_wait(&self, timeout: Option<Duration>) -> (plan: (TimeoutPlan, Vec<PollEntry>))
        ensures
            plan.0 == self.timeout_source().plan(timeout),
            plan.1@ == self.poll_list(),
    {
        let plan = self.timeout.set_timeout(timeout);
        let mut list: Vec<PollEntry> = Vec::new();
        let n: usize = self.pollfds.len();
        let mut i: usize = 0;
        while i < n
            invariant
                i <= n,
                n == self.pollfds.len(),
                list@ == self.pollfds@.take(i as int),
            decreases n - i,
        {
            list.push(self.pollfds[i]);
            assert(list@ =~= self.pollfds@.take(i + 1));
            i = i + 1;
        }
        assert(list@ =~= self.pollfds@);
        self.notifier.get_ref().register(&mut list);
        self.timeout.register(&mut list);
        (plan, list)
    }

    /// Ends a cycle in which programming the timer or `poll(2)` itself failed: drops every
    /// registration and hands back the wakers, none of which is to be called. The notifier
    /// is left as it is.
    pub fn abort_wait(&mut self) -> (dropped: Vec<W>)
        ensures
            final(self).wf(),
            final(self).entries().len() == 0,
            final(self).wakers().len() == 0,
            dropped@ == old(self).wakers(),
            final(self).flag_notifier() == old(self).flag_notifier(),
            final(self).timeout_source() == old(self).timeout_source(),
    {
        let mut wakers: Vec<W> = Vec::new();
        core::mem::swap(&mut self.wakers, &mut wakers);
        self.pollfds.clear();
        wakers
    }

    /// Ends a wait in which `poll(2)` returned `ready` and, for the entry at each position
    /// of the list, the events in `revents`; a position that `revents` does not reach counts
    /// as having returned none. Hands back the wakers to call, in the order of their
    /// registration, and drops every registration.
    ///
    /// Where the wakers are gone through, a notification is marked as pending first, so
    /// that a waker that notifies the reactor writes nothing. The caller calls the wakers,
    /// drains the notifier's descriptor and then clears the notifier.
    pub fn finish_wait(&mut self, ready: usize, revents: &Vec<PollFlags>) -> (woken: Vec<W>)
        ensures
            final(self).wf(),
            final(self).entries().len() == 0,
            final(self).wakers().len() == 0,
            woken@ == woken_by(old(self).wakers(), ready, revents@),
            final(self).flag_notifier().notified() == (old(self).flag_notifier().notified()
                || dispatches(ready, revents@, old(self).wakers().len() as int)),
            final(self).flag_notifier().kernel() == old(self).flag_notifier().kernel(),
            final(self).timeout_source() == old(self).timeout_source(),
    {
        let users: usize = self.wakers.len();
        // How many of the entries behind the registered ones returned events.
        let mut internal: usize = 0;
        let mut j: usize = users;
        while j < revents.len()
            invariant
                users <= j,
                j <= revents.len() || j == users,
                internal == count_ready(revents@, users as int, j as int),
                internal <= j - users,
            decreases revents.len() - j,
        {
            if !revents[j].is_empty() {
                internal = internal + 1;
            }
            j = j + 1;
        }
        let mut wakers: Vec<W> = Vec::new();
        core::mem::swap(&mut self.wakers, &mut wakers);
        self.pollfds.clear();
        if ready == 0 || ((ready == 1 || ready == 2) && internal == ready) {
            let none: Vec<W> = Vec::new();
            none
        } else {
            self.notifier.set_to_notified();
            let mut marks: Vec<bool> = Vec::new();
            let mut i: usize = 0;
            while i < users
                invariant
                    i <= users,
                    marks.len() == i,
                    forall|k: int| 0 <= k < i ==> marks[k] == woken_at(revents@, k),
                decreases users - i,
            {
                marks.push(i < revents.len() && revents[i].wakes());
                i = i + 1;
            }
            assert(marks@ =~= wake_marks(revents@, users as int));
            take_picked(wakers, &marks)
        }
    }

    /// Runs one whole cycle. The wait is planned as [`PollReactor::prepare_wait`] says;
    /// `polled` carries the plan out on the kernel, that is, programs the timer and calls
    /// `poll(2)`, and hands back how many entries were ready and the events that each
    /// returned, or the error of the system call that failed. A failure ends the cycle as
    /// [`PollReactor::abort_wait`] does and is handed on, and the notifier is left as it is.
    /// Else the wakers are picked as [`PollReactor::finish_wait`] says and handed to `wake`,
    /// one by one in the order of their registration; then `drain` empties the notifier's
    /// descriptor, whatever it answers, and the notifier is cleared. Either way no
    /// registration is left.
    pub fn wait<E, R, F, K, D>(
        &mut self,
        timeout: Option<Duration>,
        polled: F,
        wake: K,
        drain: D,
    ) -> (res: Result<(), E>) where
        F: FnOnce(TimeoutPlan, Vec<PollEntry>) -> Result<(usize, Vec<PollFlags>), E>,
        K: Fn(W),
        D: FnOnce(i32) -> R,

        requires
            old(self).wf(),
            forall|list: Vec<PollEntry>|
                list@ == old(self).poll_list() ==> polled.requires(
                    (old(self).timeout_source().plan(timeout), list),
                ),
            forall|waker: W| wake.requires((waker,)),
            drain.requires((old(self).flag_notifier().kernel().readable(),)),
        ensures
            final(self).wf(),
            final(self).entries().len() == 0,
            final(self).wakers().len() == 0,
            final(self).flag_notifier().kernel() == old(self).flag_notifier().kernel(),
            final(self).timeout_source() == old(self).timeout_source(),
            match res {
                Ok(_) => {
                    &&& !final(self).flag_notifier().notified()
                    &&& exists|list: Vec<PollEntry>, ready: usize, revents: Vec<PollFlags>, drained: R|
                        {
                            &&& list@ == old(self).poll_list()
                            &&& polled.ensures(
                                (old(self).timeout_source().plan(timeout), list),
                                Ok::<(usize, Vec<PollFlags>), E>((ready, revents)),
                            )
                            &&& forall|i: int|
                                0 <= i < woken_by(old(self).wakers(), ready, revents@).len()
                                    ==> wake.ensures(
                                    (#[trigger] woken_by(old(self).wakers(), ready, revents@)[i],),
                                    (),
                                )
                            &&& drain.ensures(
                                (old(self).flag_notifier().kernel().readable(),),
                                drained,
                            )
                        }
                },
                Err(err) => {
                    &&& final(self).flag_notifier() == old(self).flag_notifier()
                    &&& exists|list: Vec<PollEntry>|
                        list@ == old(self).poll_list() && polled.ensures(
                            (old(self).timeout_source().plan(timeout), list),
                            Err::<(usize, Vec<PollFlags>), E>(err),
                        )
                },
            },
    {
        let (plan, list) = self.prepare_wait(timeout);
        let ghost handed = list;
        match polled(plan, list) {
            Ok((ready, revents)) => {
                let ghost answer = revents;
                let woken = self.finish_wait(ready, &revents);
                let ghost picked = woken@;
                let count: usize = woken.len();
                let mut rest = crate::select::reversed(woken);
                let mut called: usize = 0;
                while rest.len() > 0
                    invariant
                        picked.len() == count,
                        called + rest.len() == picked.len(),
                        forall|waker: W| wake.requires((waker,)),
                        forall|i: int|
                            0 <= i < rest.len() ==> #[trigger] rest[i] == picked[picked.len() - 1
                                - i],
                        forall|i: int| 0 <= i < called ==> wake.ensures((#[trigger] picked[i],), ()),
                    decreases rest.len(),
                {
                    match rest.pop() {
                        Some(waker) => {
                            assert(waker == picked[called as int]);
                            let done = wake(waker);
                            assert(done == ());
                            called = called + 1;
                        },
                        None => {},
                    }
                }
                let fd: i32 = self.notifier.get_ref().read_fd();
                let drained = drain(fd);
                self.notifier.clear();
                assert(handed@ == old(self).poll_list() && polled.ensures(
                    (old(self).timeout_source().plan(timeout), handed),
                    Ok::<(usize, Vec<PollFlags>), E>((ready, answer)),
                ) && (forall|i: int|
                    0 <= i < woken_by(old(self).wakers(), ready, answer@).len() ==> wake.ensures(
                        (#[trigger] woken_by(old(self).wakers(), ready, answer@)[i],),
                        (),
                    )) && drain.ensures((old(self).flag_notifier().kernel().readable(),), drained));
                Ok(())
            },
            Err(err) => {
                let _ = self.abort_wait();
                assert(handed@ == old(self).poll_list() && polled.ensures(
                    (old(self).timeout_source().plan(timeout), handed),
                    Err::<(usize, Vec<PollFlags>), E>(err),
                ));
                Err(err)
            },
        }
    }
}

} // verus!
