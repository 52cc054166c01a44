//! Spans of time and points on a monotonic clock, as exact nanosecond counts.
//!
//! The runtime never reads a clock itself: whoever drives it samples the
//! clock once and hands the reading in as an [`Instant`].

use vstd::prelude::*;

verus! {

/// Nanoseconds in one second.
pub const NANOS_PER_SEC: u32 = 1_000_000_000;

/// Nanoseconds in one millisecond.
pub const NANOS_PER_MILLI: u32 = 1_000_000;

/// Milliseconds in one second.
pub const MILLIS_PER_SEC: u64 = 1_000;

/// A span of time: whole seconds plus a sub-second part in nanoseconds.
///
/// Its view is the total number of nanoseconds.
#[derive(Clone, Copy, Debug, PartialEq, Eq, Hash)]
pub struct Duration {
    secs: u64,
    nanos: u32,
}

impl View for Duration {
    type V = nat;

    open spec fn view(&self) -> nat {
        (self.secs_part() * NANOS_PER_SEC + self.nanos_part()) as nat
    }
}

impl Duration {
    /// The whole seconds of the span.
    pub closed spec fn secs_part(&self) -> u64 {
        self.secs
    }

    /// The part of the span below one second, in nanoseconds.
    pub closed spec fn nanos_part(&self) -> u32 {
        self.nanos
    }

    /// The sub-second part stays below one second.
    #[verifier::type_invariant]
    pub open spec fn wf(&self) -> bool {
        self.nanos_part() < NANOS_PER_SEC
    }

    /// Two well-formed spans with the same number of nanoseconds are the same value.
    pub proof fn lemma_view_injective(a: Duration, b: Duration)
        requires
            a.wf(),
            b.wf(),
            a@ == b@,
        ensures
            a == b,
    {
        assert(a.secs == b.secs && a.nanos == b.nanos) by (nonlinear_arith)
            requires
                a.nanos < 1_000_000_000,
                b.nanos < 1_000_000_000,
                a.secs * 1_000_000_000 + a.nanos == b.secs * 1_000_000_000 + b.nanos,
        ;
    }

    /// The empty span.
    pub fn zero() -> (d: Duration)
        ensures
            d@ == 0,
            d.wf(),
    {
        Duration { secs: 0, nanos: 0 }
    }

    /// A span of `secs` seconds and `nanos` nanoseconds; a nanosecond count of a second or
    /// more carries into the seconds.
    pub fn new(secs: u64, nanos: u32) -> (d: Duration)
        requires
            secs + nanos / NANOS_PER_SEC <= u64::MAX,
        ensures
            d@ == secs * NANOS_PER_SEC + nanos,
            d.wf(),
    {
        let carry: u32 = nanos / NANOS_PER_SEC;
        let rest: u32 = nanos % NANOS_PER_SEC;
        let d = Duration { secs: secs + carry as u64, nanos: rest };
        assert(d@ == secs * NANOS_PER_SEC + nanos) by {
            assert(nanos == carry * NANOS_PER_SEC + rest);
            assert((secs + carry) * NANOS_PER_SEC == secs * NANOS_PER_SEC + carry * NANOS_PER_SEC)
                by (nonlinear_arith);
        }
        d
    }

    /// A span of whole seconds.
    pub fn from_secs(secs: u64) -> (d: Duration)
        ensures
            d@ == secs * NANOS_PER_SEC,
            d.wf(),
    {
        Duration { secs, nanos: 0 }
    }

    /// A span of whole milliseconds.
    pub fn from_millis(millis: u64) -> (d: Duration)
        ensures
            d@ == millis * NANOS_PER_MILLI,
            d.wf(),
    {
        let secs: u64 = millis / MILLIS_PER_SEC;
        let rest: u32 = (millis % MILLIS_PER_SEC) as u32;
        Duration { secs, nanos: rest * NANOS_PER_MILLI }
    }

    /// A span of whole nanoseconds.
    pub fn from_nanos(nanos: u64) -> (d: Duration)
        ensures
            d@ == nanos,
            d.wf(),
    {
        let per: u64 = NANOS_PER_SEC as u64;
        assert(per == 1_000_000_000);
        let secs: u64 = nanos / per;
        let low: u64 = nanos % per;
        assert(nanos == secs * 1_000_000_000 + low);
        let rest: u32 = low as u32;
        Duration { secs, nanos: rest }
    }

    /// The whole seconds of the span.
    pub fn as_secs(&self) -> (secs: u64)
        ensures
            secs == self.secs_part(),
            secs == self@ / (NANOS_PER_SEC as nat),
    {
        proof {
            use_type_invariant(self);
        }
        self.secs
    }

    /// The part of the span below one second, in nanoseconds.
    pub fn subsec_nanos(&self) -> (nanos: u32)
        ensures
            nanos == self.nanos_part(),
            nanos == self@ % (NANOS_PER_SEC as nat),
            nanos < NANOS_PER_SEC,
    {
        proof {
            use_type_invariant(self);
        }
        self.nanos
    }

    /// The whole milliseconds of the span, rounded down.
    pub fn as_millis(&self) -> (millis: u128)
        ensures
            millis == self@ / (NANOS_PER_MILLI as nat),
    {
        proof {
            use_type_invariant(self);
        }
        let whole: u128 = self.secs as u128 * 1_000;
        let part: u128 = (self.nanos / NANOS_PER_MILLI) as u128;
        whole + part
    }

    /// The span in nanoseconds.
    pub fn as_nanos(&self) -> (nanos: u128)
        ensures
            nanos == self@,
    {
        proof {
            use_type_invariant(self);
        }
        self.secs as u128 * 1_000_000_000 + self.nanos as u128
    }

    /// Whether the span is empty.
    pub fn is_zero(&self) -> (zero: bool)
        ensures
            zero == (self@ == 0),
    {
        self.secs == 0 && self.nanos == 0
    }

    /// Whether this span is no longer than `other`.
    pub fn le(&self, other: &Duration) -> (le: bool)
        ensures
            le == (self@ <= other@),
    {
        proof {
            use_type_invariant(self);
            use_type_invariant(other);
        }
        self.secs < other.secs || (self.secs == other.secs && self.nanos <= other.nanos)
    }

    /// Whether this span is shorter than `other`.
    pub fn lt(&self, other: &Duration) -> (lt: bool)
        ensures
            lt == (self@ < other@),
    {
        proof {
            use_type_invariant(self);
            use_type_invariant(other);
        }
        self.secs < other.secs || (self.secs == other.secs && self.nanos < other.nanos)
    }

    /// Whether the two spans are equally long.
    pub fn same(&self, other: &Duration) -> (same: bool)
        ensures
            same == (self@ == other@),
            same == (*self == *other),
    {
        proof {
            use_type_invariant(self);
            use_type_invariant(other);
        }
        self.secs == other.secs && self.nanos == other.nanos
    }

    /// The sum of the two spans, or `None` where it does not fit.
    pub fn checked_add(&self, other: &Duration) -> (sum: Option<Duration>)
        ensures
            sum is Some <==> self@ + other@ < (u64::MAX + 1) * NANOS_PER_SEC,
            sum matches Some(d) ==> d@ == self@ + other@ && d.wf(),
    {
        proof {
            use_type_invariant(self);
            use_type_invariant(other);
        }
        let total: u32 = self.nanos + other.nanos;
        let carry: u64 = if total >= NANOS_PER_SEC { 1 } else { 0 };
        let rest: u32 = if total >= NANOS_PER_SEC { total - NANOS_PER_SEC } else { total };
        match self.secs.checked_add(other.secs) {
            None => None,
            Some(secs) => match secs.checked_add(carry) {
                None => None,
                Some(secs) => Some(Duration { secs, nanos: rest }),
            },
        }
    }

    /// This span less `other`, or the empty span where `other` is the longer one.
    pub fn saturating_sub(&self, other: &Duration) -> (diff: Duration)
        ensures
            diff@ == if self@ >= other@ { self@ - other@ } else { 0 },
            diff.wf(),
    {
        proof {
            use_type_invariant(self);
            use_type_invariant(other);
        }
        if self.le(other) {
            Duration { secs: 0, nanos: 0 }
        } else if self.nanos >= other.nanos {
            Duration { secs: self.secs - other.secs, nanos: self.nanos - other.nanos }
        } else {
            Duration {
                secs: self.secs - other.secs - 1,
                nanos: self.nanos + NANOS_PER_SEC - other.nanos,
            }
        }
    }
}

/// A point on a monotonic clock, held as the span since the clock's origin.
///
/// Its view is that span in nanoseconds.
#[derive(Clone, Copy, Debug, PartialEq, Eq, Hash)]
pub struct Instant {
    elapsed: Duration,
}

impl View for Instant {
    type V = nat;

    open spec fn view(&self) -> nat {
        self.since_origin()@
    }
}

impl Instant {
    /// The span from the clock's origin to this point.
    pub closed spec fn since_origin(&self) -> Duration {
        self.elapsed
    }

    /// The span held is well formed.
    #[verifier::type_invariant]
    pub open spec fn wf(&self) -> bool {
        self.since_origin().wf()
    }

    /// Two well-formed instants at the same nanosecond are the same value.
    pub proof fn lemma_view_injective(a: Instant, b: Instant)
        requires
            a.wf(),
            b.wf(),
            a@ == b@,
        ensures
            a == b,
    {
        Duration::lemma_view_injective(a.elapsed, b.elapsed);
    }

    /// The clock's origin.
    pub fn origin() -> (t: Instant)
        ensures
            t@ == 0,
            t.wf(),
    {
        Instant { elapsed: Duration::zero() }
    }

    /// The point that lies `elapsed` after the clock's origin.
    pub fn after_origin(elapsed: Duration) -> (t: Instant)
        ensures
            t@ == elapsed@,
            t.since_origin() == elapsed,
            t.wf(),
    {
        proof {
            use_type_invariant(elapsed);
        }
        Instant { elapsed }
    }

    /// The span from the clock's origin to this point.
    pub fn elapsed(&self) -> (d: Duration)
        ensures
            d == self.since_origin(),
            d@ == self@,
            d.wf(),
    {
        proof {
            use_type_invariant(self);
        }
        self.elapsed
    }

    /// Whether this point is not after `other`.
    pub fn le(&self, other: &Instant) -> (le: bool)
        ensures
            le == (self@ <= other@),
    {
        self.elapsed.le(&other.elapsed)
    }

    /// Whether this point is before `other`.
    pub fn lt(&self, other: &Instant) -> (lt: bool)
        ensures
            lt == (self@ < other@),
    {
        self.elapsed.lt(&other.elapsed)
    }

    /// Whether the two points coincide.
    pub fn same(&self, other: &Instant) -> (same: bool)
        ensures
            same == (self@ == other@),
            same == (*self == *other),
    {
        self.elapsed.same(&other.elapsed)
    }

    /// The point `delay` after this one, or `None` where the clock cannot hold it.
    pub fn checked_add(&self, delay: &Duration) -> (later: Option<Instant>)
        ensures
            later is Some <==> self@ + delay@ < (u64::MAX + 1) * NANOS_PER_SEC,
            later matches Some(t) ==> t@ == self@ + delay@ && t.wf(),
    {
        match self.elapsed.checked_add(delay) {
            None => None,
            Some(elapsed) => Some(Instant { elapsed }),
        }
    }

    /// The span from `earlier` to this point, or the empty span where `earlier` is the later
    /// of the two.
    pub fn saturating_duration_since(&self, earlier: &Instant) -> (d: Duration)
        ensures
            d@ == if self@ >= earlier@ { self@ - earlier@ } else { 0 },
            d.wf(),
    {
        self.elapsed.saturating_sub(&earlier.elapsed)
    }
}

} // verus!
