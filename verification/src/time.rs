//! A span of time measured in whole nanoseconds, saturating at the largest
//! span that `std::time::Duration` can hold.

use vstd::prelude::*;

verus! {

/// Nanoseconds in one second.
pub const NANOS_PER_SEC: u128 = 1_000_000_000;

/// Nanoseconds in one millisecond.
pub const NANOS_PER_MILLI: u128 = 1_000_000;

/// The longest representable span: `u64::MAX` seconds plus 999 999 999 ns.
pub const MAX_NANOS: u128 = 18_446_744_073_709_551_615_999_999_999;

/// A non-negative span of time, at nanosecond resolution.
#[derive(Clone, Copy, Debug, PartialEq, Eq, Structural)]
pub struct TimeSpan {
    nanos: u128,
}

impl View for TimeSpan {
    type V = nat;

    /// The span in nanoseconds.
    closed spec fn view(&self) -> nat {
        self.nanos as nat
    }
}

/// `min(a, b)` over naturals.
pub open spec fn min_nat(a: nat, b: nat) -> nat {
    if a <= b { a } else { b }
}

/// The span of `ms` whole milliseconds (meaningful for `ms` up to `u64::MAX`).
pub closed spec fn span_of_millis(ms: nat) -> TimeSpan {
    TimeSpan { nanos: (ms * NANOS_PER_MILLI) as u128 }
}

/// `span_of_millis(ms)` is `ms` milliseconds long.
pub proof fn lemma_span_of_millis(ms: nat)
    requires
        ms <= u64::MAX,
    ensures
        span_of_millis(ms)@ == ms * NANOS_PER_MILLI,
{
    assert(ms * NANOS_PER_MILLI <= u128::MAX) by (nonlinear_arith)
        requires
            ms <= u64::MAX,
    ;
}

impl TimeSpan {
    /// Every span is at most `MAX_NANOS` long.
    #[verifier::type_invariant]
    pub open spec fn fits(self) -> bool {
        self@ <= MAX_NANOS
    }

    /// Two spans are equal exactly when they are equally long.
    pub proof fn lemma_view_eq(a: TimeSpan, b: TimeSpan)
        ensures
            a == b <==> a@ == b@,
    {
    }

    /// The empty span.
    pub fn zero() -> (r: TimeSpan)
        ensures
            r@ == 0,
    {
        TimeSpan { nanos: 0 }
    }

    /// A span of `secs` whole seconds.
    pub fn from_secs(secs: u64) -> (r: TimeSpan)
        ensures
            r@ == secs * NANOS_PER_SEC,
    {
        assert(secs * NANOS_PER_SEC <= MAX_NANOS) by (nonlinear_arith)
            requires
                secs <= u64::MAX,
        ;
        TimeSpan { nanos: secs as u128 * NANOS_PER_SEC }
    }

    /// A span of `millis` whole milliseconds.
    pub fn from_millis(millis: u64) -> (r: TimeSpan)
        ensures
            r@ == millis * NANOS_PER_MILLI,
            r == span_of_millis(millis as nat),
    {
        assert(millis * NANOS_PER_MILLI <= MAX_NANOS) by (nonlinear_arith)
            requires
                millis <= u64::MAX,
        ;
        TimeSpan { nanos: millis as u128 * NANOS_PER_MILLI }
    }

    /// A span of `nanos` nanoseconds.
    pub fn from_nanos(nanos: u64) -> (r: TimeSpan)
        ensures
            r@ == nanos,
    {
        TimeSpan { nanos: nanos as u128 }
    }

    /// A span given as whole seconds plus a sub-second part; `None` when the
    /// sub-second part is not below one second.
    pub fn from_parts(secs: u64, subsec_nanos: u32) -> (r: Option<TimeSpan>)
        ensures
            r is Some <==> subsec_nanos < NANOS_PER_SEC,
            r matches Some(s) ==> s@ == secs * NANOS_PER_SEC + subsec_nanos,
    {
        if (subsec_nanos as u128) < NANOS_PER_SEC {
            assert(secs * NANOS_PER_SEC + subsec_nanos <= MAX_NANOS) by (nonlinear_arith)
                requires
                    secs <= u64::MAX,
                    subsec_nanos < NANOS_PER_SEC,
            ;
            Some(TimeSpan { nanos: secs as u128 * NANOS_PER_SEC + subsec_nanos as u128 })
        } else {
            None
        }
    }

    /// The span in nanoseconds.
    pub fn as_nanos(&self) -> (r: u128)
        ensures
            r == self@,
    {
        self.nanos
    }

    /// The span in whole milliseconds, rounded down.
    pub fn as_millis(&self) -> (r: u128)
        ensures
            r == self@ / NANOS_PER_MILLI as nat,
    {
        self.nanos / NANOS_PER_MILLI
    }

    /// The span in whole seconds, rounded down.
    pub fn as_secs(&self) -> (r: u64)
        ensures
            r == self@ / NANOS_PER_SEC as nat,
    {
        proof {
            use_type_invariant(self);
        }
        assert(self.nanos / NANOS_PER_SEC <= u64::MAX) by (nonlinear_arith)
            requires
                self.nanos <= MAX_NANOS,
        ;
        (self.nanos / NANOS_PER_SEC) as u64
    }

    /// The part of the span below one second, in nanoseconds.
    pub fn subsec_nanos(&self) -> (r: u32)
        ensures
            r == self@ % NANOS_PER_SEC as nat,
    {
        (self.nanos % NANOS_PER_SEC) as u32
    }

    /// `self + other`, or the longest representable span if the sum would
    /// exceed it.
    pub fn saturating_add(self, other: TimeSpan) -> (r: TimeSpan)
        ensures
            r@ == min_nat(self@ + other@, MAX_NANOS as nat),
    {
        proof {
            use_type_invariant(self);
            use_type_invariant(other);
        }
        let sum = self.nanos + other.nanos;
        if sum > MAX_NANOS {
            TimeSpan { nanos: MAX_NANOS }
        } else {
            TimeSpan { nanos: sum }
        }
    }

    /// `self - other`, or the empty span if `other` is the longer one.
    pub fn saturating_sub(self, other: TimeSpan) -> (r: TimeSpan)
        ensures
            r@ == if self@ >= other@ { (self@ - other@) as nat } else { 0 },
    {
        proof {
            use_type_invariant(self);
        }
        if self.nanos >= other.nanos {
            TimeSpan { nanos: self.nanos - other.nanos }
        } else {
            TimeSpan { nanos: 0 }
        }
    }
}

/// Saturating addition of spans regroups freely: `(a + b) + c` and
/// `a + (b + c)`, each step saturating, give the same span, so a total
/// accumulated in any grouping is the saturated sum of all its parts.
pub proof fn law_saturating_add_regroups(a: TimeSpan, b: TimeSpan, c: TimeSpan)
    ensures
        min_nat(min_nat(a@ + b@, MAX_NANOS as nat) + c@, MAX_NANOS as nat) == min_nat(
            a@ + min_nat(b@ + c@, MAX_NANOS as nat),
            MAX_NANOS as nat,
        ),
{
}

} // verus!
