//! A non-negative span of time with nanosecond resolution.

use vstd::prelude::*;

verus! {

/// Nanoseconds in one second.
pub const NANOS_PER_SEC: u128 = 1_000_000_000;

/// Nanoseconds in one millisecond.
pub const NANOS_PER_MILLI: u128 = 1_000_000;

/// The longest span: `u64::MAX` seconds and 999 999 999 nanoseconds.
pub const MAX_NANOS: u128 = 18_446_744_073_709_551_615_999_999_999;

/// A span of time. Its view is the number of nanoseconds it lasts.
#[derive(Debug, Clone, Copy, PartialEq, Eq, Structural)]
pub struct Duration {
    nanos: u128,
}

impl View for Duration {
    type V = nat;

    closed spec fn view(&self) -> nat {
        self.nanos as nat
    }
}

impl Duration {
    #[verifier::type_invariant]
    spec fn bounded(self) -> bool {
        self.nanos <= MAX_NANOS
    }

    pub fn from_secs(secs: u64) -> (span: Duration)
        ensures
            span@ == secs * NANOS_PER_SEC,
    {
        Duration { nanos: secs as u128 * NANOS_PER_SEC }
    }

    pub fn from_millis(millis: u64) -> (span: Duration)
        ensures
            span@ == millis * NANOS_PER_MILLI,
    {
        Duration { nanos: millis as u128 * NANOS_PER_MILLI }
    }

    /// A span of exactly `nanos` nanoseconds.
    pub fn from_nanos(nanos: u64) -> (span: Duration)
        ensures
            span@ == nanos,
    {
        Duration { nanos: nanos as u128 }
    }

    /// The span of `secs` seconds and `nanos` nanoseconds, or nothing when it
    /// is longer than the longest span.
    pub fn from_parts(secs: u64, nanos: u32) -> (span: Option<Duration>)
        ensures
            match span {
                Some(span) => span@ == secs * NANOS_PER_SEC + nanos && span@ <= MAX_NANOS,
                None => secs * NANOS_PER_SEC + nanos > MAX_NANOS,
            },
    {
        let total: u128 = secs as u128 * NANOS_PER_SEC + nanos as u128;
        if total <= MAX_NANOS {
            Some(Duration { nanos: total })
        } else {
            None
        }
    }

    pub fn is_zero(&self) -> (zero: bool)
        ensures
            zero == (self@ == 0),
    {
        self.nanos == 0
    }

    /// Whole seconds in the span.
    pub fn as_secs(&self) -> (secs: u64)
        ensures
            secs == self@ / (NANOS_PER_SEC as nat),
    {
        proof {
            use_type_invariant(self);
        }
        (self.nanos / NANOS_PER_SEC) as u64
    }

    /// Nanoseconds beyond the whole seconds.
    pub fn subsec_nanos(&self) -> (nanos: u32)
        ensures
            nanos == self@ % (NANOS_PER_SEC as nat),
    {
        (self.nanos % NANOS_PER_SEC) as u32
    }

    /// Whole milliseconds in the span.
    pub fn as_millis(&self) -> (millis: u128)
        ensures
            millis == self@ / (NANOS_PER_MILLI as nat),
            millis <= MAX_NANOS,
    {
        proof {
            use_type_invariant(self);
        }
        self.nanos / NANOS_PER_MILLI
    }

    /// Whether this span is strictly longer than `other`.
    pub fn exceeds(&self, other: Duration) -> (longer: bool)
        ensures
            longer == (self@ > other@),
    {
        self.nanos > other.nanos
    }

    /// The shorter of the two spans.
    pub fn at_most(self, other: Duration) -> (span: Duration)
        ensures
            span@ == if self@ <= other@ {
                self@
            } else {
                other@
            },
    {
        if self.nanos <= other.nanos {
            self
        } else {
            other
        }
    }

    pub fn checked_add(self, other: Duration) -> (span: Option<Duration>)
        ensures
            match span {
                Some(span) => span@ == self@ + other@ && span@ <= MAX_NANOS,
                None => self@ + other@ > MAX_NANOS,
            },
    {
        proof {
            use_type_invariant(&self);
            use_type_invariant(&other);
        }
        let total: u128 = self.nanos + other.nanos;
        if total <= MAX_NANOS {
            Some(Duration { nanos: total })
        } else {
            None
        }
    }

    pub fn checked_mul(self, factor: u32) -> (span: Option<Duration>)
        ensures
            match span {
                Some(span) => span@ == self@ * factor && span@ <= MAX_NANOS,
                None => self@ * factor > MAX_NANOS,
            },
    {
        proof {
            use_type_invariant(&self);
            assert(self.nanos * factor <= MAX_NANOS * 0xffff_ffffu128) by (nonlinear_arith)
                requires
                    self.nanos <= MAX_NANOS,
                    factor <= 0xffff_ffffu128,
            ;
        }
        let total: u128 = self.nanos * factor as u128;
        if total <= MAX_NANOS {
            Some(Duration { nanos: total })
        } else {
            None
        }
    }
}

/// A second has a thousand milliseconds and a thousand million nanoseconds.
pub proof fn law_units_agree(
    span: Duration,
    seconds: u64,
    of_seconds: Duration,
    of_millis: Duration,
    secs: u64,
    nanos: u32,
    millis: u128,
)
    requires
        call_ensures(Duration::from_secs, (seconds,), of_seconds),
        call_ensures(Duration::from_millis, (seconds,), of_millis),
        call_ensures(Duration::as_secs, (&span,), secs),
        call_ensures(Duration::subsec_nanos, (&span,), nanos),
        call_ensures(Duration::as_millis, (&span,), millis),
    ensures
        of_seconds@ == 1_000_000_000 * seconds,
        of_millis@ == 1_000_000 * seconds,
        span@ == 1_000_000_000 * secs + nanos,
        nanos < 1_000_000_000,
        1_000_000 * millis <= span@ < 1_000_000 * millis + 1_000_000,
{
}

/// Spans add up and multiply exactly, and do so wherever the sum or the product
/// has no more seconds than a machine word holds.
pub proof fn law_spans_add_up(
    left: Duration,
    right: Duration,
    sum: Option<Duration>,
    factor: u32,
    product: Option<Duration>,
    shorter: Duration,
)
    requires
        call_ensures(Duration::checked_add, (left, right), sum),
        call_ensures(Duration::checked_mul, (left, factor), product),
        call_ensures(Duration::at_most, (left, right), shorter),
    ensures
        sum is Some <==> left@ + right@ < 0x1_0000_0000_0000_0000 * 1_000_000_000,
        sum matches Some(sum) ==> sum@ == left@ + right@,
        product is Some <==> left@ * factor < 0x1_0000_0000_0000_0000 * 1_000_000_000,
        product matches Some(product) ==> product@ == left@ * factor,
        shorter@ <= left@ && shorter@ <= right@,
        shorter@ == left@ || shorter@ == right@,
{
}

} // verus!
