use vstd::prelude::*;

verus! {

/// Nanoseconds in one second.
pub const NANOS_PER_SEC: u32 = 1_000_000_000;

/// A span of time, held as whole seconds and the nanoseconds past them.
#[derive(Clone, Copy, Debug, PartialEq, Eq, Structural)]
pub struct TimeSpan {
    secs: u64,
    nanos: u32,
}

impl View for TimeSpan {
    /// The span in nanoseconds.
    type V = nat;

    open spec fn view(&self) -> nat {
        self.spec_secs() * 1_000_000_000 + self.spec_subsec_nanos()
    }
}

impl TimeSpan {
    pub closed spec fn spec_secs(self) -> nat {
        self.secs as nat
    }

    pub closed spec fn spec_subsec_nanos(self) -> nat {
        self.nanos as nat
    }

    /// The nanoseconds past the whole seconds stay below one second.
    pub closed spec fn wf(self) -> bool {
        self.nanos < NANOS_PER_SEC
    }

    /// Every span built by this module is well formed.
    #[verifier::type_invariant]
    closed spec fn inv(self) -> bool {
        self.wf()
    }

    /// A span of `secs` seconds and `nanos` nanoseconds; nanoseconds of a
    /// second or more carry into the seconds.
    pub fn new(secs: u64, nanos: u32) -> (span: TimeSpan)
        requires
            secs + nanos / NANOS_PER_SEC <= u64::MAX,
        ensures
            span.spec_secs() == secs + nanos / NANOS_PER_SEC,
            span.spec_subsec_nanos() == nanos % NANOS_PER_SEC,
            span@ == secs * 1_000_000_000 + nanos,
            span.wf(),
    {
        let carry = (nanos / NANOS_PER_SEC) as u64;
        let span = TimeSpan { secs: secs + carry, nanos: nanos % NANOS_PER_SEC };
        assert(span@ == secs * 1_000_000_000 + nanos) by {
            assert(nanos == (nanos / 1_000_000_000) * 1_000_000_000 + nanos % 1_000_000_000);
        }
        span
    }

    /// The empty span.
    pub fn zero() -> (span: TimeSpan)
        ensures
            span@ == 0,
            span.spec_secs() == 0,
            span.spec_subsec_nanos() == 0,
            span.wf(),
    {
        TimeSpan { secs: 0, nanos: 0 }
    }

    /// A span of whole seconds.
    pub fn from_secs(secs: u64) -> (span: TimeSpan)
        ensures
            span.spec_secs() == secs,
            span.spec_subsec_nanos() == 0,
            span@ == secs * 1_000_000_000,
            span.wf(),
    {
        TimeSpan { secs, nanos: 0 }
    }

    /// A span of whole milliseconds.
    pub fn from_millis(millis: u64) -> (span: TimeSpan)
        ensures
            span@ == millis * 1_000_000,
            span.wf(),
    {
        let secs = millis / 1000;
        let rest = millis % 1000;
        let nanos = (rest as u32) * 1_000_000;
        assert(secs * 1_000_000_000 + nanos == millis * 1_000_000) by (nonlinear_arith)
            requires
                secs == millis / 1000,
                rest == millis % 1000,
                nanos == rest * 1_000_000,
        ;
        TimeSpan { secs, nanos }
    }

    /// Whether the span is empty.
    pub fn is_zero(&self) -> (zero: bool)
        ensures
            zero == (self@ == 0),
    {
        self.secs == 0 && self.nanos == 0
    }

    /// The whole seconds of the span.
    pub fn as_secs(&self) -> (secs: u64)
        ensures
            secs == self.spec_secs(),
    {
        self.secs
    }

    /// The nanoseconds past the whole seconds.
    pub fn subsec_nanos(&self) -> (nanos: u32)
        ensures
            nanos == self.spec_subsec_nanos(),
            nanos < NANOS_PER_SEC,
    {
        proof {
            use_type_invariant(self);
        }
        self.nanos
    }

    /// The span in nanoseconds.
    pub fn as_nanos(&self) -> (total: u128)
        ensures
            total == self@,
    {
        proof {
            use_type_invariant(self);
        }
        (self.secs as u128) * 1_000_000_000 + (self.nanos as u128)
    }
    /// The longest span: `u64::MAX` seconds and all but one nanosecond of
    /// another.
    pub fn max_value() -> (span: TimeSpan)
        ensures
            span@ == u64::MAX * 1_000_000_000 + 999_999_999,
            forall|other: TimeSpan| #[trigger] other.wf() ==> other@ <= span@,
    {
        TimeSpan { secs: u64::MAX, nanos: 999_999_999 }
    }

    /// The sum of two spans, unless it is longer than the longest span.
    pub fn checked_add(&self, other: &TimeSpan) -> (sum: Option<TimeSpan>)
        ensures
            match sum {
                Some(s) => s@ == self@ + other@ && s@ <= u64::MAX * 1_000_000_000 + 999_999_999,
                None => self@ + other@ > u64::MAX * 1_000_000_000 + 999_999_999,
            },
    {
        proof {
            use_type_invariant(self);
            use_type_invariant(other);
        }
        let nanos = self.nanos + other.nanos;
        let (carry, nanos) = if nanos >= NANOS_PER_SEC {
            (1u64, nanos - NANOS_PER_SEC)
        } else {
            (0u64, nanos)
        };
        match self.secs.checked_add(other.secs) {
            None => None,
            Some(secs) => match secs.checked_add(carry) {
                None => None,
                Some(secs) => Some(TimeSpan { secs, nanos }),
            },
        }
    }

    /// How much longer this span is than `earlier`; zero where it is not longer.
    pub fn saturating_sub(&self, earlier: &TimeSpan) -> (span: TimeSpan)
        ensures
            span@ == (if self@ >= earlier@ { self@ - earlier@ } else { 0 }),
    {
        proof {
            use_type_invariant(self);
            use_type_invariant(earlier);
        }
        if self.as_nanos() <= earlier.as_nanos() {
            return TimeSpan { secs: 0, nanos: 0 };
        }
        if self.nanos >= earlier.nanos {
            assert(self.secs >= earlier.secs) by (nonlinear_arith)
                requires
                    self.secs * 1_000_000_000 + self.nanos > earlier.secs * 1_000_000_000 + earlier.nanos,
                    earlier.nanos < 1_000_000_000,
                    self.nanos < 1_000_000_000,
            ;
            TimeSpan { secs: self.secs - earlier.secs, nanos: self.nanos - earlier.nanos }
        } else {
            assert(self.secs > earlier.secs) by (nonlinear_arith)
                requires
                    self.secs * 1_000_000_000 + self.nanos > earlier.secs * 1_000_000_000 + earlier.nanos,
                    self.nanos < earlier.nanos,
            ;
            TimeSpan { secs: self.secs - earlier.secs - 1, nanos: self.nanos + NANOS_PER_SEC - earlier.nanos }
        }
    }

    /// The shorter of two spans; the first where they are equal.
    pub fn shorter(self, other: TimeSpan) -> (span: TimeSpan)
        ensures
            span == (if self@ <= other@ {
                self
            } else {
                other
            }),
    {
        if self.as_nanos() <= other.as_nanos() {
            self
        } else {
            other
        }
    }
}

} // verus!
