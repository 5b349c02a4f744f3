use vstd::prelude::*;

verus! {

/// Nanoseconds in one second.
pub const NANOS_PER_SEC: u32 = 1_000_000_000;

/// A span of time with nanosecond precision, with the range of `std::time::Duration`.
#[derive(Clone, Copy, Debug, PartialEq, Eq, Hash, Default)]
pub struct Duration {
    secs: u64,
    nanos: u32,
}

/// The largest representable span, in nanoseconds.
pub open spec fn max_nanos() -> nat {
    (u64::MAX as nat) * 1_000_000_000 + 999_999_999
}

/// The smaller of two naturals.
pub open spec fn min_nat(a: nat, b: nat) -> nat {
    if a <= b { a } else { b }
}

impl View for Duration {
    type V = nat;

    /// Whole nanoseconds of the span.
    closed spec fn view(&self) -> nat {
        (self.secs as nat) * 1_000_000_000 + self.nanos as nat
    }
}

impl Duration {
    /// Well-formedness: the sub-second part is below one second.
    #[verifier::type_invariant]
    closed spec fn wf(self) -> bool {
        self.nanos < NANOS_PER_SEC
    }

    proof fn lemma_in_range(self)
        requires
            self.wf(),
        ensures
            self@ <= max_nanos(),
    {
        assert((self.secs as nat) * 1_000_000_000 + self.nanos as nat <= max_nanos())
            by (nonlinear_arith)
            requires
                self.nanos < 1_000_000_000,
                self.secs <= u64::MAX,
        ;
    }

    proof fn lemma_decompose(self)
        requires
            self.wf(),
        ensures
            self@ / 1_000_000_000 == self.secs as nat,
            self@ % 1_000_000_000 == self.nanos as nat,
    {
        let n = self@;
        assert(n == (self.secs as nat) * 1_000_000_000 + self.nanos as nat);
        vstd::arithmetic::div_mod::lemma_fundamental_div_mod_converse(
            n as int,
            1_000_000_000,
            self.secs as int,
            self.nanos as int,
        );
    }

    /// Builds a span from nanoseconds within range.
    fn from_total_nanos(total: u128) -> (d: Duration)
        requires
            total <= max_nanos(),
        ensures
            d@ == total,
    {
        let secs = total / 1_000_000_000;
        let nanos = total % 1_000_000_000;
        assert(secs <= u64::MAX) by (nonlinear_arith)
            requires
                total <= (u64::MAX as nat) * 1_000_000_000 + 999_999_999,
                secs == total / 1_000_000_000,
        ;
        let d = Duration { secs: secs as u64, nanos: nanos as u32 };
        assert(d@ == total) by {
            vstd::arithmetic::div_mod::lemma_fundamental_div_mod(total as int, 1_000_000_000);
        }
        d
    }

    /// Total nanoseconds.
    pub fn as_nanos(&self) -> (n: u128)
        ensures
            n == self@,
            n <= max_nanos(),
    {
        proof {
            use_type_invariant(self);
            self.lemma_in_range();
        }
        (self.secs as u128) * 1_000_000_000 + self.nanos as u128
    }

    /// The empty span.
    pub fn zero() -> (d: Duration)
        ensures
            d@ == 0,
    {
        Duration { secs: 0, nanos: 0 }
    }

    /// The largest representable span.
    pub fn max_value() -> (d: Duration)
        ensures
            d@ == max_nanos(),
    {
        Duration { secs: u64::MAX, nanos: 999_999_999 }
    }

    /// A span of whole seconds.
    pub fn from_secs(secs: u64) -> (d: Duration)
        ensures
            d@ == secs as nat * 1_000_000_000,
    {
        Duration { secs, nanos: 0 }
    }

    /// A span of whole milliseconds.
    pub fn from_millis(millis: u64) -> (d: Duration)
        ensures
            d@ == millis as nat * 1_000_000,
    {
        let total = (millis as u128) * 1_000_000;
        assert(total <= max_nanos()) by (nonlinear_arith)
            requires
                total == millis as nat * 1_000_000,
                millis <= u64::MAX,
        ;
        Self::from_total_nanos(total)
    }

    /// A span of seconds plus nanoseconds; nanoseconds beyond a second carry over.
    pub fn new(secs: u64, nanos: u32) -> (d: Duration)
        requires
            secs as nat * 1_000_000_000 + nanos as nat <= max_nanos(),
        ensures
            d@ == secs as nat * 1_000_000_000 + nanos as nat,
    {
        Self::from_total_nanos((secs as u128) * 1_000_000_000 + nanos as u128)
    }

    /// Whether the span is empty.
    pub fn is_zero(&self) -> (b: bool)
        ensures
            b == (self@ == 0),
    {
        self.secs == 0 && self.nanos == 0
    }

    /// Whole seconds of the span.
    pub fn as_secs(&self) -> (s: u64)
        ensures
            s == self@ / 1_000_000_000,
    {
        proof {
            use_type_invariant(self);
            self.lemma_decompose();
        }
        self.secs
    }

    /// The sub-second part, in nanoseconds.
    pub fn subsec_nanos(&self) -> (n: u32)
        ensures
            n == self@ % 1_000_000_000,
    {
        proof {
            use_type_invariant(self);
            self.lemma_decompose();
        }
        self.nanos
    }

    /// Whole milliseconds of the span.
    pub fn as_millis(&self) -> (m: u128)
        ensures
            m == self@ / 1_000_000,
    {
        let n = self.as_nanos();
        n / 1_000_000
    }

    /// Whether `self` is strictly shorter than `other`.
    pub fn lt(&self, other: &Duration) -> (b: bool)
        ensures
            b == (self@ < other@),
    {
        self.as_nanos() < other.as_nanos()
    }

    /// The shorter of two spans.
    pub fn min(self, other: Duration) -> (d: Duration)
        ensures
            d@ == min_nat(self@, other@),
    {
        if other.lt(&self) { other } else { self }
    }

    /// Multiplication that stops at the largest span.
    pub fn saturating_mul(self, factor: u32) -> (d: Duration)
        ensures
            d@ == min_nat(self@ * factor as nat, max_nanos()),
    {
        let n = self.as_nanos();
        let limit: u128 = 18_446_744_073_709_551_615u128 * 1_000_000_000 + 999_999_999;
        assert(n * (factor as nat) <= u128::MAX) by (nonlinear_arith)
            requires
                n <= 18_446_744_073_709_551_615nat * 1_000_000_000 + 999_999_999,
                factor <= u32::MAX,
        ;
        let product = n * (factor as u128);
        if product > limit {
            Self::max_value()
        } else {
            Self::from_total_nanos(product)
        }
    }

    /// Addition that stops at the largest span.
    pub fn saturating_add(self, other: Duration) -> (d: Duration)
        ensures
            d@ == min_nat(self@ + other@, max_nanos()),
    {
        let a = self.as_nanos();
        let b = other.as_nanos();
        proof {
            use_type_invariant(&self);
            use_type_invariant(&other);
            self.lemma_in_range();
            other.lemma_in_range();
        }
        let limit: u128 = 18_446_744_073_709_551_615u128 * 1_000_000_000 + 999_999_999;
        let sum = a + b;
        if sum > limit {
            Self::max_value()
        } else {
            Self::from_total_nanos(sum)
        }
    }

    /// Addition within range.
    pub fn checked_add(self, other: Duration) -> (d: Option<Duration>)
        ensures
            d matches Some(v) ==> v@ == self@ + other@,
            d is None <==> self@ + other@ > max_nanos(),
    {
        let a = self.as_nanos();
        let b = other.as_nanos();
        proof {
            use_type_invariant(&self);
            use_type_invariant(&other);
            self.lemma_in_range();
            other.lemma_in_range();
        }
        let limit: u128 = 18_446_744_073_709_551_615u128 * 1_000_000_000 + 999_999_999;
        let sum = a + b;
        if sum > limit {
            None
        } else {
            Some(Self::from_total_nanos(sum))
        }
    }
}

} // verus!
