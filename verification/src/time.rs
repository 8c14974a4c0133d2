//! Time as this library reasons about it: a span of nanoseconds, and a
//! monotonic instant. Both are plain integers underneath, so every timing rule
//! in the codecs and the safety kernel is arithmetic Verus can check.
use vstd::prelude::*;

verus! {

/// Nanoseconds in one second.
pub const NANOS_PER_SEC: u128 = 1_000_000_000;

/// The longest span representable: `u64::MAX` seconds and 999 999 999
/// nanoseconds, the same ceiling as `core::time::Duration`.
pub open spec fn duration_max_nanos() -> int {
    0xFFFF_FFFF_FFFF_FFFFint * 1_000_000_000 + 999_999_999
}

/// A span of time, in nanoseconds.
#[derive(Copy, Clone, PartialEq, Eq, PartialOrd, Ord, Hash, Debug, Structural)]
pub struct Duration {
    nanos: u128,
}

impl Duration {
    /// The span in nanoseconds.
    pub closed spec fn spec_nanos(self) -> int {
        self.nanos as int
    }

    /// Every value of this type stays within the ceiling.
    pub open spec fn wf(self) -> bool {
        self.spec_nanos() <= duration_max_nanos()
    }

    /// Two spans of the same length are the same value.
    pub proof fn lemma_eq(self, other: Self)
        ensures
            (self.spec_nanos() == other.spec_nanos()) ==> self == other,
    {
    }

    /// No time at all.
    pub fn zero() -> (d: Self)
        ensures
            d.spec_nanos() == 0,
            d.wf(),
    {
        Duration { nanos: 0 }
    }

    /// The longest representable span.
    pub fn max_value() -> (d: Self)
        ensures
            d.spec_nanos() == duration_max_nanos(),
            d.wf(),
    {
        Duration { nanos: 0xFFFF_FFFF_FFFF_FFFFu128 * 1_000_000_000 + 999_999_999 }
    }

    pub fn from_nanos(n: u64) -> (d: Self)
        ensures
            d.spec_nanos() == n,
            d.wf(),
    {
        Duration { nanos: n as u128 }
    }

    pub fn from_micros(us: u64) -> (d: Self)
        ensures
            d.spec_nanos() == us * 1000,
            d.wf(),
    {
        Duration { nanos: us as u128 * 1000 }
    }

    pub fn from_millis(ms: u64) -> (d: Self)
        ensures
            d.spec_nanos() == ms * 1_000_000,
            d.wf(),
    {
        Duration { nanos: ms as u128 * 1_000_000 }
    }

    pub fn from_secs(s: u64) -> (d: Self)
        ensures
            d.spec_nanos() == s * 1_000_000_000,
            d.wf(),
    {
        Duration { nanos: s as u128 * 1_000_000_000 }
    }

    pub fn as_nanos(&self) -> (n: u128)
        ensures
            n == self.spec_nanos(),
    {
        self.nanos
    }

    /// Whole milliseconds, rounded down.
    pub fn as_millis(&self) -> (ms: u128)
        ensures
            ms == self.spec_nanos() / 1_000_000,
    {
        self.nanos / 1_000_000
    }

    /// Whole seconds, rounded down.
    pub fn as_secs(&self) -> (s: u64)
        requires
            self.wf(),
        ensures
            s == self.spec_nanos() / 1_000_000_000,
    {
        (self.nanos / 1_000_000_000) as u64
    }

    /// `self * k`, saturating at the ceiling.
    pub fn saturating_mul(self, k: u32) -> (d: Self)
        requires
            self.wf(),
        ensures
            d.wf(),
            d.spec_nanos() == if self.spec_nanos() * k <= duration_max_nanos() {
                self.spec_nanos() * k
            } else {
                duration_max_nanos()
            },
    {
        proof {
            assert(self.nanos * (k as u128) <= 0x1_0000_0000_0000_0000u128 * 1_000_000_000 * 0x1_0000_0000u128) by (nonlinear_arith)
                requires self.nanos <= 0x1_0000_0000_0000_0000u128 * 1_000_000_000, k <= 0xFFFF_FFFFu32;
        }
        let p: u128 = self.nanos * (k as u128);
        let max: u128 = 0xFFFF_FFFF_FFFF_FFFFu128 * 1_000_000_000 + 999_999_999;
        if p <= max {
            Duration { nanos: p }
        } else {
            Duration { nanos: max }
        }
    }

    /// `self - other`, or zero when `other` is the longer span.
    pub fn saturating_sub(self, other: Self) -> (d: Self)
        requires
            self.wf(),
        ensures
            d.wf(),
            d.spec_nanos() == if self.spec_nanos() >= other.spec_nanos() {
                self.spec_nanos() - other.spec_nanos()
            } else {
                0
            },
    {
        if self.nanos >= other.nanos {
            Duration { nanos: self.nanos - other.nanos }
        } else {
            Duration { nanos: 0 }
        }
    }

    /// The shorter of two spans.
    pub fn min(self, other: Self) -> (d: Self)
        ensures
            d == (if self.spec_nanos() <= other.spec_nanos() { self } else { other }),
    {
        if self.nanos <= other.nanos {
            self
        } else {
            other
        }
    }

    /// True when `self` is strictly shorter than `other`.
    pub fn is_shorter_than(&self, other: &Self) -> (b: bool)
        ensures
            b == (self.spec_nanos() < other.spec_nanos()),
    {
        self.nanos < other.nanos
    }
}

/// A reading of a monotonic clock, in nanoseconds since an arbitrary origin.
///
/// Never a wall-clock reading, so a clock step cannot move it.
#[derive(Copy, Clone, PartialEq, Eq, PartialOrd, Ord, Hash, Debug, Structural)]
pub struct Monotonic {
    nanos: u64,
}

impl Monotonic {
    pub closed spec fn spec_nanos(self) -> int {
        self.nanos as int
    }

    /// An instant is a count of nanoseconds that fits a `u64`.
    pub proof fn lemma_range(self)
        ensures
            0 <= self.spec_nanos() <= u64::MAX,
    {
    }

    /// Two instants at the same nanosecond are the same value.
    pub proof fn lemma_eq(self, other: Self)
        ensures
            (self.spec_nanos() == other.spec_nanos()) ==> self == other,
    {
    }

    pub fn from_nanos(n: u64) -> (m: Self)
        ensures
            m.spec_nanos() == n,
    {
        Monotonic { nanos: n }
    }

    pub fn as_nanos(&self) -> (n: u64)
        ensures
            n == self.spec_nanos(),
    {
        self.nanos
    }

    /// `self + d`, or `None` when the sum does not fit the clock.
    pub fn checked_add(self, d: Duration) -> (r: Option<Self>)
        ensures
            r matches Some(m) ==> m.spec_nanos() == self.spec_nanos() + d.spec_nanos(),
            r is None <==> self.spec_nanos() + d.spec_nanos() > u64::MAX,
    {
        let sum: u128 = match (self.nanos as u128).checked_add(d.nanos) {
            Some(s) => s,
            None => return None,
        };
        if sum <= u64::MAX as u128 {
            Some(Monotonic { nanos: sum as u64 })
        } else {
            None
        }
    }

    /// The span from `earlier` to `self`, or zero when `earlier` is later.
    pub closed spec fn span_since(self, earlier: Self) -> Duration {
        Duration { nanos: if self.nanos >= earlier.nanos { (self.nanos - earlier.nanos) as u128 } else { 0 } }
    }

    /// What [`Monotonic::span_since`] measures.
    pub proof fn lemma_span_since(self, earlier: Self)
        ensures
            self.span_since(earlier).wf(),
            self.span_since(earlier).spec_nanos() == if self.spec_nanos() >= earlier.spec_nanos() {
                self.spec_nanos() - earlier.spec_nanos()
            } else {
                0
            },
    {
    }

    /// The span from `earlier` to `self`, or zero when `earlier` is later.
    pub fn since(self, earlier: Self) -> (d: Duration)
        ensures
            d == self.span_since(earlier),
            d.wf(),
            d.spec_nanos() == if self.spec_nanos() >= earlier.spec_nanos() {
                self.spec_nanos() - earlier.spec_nanos()
            } else {
                0
            },
    {
        if self.nanos >= earlier.nanos {
            Duration { nanos: (self.nanos - earlier.nanos) as u128 }
        } else {
            Duration { nanos: 0 }
        }
    }

    /// True when `self` is at or after `other`.
    pub fn is_at_or_after(&self, other: &Self) -> (b: bool)
        ensures
            b == (self.spec_nanos() >= other.spec_nanos()),
    {
        self.nanos >= other.nanos
    }
}

} // verus!
