//! Microsecond time values: the unit of account for every timestamp in the
//! timeline. All arithmetic is exact integer arithmetic; fractional-second
//! text for the render engine is produced by `strfmt`.

use vstd::prelude::*;

verus! {

/// A signed count of microseconds.
#[derive(Debug, Clone, Copy, PartialEq, Eq, Structural, PartialOrd, Ord, Hash)]
pub struct TimeUs(pub i64);

impl TimeUs {
    /// The zero timestamp.
    pub fn zero() -> (r: TimeUs)
        ensures
            r.0 == 0,
    {
        TimeUs(0)
    }

    /// Exact addition.
    pub fn add(self, rhs: TimeUs) -> (r: TimeUs)
        requires
            i64::MIN <= self.0 + rhs.0 <= i64::MAX,
        ensures
            r.0 == self.0 + rhs.0,
    {
        TimeUs(self.0 + rhs.0)
    }

    /// Exact subtraction.
    pub fn sub(self, rhs: TimeUs) -> (r: TimeUs)
        requires
            i64::MIN <= self.0 - rhs.0 <= i64::MAX,
        ensures
            r.0 == self.0 - rhs.0,
    {
        TimeUs(self.0 - rhs.0)
    }

    /// Exact scalar multiplication.
    pub fn mul(self, rhs: i64) -> (r: TimeUs)
        requires
            i64::MIN <= self.0 * rhs <= i64::MAX,
        ensures
            r.0 == self.0 * rhs,
    {
        TimeUs(self.0 * rhs)
    }

    /// Scalar division, truncating toward zero as Rust's `/` does.
    pub fn div(self, rhs: i64) -> (r: TimeUs)
        requires
            rhs != 0,
            !(self.0 == i64::MIN && rhs == -1),
        ensures
            r.0 == truncating_div(self.0 as int, rhs as int),
    {
        let negative: bool = (self.0 < 0) != (rhs < 0);
        let ma: u64 = magnitude(self.0);
        let mb: u64 = magnitude(rhs);
        let q: u64 = ma / mb;
        assert(q * mb <= ma) by (nonlinear_arith)
            requires
                mb > 0,
                q == ma / mb,
        {}
        if negative {
            if q >= 0x8000_0000_0000_0000u64 {
                assert(q == abs_int(i64::MIN as int));
                TimeUs(i64::MIN)
            } else {
                TimeUs(-(q as i64))
            }
        } else {
            assert(q < 0x8000_0000_0000_0000u64) by {
                assert(q <= ma) by (nonlinear_arith)
                    requires
                        mb >= 1,
                        q == ma / mb,
                {}
                if ma == 0x8000_0000_0000_0000u64 {
                    assert(self.0 == i64::MIN && rhs < 0 && rhs != -1);
                    assert(mb >= 2);
                    assert(q <= ma / 2) by (nonlinear_arith)
                        requires
                            mb >= 2,
                            q == ma / mb,
                    {}
                }
            }
            TimeUs(q as i64)
        }
    }
}

/// The magnitude of a signed value as an unsigned one.
fn magnitude(v: i64) -> (r: u64)
    ensures
        r == abs_int(v as int),
{
    if v < 0 {
        (-(v as i128)) as u64
    } else {
        v as u64
    }
}

/// Division truncating toward zero (the semantics of Rust's `/` on signed
/// integers), expressed with Verus's Euclidean `/`.
pub open spec fn truncating_div(a: int, b: int) -> int {
    if (a >= 0) == (b >= 0) {
        abs_int(a) / abs_int(b)
    } else {
        -(abs_int(a) / abs_int(b))
    }
}

/// Absolute value on unbounded integers.
pub open spec fn abs_int(a: int) -> int {
    if a >= 0 {
        a
    } else {
        -a
    }
}

} // verus!
