//! Floating-point numbers by their bits: carried, compared, never computed
//! with. A comparison here has the outcome the machine's own would have.

use vstd::prelude::*;

verus! {

/// A double-precision number, by its bit pattern.
#[derive(Clone, Copy, PartialEq, Eq, Structural, Debug)]
pub struct Double {
    pub bits: u64,
}

/// A single-precision number, by its bit pattern.
#[derive(Clone, Copy, PartialEq, Eq, Structural, Debug)]
pub struct Single {
    pub bits: u32,
}

impl Double {
    /// The bit pattern without its sign.
    pub open spec fn magnitude(self) -> int {
        if self.bits >= 0x8000_0000_0000_0000 {
            self.bits - 0x8000_0000_0000_0000
        } else {
            self.bits as int
        }
    }

    pub open spec fn is_nan(self) -> bool {
        self.magnitude() > 0x7ff0_0000_0000_0000
    }

    /// Where the number stands among all others that are not NaN: patterns of
    /// one sign are ordered as their numbers are, and both zeros are one.
    pub open spec fn rank(self) -> int {
        if self.bits >= 0x8000_0000_0000_0000 {
            -self.magnitude()
        } else {
            self.magnitude()
        }
    }

    pub open spec fn less(self, other: Double) -> bool {
        !self.is_nan() && !other.is_nan() && self.rank() < other.rank()
    }

    pub open spec fn at_least(self, other: Double) -> bool {
        !self.is_nan() && !other.is_nan() && self.rank() >= other.rank()
    }

    pub open spec fn equal(self, other: Double) -> bool {
        !self.is_nan() && !other.is_nan() && self.rank() == other.rank()
    }

    /// Where the bit pattern stands in the total order over all patterns:
    /// negative zero before zero, NaNs at both ends.
    pub open spec fn total_rank(self) -> int {
        if self.bits >= 0x8000_0000_0000_0000 {
            -self.magnitude() - 1
        } else {
            self.magnitude()
        }
    }

    pub open spec fn zero() -> Double {
        Double { bits: 0 }
    }

    pub fn nan(self) -> (b: bool)
        ensures
            b == self.is_nan(),
    {
        let m: u64 = if self.bits >= 0x8000_0000_0000_0000 {
            self.bits - 0x8000_0000_0000_0000
        } else {
            self.bits
        };
        m > 0x7ff0_0000_0000_0000
    }

    fn rank_of(self) -> (r: i128)
        ensures
            r == self.rank(),
    {
        if self.bits >= 0x8000_0000_0000_0000 {
            -((self.bits - 0x8000_0000_0000_0000) as i128)
        } else {
            self.bits as i128
        }
    }

    /// Whether `self < other`.
    pub fn lt(self, other: Double) -> (b: bool)
        ensures
            b == self.less(other),
    {
        !self.nan() && !other.nan() && self.rank_of() < other.rank_of()
    }

    /// Whether `self >= other`.
    pub fn ge(self, other: Double) -> (b: bool)
        ensures
            b == self.at_least(other),
    {
        !self.nan() && !other.nan() && self.rank_of() >= other.rank_of()
    }

    /// Whether both are one number.
    pub fn eq_number(self, other: Double) -> (b: bool)
        ensures
            b == self.equal(other),
    {
        !self.nan() && !other.nan() && self.rank_of() == other.rank_of()
    }

    /// Whether `self` comes before `other` in the total order.
    pub fn before(self, other: Double) -> (b: bool)
        ensures
            b == (self.total_rank() < other.total_rank()),
    {
        let a: i128 = if self.bits >= 0x8000_0000_0000_0000 {
            -((self.bits - 0x8000_0000_0000_0000) as i128) - 1
        } else {
            self.bits as i128
        };
        let b: i128 = if other.bits >= 0x8000_0000_0000_0000 {
            -((other.bits - 0x8000_0000_0000_0000) as i128) - 1
        } else {
            other.bits as i128
        };
        a < b
    }
}

impl Single {
    /// The bit pattern without its sign.
    pub open spec fn magnitude(self) -> int {
        if self.bits >= 0x8000_0000 {
            self.bits - 0x8000_0000
        } else {
            self.bits as int
        }
    }

    pub open spec fn is_nan(self) -> bool {
        self.magnitude() > 0x7f80_0000
    }

    /// Where the number stands among all others that are not NaN.
    pub open spec fn rank(self) -> int {
        if self.bits >= 0x8000_0000 {
            -self.magnitude()
        } else {
            self.magnitude()
        }
    }

    pub open spec fn less(self, other: Single) -> bool {
        !self.is_nan() && !other.is_nan() && self.rank() < other.rank()
    }

    pub open spec fn at_least(self, other: Single) -> bool {
        !self.is_nan() && !other.is_nan() && self.rank() >= other.rank()
    }

    /// Whether the number is above zero.
    pub open spec fn positive(self) -> bool {
        0 < self.bits <= 0x7f80_0000
    }

    pub fn nan(self) -> (b: bool)
        ensures
            b == self.is_nan(),
    {
        let m: u32 = if self.bits >= 0x8000_0000 {
            self.bits - 0x8000_0000
        } else {
            self.bits
        };
        m > 0x7f80_0000
    }

    fn rank_of(self) -> (r: i64)
        ensures
            r == self.rank(),
    {
        if self.bits >= 0x8000_0000 {
            -((self.bits - 0x8000_0000) as i64)
        } else {
            self.bits as i64
        }
    }

    /// Whether `self < other`.
    pub fn lt(self, other: Single) -> (b: bool)
        ensures
            b == self.less(other),
    {
        !self.nan() && !other.nan() && self.rank_of() < other.rank_of()
    }

    /// Whether `self >= other`.
    pub fn ge(self, other: Single) -> (b: bool)
        ensures
            b == self.at_least(other),
    {
        !self.nan() && !other.nan() && self.rank_of() >= other.rank_of()
    }

    /// Whether the number is above zero.
    pub fn gt_zero(self) -> (b: bool)
        ensures
            b == self.positive(),
    {
        0 < self.bits && self.bits <= 0x7f80_0000
    }
}

/// The comparisons form an order on the numbers: exactly one of `a < b` and
/// `a >= b` holds where neither is NaN, and neither where one is.
pub proof fn comparisons_are_exclusive(a: Double, b: Double)
    ensures
        a.is_nan() || b.is_nan() ==> !a.less(b) && !a.at_least(b),
        !a.is_nan() && !b.is_nan() ==> a.less(b) != a.at_least(b),
{
}

/// Numbers compare as their bits do: without a sign in order, with one in the
/// reverse order, those with a sign first, and both zeros alike. What is no
/// number compares with nothing.
pub proof fn doubles_compare_as_numbers(a: Double, b: Double, lt: bool, ge: bool, eq: bool)
    requires
        call_ensures(Double::lt, (a, b), lt),
        call_ensures(Double::ge, (a, b), ge),
        call_ensures(Double::eq_number, (a, b), eq),
    ensures
        a.bits <= 0x7ff0_0000_0000_0000 && b.bits <= 0x7ff0_0000_0000_0000 ==> lt == (a.bits
            < b.bits) && ge == (a.bits >= b.bits) && eq == (a.bits == b.bits),
        0x8000_0000_0000_0000 < a.bits <= 0xfff0_0000_0000_0000 && b.bits
            <= 0x7ff0_0000_0000_0000 ==> lt && !ge && !eq,
        a.bits <= 0x7ff0_0000_0000_0000 && 0x8000_0000_0000_0000 < b.bits
            <= 0xfff0_0000_0000_0000 ==> !lt && ge && !eq,
        0x8000_0000_0000_0000 <= a.bits <= 0xfff0_0000_0000_0000 && 0x8000_0000_0000_0000 <= b.bits
            <= 0xfff0_0000_0000_0000 ==> lt == (a.bits > b.bits) && ge == (a.bits <= b.bits) && eq
            == (a.bits == b.bits),
        a.bits == 0 && b.bits == 0x8000_0000_0000_0000 ==> !lt && ge && eq,
        a.bits == 0x8000_0000_0000_0000 && b.bits == 0 ==> !lt && ge && eq,
        0x7ff0_0000_0000_0000 < a.bits < 0x8000_0000_0000_0000 || a.bits > 0xfff0_0000_0000_0000
            ==> !lt && !ge && !eq,
        0x7ff0_0000_0000_0000 < b.bits < 0x8000_0000_0000_0000 || b.bits > 0xfff0_0000_0000_0000
            ==> !lt && !ge && !eq,
{
}

/// The total order knows every pattern: it is total, no two patterns share a
/// place in it, and it agrees with the comparison of numbers.
pub proof fn doubles_have_a_total_order(a: Double, b: Double, ab: bool, ba: bool, lt: bool)
    requires
        call_ensures(Double::before, (a, b), ab),
        call_ensures(Double::before, (b, a), ba),
        call_ensures(Double::lt, (a, b), lt),
    ensures
        a == b ==> !ab && !ba,
        a != b ==> ab != ba,
        lt ==> ab,
        a.bits < 0x8000_0000_0000_0000 && b.bits < 0x8000_0000_0000_0000 ==> ab == (a.bits
            < b.bits),
        a.bits >= 0x8000_0000_0000_0000 && b.bits < 0x8000_0000_0000_0000 ==> ab,
        a.bits >= 0x8000_0000_0000_0000 && b.bits >= 0x8000_0000_0000_0000 ==> ab == (a.bits
            > b.bits),
{
}

/// Short numbers compare as long ones do, and a number is above zero where
/// zero is less.
pub proof fn singles_compare_as_numbers(a: Single, b: Single, lt: bool, ge: bool, above: bool)
    requires
        call_ensures(Single::lt, (a, b), lt),
        call_ensures(Single::ge, (a, b), ge),
        call_ensures(Single::gt_zero, (a,), above),
    ensures
        a.bits <= 0x7f80_0000 && b.bits <= 0x7f80_0000 ==> lt == (a.bits < b.bits) && ge == (a.bits
            >= b.bits),
        0x8000_0000 < a.bits <= 0xff80_0000 && b.bits <= 0x7f80_0000 ==> lt && !ge,
        a.bits <= 0x7f80_0000 && 0x8000_0000 < b.bits <= 0xff80_0000 ==> !lt && ge,
        0x8000_0000 <= a.bits <= 0xff80_0000 && 0x8000_0000 <= b.bits <= 0xff80_0000 ==> lt
            == (a.bits > b.bits) && ge == (a.bits <= b.bits),
        a.bits == 0 && b.bits == 0x8000_0000 ==> !lt && ge,
        a.bits == 0x8000_0000 && b.bits == 0 ==> !lt && ge,
        0x7f80_0000 < a.bits < 0x8000_0000 || a.bits > 0xff80_0000 ==> !lt && !ge && !above,
        0x7f80_0000 < b.bits < 0x8000_0000 || b.bits > 0xff80_0000 ==> !lt && !ge,
        above == (Single { bits: 0 }).less(a),
        above == (0 < a.bits <= 0x7f80_0000),
{
}

/// What is no number is told from every number, infinities among them.
pub proof fn nan_is_no_number(a: Double, nan: bool, s: Single, short: bool)
    requires
        call_ensures(Double::nan, (a,), nan),
        call_ensures(Single::nan, (s,), short),
    ensures
        nan == (0x7ff0_0000_0000_0000 < a.bits < 0x8000_0000_0000_0000 || a.bits
            > 0xfff0_0000_0000_0000),
        short == (0x7f80_0000 < s.bits < 0x8000_0000 || s.bits > 0xff80_0000),
{
}

} // verus!
