//! Decimal fixed-point numbers with six fractional digits.
//!
//! A `Fixed` counts millionths. Every operation is total: a result that does
//! not fit is pinned to the nearest representable bound, and quotients are
//! rounded toward zero.

use vstd::prelude::*;

verus! {

/// How many millionths make one unit.
pub const SCALE: i64 = 1_000_000;

/// A number, held as a count of millionths.
#[derive(Clone, Copy, Debug, PartialEq, Eq, Structural, PartialOrd, Ord, Hash)]
pub struct Fixed {
    pub micros: i64,
}

/// The representable value nearest to `v`.
pub open spec fn clamp(v: int) -> int {
    if v < i64::MIN {
        i64::MIN as int
    } else if v > i64::MAX {
        i64::MAX as int
    } else {
        v
    }
}

/// The quotient of `n` by `d`, rounded toward zero (0 where `d` is 0).
pub open spec fn quotient(n: int, d: int) -> int {
    if d == 0 {
        0
    } else if d > 0 {
        if n >= 0 {
            n / d
        } else {
            -((-n) / d)
        }
    } else {
        if n >= 0 {
            -(n / (-d))
        } else {
            (-n) / (-d)
        }
    }
}

impl View for Fixed {
    type V = int;

    /// The number of millionths.
    open spec fn view(&self) -> int {
        self.micros as int
    }
}

/// Pins a wide intermediate result to the representable range.
fn narrow(v: i128) -> (r: i64)
    ensures
        r == clamp(v as int),
{
    if v < i64::MIN as i128 {
        i64::MIN
    } else if v > i64::MAX as i128 {
        i64::MAX
    } else {
        v as i64
    }
}

impl Fixed {
    /// The number that holds `micros` millionths, pinned to the representable
    /// range.
    pub open spec fn of(micros: int) -> Fixed {
        Fixed { micros: clamp(micros) as i64 }
    }

    /// The sum of the two numbers.
    pub open spec fn sum(self, other: Fixed) -> Fixed {
        Fixed::of(self@ + other@)
    }

    /// The difference of the two numbers.
    pub open spec fn difference(self, other: Fixed) -> Fixed {
        Fixed::of(self@ - other@)
    }

    /// The product of the two numbers, rounded toward zero.
    pub open spec fn product(self, other: Fixed) -> Fixed {
        Fixed::of(quotient(self@ * other@, SCALE as int))
    }

    /// The ratio of the two numbers, rounded toward zero.
    pub open spec fn ratio(self, divisor: Fixed) -> Fixed {
        Fixed::of(quotient(self@ * SCALE, divisor@))
    }

    /// The number with the opposite sign.
    pub open spec fn opposite(self) -> Fixed {
        Fixed::of(-self@)
    }

    /// The number zero.
    pub fn zero() -> (r: Fixed)
        ensures
            r == Fixed::of(0),
    {
        Fixed { micros: 0 }
    }

    /// The number one.
    pub fn one() -> (r: Fixed)
        ensures
            r == Fixed::of(SCALE as int),
    {
        Fixed { micros: SCALE }
    }

    /// The number with the given count of millionths.
    pub fn from_micros(micros: i64) -> (r: Fixed)
        ensures
            r == Fixed::of(micros as int),
    {
        Fixed { micros }
    }

    /// The whole number `units`.
    pub fn from_int(units: i32) -> (r: Fixed)
        ensures
            r == Fixed::of(units * SCALE),
    {
        let wide: i64 = units as i64;
        Fixed { micros: wide * SCALE }
    }

    /// The count of millionths.
    pub fn to_micros(self) -> (r: i64)
        ensures
            r == self@,
    {
        self.micros
    }

    /// The sum, pinned to the representable range.
    pub fn plus(self, other: Fixed) -> (r: Fixed)
        ensures
            r == self.sum(other),
    {
        Fixed { micros: narrow(self.micros as i128 + other.micros as i128) }
    }

    /// The difference, pinned to the representable range.
    pub fn minus(self, other: Fixed) -> (r: Fixed)
        ensures
            r == self.difference(other),
    {
        Fixed { micros: narrow(self.micros as i128 - other.micros as i128) }
    }

    /// The product, rounded toward zero and pinned to the representable range.
    pub fn times(self, other: Fixed) -> (r: Fixed)
        ensures
            r == self.product(other),
    {
        let a: i128 = self.micros as i128;
        let b: i128 = other.micros as i128;
        assert(-0x8000_0000_0000_0000_0000_0000_0000_0000 < a * b
            < 0x8000_0000_0000_0000_0000_0000_0000_0000) by (nonlinear_arith)
            requires
                -0x8000_0000_0000_0000 <= a < 0x8000_0000_0000_0000,
                -0x8000_0000_0000_0000 <= b < 0x8000_0000_0000_0000,
        ;
        let wide: i128 = a * b;
        Fixed { micros: narrow(wide / (SCALE as i128)) }
    }

    /// The quotient, rounded toward zero and pinned to the representable
    /// range.
    pub fn over(self, divisor: Fixed) -> (r: Fixed)
        requires
            divisor@ != 0,
        ensures
            r == self.ratio(divisor),
    {
        let n: i128 = (self.micros as i128) * 1_000_000;
        let d: i128 = divisor.micros as i128;
        if d > 0 {
            Fixed { micros: narrow(n / d) }
        } else {
            Fixed { micros: narrow((-n) / (-d)) }
        }
    }

    /// The quotient, or `None` where the divisor is zero.
    pub fn checked_over(self, divisor: Fixed) -> (r: Option<Fixed>)
        ensures
            r == if divisor@ == 0 {
                None
            } else {
                Some(self.ratio(divisor))
            },
    {
        if divisor.micros == 0 {
            None
        } else {
            Some(self.over(divisor))
        }
    }

    /// The number with the opposite sign, pinned to the representable range.
    pub fn negated(self) -> (r: Fixed)
        ensures
            r == self.opposite(),
    {
        Fixed { micros: narrow(-(self.micros as i128)) }
    }

    /// Whether this number is below `other`.
    pub fn less_than(self, other: Fixed) -> (r: bool)
        ensures
            r == (self@ < other@),
    {
        self.micros < other.micros
    }

    /// Whether this number is above `other`.
    pub fn greater_than(self, other: Fixed) -> (r: bool)
        ensures
            r == (self@ > other@),
    {
        self.micros > other.micros
    }

    /// Whether this number is zero.
    pub fn is_zero(self) -> (r: bool)
        ensures
            r == (self@ == 0),
    {
        self.micros == 0
    }

    /// The smaller of the two numbers.
    pub fn lower(self, other: Fixed) -> (r: Fixed)
        ensures
            r == if self@ <= other@ { self } else { other },
    {
        if self.micros <= other.micros {
            self
        } else {
            other
        }
    }

    /// The larger of the two numbers.
    pub fn upper(self, other: Fixed) -> (r: Fixed)
        ensures
            r == if self@ >= other@ { self } else { other },
    {
        if self.micros >= other.micros {
            self
        } else {
            other
        }
    }
}

} // verus!
