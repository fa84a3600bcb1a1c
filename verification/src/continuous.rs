use vstd::prelude::*;
use crate::scalar::Scalar;

verus! {

/// How many units of a finite [`Real`] make up one.
pub const UNITS_PER_ONE: i64 = 65536;

/// How many units of a finite [`Real`] make up one half.
pub const UNITS_PER_HALF: i64 = 32768;

/// The continuous domain: a binary fixed-point number, extended by the two
/// infinities and by a value that is not a number.
///
/// `Finite(n)` stands for the number `n / 65536`. `Undefined` is unorderable:
/// every comparison with it is false.
#[derive(Clone, Copy, Debug, PartialEq, Eq, Structural)]
pub enum Real {
    NegInfinity,
    Finite(i64),
    Infinity,
    Undefined,
}

/// Whether a mathematical integer is a count of units that `Finite` can hold.
pub open spec fn fits_units(n: int) -> bool {
    i64::MIN <= n <= i64::MAX
}

impl Real {
    /// Whether the value is a finite number.
    pub open spec fn is_finite_spec(self) -> bool {
        self is Finite
    }

    /// The units of a finite value.
    pub open spec fn units(self) -> int
        recommends
            self is Finite,
    {
        match self {
            Real::Finite(n) => n as int,
            _ => 0,
        }
    }

    /// The sign of an orderable value: -1, 0 or 1.
    pub open spec fn sign(self) -> int {
        match self {
            Real::NegInfinity => -1,
            Real::Finite(n) => if n < 0 {
                -1
            } else if n == 0 {
                0
            } else {
                1
            },
            Real::Infinity => 1,
            Real::Undefined => 0,
        }
    }

    /// The infinity of the given sign.
    pub open spec fn infinity_of(sign: int) -> Real {
        if sign < 0 {
            Real::NegInfinity
        } else {
            Real::Infinity
        }
    }

    /// Whether the value is a finite number.
    pub fn is_finite(&self) -> (r: bool)
        ensures
            r == self.is_finite_spec(),
    {
        match self {
            Real::Finite(_) => true,
            _ => false,
        }
    }

    /// The whole number `i` as a value of the continuous domain.
    pub fn from_index(i: i32) -> (r: Real)
        ensures
            r == Real::Finite((i * UNITS_PER_ONE) as i64),
            fits_units(i * UNITS_PER_ONE),
    {
        Real::Finite((i as i64) * UNITS_PER_ONE)
    }

    fn sign_is_negative(self) -> (r: bool)
        ensures
            r == (self.sign() < 0),
    {
        match self {
            Real::NegInfinity => true,
            Real::Finite(n) => n < 0,
            _ => false,
        }
    }

    fn sign_is_zero(self) -> (r: bool)
        ensures
            r == (self.sign() == 0),
    {
        match self {
            Real::Finite(n) => n == 0,
            Real::Undefined => true,
            _ => false,
        }
    }
}

/// The exact product of two finite values, where it is a whole number of
/// units: `a * b / 65536`.
fn finite_product(a: i64, b: i64) -> (r: i64)
    requires
        (a * b) % 65536 == 0,
        fits_units((a * b) / 65536),
    ensures
        r == (a * b) / 65536,
{
    let negative = (a < 0) != (b < 0);
    let ma: u128 = if a < 0 {
        (-(a as i128)) as u128
    } else {
        a as u128
    };
    let mb: u128 = if b < 0 {
        (-(b as i128)) as u128
    } else {
        b as u128
    };
    assert(ma * mb <= 0x8000_0000_0000_0000 * 0x8000_0000_0000_0000) by (nonlinear_arith)
        requires
            ma <= 0x8000_0000_0000_0000,
            mb <= 0x8000_0000_0000_0000,
    ;
    let product: u128 = ma * mb;
    assert(negative ==> product == -(a * b)) by (nonlinear_arith)
        requires
            product == ma * mb,
            ma == (if a < 0 { -a } else { a as int }),
            mb == (if b < 0 { -b } else { b as int }),
            negative == ((a < 0) != (b < 0)),
    ;
    assert(!negative ==> product == a * b) by (nonlinear_arith)
        requires
            product == ma * mb,
            ma == (if a < 0 { -a } else { a as int }),
            mb == (if b < 0 { -b } else { b as int }),
            negative == ((a < 0) != (b < 0)),
    ;
    let quotient: u128 = product / 65536;
    if negative {
        let wide: i128 = -(quotient as i128);
        wide as i64
    } else {
        quotient as i64
    }
}

impl Scalar for Real {
    open spec fn is_ordered(self) -> bool {
        !(self is Undefined)
    }

    open spec fn rank(self) -> int {
        match self {
            Real::NegInfinity => i64::MIN - 1,
            Real::Finite(n) => n as int,
            Real::Infinity => i64::MAX + 1,
            Real::Undefined => 0,
        }
    }

    open spec fn zero_spec() -> Self {
        Real::Finite(0)
    }

    open spec fn can_plus(self, other: Self) -> bool {
        match (self, other) {
            (Real::Undefined, _) | (_, Real::Undefined) => false,
            (Real::Infinity, Real::NegInfinity) | (Real::NegInfinity, Real::Infinity) => false,
            (Real::Finite(a), Real::Finite(b)) => fits_units(a + b),
            _ => true,
        }
    }

    open spec fn plus_spec(self, other: Self) -> Self {
        match (self, other) {
            (Real::Finite(a), Real::Finite(b)) => Real::Finite((a + b) as i64),
            (Real::Finite(_), _) => other,
            _ => self,
        }
    }

    open spec fn can_minus(self, other: Self) -> bool {
        match (self, other) {
            (Real::Undefined, _) | (_, Real::Undefined) => false,
            (Real::Infinity, Real::Infinity) | (Real::NegInfinity, Real::NegInfinity) => false,
            (Real::Finite(a), Real::Finite(b)) => fits_units(a - b),
            _ => true,
        }
    }

    open spec fn minus_spec(self, other: Self) -> Self {
        match (self, other) {
            (Real::Finite(a), Real::Finite(b)) => Real::Finite((a - b) as i64),
            (Real::Finite(_), Real::Infinity) => Real::NegInfinity,
            (Real::Finite(_), Real::NegInfinity) => Real::Infinity,
            _ => self,
        }
    }

    open spec fn can_negate(self) -> bool {
        match self {
            Real::Undefined => false,
            Real::Finite(a) => fits_units(-a),
            _ => true,
        }
    }

    open spec fn negated_spec(self) -> Self {
        match self {
            Real::NegInfinity => Real::Infinity,
            Real::Finite(a) => Real::Finite((-a) as i64),
            Real::Infinity => Real::NegInfinity,
            Real::Undefined => Real::Undefined,
        }
    }

    open spec fn can_times(self, other: Self) -> bool {
        match (self, other) {
            (Real::Undefined, _) | (_, Real::Undefined) => false,
            (Real::Finite(a), Real::Finite(b)) => (a * b) % 65536 == 0 && fits_units(
                (a * b) / 65536,
            ),
            _ => self.sign() != 0 && other.sign() != 0,
        }
    }

    open spec fn times_spec(self, other: Self) -> Self {
        match (self, other) {
            (Real::Finite(a), Real::Finite(b)) => Real::Finite(((a * b) / 65536) as i64),
            _ => Real::infinity_of(self.sign() * other.sign()),
        }
    }

    open spec fn can_size(lower: Self, upper: Self) -> bool {
        upper.can_minus(lower)
    }

    open spec fn size_spec(lower: Self, upper: Self) -> Self {
        upper.minus_spec(lower)
    }

    open spec fn can_reach(self, size: Self) -> bool {
        self.can_plus(size)
    }

    open spec fn reach_spec(self, size: Self) -> Self {
        self.plus_spec(size)
    }

    proof fn lemma_rank_is_injective(a: Self, b: Self) {
    }

    proof fn lemma_zero_is_ordered() {
    }

    proof fn lemma_plus_is_monotone(a: Self, b: Self, c: Self) {
    }

    proof fn lemma_size_is_not_negative(lower: Self, upper: Self) {
    }

    proof fn lemma_times_zero(a: Self) {
        if let Real::Finite(n) = a {
            assert(n * 0 == 0 && 0 * n == 0) by (nonlinear_arith);
        }
    }

    fn at_most(self, other: Self) -> (r: bool) {
        match (self, other) {
            (Real::Undefined, _) | (_, Real::Undefined) => false,
            (Real::NegInfinity, _) | (_, Real::Infinity) => true,
            (Real::Finite(a), Real::Finite(b)) => a <= b,
            _ => false,
        }
    }

    fn below(self, other: Self) -> (r: bool) {
        match (self, other) {
            (Real::Undefined, _) | (_, Real::Undefined) => false,
            (Real::NegInfinity, Real::NegInfinity) | (Real::Infinity, Real::Infinity) => false,
            (Real::NegInfinity, _) | (_, Real::Infinity) => true,
            (Real::Finite(a), Real::Finite(b)) => a < b,
            _ => false,
        }
    }

    fn min(self, other: Self) -> (r: Self) {
        match (self, other) {
            (Real::Undefined, _) => other,
            (_, Real::Undefined) => self,
            _ => if self.at_most(other) {
                self
            } else {
                other
            },
        }
    }

    fn max(self, other: Self) -> (r: Self) {
        match (self, other) {
            (Real::Undefined, _) => other,
            (_, Real::Undefined) => self,
            _ => if other.at_most(self) {
                self
            } else {
                other
            },
        }
    }

    fn zero() -> (r: Self) {
        Real::Finite(0)
    }

    fn plus(self, other: Self) -> (r: Self) {
        match (self, other) {
            (Real::Finite(a), Real::Finite(b)) => Real::Finite(a + b),
            (Real::Finite(_), _) => other,
            _ => self,
        }
    }

    fn minus(self, other: Self) -> (r: Self) {
        match (self, other) {
            (Real::Finite(a), Real::Finite(b)) => Real::Finite(a - b),
            (Real::Finite(_), Real::Infinity) => Real::NegInfinity,
            (Real::Finite(_), Real::NegInfinity) => Real::Infinity,
            _ => self,
        }
    }

    fn negated(self) -> (r: Self) {
        match self {
            Real::NegInfinity => Real::Infinity,
            Real::Finite(a) => Real::Finite(-a),
            Real::Infinity => Real::NegInfinity,
            Real::Undefined => Real::Undefined,
        }
    }

    fn times(self, other: Self) -> (r: Self) {
        match (self, other) {
            (Real::Finite(a), Real::Finite(b)) => Real::Finite(finite_product(a, b)),
            _ => {
                let negative = self.sign_is_negative() != other.sign_is_negative();
                assert(negative == (self.sign() * other.sign() < 0)) by (nonlinear_arith)
                    requires
                        negative == ((self.sign() < 0) != (other.sign() < 0)),
                        self.sign() != 0,
                        other.sign() != 0,
                ;
                if negative {
                    Real::NegInfinity
                } else {
                    Real::Infinity
                }
            },
        }
    }

    fn size(lower: Self, upper: Self) -> (r: Self) {
        upper.minus(lower)
    }

    fn max_from_size(self, size: Self) -> (r: Self) {
        self.plus(size)
    }

    fn checked_plus(self, other: Self) -> (r: Option<Self>) {
        match (self, other) {
            (Real::Undefined, _) | (_, Real::Undefined) => None,
            (Real::Infinity, Real::NegInfinity) | (Real::NegInfinity, Real::Infinity) => None,
            (Real::Finite(a), Real::Finite(b)) => finite(a as i128 + b as i128),
            (Real::Finite(_), _) => Some(other),
            _ => Some(self),
        }
    }

    fn checked_minus(self, other: Self) -> (r: Option<Self>) {
        match (self, other) {
            (Real::Undefined, _) | (_, Real::Undefined) => None,
            (Real::Infinity, Real::Infinity) | (Real::NegInfinity, Real::NegInfinity) => None,
            (Real::Finite(a), Real::Finite(b)) => finite(a as i128 - b as i128),
            (Real::Finite(_), Real::Infinity) => Some(Real::NegInfinity),
            (Real::Finite(_), Real::NegInfinity) => Some(Real::Infinity),
            _ => Some(self),
        }
    }

    fn checked_negated(self) -> (r: Option<Self>) {
        match self {
            Real::NegInfinity => Some(Real::Infinity),
            Real::Finite(a) => finite(-(a as i128)),
            Real::Infinity => Some(Real::NegInfinity),
            Real::Undefined => None,
        }
    }

    fn checked_times(self, other: Self) -> (r: Option<Self>) {
        match (self, other) {
            (Real::Undefined, _) | (_, Real::Undefined) => None,
            (Real::Finite(a), Real::Finite(b)) => {
                if has_finite_product(a, b) {
                    Some(Real::Finite(finite_product(a, b)))
                } else {
                    None
                }
            },
            _ => {
                if self.sign_is_zero() || other.sign_is_zero() {
                    None
                } else {
                    Some(self.times(other))
                }
            },
        }
    }

    fn checked_size(lower: Self, upper: Self) -> (r: Option<Self>) {
        if lower.at_most(upper) {
            upper.checked_minus(lower)
        } else {
            None
        }
    }

    fn checked_max_from_size(self, size: Self) -> (r: Option<Self>) {
        self.checked_plus(size)
    }
}

/// The finite value of the given number of units, where there is one.
fn finite(units: i128) -> (r: Option<Real>)
    ensures
        r == if fits_units(units as int) {
            Some(Real::Finite(units as i64))
        } else {
            None
        },
{
    if -0x8000_0000_0000_0000 <= units && units <= 0x7FFF_FFFF_FFFF_FFFF {
        Some(Real::Finite(units as i64))
    } else {
        None
    }
}

/// Whether the exact product of two finite values is a finite value.
fn has_finite_product(a: i64, b: i64) -> (r: bool)
    ensures
        r == ((a * b) % 65536 == 0 && fits_units((a * b) / 65536)),
{
    let negative = (a < 0) != (b < 0);
    let ma: u128 = if a < 0 {
        (-(a as i128)) as u128
    } else {
        a as u128
    };
    let mb: u128 = if b < 0 {
        (-(b as i128)) as u128
    } else {
        b as u128
    };
    assert(ma * mb <= 0x8000_0000_0000_0000 * 0x8000_0000_0000_0000) by (nonlinear_arith)
        requires
            ma <= 0x8000_0000_0000_0000,
            mb <= 0x8000_0000_0000_0000,
    ;
    let product: u128 = ma * mb;
    assert(negative ==> product == -(a * b)) by (nonlinear_arith)
        requires
            product == ma * mb,
            ma == (if a < 0 { -a } else { a as int }),
            mb == (if b < 0 { -b } else { b as int }),
            negative == ((a < 0) != (b < 0)),
    ;
    assert(!negative ==> product == a * b) by (nonlinear_arith)
        requires
            product == ma * mb,
            ma == (if a < 0 { -a } else { a as int }),
            mb == (if b < 0 { -b } else { b as int }),
            negative == ((a < 0) != (b < 0)),
    ;
    if product % 65536 != 0 {
        false
    } else if negative {
        product / 65536 <= 0x8000_0000_0000_0000
    } else {
        product / 65536 <= 0x7FFF_FFFF_FFFF_FFFF
    }
}

} // verus!
