use vstd::prelude::*;

verus! {

/// The discrete domain: inclusive integer coordinates.
pub type Index = i32;

/// A number domain over which intervals and rectangles are built.
///
/// Every value has a position on the number line (`rank`) unless it is
/// unorderable, in which case every comparison with it is false. Arithmetic is
/// partial: each operation names the operands on which its exact result can be
/// represented, and is defined there.
pub trait Scalar: Copy + Sized {
    /// Whether the value takes part in the order at all.
    spec fn is_ordered(self) -> bool;

    /// The position of an orderable value on the number line.
    spec fn rank(self) -> int;

    /// The additive identity.
    spec fn zero_spec() -> Self;

    /// Whether `self + other` is representable.
    spec fn can_plus(self, other: Self) -> bool;

    /// `self + other`.
    spec fn plus_spec(self, other: Self) -> Self;

    /// Whether `self - other` is representable.
    spec fn can_minus(self, other: Self) -> bool;

    /// `self - other`.
    spec fn minus_spec(self, other: Self) -> Self;

    /// Whether `-self` is representable.
    spec fn can_negate(self) -> bool;

    /// `-self`.
    spec fn negated_spec(self) -> Self;

    /// Whether `self * other` is representable.
    spec fn can_times(self, other: Self) -> bool;

    /// `self * other`.
    spec fn times_spec(self, other: Self) -> Self;

    /// Whether the length of `[lower, upper]` is representable.
    spec fn can_size(lower: Self, upper: Self) -> bool;

    /// The length of `[lower, upper]` in this domain.
    spec fn size_spec(lower: Self, upper: Self) -> Self;

    /// Whether the upper bound of the interval that starts at `self` and has
    /// length `size` is representable.
    spec fn can_reach(self, size: Self) -> bool;

    /// The upper bound of the interval that starts at `self` and has length
    /// `size`.
    spec fn reach_spec(self, size: Self) -> Self;

    /// Two orderable values at the same position are the same value.
    proof fn lemma_rank_is_injective(a: Self, b: Self)
        requires
            a.is_ordered(),
            b.is_ordered(),
            a.rank() == b.rank(),
        ensures
            a == b,
    ;

    /// Zero is orderable.
    proof fn lemma_zero_is_ordered()
        ensures
            Self::zero_spec().is_ordered(),
    ;

    /// Adding the same offset to two values keeps their order.
    proof fn lemma_plus_is_monotone(a: Self, b: Self, c: Self)
        requires
            a.is_ordered() && b.is_ordered() && a.rank() <= b.rank(),
            a.can_plus(c),
            b.can_plus(c),
        ensures
            a.plus_spec(c).is_ordered() && b.plus_spec(c).is_ordered() && a.plus_spec(c).rank()
                <= b.plus_spec(c).rank(),
    ;

    /// The length of a well-ordered interval is never below zero.
    proof fn lemma_size_is_not_negative(lower: Self, upper: Self)
        requires
            lower.is_ordered() && upper.is_ordered() && lower.rank() <= upper.rank(),
            Self::can_size(lower, upper),
        ensures
            Self::size_spec(lower, upper).is_ordered() && Self::zero_spec().rank() <= Self::size_spec(
                lower,
                upper,
            ).rank(),
    ;

    /// A product with a zero factor is zero.
    proof fn lemma_times_zero(a: Self)
        ensures
            a.can_times(Self::zero_spec()) ==> a.times_spec(Self::zero_spec())
                == Self::zero_spec(),
            Self::zero_spec().can_times(a) ==> Self::zero_spec().times_spec(a)
                == Self::zero_spec(),
    ;

    /// `self <= other`.
    fn at_most(self, other: Self) -> (r: bool)
        ensures
            r == (self.is_ordered() && other.is_ordered() && self.rank() <= other.rank()),
    ;

    /// `self < other`.
    fn below(self, other: Self) -> (r: bool)
        ensures
            r == (self.is_ordered() && other.is_ordered() && self.rank() < other.rank()),
    ;

    /// The smaller of two values; an unorderable value yields to the other.
    fn min(self, other: Self) -> (r: Self)
        ensures
            r == if !self.is_ordered() {
                other
            } else if !other.is_ordered() {
                self
            } else if self.rank() <= other.rank() {
                self
            } else {
                other
            },
    ;

    /// The larger of two values; an unorderable value yields to the other.
    fn max(self, other: Self) -> (r: Self)
        ensures
            r == if !self.is_ordered() {
                other
            } else if !other.is_ordered() {
                self
            } else if self.rank() >= other.rank() {
                self
            } else {
                other
            },
    ;

    fn zero() -> (r: Self)
        ensures
            r == Self::zero_spec(),
    ;

    fn plus(self, other: Self) -> (r: Self)
        requires
            self.can_plus(other),
        ensures
            r == self.plus_spec(other),
    ;

    fn minus(self, other: Self) -> (r: Self)
        requires
            self.can_minus(other),
        ensures
            r == self.minus_spec(other),
    ;

    fn negated(self) -> (r: Self)
        requires
            self.can_negate(),
        ensures
            r == self.negated_spec(),
    ;

    fn times(self, other: Self) -> (r: Self)
        requires
            self.can_times(other),
        ensures
            r == self.times_spec(other),
    ;

    /// The length of the interval `[lower, upper]`.
    fn size(lower: Self, upper: Self) -> (r: Self)
        requires
            lower.is_ordered() && upper.is_ordered() && lower.rank() <= upper.rank(),
            Self::can_size(lower, upper),
        ensures
            r == Self::size_spec(lower, upper),
    ;

    /// The upper bound of the interval that starts at `self` and has length
    /// `size`.
    fn max_from_size(self, size: Self) -> (r: Self)
        requires
            self.can_reach(size),
        ensures
            r == self.reach_spec(size),
    ;

    /// `self + other`, where that is representable.
    fn checked_plus(self, other: Self) -> (r: Option<Self>)
        ensures
            r == if self.can_plus(other) {
                Some(self.plus_spec(other))
            } else {
                None
            },
    ;

    /// `self - other`, where that is representable.
    fn checked_minus(self, other: Self) -> (r: Option<Self>)
        ensures
            r == if self.can_minus(other) {
                Some(self.minus_spec(other))
            } else {
                None
            },
    ;

    /// `-self`, where that is representable.
    fn checked_negated(self) -> (r: Option<Self>)
        ensures
            r == if self.can_negate() {
                Some(self.negated_spec())
            } else {
                None
            },
    ;

    /// `self * other`, where that is representable.
    fn checked_times(self, other: Self) -> (r: Option<Self>)
        ensures
            r == if self.can_times(other) {
                Some(self.times_spec(other))
            } else {
                None
            },
    ;

    /// The length of `[lower, upper]`, where the bounds are in order and the
    /// length is representable.
    fn checked_size(lower: Self, upper: Self) -> (r: Option<Self>)
        ensures
            r == if lower.is_ordered() && upper.is_ordered() && lower.rank() <= upper.rank()
                && Self::can_size(lower, upper) {
                Some(Self::size_spec(lower, upper))
            } else {
                None
            },
    ;

    /// The upper bound of the interval that starts at `self` and has length
    /// `size`, where that is representable.
    fn checked_max_from_size(self, size: Self) -> (r: Option<Self>)
        ensures
            r == if self.can_reach(size) {
                Some(self.reach_spec(size))
            } else {
                None
            },
    ;
}

/// `a <= b`: both are orderable and `a` does not lie after `b`.
pub open spec fn scalar_le<T: Scalar>(a: T, b: T) -> bool {
    a.is_ordered() && b.is_ordered() && a.rank() <= b.rank()
}

/// `a < b`: both are orderable and `a` lies before `b`.
pub open spec fn scalar_lt<T: Scalar>(a: T, b: T) -> bool {
    a.is_ordered() && b.is_ordered() && a.rank() < b.rank()
}

/// The smaller of two values, where an unorderable one yields to the other.
pub open spec fn scalar_min<T: Scalar>(a: T, b: T) -> T {
    if !a.is_ordered() {
        b
    } else if !b.is_ordered() {
        a
    } else if a.rank() <= b.rank() {
        a
    } else {
        b
    }
}

/// The larger of two values, where an unorderable one yields to the other.
pub open spec fn scalar_max<T: Scalar>(a: T, b: T) -> T {
    if !a.is_ordered() {
        b
    } else if !b.is_ordered() {
        a
    } else if a.rank() >= b.rank() {
        a
    } else {
        b
    }
}

/// Whether a mathematical integer is a value of the discrete domain.
pub open spec fn fits_index(n: int) -> bool {
    i32::MIN <= n <= i32::MAX
}

impl Scalar for i32 {
    open spec fn is_ordered(self) -> bool {
        true
    }

    open spec fn rank(self) -> int {
        self as int
    }

    open spec fn zero_spec() -> Self {
        0i32
    }

    open spec fn can_plus(self, other: Self) -> bool {
        fits_index(self + other)
    }

    open spec fn plus_spec(self, other: Self) -> Self {
        (self + other) as i32
    }

    open spec fn can_minus(self, other: Self) -> bool {
        fits_index(self - other)
    }

    open spec fn minus_spec(self, other: Self) -> Self {
        (self - other) as i32
    }

    open spec fn can_negate(self) -> bool {
        fits_index(-self)
    }

    open spec fn negated_spec(self) -> Self {
        (-self) as i32
    }

    open spec fn can_times(self, other: Self) -> bool {
        fits_index(self * other)
    }

    open spec fn times_spec(self, other: Self) -> Self {
        (self * other) as i32
    }

    open spec fn can_size(lower: Self, upper: Self) -> bool {
        fits_index(upper - lower + 1)
    }

    open spec fn size_spec(lower: Self, upper: Self) -> Self {
        (upper - lower + 1) as i32
    }

    open spec fn can_reach(self, size: Self) -> bool {
        fits_index(self + size - 1)
    }

    open spec fn reach_spec(self, size: Self) -> Self {
        (self + size - 1) as i32
    }

    proof fn lemma_rank_is_injective(a: Self, b: Self) {
    }

    proof fn lemma_zero_is_ordered() {
    }

    proof fn lemma_plus_is_monotone(a: Self, b: Self, c: Self) {
    }

    proof fn lemma_size_is_not_negative(lower: Self, upper: Self) {
    }

    proof fn lemma_times_zero(a: Self) {
    }

    fn at_most(self, other: Self) -> (r: bool) {
        self <= other
    }

    fn below(self, other: Self) -> (r: bool) {
        self < other
    }

    fn min(self, other: Self) -> (r: Self) {
        if self <= other {
            self
        } else {
            other
        }
    }

    fn max(self, other: Self) -> (r: Self) {
        if self >= other {
            self
        } else {
            other
        }
    }

    fn zero() -> (r: Self) {
        0i32
    }

    fn plus(self, other: Self) -> (r: Self) {
        self + other
    }

    fn minus(self, other: Self) -> (r: Self) {
        self - other
    }

    fn negated(self) -> (r: Self) {
        -self
    }

    fn times(self, other: Self) -> (r: Self) {
        let wide: i64 = (self as i64) * (other as i64);
        assert(wide == (self as int) * (other as int)) by (nonlinear_arith)
            requires
                wide == (self as i64) * (other as i64),
        ;
        wide as i32
    }

    fn size(lower: Self, upper: Self) -> (r: Self) {
        let wide: i64 = (upper as i64) - (lower as i64) + 1;
        wide as i32
    }

    fn max_from_size(self, size: Self) -> (r: Self) {
        let wide: i64 = (self as i64) + (size as i64) - 1;
        wide as i32
    }

    fn checked_plus(self, other: Self) -> (r: Option<Self>) {
        narrowed((self as i64) + (other as i64))
    }

    fn checked_minus(self, other: Self) -> (r: Option<Self>) {
        narrowed((self as i64) - (other as i64))
    }

    fn checked_negated(self) -> (r: Option<Self>) {
        narrowed(-(self as i64))
    }

    fn checked_times(self, other: Self) -> (r: Option<Self>) {
        assert(-0x4000_0000_0000_0000 <= (self as int) * (other as int) <= 0x4000_0000_0000_0000)
            by (nonlinear_arith)
            requires
                -0x8000_0000 <= self <= 0x7FFF_FFFF,
                -0x8000_0000 <= other <= 0x7FFF_FFFF,
        ;
        let wide: i64 = (self as i64) * (other as i64);
        assert(wide == (self as int) * (other as int)) by (nonlinear_arith)
            requires
                wide == (self as i64) * (other as i64),
        ;
        narrowed(wide)
    }

    fn checked_size(lower: Self, upper: Self) -> (r: Option<Self>) {
        if lower <= upper {
            narrowed((upper as i64) - (lower as i64) + 1)
        } else {
            None
        }
    }

    fn checked_max_from_size(self, size: Self) -> (r: Option<Self>) {
        narrowed((self as i64) + (size as i64) - 1)
    }
}

/// The index with the given value, where there is one.
fn narrowed(wide: i64) -> (r: Option<i32>)
    ensures
        r == if fits_index(wide as int) {
            Some(wide as i32)
        } else {
            None
        },
{
    if -0x8000_0000 <= wide && wide <= 0x7FFF_FFFF {
        Some(wide as i32)
    } else {
        None
    }
}

} // verus!
