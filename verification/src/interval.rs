use vstd::prelude::*;
use crate::bounds::{bounds_of, AbstractBounds, Bounds, GuaranteedBounded};
use crate::continuous::Real;
use crate::scalar::{scalar_le, scalar_lt, scalar_max, scalar_min, Scalar};

verus! {

/// A closed interval `[lower, upper]` that is never empty.
///
/// Invariant ([`GuaranteedBounded::wf`]): `lower <= upper`. A pair of bounds
/// that is out of order is no interval; [`Interval::new`] turns it into
/// `Bounds::Empty`.
#[derive(Clone, Copy, Debug, PartialEq, Eq)]
pub struct Interval<T: Scalar> {
    pub lower: T,
    pub upper: T,
}

impl<T: Scalar> GuaranteedBounded for Interval<T> {
    type Point = T;

    type Vector = T;

    open spec fn wf(self) -> bool {
        scalar_le(self.lower, self.upper)
    }

    open spec fn new_spec(lower: T, upper: T) -> Bounds<Self> {
        if scalar_le(lower, upper) {
            Bounds::Bounded(Interval { lower, upper })
        } else {
            Bounds::Empty
        }
    }

    open spec fn covers(self, other: Self) -> bool {
        scalar_le(self.lower, other.lower) && scalar_le(other.upper, self.upper)
    }

    open spec fn meets(self, other: Self) -> bool {
        !(scalar_lt(self.upper, other.lower) || scalar_lt(other.upper, self.lower))
    }

    open spec fn joined(self, other: Self) -> Self {
        Interval {
            lower: scalar_min(self.lower, other.lower),
            upper: scalar_max(self.upper, other.upper),
        }
    }

    open spec fn clipped(self, other: Self) -> Bounds<Self> {
        Self::new_spec(scalar_max(self.lower, other.lower), scalar_min(self.upper, other.upper))
    }

    open spec fn can_shift(self, offset: T) -> bool {
        self.lower.can_plus(offset) && self.upper.can_plus(offset)
    }

    open spec fn shifted(self, offset: T) -> Self {
        Interval { lower: self.lower.plus_spec(offset), upper: self.upper.plus_spec(offset) }
    }

    open spec fn can_dilate(self, border: T) -> bool {
        self.lower.can_minus(border) && self.upper.can_plus(border)
    }

    open spec fn dilated(self, border: T) -> Bounds<Self> {
        Self::new_spec(self.lower.minus_spec(border), self.upper.plus_spec(border))
    }

    proof fn lemma_new_is_wf(lower: T, upper: T) {
    }

    proof fn lemma_covers_is_reflexive(a: Self) {
    }

    proof fn lemma_covers_is_transitive(a: Self, b: Self, c: Self) {
    }

    proof fn lemma_mutual_cover_is_equality(a: Self, b: Self) {
        T::lemma_rank_is_injective(a.lower, b.lower);
        T::lemma_rank_is_injective(a.upper, b.upper);
    }

    proof fn lemma_joined_is_least_cover(a: Self, b: Self, c: Self) {
    }

    proof fn lemma_clipped_is_shared_part(a: Self, b: Self) {
    }

    proof fn lemma_shifted_is_wf(a: Self, offset: T) {
        T::lemma_plus_is_monotone(a.lower, a.upper, offset);
    }

    proof fn lemma_dilated_is_wf(a: Self, border: T) {
    }

    fn _new(lower: T, upper: T) -> (r: Bounds<Self>) {
        if lower.at_most(upper) {
            Bounds::Bounded(Interval { lower, upper })
        } else {
            Bounds::Empty
        }
    }

    fn _contains(&self, other: &Self) -> (r: bool) {
        self.lower.at_most(other.lower) && other.upper.at_most(self.upper)
    }

    fn _intersects(&self, other: &Self) -> (r: bool) {
        !(self.upper.below(other.lower) || other.upper.below(self.lower))
    }

    fn _expand_to(&mut self, other: &Self) {
        self.lower = self.lower.min(other.lower);
        self.upper = self.upper.max(other.upper);
    }

    fn _clipped_to(&self, other: &Self) -> (r: Bounds<Self>) {
        Self::_new(self.lower.max(other.lower), self.upper.min(other.upper))
    }

    fn _shift_by(&mut self, offset: T) {
        self.lower = self.lower.plus(offset);
        self.upper = self.upper.plus(offset);
    }

    fn _dilated_by(&self, border: T) -> (r: Bounds<Self>) {
        Self::_new(self.lower.minus(border), self.upper.plus(border))
    }

    fn _checked_shifted_by(&self, offset: T) -> (r: Option<Self>) {
        match (self.lower.checked_plus(offset), self.upper.checked_plus(offset)) {
            (Some(lower), Some(upper)) => Some(Interval { lower, upper }),
            _ => None,
        }
    }

    fn _checked_dilated_by(&self, border: T) -> (r: Option<Bounds<Self>>) {
        match (self.lower.checked_minus(border), self.upper.checked_plus(border)) {
            (Some(lower), Some(upper)) => Some(Self::_new(lower, upper)),
            _ => None,
        }
    }
}

impl<T: Scalar> AbstractBounds<Interval<T>> for Interval<T> {
    open spec fn bounds_spec(self) -> Bounds<Interval<T>> {
        Bounds::Bounded(self)
    }

    open spec fn is_valid(self) -> bool {
        self.wf()
    }

    proof fn lemma_valid_gives_wf(self) {
    }

    fn to_bounds(self) -> (b: Bounds<Interval<T>>) {
        Bounds::Bounded(self)
    }
}

impl<'a, T: Scalar> AbstractBounds<Interval<T>> for &'a Interval<T> {
    open spec fn bounds_spec(self) -> Bounds<Interval<T>> {
        Bounds::Bounded(*self)
    }

    open spec fn is_valid(self) -> bool {
        self.wf()
    }

    proof fn lemma_valid_gives_wf(self) {
    }

    fn to_bounds(self) -> (b: Bounds<Interval<T>>) {
        Bounds::Bounded(*self)
    }
}

/// A point of the discrete domain stands for the interval that holds it alone.
impl AbstractBounds<Interval<i32>> for i32 {
    open spec fn bounds_spec(self) -> Bounds<Interval<i32>> {
        Bounds::Bounded(Interval { lower: self, upper: self })
    }

    open spec fn is_valid(self) -> bool {
        true
    }

    proof fn lemma_valid_gives_wf(self) {
    }

    fn to_bounds(self) -> (b: Bounds<Interval<i32>>) {
        Bounds::Bounded(Interval { lower: self, upper: self })
    }
}

/// A point of the continuous domain stands for the interval that holds it
/// alone; what is not a number stands for the empty set.
impl AbstractBounds<Interval<Real>> for Real {
    open spec fn bounds_spec(self) -> Bounds<Interval<Real>> {
        Interval::<Real>::new_spec(self, self)
    }

    open spec fn is_valid(self) -> bool {
        true
    }

    proof fn lemma_valid_gives_wf(self) {
    }

    fn to_bounds(self) -> (b: Bounds<Interval<Real>>) {
        Interval::new(self, self)
    }
}

impl<T: Scalar> Interval<T> {
    /// The interval `[lower, upper]`: `Bounded` exactly when `lower <= upper`,
    /// else `Empty`.
    pub fn new(lower: T, upper: T) -> (r: Bounds<Self>)
        ensures
            r == Self::new_spec(lower, upper),
            r.wf(),
    {
        Self::_new(lower, upper)
    }

    /// The interval that starts at `min` and has length `size`; `Empty` where
    /// `size` is zero or less.
    pub fn with_min_and_size(min: T, size: T) -> (r: Bounds<Self>)
        requires
            !scalar_le(size, T::zero_spec()) ==> min.can_reach(size),
        ensures
            r == if scalar_le(size, T::zero_spec()) {
                Bounds::Empty
            } else {
                Self::new_spec(min, min.reach_spec(size))
            },
            r.wf(),
    {
        if size.at_most(T::zero()) {
            Bounds::Empty
        } else {
            Self::_new(min, min.max_from_size(size))
        }
    }

    /// The smallest bounds that hold every item.
    pub fn hull<U: AbstractBounds<Self>>(items: &Vec<U>) -> (r: Bounds<Self>)
        ensures
            r == Bounds::<Self>::hull_of(bounds_of(items@)),
            (forall|k: int| 0 <= k < items.len() ==> (#[trigger] items[k]).is_valid()) ==> r.wf(),
    {
        Bounds::<Self>::hull(items)
    }

    /// An interval is never empty.
    pub fn is_empty(&self) -> (r: bool)
        ensures
            !r,
    {
        false
    }

    /// The lower bound.
    pub fn min(&self) -> (r: T)
        ensures
            r == self.lower,
    {
        self.lower
    }

    /// The upper bound.
    pub fn max(&self) -> (r: T)
        ensures
            r == self.upper,
    {
        self.upper
    }

    /// The lower bound.
    pub fn lower(&self) -> (r: T)
        ensures
            r == self.lower,
    {
        self.lower
    }

    /// The upper bound.
    pub fn upper(&self) -> (r: T)
        ensures
            r == self.upper,
    {
        self.upper
    }

    /// The length of the interval, by the rule of its domain.
    pub fn size(&self) -> (r: T)
        requires
            self.wf(),
            T::can_size(self.lower, self.upper),
        ensures
            r == T::size_spec(self.lower, self.upper),
            scalar_le(T::zero_spec(), r),
    {
        proof {
            T::lemma_zero_is_ordered();
            T::lemma_size_is_not_negative(self.lower, self.upper);
        }
        T::size(self.lower, self.upper)
    }

    /// Whether `other` lies inside the interval; the empty set always does.
    pub fn contains<U: AbstractBounds<Self>>(&self, other: U) -> (r: bool)
        ensures
            r == Bounds::Bounded(*self).covers(other.bounds_spec()),
    {
        match &other.to_bounds() {
            Bounds::Bounded(b) => self._contains(b),
            Bounds::Empty => true,
        }
    }

    /// Whether the interval shares a point with `other`; with the empty set it
    /// never does.
    pub fn intersects<U: AbstractBounds<Self>>(&self, other: U) -> (r: bool)
        ensures
            r == Bounds::Bounded(*self).meets(other.bounds_spec()),
    {
        match &other.to_bounds() {
            Bounds::Bounded(b) => self._intersects(b),
            Bounds::Empty => false,
        }
    }

    /// The interval moved by `offset`.
    pub fn shifted_by(&self, offset: T) -> (r: Self)
        requires
            self.can_shift(offset),
        ensures
            r == self.shifted(offset),
            self.wf() ==> r.wf(),
    {
        proof {
            if self.wf() {
                Self::lemma_shifted_is_wf(*self, offset);
            }
        }
        let mut moved = *self;
        moved._shift_by(offset);
        moved
    }

    /// What the interval shares with `other`.
    pub fn clipped_to<U: AbstractBounds<Self>>(&self, other: U) -> (r: Bounds<Self>)
        ensures
            r == Bounds::Bounded(*self).clipped(other.bounds_spec()),
            r.wf(),
    {
        match &other.to_bounds() {
            Bounds::Bounded(b) => self._clipped_to(b),
            Bounds::Empty => Bounds::Empty,
        }
    }

    /// The smallest interval that holds this one and `other`.
    pub fn expanded_to<U: AbstractBounds<Self>>(&self, other: U) -> (r: Bounds<Self>)
        ensures
            r == Bounds::Bounded(*self).joined(other.bounds_spec()),
            r is Bounded,
            self.wf() && other.is_valid() ==> r.wf(),
    {
        let mut grown = *self;
        grown.expand_to(other);
        Bounds::Bounded(grown)
    }

    /// The interval grown by `border` at both ends. A negative border shrinks
    /// it, and leaves `Empty` where the ends cross.
    pub fn dilated_by(&self, border: T) -> (r: Bounds<Self>)
        requires
            self.can_dilate(border),
        ensures
            r == self.dilated(border),
            r.wf(),
    {
        self._dilated_by(border)
    }

    /// The interval shrunk by `border` at both ends: dilation by `-border`.
    pub fn eroded_by(&self, border: T) -> (r: Bounds<Self>)
        requires
            border.can_negate(),
            self.can_dilate(border.negated_spec()),
        ensures
            r == self.dilated(border.negated_spec()),
            r.wf(),
    {
        self._dilated_by(border.negated())
    }

    /// Grows the interval in place until it holds `other` too.
    pub fn expand_to<U: AbstractBounds<Self>>(&mut self, other: U)
        ensures
            Bounds::Bounded(*final(self)) == Bounds::Bounded(*old(self)).joined(other.bounds_spec()),
            old(self).wf() && other.is_valid() ==> final(self).wf(),
    {
        match &other.to_bounds() {
            Bounds::Bounded(b) => {
                self._expand_to(b);
            },
            Bounds::Empty => {},
        }
    }

    /// Moves the interval in place.
    pub fn shift_by(&mut self, offset: T)
        requires
            old(self).can_shift(offset),
        ensures
            *final(self) == old(self).shifted(offset),
            old(self).wf() ==> final(self).wf(),
    {
        proof {
            if self.wf() {
                Self::lemma_shifted_is_wf(*self, offset);
            }
        }
        self._shift_by(offset);
    }
}

impl<T: Scalar> Bounds<Interval<T>> {
    /// The lower bound, where there is one.
    pub fn min(&self) -> (r: Option<T>)
        ensures
            r == match *self {
                Bounds::Bounded(i) => Some(i.lower),
                Bounds::Empty => None,
            },
    {
        match self {
            Bounds::Bounded(i) => Some(i.lower),
            Bounds::Empty => None,
        }
    }

    /// The upper bound, where there is one.
    pub fn max(&self) -> (r: Option<T>)
        ensures
            r == match *self {
                Bounds::Bounded(i) => Some(i.upper),
                Bounds::Empty => None,
            },
    {
        match self {
            Bounds::Bounded(i) => Some(i.upper),
            Bounds::Empty => None,
        }
    }

    /// Whether the length is representable; that of the empty set always is.
    pub open spec fn can_size(self) -> bool {
        match self {
            Bounds::Bounded(i) => T::can_size(i.lower, i.upper),
            Bounds::Empty => true,
        }
    }

    /// The length: zero for the empty set.
    pub open spec fn size_spec(self) -> T {
        match self {
            Bounds::Bounded(i) => T::size_spec(i.lower, i.upper),
            Bounds::Empty => T::zero_spec(),
        }
    }

    /// The length, which is zero for the empty set, or `None` where the
    /// bounds are out of order or the length is not representable.
    pub fn checked_size(&self) -> (r: Option<T>)
        ensures
            r == if self.wf() && self.can_size() {
                Some(self.size_spec())
            } else {
                None
            },
    {
        match self {
            Bounds::Bounded(i) => T::checked_size(i.lower, i.upper),
            Bounds::Empty => Some(T::zero()),
        }
    }

    /// The length, which is zero for the empty set.
    pub fn size(&self) -> (r: T)
        requires
            self.wf(),
            self.can_size(),
        ensures
            r == self.size_spec(),
            scalar_le(T::zero_spec(), r),
    {
        match self {
            Bounds::Bounded(i) => i.size(),
            Bounds::Empty => {
                proof {
                    T::lemma_zero_is_ordered();
                }
                T::zero()
            },
        }
    }
}

} // verus!
