use vstd::prelude::*;
use crate::bounds::{Bounds, GuaranteedBounded};
use crate::interval::Interval;
use crate::scalar::{scalar_le, scalar_lt, Scalar};
use core::cmp::Ordering;
use vstd::std_specs::cmp::PartialOrdSpec;

verus! {

/// Whether two intervals have the same bounds, by the order of their domain.
pub open spec fn same_bounds<T: Scalar>(a: Interval<T>, b: Interval<T>) -> bool {
    &&& scalar_le(a.lower, b.lower)
    &&& scalar_le(b.lower, a.lower)
    &&& scalar_le(a.upper, b.upper)
    &&& scalar_le(b.upper, a.upper)
}

/// How two intervals are ordered, where they are: the first is less where it
/// lies wholly before the second, greater where it lies wholly after it, and
/// equal where both have the same bounds.
pub open spec fn interval_order<T: Scalar>(a: Interval<T>, b: Interval<T>) -> Option<Ordering> {
    if scalar_lt(a.upper, b.lower) {
        Some(Ordering::Less)
    } else if scalar_lt(b.upper, a.lower) {
        Some(Ordering::Greater)
    } else if same_bounds(a, b) {
        Some(Ordering::Equal)
    } else {
        None
    }
}

/// The partial order of intervals: one is less than another where it lies
/// wholly before it, greater where it lies wholly after it, and equal where
/// both have the same bounds. Intervals that overlap otherwise are not
/// ordered.
impl<T: Scalar + PartialEq> PartialOrd for Interval<T> {
    fn partial_cmp(&self, other: &Self) -> (r: Option<Ordering>) {
        if self.upper.below(other.lower) {
            Some(Ordering::Less)
        } else if other.upper.below(self.lower) {
            Some(Ordering::Greater)
        } else if self.lower.at_most(other.lower) && other.lower.at_most(self.lower)
            && self.upper.at_most(other.upper) && other.upper.at_most(self.upper) {
            Some(Ordering::Equal)
        } else {
            None
        }
    }
}

impl<T: Scalar + PartialEq> vstd::std_specs::cmp::PartialOrdSpecImpl for Interval<T> {
    open spec fn obeys_partial_cmp_spec() -> bool {
        true
    }

    open spec fn partial_cmp_spec(&self, other: &Self) -> Option<Ordering> {
        interval_order(*self, *other)
    }
}

/// The partial order of possibly empty intervals: that of intervals, with the
/// empty set equal to itself and not ordered against anything else.
impl<T: Scalar + PartialEq> PartialOrd for Bounds<Interval<T>> {
    fn partial_cmp(&self, other: &Self) -> (r: Option<Ordering>) {
        match (self, other) {
            (Bounds::Bounded(a), Bounds::Bounded(b)) => a.partial_cmp(b),
            (Bounds::Empty, Bounds::Empty) => Some(Ordering::Equal),
            _ => None,
        }
    }
}

impl<T: Scalar + PartialEq> vstd::std_specs::cmp::PartialOrdSpecImpl for Bounds<Interval<T>> {
    open spec fn obeys_partial_cmp_spec() -> bool {
        true
    }

    open spec fn partial_cmp_spec(&self, other: &Self) -> Option<Ordering> {
        match (*self, *other) {
            (Bounds::Bounded(a), Bounds::Bounded(b)) => interval_order(a, b),
            (Bounds::Empty, Bounds::Empty) => Some(Ordering::Equal),
            _ => None,
        }
    }
}

/// Two well-formed intervals are equal in the order exactly when they are the
/// same interval, one is less or greater than the other only where they share
/// no point, and they are not ordered exactly when they differ and share a
/// point.
pub proof fn lemma_order_of_intervals<T: Scalar + PartialEq>(a: Interval<T>, b: Interval<T>)
    requires
        a.wf(),
        b.wf(),
    ensures
        a.partial_cmp_spec(&b) == Some(Ordering::Equal) <==> a == b,
        a.partial_cmp_spec(&b) == Some(Ordering::Less) ==> !a.meets(b),
        a.partial_cmp_spec(&b) == Some(Ordering::Greater) ==> !a.meets(b),
        a.partial_cmp_spec(&b) is None <==> a.meets(b) && a != b,
        a.partial_cmp_spec(&b) == Some(Ordering::Less) <==> b.partial_cmp_spec(&a) == Some(
            Ordering::Greater,
        ),
{
    if same_bounds(a, b) {
        T::lemma_rank_is_injective(a.lower, b.lower);
        T::lemma_rank_is_injective(a.upper, b.upper);
    }
}

/// Well-formed bounds are equal in the order exactly when they are the same,
/// and ordered otherwise only where neither is empty and they share no point.
pub proof fn lemma_order_of_bounds<T: Scalar + PartialEq>(
    a: Bounds<Interval<T>>,
    b: Bounds<Interval<T>>,
)
    requires
        a.wf(),
        b.wf(),
    ensures
        a.partial_cmp_spec(&b) == Some(Ordering::Equal) <==> a == b,
        a.partial_cmp_spec(&b) == Some(Ordering::Less) ==> !a.meets(b) && !(a is Empty) && !(b
            is Empty),
        a.partial_cmp_spec(&b) == Some(Ordering::Greater) ==> !a.meets(b) && !(a is Empty) && !(b
            is Empty),
{
    if let (Bounds::Bounded(x), Bounds::Bounded(y)) = (a, b) {
        lemma_order_of_intervals(x, y);
    }
}

} // verus!
