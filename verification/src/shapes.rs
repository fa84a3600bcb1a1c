use vstd::prelude::*;
use crate::bounds::{Bounds, GuaranteedBounded};
use crate::continuous::Real;
use crate::interval::Interval;
use crate::point::{Point2, Vector2};
use crate::rect::Rect;
use crate::scalar::Scalar;
use core::ops::Range;

verus! {

/// A possibly empty interval of the continuous domain.
pub type RealInterval = Bounds<Interval<Real>>;

/// A possibly empty interval of the discrete domain.
pub type IndexInterval = Bounds<Interval<i32>>;

/// A possibly empty rectangle of the continuous domain.
pub type RealRect = Bounds<Rect<Real>>;

/// A possibly empty rectangle of the discrete domain.
pub type IndexRect = Bounds<Rect<i32>>;

impl<T: Scalar> Interval<T> {
    /// The interval that holds the one point `at`; `Empty` where `at` is
    /// unorderable.
    pub fn point(at: T) -> (r: Bounds<Self>)
        ensures
            r == Self::new_spec(at, at),
            r.wf(),
    {
        Self::new(at, at)
    }
}

impl Interval<i32> {
    /// The discrete interval from `lower` up to, but without, `end`: the
    /// closed interval `[lower, end - 1]`.
    pub fn half_open(lower: i32, end: i32) -> (r: Bounds<Self>)
        ensures
            r == if lower < end {
                Bounds::Bounded(Interval { lower, upper: (end - 1) as i32 })
            } else {
                Bounds::Empty
            },
            r.wf(),
    {
        if lower < end {
            Self::new(lower, end - 1)
        } else {
            Bounds::Empty
        }
    }

    /// The positions that the interval takes up in a sequence whose first
    /// position stands for the index `-origin`: from `lower + origin` up to,
    /// but without, `upper + origin + 1`.
    pub fn to_range_with_origin(&self, origin: i32) -> (r: Range<usize>)
        requires
            self.wf(),
            0 <= self.lower + origin,
        ensures
            r.start == self.lower + origin,
            r.end == self.upper + origin + 1,
    {
        let start: i64 = (self.lower as i64) + (origin as i64);
        let end: i64 = (self.upper as i64) + (origin as i64) + 1;
        Range { start: start as usize, end: end as usize }
    }
}

impl Bounds<Interval<i32>> {
    /// Whether the first position of the range is a position at all.
    pub open spec fn starts_in_range(self, origin: i32) -> bool {
        match self {
            Bounds::Bounded(i) => 0 <= i.lower + origin,
            Bounds::Empty => true,
        }
    }

    /// The positions that the bounds take up in a sequence whose first
    /// position stands for the index `-origin`; none for the empty set.
    pub fn to_range_with_origin(&self, origin: i32) -> (r: Range<usize>)
        requires
            self.wf(),
            self.starts_in_range(origin),
        ensures
            match *self {
                Bounds::Bounded(i) => r.start == i.lower + origin && r.end == i.upper + origin
                    + 1,
                Bounds::Empty => r.start == 0 && r.end == 0,
            },
    {
        match self {
            Bounds::Bounded(i) => i.to_range_with_origin(origin),
            Bounds::Empty => Range { start: 0, end: 0 },
        }
    }
}

impl Real {
    /// Whether half of the value is representable: half of an odd number of
    /// units is not.
    pub open spec fn can_halve(self) -> bool {
        match self {
            Real::Finite(n) => n % 2 == 0,
            Real::Undefined => false,
            _ => true,
        }
    }

    /// Half of the value.
    pub open spec fn halved_spec(self) -> Real {
        match self {
            Real::Finite(n) => Real::Finite((n / 2) as i64),
            _ => self,
        }
    }

    /// Half of the value.
    pub fn halved(self) -> (r: Real)
        requires
            self.can_halve(),
        ensures
            r == self.halved_spec(),
    {
        match self {
            Real::Finite(n) => {
                if n >= 0 {
                    Real::Finite(n / 2)
                } else {
                    Real::Finite(-((-(n + 2)) / 2) - 1)
                }
            },
            _ => self,
        }
    }
}

impl Interval<Real> {
    /// The interval of everything from `lower` upwards.
    pub fn from_lower(lower: Real) -> (r: Bounds<Self>)
        ensures
            r == Self::new_spec(lower, Real::Infinity),
            r.wf(),
    {
        Self::new(lower, Real::Infinity)
    }

    /// The interval of everything up to `upper`.
    pub fn to_upper(upper: Real) -> (r: Bounds<Self>)
        ensures
            r == Self::new_spec(Real::NegInfinity, upper),
            r.wf(),
    {
        Self::new(Real::NegInfinity, upper)
    }

    /// The interval of everything.
    pub fn unbounded() -> (r: Bounds<Self>)
        ensures
            r == Bounds::Bounded(Interval { lower: Real::NegInfinity, upper: Real::Infinity }),
            r.wf(),
    {
        Self::new(Real::NegInfinity, Real::Infinity)
    }

    /// Whether the interval of length `size` around `center` is
    /// representable.
    pub open spec fn can_center(center: Real, size: Real) -> bool {
        &&& size.can_halve()
        &&& center.can_minus(size.halved_spec())
        &&& center.minus_spec(size.halved_spec()).can_plus(size)
    }

    /// The interval of length `size` around `center`: it starts at
    /// `center - size / 2`.
    pub fn with_center_and_size(center: Real, size: Real) -> (r: Bounds<Self>)
        requires
            Self::can_center(center, size),
        ensures
            r == Self::new_spec(
                center.minus_spec(size.halved_spec()),
                center.minus_spec(size.halved_spec()).plus_spec(size),
            ),
            r.wf(),
    {
        let lower = center.minus(size.halved());
        Self::new(lower, lower.plus(size))
    }

    /// Whether the middle of the interval is representable.
    pub open spec fn can_find_center(self) -> bool {
        self.lower.can_plus(self.upper) && self.lower.plus_spec(self.upper).can_halve()
    }

    /// The middle of the interval: half of the sum of its bounds.
    pub fn center(&self) -> (r: Real)
        requires
            self.can_find_center(),
        ensures
            r == self.lower.plus_spec(self.upper).halved_spec(),
    {
        self.lower.plus(self.upper).halved()
    }
}

impl Rect<i32> {
    /// The discrete rectangle from `lower` up to, but without, `end` on both
    /// axes.
    pub fn half_open(lower: Point2<i32>, end: Point2<i32>) -> (r: Bounds<Self>)
        ensures
            r == if lower.x < end.x && lower.y < end.y {
                Bounds::Bounded(
                    Rect {
                        x: Interval { lower: lower.x, upper: (end.x - 1) as i32 },
                        y: Interval { lower: lower.y, upper: (end.y - 1) as i32 },
                    },
                )
            } else {
                Bounds::Empty
            },
            r.wf(),
    {
        Bounds::from_xy(Interval::half_open(lower.x, end.x), Interval::half_open(lower.y, end.y))
    }
}

impl Rect<i32> {
    /// Whether the rectangle starts at or after `origin` on both axes.
    pub open spec fn starts_at_or_after(self, origin: Point2<i32>) -> bool {
        origin.x <= self.x.lower && origin.y <= self.y.lower
    }

    /// The rows and columns that the rectangle takes up in a grid of rows
    /// whose first cell stands for the point `origin`: rows by `y`, columns by
    /// `x`, each from the lower bound less the origin up to, but without, the
    /// upper bound less the origin plus one.
    pub fn to_window(&self, origin: &Point2<i32>) -> (r: (Range<usize>, Range<usize>))
        requires
            self.wf(),
            self.starts_at_or_after(*origin),
            self.y.upper - origin.y + 1 <= usize::MAX,
            self.x.upper - origin.x + 1 <= usize::MAX,
        ensures
            r.0.start == self.y.lower - origin.y,
            r.0.end == self.y.upper - origin.y + 1,
            r.1.start == self.x.lower - origin.x,
            r.1.end == self.x.upper - origin.x + 1,
    {
        let row_start: i64 = (self.y.lower as i64) - (origin.y as i64);
        let row_end: i64 = (self.y.upper as i64) - (origin.y as i64) + 1;
        let column_start: i64 = (self.x.lower as i64) - (origin.x as i64);
        let column_end: i64 = (self.x.upper as i64) - (origin.x as i64) + 1;
        (
            Range { start: row_start as usize, end: row_end as usize },
            Range { start: column_start as usize, end: column_end as usize },
        )
    }
}

impl Rect<Real> {
    /// The rectangle of everything from `lower` upwards on both axes.
    pub fn from_lower(lower: Point2<Real>) -> (r: Bounds<Self>)
        ensures
            r == Self::new_spec(lower, Point2 { x: Real::Infinity, y: Real::Infinity }),
            r.wf(),
    {
        Self::new(lower, Point2 { x: Real::Infinity, y: Real::Infinity })
    }

    /// The rectangle of everything up to `upper` on both axes.
    pub fn to_upper(upper: Point2<Real>) -> (r: Bounds<Self>)
        ensures
            r == Self::new_spec(Point2 { x: Real::NegInfinity, y: Real::NegInfinity }, upper),
            r.wf(),
    {
        Self::new(Point2 { x: Real::NegInfinity, y: Real::NegInfinity }, upper)
    }

    /// The whole plane.
    pub fn unbounded() -> (r: Bounds<Self>)
        ensures
            r == Bounds::Bounded(
                Rect {
                    x: Interval { lower: Real::NegInfinity, upper: Real::Infinity },
                    y: Interval { lower: Real::NegInfinity, upper: Real::Infinity },
                },
            ),
            r.wf(),
    {
        Self::new(
            Point2 { x: Real::NegInfinity, y: Real::NegInfinity },
            Point2 { x: Real::Infinity, y: Real::Infinity },
        )
    }

    /// The rectangle of the given size around `center`, axis by axis.
    pub fn with_center_and_size(center: &Point2<Real>, size: &Vector2<Real>) -> (r: Bounds<Self>)
        requires
            Interval::<Real>::can_center(center.x, size.x),
            Interval::<Real>::can_center(center.y, size.y),
        ensures
            r == crate::rect::from_xy_spec(
                Interval::<Real>::new_spec(
                    center.x.minus_spec(size.x.halved_spec()),
                    center.x.minus_spec(size.x.halved_spec()).plus_spec(size.x),
                ),
                Interval::<Real>::new_spec(
                    center.y.minus_spec(size.y.halved_spec()),
                    center.y.minus_spec(size.y.halved_spec()).plus_spec(size.y),
                ),
            ),
            r.wf(),
    {
        Bounds::from_xy(
            Interval::with_center_and_size(center.x, size.x),
            Interval::with_center_and_size(center.y, size.y),
        )
    }

    /// The middle of the rectangle, axis by axis.
    pub fn center(&self) -> (r: Point2<Real>)
        requires
            self.x.can_find_center(),
            self.y.can_find_center(),
        ensures
            r == (Point2 {
                x: self.x.lower.plus_spec(self.x.upper).halved_spec(),
                y: self.y.lower.plus_spec(self.y.upper).halved_spec(),
            }),
    {
        Point2 { x: self.x.center(), y: self.y.center() }
    }
}

} // verus!
