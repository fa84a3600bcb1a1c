use vstd::prelude::*;
use crate::bounds::{bounds_of, AbstractBounds, Bounds, GuaranteedBounded};
use crate::interval::Interval;
use crate::point::{Point2, Vector2};
use crate::scalar::{scalar_le, Scalar};

verus! {

/// An axis-aligned rectangle that is never empty: one interval per axis.
///
/// Invariant ([`GuaranteedBounded::wf`]): both intervals are well-formed. A
/// rectangle that would be empty on either axis is no rectangle;
/// [`Bounds::from_xy`] turns it into `Bounds::Empty`.
#[derive(Clone, Copy, Debug, PartialEq, Eq)]
pub struct Rect<T: Scalar> {
    pub x: Interval<T>,
    pub y: Interval<T>,
}

/// The rectangle with the given extent on each axis, which is empty where
/// either extent is.
pub open spec fn from_xy_spec<T: Scalar>(
    x: Bounds<Interval<T>>,
    y: Bounds<Interval<T>>,
) -> Bounds<Rect<T>> {
    match (x, y) {
        (Bounds::Bounded(x), Bounds::Bounded(y)) => Bounds::Bounded(Rect { x, y }),
        _ => Bounds::Empty,
    }
}

/// The rectangle with the given extent on each axis, which is empty where
/// either extent is.
fn pair_axes<T: Scalar>(x: Bounds<Interval<T>>, y: Bounds<Interval<T>>) -> (r: Bounds<Rect<T>>)
    ensures
        r == from_xy_spec(x, y),
{
    match (x, y) {
        (Bounds::Bounded(x), Bounds::Bounded(y)) => Bounds::Bounded(Rect { x, y }),
        _ => Bounds::Empty,
    }
}

/// The four corners of a rectangle, from the lower corner round by the corner
/// with the lower x and the upper y.
pub open spec fn corners_of<T: Scalar>(r: Rect<T>) -> Seq<Point2<T>> {
    seq![
        Point2 { x: r.x.lower, y: r.y.lower },
        Point2 { x: r.x.lower, y: r.y.upper },
        Point2 { x: r.x.upper, y: r.y.upper },
        Point2 { x: r.x.upper, y: r.y.lower },
    ]
}

impl<T: Scalar> GuaranteedBounded for Rect<T> {
    type Point = Point2<T>;

    type Vector = Vector2<T>;

    open spec fn wf(self) -> bool {
        self.x.wf() && self.y.wf()
    }

    open spec fn new_spec(lower: Point2<T>, upper: Point2<T>) -> Bounds<Self> {
        from_xy_spec(
            Interval::<T>::new_spec(lower.x, upper.x),
            Interval::<T>::new_spec(lower.y, upper.y),
        )
    }

    open spec fn covers(self, other: Self) -> bool {
        self.x.covers(other.x) && self.y.covers(other.y)
    }

    open spec fn meets(self, other: Self) -> bool {
        self.x.meets(other.x) && self.y.meets(other.y)
    }

    open spec fn joined(self, other: Self) -> Self {
        Rect { x: self.x.joined(other.x), y: self.y.joined(other.y) }
    }

    open spec fn clipped(self, other: Self) -> Bounds<Self> {
        from_xy_spec(self.x.clipped(other.x), self.y.clipped(other.y))
    }

    open spec fn can_shift(self, offset: Vector2<T>) -> bool {
        self.x.can_shift(offset.x) && self.y.can_shift(offset.y)
    }

    open spec fn shifted(self, offset: Vector2<T>) -> Self {
        Rect { x: self.x.shifted(offset.x), y: self.y.shifted(offset.y) }
    }

    open spec fn can_dilate(self, border: Vector2<T>) -> bool {
        self.x.can_dilate(border.x) && self.y.can_dilate(border.y)
    }

    open spec fn dilated(self, border: Vector2<T>) -> Bounds<Self> {
        from_xy_spec(self.x.dilated(border.x), self.y.dilated(border.y))
    }

    proof fn lemma_new_is_wf(lower: Point2<T>, upper: Point2<T>) {
    }

    proof fn lemma_covers_is_reflexive(a: Self) {
    }

    proof fn lemma_covers_is_transitive(a: Self, b: Self, c: Self) {
    }

    proof fn lemma_mutual_cover_is_equality(a: Self, b: Self) {
        Interval::<T>::lemma_mutual_cover_is_equality(a.x, b.x);
        Interval::<T>::lemma_mutual_cover_is_equality(a.y, b.y);
    }

    proof fn lemma_joined_is_least_cover(a: Self, b: Self, c: Self) {
        Interval::<T>::lemma_joined_is_least_cover(a.x, b.x, c.x);
        Interval::<T>::lemma_joined_is_least_cover(a.y, b.y, c.y);
    }

    proof fn lemma_clipped_is_shared_part(a: Self, b: Self) {
        Interval::<T>::lemma_clipped_is_shared_part(a.x, b.x);
        Interval::<T>::lemma_clipped_is_shared_part(a.y, b.y);
    }

    proof fn lemma_shifted_is_wf(a: Self, offset: Vector2<T>) {
        Interval::<T>::lemma_shifted_is_wf(a.x, offset.x);
        Interval::<T>::lemma_shifted_is_wf(a.y, offset.y);
    }

    proof fn lemma_dilated_is_wf(a: Self, border: Vector2<T>) {
    }

    fn _new(lower: Point2<T>, upper: Point2<T>) -> (r: Bounds<Self>) {
        let x = Interval::_new(lower.x, upper.x);
        let y = Interval::_new(lower.y, upper.y);
        pair_axes(x, y)
    }

    fn _contains(&self, other: &Self) -> (r: bool) {
        self.x._contains(&other.x) && self.y._contains(&other.y)
    }

    fn _intersects(&self, other: &Self) -> (r: bool) {
        self.x._intersects(&other.x) && self.y._intersects(&other.y)
    }

    fn _expand_to(&mut self, other: &Self) {
        let mut x = self.x;
        let mut y = self.y;
        x._expand_to(&other.x);
        y._expand_to(&other.y);
        *self = Rect { x, y };
    }

    fn _clipped_to(&self, other: &Self) -> (r: Bounds<Self>) {
        pair_axes(self.x._clipped_to(&other.x), self.y._clipped_to(&other.y))
    }

    fn _shift_by(&mut self, offset: Vector2<T>) {
        let mut x = self.x;
        let mut y = self.y;
        x._shift_by(offset.x);
        y._shift_by(offset.y);
        *self = Rect { x, y };
    }

    fn _dilated_by(&self, border: Vector2<T>) -> (r: Bounds<Self>) {
        pair_axes(self.x._dilated_by(border.x), self.y._dilated_by(border.y))
    }

    fn _checked_shifted_by(&self, offset: Vector2<T>) -> (r: Option<Self>) {
        match (self.x._checked_shifted_by(offset.x), self.y._checked_shifted_by(offset.y)) {
            (Some(x), Some(y)) => Some(Rect { x, y }),
            _ => None,
        }
    }

    fn _checked_dilated_by(&self, border: Vector2<T>) -> (r: Option<Bounds<Self>>) {
        match (self.x._checked_dilated_by(border.x), self.y._checked_dilated_by(border.y)) {
            (Some(x), Some(y)) => Some(pair_axes(x, y)),
            _ => None,
        }
    }
}

impl<T: Scalar> AbstractBounds<Rect<T>> for Rect<T> {
    open spec fn bounds_spec(self) -> Bounds<Rect<T>> {
        Bounds::Bounded(self)
    }

    open spec fn is_valid(self) -> bool {
        self.wf()
    }

    proof fn lemma_valid_gives_wf(self) {
    }

    fn to_bounds(self) -> (b: Bounds<Rect<T>>) {
        Bounds::Bounded(self)
    }
}

impl<'a, T: Scalar> AbstractBounds<Rect<T>> for &'a Rect<T> {
    open spec fn bounds_spec(self) -> Bounds<Rect<T>> {
        Bounds::Bounded(*self)
    }

    open spec fn is_valid(self) -> bool {
        self.wf()
    }

    proof fn lemma_valid_gives_wf(self) {
    }

    fn to_bounds(self) -> (b: Bounds<Rect<T>>) {
        Bounds::Bounded(*self)
    }
}

/// A point stands for the rectangle that holds it alone, or for the empty set
/// where a coordinate is unorderable.
impl<T: Scalar> AbstractBounds<Rect<T>> for Point2<T> {
    open spec fn bounds_spec(self) -> Bounds<Rect<T>> {
        Rect::<T>::new_spec(self, self)
    }

    open spec fn is_valid(self) -> bool {
        true
    }

    proof fn lemma_valid_gives_wf(self) {
    }

    fn to_bounds(self) -> (b: Bounds<Rect<T>>) {
        Rect::new(self, self)
    }
}

impl<T: Scalar> Rect<T> {
    /// Whether width, height and area are representable.
    pub open spec fn can_measure(self) -> bool {
        &&& T::can_size(self.x.lower, self.x.upper)
        &&& T::can_size(self.y.lower, self.y.upper)
        &&& T::size_spec(self.x.lower, self.x.upper).can_times(
            T::size_spec(self.y.lower, self.y.upper),
        )
    }

    /// The area: width times height.
    pub open spec fn area_spec(self) -> T {
        T::size_spec(self.x.lower, self.x.upper).times_spec(
            T::size_spec(self.y.lower, self.y.upper),
        )
    }

    /// The rectangle between two corners: `Bounded` exactly when the corners
    /// are in order on both axes, else `Empty`.
    pub fn new(lower: Point2<T>, upper: Point2<T>) -> (r: Bounds<Self>)
        ensures
            r == Self::new_spec(lower, upper),
            r.wf(),
    {
        Self::_new(lower, upper)
    }

    /// The rectangle with the given extent on each axis: `Empty` where either
    /// extent is.
    pub fn with_intervals(x: Bounds<Interval<T>>, y: Bounds<Interval<T>>) -> (r: Bounds<Self>)
        ensures
            r == from_xy_spec(x, y),
            x.wf() && y.wf() ==> r.wf(),
    {
        Bounds::from_xy(x, y)
    }

    /// The smallest bounds that hold every item.
    pub fn hull<U: AbstractBounds<Self>>(items: &Vec<U>) -> (r: Bounds<Self>)
        ensures
            r == Bounds::<Self>::hull_of(bounds_of(items@)),
            (forall|k: int| 0 <= k < items.len() ==> (#[trigger] items[k]).is_valid()) ==> r.wf(),
    {
        Bounds::<Self>::hull(items)
    }

    /// A rectangle is never empty.
    pub fn is_empty(&self) -> (r: bool)
        ensures
            !r,
    {
        false
    }

    /// The lower corner.
    pub fn min(&self) -> (r: Point2<T>)
        ensures
            r == (Point2 { x: self.x.lower, y: self.y.lower }),
    {
        Point2 { x: self.x.lower, y: self.y.lower }
    }

    /// The upper corner.
    pub fn max(&self) -> (r: Point2<T>)
        ensures
            r == (Point2 { x: self.x.upper, y: self.y.upper }),
    {
        Point2 { x: self.x.upper, y: self.y.upper }
    }

    /// The lower corner.
    pub fn lower(&self) -> (r: Point2<T>)
        ensures
            r == (Point2 { x: self.x.lower, y: self.y.lower }),
    {
        Point2 { x: self.x.lower, y: self.y.lower }
    }

    /// The upper corner.
    pub fn upper(&self) -> (r: Point2<T>)
        ensures
            r == (Point2 { x: self.x.upper, y: self.y.upper }),
    {
        Point2 { x: self.x.upper, y: self.y.upper }
    }

    /// Width and height.
    pub fn size(&self) -> (r: Vector2<T>)
        requires
            self.wf(),
            T::can_size(self.x.lower, self.x.upper),
            T::can_size(self.y.lower, self.y.upper),
        ensures
            r == (Vector2 {
                x: T::size_spec(self.x.lower, self.x.upper),
                y: T::size_spec(self.y.lower, self.y.upper),
            }),
    {
        Vector2 { x: self.x.size(), y: self.y.size() }
    }

    /// The length on the x axis.
    pub fn width(&self) -> (r: T)
        requires
            self.wf(),
            T::can_size(self.x.lower, self.x.upper),
        ensures
            r == T::size_spec(self.x.lower, self.x.upper),
            scalar_le(T::zero_spec(), r),
    {
        self.x.size()
    }

    /// The length on the y axis.
    pub fn height(&self) -> (r: T)
        requires
            self.wf(),
            T::can_size(self.y.lower, self.y.upper),
        ensures
            r == T::size_spec(self.y.lower, self.y.upper),
            scalar_le(T::zero_spec(), r),
    {
        self.y.size()
    }

    /// Width times height.
    pub fn area(&self) -> (r: T)
        requires
            self.wf(),
            self.can_measure(),
        ensures
            r == self.area_spec(),
    {
        self.x.size().times(self.y.size())
    }

    /// The four corners, starting at the lower corner and going round by the
    /// corner with the lower x and the upper y.
    pub fn corners(&self) -> (r: [Point2<T>; 4])
        ensures
            r@ == corners_of(*self),
    {
        [
            Point2 { x: self.x.lower, y: self.y.lower },
            Point2 { x: self.x.lower, y: self.y.upper },
            Point2 { x: self.x.upper, y: self.y.upper },
            Point2 { x: self.x.upper, y: self.y.lower },
        ]
    }

    /// Whether `other` lies inside the rectangle; the empty set always does.
    pub fn contains<U: AbstractBounds<Self>>(&self, other: U) -> (r: bool)
        ensures
            r == Bounds::Bounded(*self).covers(other.bounds_spec()),
    {
        match &other.to_bounds() {
            Bounds::Bounded(b) => self._contains(b),
            Bounds::Empty => true,
        }
    }

    /// Whether the rectangle shares a point with `other`; with the empty set
    /// it never does.
    pub fn intersects<U: AbstractBounds<Self>>(&self, other: U) -> (r: bool)
        ensures
            r == Bounds::Bounded(*self).meets(other.bounds_spec()),
    {
        match &other.to_bounds() {
            Bounds::Bounded(b) => self._intersects(b),
            Bounds::Empty => false,
        }
    }

    /// The rectangle moved by `offset`.
    pub fn shifted_by(&self, offset: &Vector2<T>) -> (r: Self)
        requires
            self.can_shift(*offset),
        ensures
            r == self.shifted(*offset),
            self.wf() ==> r.wf(),
    {
        proof {
            if self.wf() {
                Self::lemma_shifted_is_wf(*self, *offset);
            }
        }
        let mut moved = *self;
        moved._shift_by(*offset);
        moved
    }

    /// What the rectangle shares with `other`: `Empty` where nothing is left
    /// on either axis.
    pub fn clipped_to<U: AbstractBounds<Self>>(&self, other: U) -> (r: Bounds<Self>)
        ensures
            r == Bounds::Bounded(*self).clipped(other.bounds_spec()),
            r.wf(),
    {
        match &other.to_bounds() {
            Bounds::Bounded(b) => self._clipped_to(b),
            Bounds::Empty => Bounds::Empty,
        }
    }

    /// The smallest rectangle that holds this one and `other`.
    pub fn expanded_to<U: AbstractBounds<Self>>(&self, other: U) -> (r: Bounds<Self>)
        ensures
            r == Bounds::Bounded(*self).joined(other.bounds_spec()),
            r is Bounded,
            self.wf() && other.is_valid() ==> r.wf(),
    {
        let mut grown = *self;
        grown.expand_to(other);
        Bounds::Bounded(grown)
    }

    /// The rectangle grown by `border` on every side. A negative border
    /// shrinks it, and leaves `Empty` where two sides cross.
    pub fn dilated_by(&self, border: &Vector2<T>) -> (r: Bounds<Self>)
        requires
            self.can_dilate(*border),
        ensures
            r == self.dilated(*border),
            r.wf(),
    {
        self._dilated_by(*border)
    }

    /// The rectangle shrunk by `border` on every side: dilation by `-border`.
    pub fn eroded_by(&self, border: &Vector2<T>) -> (r: Bounds<Self>)
        requires
            border.x.can_negate(),
            border.y.can_negate(),
            self.can_dilate(Vector2 { x: border.x.negated_spec(), y: border.y.negated_spec() }),
        ensures
            r == self.dilated(
                Vector2 { x: border.x.negated_spec(), y: border.y.negated_spec() },
            ),
            r.wf(),
    {
        self._dilated_by(Vector2 { x: border.x.negated(), y: border.y.negated() })
    }

    /// Grows the rectangle in place until it holds `other` too.
    pub fn expand_to<U: AbstractBounds<Self>>(&mut self, other: U)
        ensures
            Bounds::Bounded(*final(self)) == Bounds::Bounded(*old(self)).joined(other.bounds_spec()),
            old(self).wf() && other.is_valid() ==> final(self).wf(),
    {
        match &other.to_bounds() {
            Bounds::Bounded(b) => {
                self._expand_to(b);
            },
            Bounds::Empty => {},
        }
    }

    /// Moves the rectangle in place.
    pub fn shift_by(&mut self, offset: Vector2<T>)
        requires
            old(self).can_shift(offset),
        ensures
            *final(self) == old(self).shifted(offset),
            old(self).wf() ==> final(self).wf(),
    {
        proof {
            if self.wf() {
                Self::lemma_shifted_is_wf(*self, offset);
            }
        }
        self._shift_by(offset);
    }

    /// A rectangle with an axis of length zero has area zero, and neither
    /// length is ever below zero.
    pub proof fn lemma_flat_rect_has_no_area(r: Self)
        requires
            r.wf(),
            r.can_measure(),
        ensures
            scalar_le(T::zero_spec(), T::size_spec(r.x.lower, r.x.upper)),
            scalar_le(T::zero_spec(), T::size_spec(r.y.lower, r.y.upper)),
            T::size_spec(r.x.lower, r.x.upper) == T::zero_spec() || T::size_spec(
                r.y.lower,
                r.y.upper,
            ) == T::zero_spec() ==> r.area_spec() == T::zero_spec(),
    {
        T::lemma_zero_is_ordered();
        T::lemma_size_is_not_negative(r.x.lower, r.x.upper);
        T::lemma_size_is_not_negative(r.y.lower, r.y.upper);
        T::lemma_times_zero(T::size_spec(r.x.lower, r.x.upper));
        T::lemma_times_zero(T::size_spec(r.y.lower, r.y.upper));
    }
}

impl Bounds<Rect<i32>> {
    /// In the discrete domain every rectangle holds at least one index on
    /// each axis, so only the empty set has a width, a height or an area of
    /// zero, and none is ever negative.
    pub proof fn lemma_discrete_area_is_zero_iff_empty(b: Self)
        requires
            b.wf(),
            b.can_measure(),
        ensures
            b.size_spec().x >= 0,
            b.size_spec().y >= 0,
            b.area_spec() >= 0,
            b.size_spec().x == 0 <==> b is Empty,
            b.size_spec().y == 0 <==> b is Empty,
            b.area_spec() == 0 <==> b is Empty,
    {
        if let Bounds::Bounded(r) = b {
            let w = r.x.upper - r.x.lower + 1;
            let h = r.y.upper - r.y.lower + 1;
            assert(w * h >= 1) by (nonlinear_arith)
                requires
                    w >= 1,
                    h >= 1,
            ;
        }
    }
}

impl<T: Scalar> Bounds<Rect<T>> {
    /// The rectangle with the given extent on each axis: `Empty` where either
    /// extent is.
    pub fn from_xy(x: Bounds<Interval<T>>, y: Bounds<Interval<T>>) -> (r: Self)
        ensures
            r == from_xy_spec(x, y),
            x.wf() && y.wf() ==> r.wf(),
    {
        pair_axes(x, y)
    }

    /// The extent on the x axis.
    pub fn x(&self) -> (r: Bounds<Interval<T>>)
        ensures
            r == match *self {
                Bounds::Bounded(b) => Bounds::Bounded(b.x),
                Bounds::Empty => Bounds::Empty,
            },
    {
        match self {
            Bounds::Bounded(b) => Bounds::Bounded(b.x),
            Bounds::Empty => Bounds::Empty,
        }
    }

    /// The extent on the y axis.
    pub fn y(&self) -> (r: Bounds<Interval<T>>)
        ensures
            r == match *self {
                Bounds::Bounded(b) => Bounds::Bounded(b.y),
                Bounds::Empty => Bounds::Empty,
            },
    {
        match self {
            Bounds::Bounded(b) => Bounds::Bounded(b.y),
            Bounds::Empty => Bounds::Empty,
        }
    }

    /// The lower corner, where there is one.
    pub fn min(&self) -> (r: Option<Point2<T>>)
        ensures
            r == match *self {
                Bounds::Bounded(b) => Some(Point2 { x: b.x.lower, y: b.y.lower }),
                Bounds::Empty => None,
            },
    {
        match self {
            Bounds::Bounded(b) => Some(b.min()),
            Bounds::Empty => None,
        }
    }

    /// The upper corner, where there is one.
    pub fn max(&self) -> (r: Option<Point2<T>>)
        ensures
            r == match *self {
                Bounds::Bounded(b) => Some(Point2 { x: b.x.upper, y: b.y.upper }),
                Bounds::Empty => None,
            },
    {
        match self {
            Bounds::Bounded(b) => Some(b.max()),
            Bounds::Empty => None,
        }
    }

    /// The four corners, where there are any.
    pub fn corners(&self) -> (r: Option<[Point2<T>; 4]>)
        ensures
            match *self {
                Bounds::Bounded(b) => r is Some && r.unwrap()@ == corners_of(b),
                Bounds::Empty => r is None,
            },
    {
        match self {
            Bounds::Bounded(b) => Some(b.corners()),
            Bounds::Empty => None,
        }
    }

    /// Whether width, height and area are representable; those of the empty
    /// set always are.
    pub open spec fn can_measure(self) -> bool {
        match self {
            Bounds::Bounded(b) => b.can_measure(),
            Bounds::Empty => true,
        }
    }

    /// Width and height: zero for the empty set.
    pub open spec fn size_spec(self) -> Vector2<T> {
        match self {
            Bounds::Bounded(b) => Vector2 {
                x: T::size_spec(b.x.lower, b.x.upper),
                y: T::size_spec(b.y.lower, b.y.upper),
            },
            Bounds::Empty => Vector2 { x: T::zero_spec(), y: T::zero_spec() },
        }
    }

    /// The area: zero for the empty set.
    pub open spec fn area_spec(self) -> T {
        match self {
            Bounds::Bounded(b) => b.area_spec(),
            Bounds::Empty => T::zero_spec(),
        }
    }

    /// Width and height, which are zero for the empty set, or `None` where the
    /// bounds are out of order or a length is not representable.
    pub fn checked_size(&self) -> (r: Option<Vector2<T>>)
        ensures
            r == if self.wf() && match *self {
                Bounds::Bounded(b) => T::can_size(b.x.lower, b.x.upper) && T::can_size(
                    b.y.lower,
                    b.y.upper,
                ),
                Bounds::Empty => true,
            } {
                Some(self.size_spec())
            } else {
                None
            },
    {
        match self {
            Bounds::Bounded(b) => {
                match (
                    T::checked_size(b.x.lower, b.x.upper),
                    T::checked_size(b.y.lower, b.y.upper),
                ) {
                    (Some(x), Some(y)) => Some(Vector2 { x, y }),
                    _ => None,
                }
            },
            Bounds::Empty => Some(Vector2 { x: T::zero(), y: T::zero() }),
        }
    }

    /// Width times height, which is zero for the empty set, or `None` where
    /// the bounds are out of order or the area is not representable.
    pub fn checked_area(&self) -> (r: Option<T>)
        ensures
            r == if self.wf() && self.can_measure() {
                Some(self.area_spec())
            } else {
                None
            },
    {
        match self.checked_size() {
            Some(size) => match self {
                Bounds::Bounded(_) => size.x.checked_times(size.y),
                Bounds::Empty => Some(T::zero()),
            },
            None => None,
        }
    }

    /// Width and height, which are zero for the empty set.
    pub fn size(&self) -> (r: Vector2<T>)
        requires
            self.wf(),
            self.can_measure(),
        ensures
            r == self.size_spec(),
    {
        match self {
            Bounds::Bounded(b) => b.size(),
            Bounds::Empty => Vector2 { x: T::zero(), y: T::zero() },
        }
    }

    /// The length on the x axis, which is zero for the empty set.
    pub fn width(&self) -> (r: T)
        requires
            self.wf(),
            self.can_measure(),
        ensures
            r == self.size_spec().x,
    {
        match self {
            Bounds::Bounded(b) => b.width(),
            Bounds::Empty => T::zero(),
        }
    }

    /// The length on the y axis, which is zero for the empty set.
    pub fn height(&self) -> (r: T)
        requires
            self.wf(),
            self.can_measure(),
        ensures
            r == self.size_spec().y,
    {
        match self {
            Bounds::Bounded(b) => b.height(),
            Bounds::Empty => T::zero(),
        }
    }

    /// Width times height, which is zero for the empty set.
    pub fn area(&self) -> (r: T)
        requires
            self.wf(),
            self.can_measure(),
        ensures
            r == self.area_spec(),
    {
        match self {
            Bounds::Bounded(b) => b.area(),
            Bounds::Empty => T::zero(),
        }
    }
}

} // verus!
