use vstd::prelude::*;

verus! {

/// A region of some kind, or the empty set.
#[derive(Clone, Copy, Debug, PartialEq, Eq)]
pub enum Bounds<R> {
    Bounded(R),
    Empty,
}

/// What a kind of region has to offer so that [`Bounds`] can be built over it:
/// a region of this kind is never empty, and the operations that may lose all
/// area return a [`Bounds`].
///
/// The proof functions are the laws that the operation set of [`Bounds`] rests
/// on; each implementation proves them.
pub trait GuaranteedBounded: Copy + Sized {
    /// A corner of a region.
    type Point: Copy;

    /// An offset or a border width, one component per axis.
    type Vector: Copy;

    /// The invariant of a region: its lower corner does not lie after its
    /// upper corner on any axis.
    spec fn wf(self) -> bool;

    /// The region between two corners, or `Empty` where they are out of order
    /// on some axis.
    spec fn new_spec(lower: Self::Point, upper: Self::Point) -> Bounds<Self>;

    /// Whether `other` lies inside `self`.
    spec fn covers(self, other: Self) -> bool;

    /// Whether the two regions share a point.
    spec fn meets(self, other: Self) -> bool;

    /// The smallest region that holds both.
    spec fn joined(self, other: Self) -> Self;

    /// What the two regions share.
    spec fn clipped(self, other: Self) -> Bounds<Self>;

    /// Whether the region moved by `offset` is representable.
    spec fn can_shift(self, offset: Self::Vector) -> bool;

    /// The region moved by `offset`.
    spec fn shifted(self, offset: Self::Vector) -> Self;

    /// Whether the region grown by `border` on every side is representable.
    spec fn can_dilate(self, border: Self::Vector) -> bool;

    /// The region grown by `border` on every side, which a negative border
    /// can leave empty.
    spec fn dilated(self, border: Self::Vector) -> Bounds<Self>;

    /// A region that was built from two corners is well-formed.
    proof fn lemma_new_is_wf(lower: Self::Point, upper: Self::Point)
        ensures
            match Self::new_spec(lower, upper) {
                Bounds::Bounded(r) => r.wf(),
                Bounds::Empty => true,
            },
    ;

    /// Every region lies inside itself.
    proof fn lemma_covers_is_reflexive(a: Self)
        requires
            a.wf(),
        ensures
            a.covers(a),
    ;

    /// What lies inside a region lies inside every region around it.
    proof fn lemma_covers_is_transitive(a: Self, b: Self, c: Self)
        requires
            a.covers(b),
            b.covers(c),
        ensures
            a.covers(c),
    ;

    /// Two regions that lie inside each other are the same region.
    proof fn lemma_mutual_cover_is_equality(a: Self, b: Self)
        requires
            a.wf(),
            b.wf(),
            a.covers(b),
            b.covers(a),
        ensures
            a == b,
    ;

    /// The join of two regions is a region that holds both, and it lies inside
    /// every region that holds both.
    proof fn lemma_joined_is_least_cover(a: Self, b: Self, c: Self)
        requires
            a.wf(),
            b.wf(),
        ensures
            a.joined(b).wf(),
            a.joined(b).covers(a),
            a.joined(b).covers(b),
            c.covers(a) && c.covers(b) ==> c.covers(a.joined(b)),
    ;

    /// Clipping leaves nothing exactly when the two regions do not meet, and
    /// what it leaves lies inside both.
    proof fn lemma_clipped_is_shared_part(a: Self, b: Self)
        requires
            a.wf(),
            b.wf(),
        ensures
            (a.clipped(b) is Empty) <==> !a.meets(b),
            match a.clipped(b) {
                Bounds::Bounded(c) => c.wf() && a.covers(c) && b.covers(c),
                Bounds::Empty => true,
            },
    ;

    /// A shifted region is a region.
    proof fn lemma_shifted_is_wf(a: Self, offset: Self::Vector)
        requires
            a.wf(),
            a.can_shift(offset),
        ensures
            a.shifted(offset).wf(),
    ;

    /// A dilated region, where anything is left of it, is a region.
    proof fn lemma_dilated_is_wf(a: Self, border: Self::Vector)
        ensures
            match a.dilated(border) {
                Bounds::Bounded(r) => r.wf(),
                Bounds::Empty => true,
            },
    ;

    fn _new(lower: Self::Point, upper: Self::Point) -> (r: Bounds<Self>)
        ensures
            r == Self::new_spec(lower, upper),
    ;

    fn _contains(&self, other: &Self) -> (r: bool)
        ensures
            r == self.covers(*other),
    ;

    fn _intersects(&self, other: &Self) -> (r: bool)
        ensures
            r == self.meets(*other),
    ;

    fn _expand_to(&mut self, other: &Self)
        ensures
            *final(self) == old(self).joined(*other),
    ;

    fn _clipped_to(&self, other: &Self) -> (r: Bounds<Self>)
        ensures
            r == self.clipped(*other),
    ;

    fn _shift_by(&mut self, offset: Self::Vector)
        requires
            old(self).can_shift(offset),
        ensures
            *final(self) == old(self).shifted(offset),
    ;

    fn _dilated_by(&self, border: Self::Vector) -> (r: Bounds<Self>)
        requires
            self.can_dilate(border),
        ensures
            r == self.dilated(border),
    ;

    fn _checked_shifted_by(&self, offset: Self::Vector) -> (r: Option<Self>)
        ensures
            r == if self.can_shift(offset) {
                Some(self.shifted(offset))
            } else {
                None
            },
    ;

    fn _checked_dilated_by(&self, border: Self::Vector) -> (r: Option<Bounds<Self>>)
        ensures
            r == if self.can_dilate(border) {
                Some(self.dilated(border))
            } else {
                None
            },
    ;
}

/// Anything that stands for a possibly empty region of kind `R`: a region, a
/// point, or a `Bounds` itself.
pub trait AbstractBounds<R: GuaranteedBounded>: Copy + Sized {
    /// The bounds that the value stands for.
    spec fn bounds_spec(self) -> Bounds<R>;

    /// What the value stands for is well-formed.
    spec fn is_valid(self) -> bool;

    /// A valid value stands for well-formed bounds.
    proof fn lemma_valid_gives_wf(self)
        requires
            self.is_valid(),
        ensures
            self.bounds_spec().wf(),
    ;

    fn to_bounds(self) -> (b: Bounds<R>)
        ensures
            b == self.bounds_spec(),
    ;
}

/// What each item of a sequence stands for.
pub open spec fn bounds_of<R: GuaranteedBounded, U: AbstractBounds<R>>(items: Seq<U>) -> Seq<
    Bounds<R>,
> {
    items.map_values(|u: U| u.bounds_spec())
}

impl<R: GuaranteedBounded> AbstractBounds<R> for Bounds<R> {
    open spec fn bounds_spec(self) -> Bounds<R> {
        self
    }

    open spec fn is_valid(self) -> bool {
        self.wf()
    }

    proof fn lemma_valid_gives_wf(self) {
    }

    fn to_bounds(self) -> (b: Bounds<R>) {
        self
    }
}

impl<'a, R: GuaranteedBounded> AbstractBounds<R> for &'a Bounds<R> {
    open spec fn bounds_spec(self) -> Bounds<R> {
        *self
    }

    open spec fn is_valid(self) -> bool {
        self.wf()
    }

    proof fn lemma_valid_gives_wf(self) {
    }

    fn to_bounds(self) -> (b: Bounds<R>) {
        *self
    }
}

impl<R: GuaranteedBounded> Bounds<R> {
    /// Well-formed bounds hold a well-formed region or nothing.
    pub open spec fn wf(self) -> bool {
        match self {
            Bounds::Bounded(r) => r.wf(),
            Bounds::Empty => true,
        }
    }

    /// Whether `other` lies inside `self`. The empty set lies inside
    /// everything, and only the empty set lies inside the empty set.
    pub open spec fn covers(self, other: Self) -> bool {
        match (self, other) {
            (_, Bounds::Empty) => true,
            (Bounds::Empty, Bounds::Bounded(_)) => false,
            (Bounds::Bounded(a), Bounds::Bounded(b)) => a.covers(b),
        }
    }

    /// Whether the two share a point. The empty set meets nothing.
    pub open spec fn meets(self, other: Self) -> bool {
        match (self, other) {
            (Bounds::Bounded(a), Bounds::Bounded(b)) => a.meets(b),
            _ => false,
        }
    }

    /// The smallest bounds that hold both. The empty set adds nothing.
    pub open spec fn joined(self, other: Self) -> Self {
        match (self, other) {
            (_, Bounds::Empty) => self,
            (Bounds::Empty, _) => other,
            (Bounds::Bounded(a), Bounds::Bounded(b)) => Bounds::Bounded(a.joined(b)),
        }
    }

    /// What the two share. The empty set shares nothing.
    pub open spec fn clipped(self, other: Self) -> Self {
        match (self, other) {
            (Bounds::Bounded(a), Bounds::Bounded(b)) => a.clipped(b),
            _ => Bounds::Empty,
        }
    }

    /// Whether the bounds moved by `offset` are representable.
    pub open spec fn can_shift(self, offset: R::Vector) -> bool {
        match self {
            Bounds::Bounded(a) => a.can_shift(offset),
            Bounds::Empty => true,
        }
    }

    /// The bounds moved by `offset`. The empty set stays empty.
    pub open spec fn shifted(self, offset: R::Vector) -> Self {
        match self {
            Bounds::Bounded(a) => Bounds::Bounded(a.shifted(offset)),
            Bounds::Empty => Bounds::Empty,
        }
    }

    /// Whether the bounds grown by `border` are representable.
    pub open spec fn can_dilate(self, border: R::Vector) -> bool {
        match self {
            Bounds::Bounded(a) => a.can_dilate(border),
            Bounds::Empty => true,
        }
    }

    /// The bounds grown by `border` on every side. The empty set stays empty.
    pub open spec fn dilated(self, border: R::Vector) -> Self {
        match self {
            Bounds::Bounded(a) => a.dilated(border),
            Bounds::Empty => Bounds::Empty,
        }
    }

    /// The hull of a sequence: the empty set, joined with each item in turn.
    pub open spec fn hull_of(items: Seq<Bounds<R>>) -> Bounds<R>
        decreases items.len(),
    {
        if items.len() == 0 {
            Bounds::Empty
        } else {
            Self::hull_of(items.drop_last()).joined(items.last())
        }
    }

    /// The bounds between two corners: `Empty` where the corners are out of
    /// order on some axis.
    pub fn new(lower: R::Point, upper: R::Point) -> (r: Self)
        ensures
            r == R::new_spec(lower, upper),
            r.wf(),
    {
        proof {
            R::lemma_new_is_wf(lower, upper);
        }
        R::_new(lower, upper)
    }

    pub fn is_empty(&self) -> (r: bool)
        ensures
            r == (*self is Empty),
    {
        match self {
            Bounds::Bounded(_) => false,
            Bounds::Empty => true,
        }
    }

    /// Whether `other` lies inside the bounds.
    pub fn contains<U: AbstractBounds<R>>(&self, other: U) -> (r: bool)
        ensures
            r == self.covers(other.bounds_spec()),
    {
        let other = other.to_bounds();
        match (self, &other) {
            (_, Bounds::Empty) => true,
            (Bounds::Empty, Bounds::Bounded(_)) => false,
            (Bounds::Bounded(a), Bounds::Bounded(b)) => a._contains(b),
        }
    }

    /// Whether the bounds share a point with `other`.
    pub fn intersects<U: AbstractBounds<R>>(&self, other: U) -> (r: bool)
        ensures
            r == self.meets(other.bounds_spec()),
    {
        let other = other.to_bounds();
        match (self, &other) {
            (Bounds::Bounded(a), Bounds::Bounded(b)) => a._intersects(b),
            _ => false,
        }
    }

    /// What the bounds share with `other`.
    pub fn clipped_to<U: AbstractBounds<R>>(&self, other: U) -> (r: Self)
        ensures
            r == self.clipped(other.bounds_spec()),
            self.wf() && other.is_valid() ==> r.wf(),
    {
        proof {
            if other.is_valid() {
                other.lemma_valid_gives_wf();
            }
            Self::lemma_clipped_lies_inside_both(*self, other.bounds_spec());
        }
        let other = other.to_bounds();
        match (self, &other) {
            (Bounds::Bounded(a), Bounds::Bounded(b)) => a._clipped_to(b),
            _ => Bounds::Empty,
        }
    }

    /// The smallest bounds that hold these and `other`.
    pub fn expanded_to<U: AbstractBounds<R>>(&self, other: U) -> (r: Self)
        ensures
            r == self.joined(other.bounds_spec()),
            self.wf() && other.is_valid() ==> r.wf(),
    {
        let mut result = *self;
        result.expand_to(other);
        result
    }

    /// The bounds moved by `offset`.
    pub fn shifted_by(&self, offset: R::Vector) -> (r: Self)
        requires
            self.can_shift(offset),
        ensures
            r == self.shifted(offset),
            self.wf() ==> r.wf(),
    {
        let mut result = *self;
        result.shift_by(offset);
        result
    }

    /// The bounds grown by `border` on every side. A negative border shrinks
    /// them, and can leave nothing.
    pub fn dilated_by(&self, border: R::Vector) -> (r: Self)
        requires
            self.can_dilate(border),
        ensures
            r == self.dilated(border),
            r.wf(),
    {
        match self {
            Bounds::Bounded(a) => {
                proof {
                    R::lemma_dilated_is_wf(*a, border);
                }
                a._dilated_by(border)
            },
            Bounds::Empty => Bounds::Empty,
        }
    }

    /// The bounds moved by `offset`, or `None` where a moved bound is not
    /// representable.
    pub fn checked_shifted_by(&self, offset: R::Vector) -> (r: Option<Self>)
        ensures
            r == if self.can_shift(offset) {
                Some(self.shifted(offset))
            } else {
                None
            },
            self.wf() && r is Some ==> r.unwrap().wf(),
    {
        match self {
            Bounds::Bounded(a) => {
                proof {
                    if a.wf() && a.can_shift(offset) {
                        R::lemma_shifted_is_wf(*a, offset);
                    }
                }
                match a._checked_shifted_by(offset) {
                    Some(moved) => Some(Bounds::Bounded(moved)),
                    None => None,
                }
            },
            Bounds::Empty => Some(Bounds::Empty),
        }
    }

    /// The bounds grown by `border` on every side, or `None` where a grown
    /// bound is not representable.
    pub fn checked_dilated_by(&self, border: R::Vector) -> (r: Option<Self>)
        ensures
            r == if self.can_dilate(border) {
                Some(self.dilated(border))
            } else {
                None
            },
            r is Some ==> r.unwrap().wf(),
    {
        match self {
            Bounds::Bounded(a) => {
                proof {
                    R::lemma_dilated_is_wf(*a, border);
                }
                a._checked_dilated_by(border)
            },
            Bounds::Empty => Some(Bounds::Empty),
        }
    }

    /// Grows the bounds in place until they hold `other` too.
    pub fn expand_to<U: AbstractBounds<R>>(&mut self, other: U)
        ensures
            *final(self) == old(self).joined(other.bounds_spec()),
            old(self).wf() && other.is_valid() ==> final(self).wf(),
    {
        proof {
            if other.is_valid() {
                other.lemma_valid_gives_wf();
            }
            Self::lemma_joined_holds_both(*self, other.bounds_spec());
        }
        let other = other.to_bounds();
        match (*self, &other) {
            (_, Bounds::Empty) => {},
            (Bounds::Empty, _) => {
                *self = other;
            },
            (Bounds::Bounded(a), Bounds::Bounded(b)) => {
                let mut grown = a;
                grown._expand_to(b);
                *self = Bounds::Bounded(grown);
            },
        }
    }

    /// Cuts the bounds down in place to what they share with `other`.
    pub fn clip_to<U: AbstractBounds<R>>(&mut self, other: U)
        ensures
            *final(self) == old(self).clipped(other.bounds_spec()),
            old(self).wf() && other.is_valid() ==> final(self).wf(),
    {
        let clipped = self.clipped_to(other);
        *self = clipped;
    }

    /// Moves the bounds in place.
    pub fn shift_by(&mut self, offset: R::Vector)
        requires
            old(self).can_shift(offset),
        ensures
            *final(self) == old(self).shifted(offset),
            old(self).wf() ==> final(self).wf(),
    {
        match *self {
            Bounds::Bounded(a) => {
                proof {
                    if a.wf() {
                        R::lemma_shifted_is_wf(a, offset);
                    }
                }
                let mut moved = a;
                moved._shift_by(offset);
                *self = Bounds::Bounded(moved);
            },
            Bounds::Empty => {},
        }
    }

    /// The smallest bounds that hold every item: the empty set, expanded to
    /// each item in turn.
    pub fn hull<U: AbstractBounds<R>>(items: &Vec<U>) -> (r: Self)
        ensures
            r == Self::hull_of(bounds_of(items@)),
            (forall|k: int| 0 <= k < items.len() ==> (#[trigger] items[k]).is_valid()) ==> r.wf(),
    {
        let ghost all = bounds_of::<R, U>(items@);
        proof {
            if forall|k: int| 0 <= k < items.len() ==> (#[trigger] items[k]).is_valid() {
                assert forall|k: int| 0 <= k < all.len() implies (#[trigger] all[k]).wf() by {
                    items[k].lemma_valid_gives_wf();
                }
                Self::lemma_hull_holds_every_item(all);
            }
        }
        let mut result: Bounds<R> = Bounds::Empty;
        let mut i: usize = 0;
        while i < items.len()
            invariant
                i <= items.len(),
                all == bounds_of::<R, U>(items@),
                result == Self::hull_of(all.take(i as int)),
            decreases items.len() - i,
        {
            let item = items[i].to_bounds();
            proof {
                assert(all.take(i + 1).drop_last() == all.take(i as int));
                assert(all.take(i + 1).last() == item);
            }
            result.expand_to(item);
            i = i + 1;
        }
        proof {
            assert(all.take(i as int) == all);
        }
        result
    }

    /// Mutual containment is equality.
    pub proof fn lemma_mutual_containment_is_equality(a: Self, b: Self)
        requires
            a.wf(),
            b.wf(),
        ensures
            (a.covers(b) && b.covers(a)) <==> a == b,
    {
        match (a, b) {
            (Bounds::Bounded(x), Bounds::Bounded(y)) => {
                if x.covers(y) && y.covers(x) {
                    R::lemma_mutual_cover_is_equality(x, y);
                }
                if x == y {
                    R::lemma_covers_is_reflexive(x);
                }
            },
            _ => {},
        }
    }

    /// Containment is transitive.
    pub proof fn lemma_containment_is_transitive(a: Self, b: Self, c: Self)
        requires
            a.covers(b),
            b.covers(c),
        ensures
            a.covers(c),
    {
        match (a, b, c) {
            (Bounds::Bounded(x), Bounds::Bounded(y), Bounds::Bounded(z)) => {
                R::lemma_covers_is_transitive(x, y, z);
            },
            _ => {},
        }
    }

    /// Clipping leaves nothing exactly when one side is empty or the two do
    /// not meet.
    pub proof fn lemma_clipped_is_empty_iff_apart(a: Self, b: Self)
        requires
            a.wf(),
            b.wf(),
        ensures
            (a.clipped(b) is Empty) <==> (a is Empty || b is Empty || !a.meets(b)),
    {
        match (a, b) {
            (Bounds::Bounded(x), Bounds::Bounded(y)) => {
                R::lemma_clipped_is_shared_part(x, y);
            },
            _ => {},
        }
    }

    /// What clipping leaves is well-formed and lies inside both sides.
    pub proof fn lemma_clipped_lies_inside_both(a: Self, b: Self)
        ensures
            a.wf() && b.wf() ==> a.clipped(b).wf() && a.covers(a.clipped(b)) && b.covers(
                a.clipped(b),
            ),
    {
        match (a, b) {
            (Bounds::Bounded(x), Bounds::Bounded(y)) => {
                if x.wf() && y.wf() {
                    R::lemma_clipped_is_shared_part(x, y);
                }
            },
            _ => {},
        }
    }

    /// The hull of two bounds holds both of them.
    pub proof fn lemma_joined_holds_both(a: Self, b: Self)
        ensures
            a.wf() && b.wf() ==> a.joined(b).wf() && a.joined(b).covers(a) && a.joined(
                b,
            ).covers(b),
    {
        match (a, b) {
            (Bounds::Bounded(x), Bounds::Bounded(y)) => {
                if x.wf() && y.wf() {
                    R::lemma_joined_is_least_cover(x, y, x);
                }
            },
            (Bounds::Bounded(x), Bounds::Empty) => {
                if x.wf() {
                    R::lemma_covers_is_reflexive(x);
                }
            },
            (Bounds::Empty, Bounds::Bounded(y)) => {
                if y.wf() {
                    R::lemma_covers_is_reflexive(y);
                }
            },
            _ => {},
        }
    }

    /// The hull of two bounds lies inside everything that holds both.
    pub proof fn lemma_joined_is_least(a: Self, b: Self, c: Self)
        requires
            a.wf(),
            b.wf(),
            c.covers(a),
            c.covers(b),
        ensures
            c.covers(a.joined(b)),
    {
        match (a, b, c) {
            (Bounds::Bounded(x), Bounds::Bounded(y), Bounds::Bounded(z)) => {
                R::lemma_joined_is_least_cover(x, y, z);
            },
            _ => {},
        }
    }

    /// The empty set is the identity of expansion, absorbs clipping and
    /// meeting, lies inside everything, and holds only itself.
    pub proof fn lemma_empty_laws(a: Self)
        ensures
            a.joined(Bounds::Empty) == a,
            Bounds::<R>::Empty.joined(a) == a,
            a.clipped(Bounds::Empty) == Bounds::<R>::Empty,
            Bounds::<R>::Empty.clipped(a) == Bounds::<R>::Empty,
            !a.meets(Bounds::Empty),
            !Bounds::<R>::Empty.meets(a),
            a.covers(Bounds::Empty),
            Bounds::<R>::Empty.covers(a) == (a is Empty),
    {
    }
}

} // verus!
