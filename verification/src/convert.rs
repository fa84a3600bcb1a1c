use vstd::prelude::*;
use crate::bounds::{Bounds, GuaranteedBounded};
use crate::continuous::Real;
use crate::interval::Interval;
use crate::rect::{from_xy_spec, Rect};

verus! {

/// Why a continuous region has no discrete counterpart: a bound of `from` is
/// infinite, or lies outside the range of the discrete domain.
#[derive(Clone, Copy, Debug, PartialEq, Eq)]
pub struct RealToIndexError {
    pub from: Interval<Real>,
}

/// Whether a finite bound, given in units, lies within the range of the
/// discrete domain.
pub open spec fn units_in_index_range(units: int) -> bool {
    i32::MIN * 65536 <= units <= i32::MAX * 65536
}

/// Whether a bound is finite and lies within the range of the discrete domain.
pub open spec fn bound_in_index_range(bound: Real) -> bool {
    match bound {
        Real::Finite(n) => units_in_index_range(n as int),
        _ => false,
    }
}

/// The whole number next to a lower bound: the fraction below one half is cut
/// off, one half and more goes up to the next whole number.
pub open spec fn round_up_spec(units: int) -> int {
    if units % 65536 < 32768 {
        units / 65536
    } else {
        units / 65536 + 1
    }
}

/// The whole number next to an upper bound: the fraction up to one half is cut
/// off, more than one half goes up to the next whole number.
pub open spec fn round_down_spec(units: int) -> int {
    if units % 65536 <= 32768 {
        units / 65536
    } else {
        units / 65536 + 1
    }
}

/// The discrete counterpart of a continuous interval, or the reason why there
/// is none.
pub open spec fn to_index_spec(from: Interval<Real>) -> Result<
    Bounds<Interval<i32>>,
    RealToIndexError,
> {
    if bound_in_index_range(from.lower) && bound_in_index_range(from.upper) {
        Ok(
            Interval::<i32>::new_spec(
                round_up_spec(from.lower.units()) as i32,
                round_down_spec(from.upper.units()) as i32,
            ),
        )
    } else {
        Err(RealToIndexError { from })
    }
}

/// The continuous counterpart of a discrete interval: each index `i` takes up
/// the cell from `i - 1/2` to `i + 1/2`.
pub open spec fn to_real_spec(from: Interval<i32>) -> Interval<Real> {
    Interval {
        lower: Real::Finite((from.lower * 65536 - 32768) as i64),
        upper: Real::Finite((from.upper * 65536 + 32768) as i64),
    }
}

/// The discrete counterpart of a continuous rectangle, axis by axis; the
/// reason why there is none is that of the first axis that has none.
pub open spec fn rect_to_index_spec(from: Rect<Real>) -> Result<
    Bounds<Rect<i32>>,
    RealToIndexError,
> {
    match (to_index_spec(from.x), to_index_spec(from.y)) {
        (Err(e), _) => Err(e),
        (Ok(_), Err(e)) => Err(e),
        (Ok(x), Ok(y)) => Ok(from_xy_spec(x, y)),
    }
}

/// Splits a bound in range into its whole part, rounded towards minus
/// infinity, and its fraction, in units.
fn split_units(units: i64) -> (r: (i32, i64))
    requires
        units_in_index_range(units as int),
    ensures
        r.0 == units / 65536,
        r.1 == units % 65536,
        0 <= r.1 < 65536,
{
    let lifted: u64 = (units + 0x8000_0000_0000) as u64;
    let whole: i64 = (lifted / 65536) as i64 - 0x8000_0000;
    let part: i64 = (lifted % 65536) as i64;
    (whole as i32, part)
}

/// Rounds a lower bound: a tie goes up.
fn round_up(units: i64) -> (r: i32)
    requires
        units_in_index_range(units as int),
    ensures
        r == round_up_spec(units as int),
{
    let (whole, part) = split_units(units);
    if part < 32768 {
        whole
    } else {
        whole + 1
    }
}

/// Rounds an upper bound: a tie goes down.
fn round_down(units: i64) -> (r: i32)
    requires
        units_in_index_range(units as int),
    ensures
        r == round_down_spec(units as int),
{
    let (whole, part) = split_units(units);
    if part <= 32768 {
        whole
    } else {
        whole + 1
    }
}

/// The units of a bound that is finite and within the range of the discrete
/// domain.
fn units_in_range(bound: Real) -> (r: Option<i64>)
    ensures
        r is Some <==> bound_in_index_range(bound),
        r is Some ==> bound == Real::Finite(r.unwrap()),
{
    match bound {
        Real::Finite(n) => {
            if -0x8000_0000_0000 <= n && n <= 0x7FFF_FFFF_0000 {
                Some(n)
            } else {
                None
            }
        },
        _ => None,
    }
}

impl Interval<Real> {
    /// The discrete interval of the indices whose cells the interval reaches
    /// at least half way into. It fails where a bound is infinite or outside
    /// the range of the discrete domain, and it is `Empty` where no index is
    /// left between the rounded bounds.
    pub fn to_index_interval(&self) -> (r: Result<Bounds<Interval<i32>>, RealToIndexError>)
        ensures
            r == to_index_spec(*self),
            r is Ok ==> r.unwrap().wf(),
    {
        match (units_in_range(self.lower), units_in_range(self.upper)) {
            (Some(lower), Some(upper)) => Ok(Interval::new(round_up(lower), round_down(upper))),
            _ => Err(RealToIndexError { from: *self }),
        }
    }
}

impl Interval<i32> {
    /// The continuous interval that the cells of the indices take up: from
    /// `lower - 1/2` to `upper + 1/2`.
    pub fn to_real_interval(&self) -> (r: Interval<Real>)
        ensures
            r == to_real_spec(*self),
            self.wf() ==> r.wf(),
    {
        Interval {
            lower: Real::Finite((self.lower as i64) * 65536 - 32768),
            upper: Real::Finite((self.upper as i64) * 65536 + 32768),
        }
    }
}

impl Bounds<Interval<Real>> {
    /// The discrete counterpart; that of the empty set is the empty set.
    pub fn to_index_interval(&self) -> (r: Result<Bounds<Interval<i32>>, RealToIndexError>)
        ensures
            r == bounds_to_index_spec(*self),
            r is Ok ==> r.unwrap().wf(),
    {
        match self {
            Bounds::Bounded(i) => i.to_index_interval(),
            Bounds::Empty => Ok(Bounds::Empty),
        }
    }
}

impl Bounds<Interval<i32>> {
    /// The continuous counterpart; that of the empty set is the empty set.
    pub fn to_real_interval(&self) -> (r: Bounds<Interval<Real>>)
        ensures
            r == bounds_to_real_spec(*self),
            self.wf() ==> r.wf(),
    {
        match self {
            Bounds::Bounded(i) => Bounds::Bounded(i.to_real_interval()),
            Bounds::Empty => Bounds::Empty,
        }
    }
}

impl Rect<Real> {
    /// The discrete counterpart, axis by axis. It fails where either axis
    /// does, and it is `Empty` where either axis is.
    pub fn to_index_rect(&self) -> (r: Result<Bounds<Rect<i32>>, RealToIndexError>)
        ensures
            r == rect_to_index_spec(*self),
            r is Ok ==> r.unwrap().wf(),
    {
        match self.x.to_index_interval() {
            Err(e) => Err(e),
            Ok(x) => match self.y.to_index_interval() {
                Err(e) => Err(e),
                Ok(y) => Ok(Bounds::from_xy(x, y)),
            },
        }
    }
}

impl Rect<i32> {
    /// The continuous counterpart, axis by axis.
    pub fn to_real_rect(&self) -> (r: Rect<Real>)
        ensures
            r == (Rect { x: to_real_spec(self.x), y: to_real_spec(self.y) }),
            self.wf() ==> r.wf(),
    {
        Rect { x: self.x.to_real_interval(), y: self.y.to_real_interval() }
    }
}

impl Bounds<Rect<Real>> {
    /// The discrete counterpart; that of the empty set is the empty set.
    pub fn to_index_rect(&self) -> (r: Result<Bounds<Rect<i32>>, RealToIndexError>)
        ensures
            r == bounds_to_index_rect_spec(*self),
            r is Ok ==> r.unwrap().wf(),
    {
        match self {
            Bounds::Bounded(b) => b.to_index_rect(),
            Bounds::Empty => Ok(Bounds::Empty),
        }
    }
}

impl Bounds<Rect<i32>> {
    /// The continuous counterpart; that of the empty set is the empty set.
    pub fn to_real_rect(&self) -> (r: Bounds<Rect<Real>>)
        ensures
            r == bounds_to_real_rect_spec(*self),
            self.wf() ==> r.wf(),
    {
        match self {
            Bounds::Bounded(b) => Bounds::Bounded(b.to_real_rect()),
            Bounds::Empty => Bounds::Empty,
        }
    }
}

/// The discrete counterpart of possibly empty continuous bounds.
pub open spec fn bounds_to_index_spec(from: Bounds<Interval<Real>>) -> Result<
    Bounds<Interval<i32>>,
    RealToIndexError,
> {
    match from {
        Bounds::Bounded(i) => to_index_spec(i),
        Bounds::Empty => Ok(Bounds::Empty),
    }
}

/// The continuous counterpart of possibly empty discrete bounds.
pub open spec fn bounds_to_real_spec(from: Bounds<Interval<i32>>) -> Bounds<Interval<Real>> {
    match from {
        Bounds::Bounded(i) => Bounds::Bounded(to_real_spec(i)),
        Bounds::Empty => Bounds::Empty,
    }
}

impl<'a> From<&'a Bounds<Interval<i32>>> for Bounds<Interval<Real>> {
    fn from(value: &'a Bounds<Interval<i32>>) -> (r: Self) {
        value.to_real_interval()
    }
}

impl<'a> vstd::std_specs::convert::FromSpecImpl<&'a Bounds<Interval<i32>>> for Bounds<Interval<Real>> {
    open spec fn obeys_from_spec() -> bool {
        true
    }

    open spec fn from_spec(v: &'a Bounds<Interval<i32>>) -> Self {
        bounds_to_real_spec(*v)
    }
}

impl<'a> TryFrom<&'a Bounds<Interval<Real>>> for Bounds<Interval<i32>> {
    type Error = RealToIndexError;

    fn try_from(value: &'a Bounds<Interval<Real>>) -> (r: Result<Self, RealToIndexError>) {
        value.to_index_interval()
    }
}

impl<'a> vstd::std_specs::convert::TryFromSpecImpl<&'a Bounds<Interval<Real>>> for Bounds<Interval<i32>> {
    open spec fn obeys_try_from_spec() -> bool {
        true
    }

    open spec fn try_from_spec(v: &'a Bounds<Interval<Real>>) -> Result<Self, RealToIndexError> {
        bounds_to_index_spec(*v)
    }
}

/// The discrete counterpart of a possibly empty continuous rectangle.
pub open spec fn bounds_to_index_rect_spec(from: Bounds<Rect<Real>>) -> Result<
    Bounds<Rect<i32>>,
    RealToIndexError,
> {
    match from {
        Bounds::Bounded(b) => rect_to_index_spec(b),
        Bounds::Empty => Ok(Bounds::Empty),
    }
}

/// The continuous counterpart of a possibly empty discrete rectangle.
pub open spec fn bounds_to_real_rect_spec(from: Bounds<Rect<i32>>) -> Bounds<Rect<Real>> {
    match from {
        Bounds::Bounded(b) => Bounds::Bounded(Rect { x: to_real_spec(b.x), y: to_real_spec(b.y) }),
        Bounds::Empty => Bounds::Empty,
    }
}

impl<'a> From<&'a Bounds<Rect<i32>>> for Bounds<Rect<Real>> {
    fn from(value: &'a Bounds<Rect<i32>>) -> (r: Self) {
        value.to_real_rect()
    }
}

impl<'a> vstd::std_specs::convert::FromSpecImpl<&'a Bounds<Rect<i32>>> for Bounds<Rect<Real>> {
    open spec fn obeys_from_spec() -> bool {
        true
    }

    open spec fn from_spec(v: &'a Bounds<Rect<i32>>) -> Self {
        bounds_to_real_rect_spec(*v)
    }
}

impl<'a> TryFrom<&'a Bounds<Rect<Real>>> for Bounds<Rect<i32>> {
    type Error = RealToIndexError;

    fn try_from(value: &'a Bounds<Rect<Real>>) -> (r: Result<Self, RealToIndexError>) {
        value.to_index_rect()
    }
}

impl<'a> vstd::std_specs::convert::TryFromSpecImpl<&'a Bounds<Rect<Real>>> for Bounds<Rect<i32>> {
    open spec fn obeys_try_from_spec() -> bool {
        true
    }

    open spec fn try_from_spec(v: &'a Bounds<Rect<Real>>) -> Result<Self, RealToIndexError> {
        bounds_to_index_rect_spec(*v)
    }
}

/// Conversion fails exactly where a bound is infinite or outside the range of
/// the discrete domain, and then it hands back the interval.
pub proof fn lemma_conversion_fails_on_unbounded(from: Interval<Real>)
    ensures
        !(from.lower is Finite) || !(from.upper is Finite) ==> to_index_spec(from) == Err::<
            Bounds<Interval<i32>>,
            RealToIndexError,
        >(RealToIndexError { from }),
        to_index_spec(from) is Err <==> !bound_in_index_range(from.lower)
            || !bound_in_index_range(from.upper),
{
}

/// Each rounded bound lies within half a cell of the bound it came from, so
/// that the cells of the discrete interval never reach beyond the continuous
/// interval by more than half a cell: a lower bound goes down by less than a
/// half or up by at most a half, an upper bound the other way round.
pub proof fn lemma_rounding_moves_at_most_half(units: int)
    ensures
        units - 32768 < round_up_spec(units) * 65536 <= units + 32768,
        units - 32768 <= round_down_spec(units) * 65536 < units + 32768,
{
}

/// Turning a continuous interval into a discrete one and back gives an
/// interval that holds the interval it began with.
pub proof fn lemma_round_trip_holds_source(from: Interval<Real>, there: Interval<i32>)
    requires
        from.wf(),
        to_index_spec(from) == Ok::<Bounds<Interval<i32>>, RealToIndexError>(
            Bounds::Bounded(there),
        ),
    ensures
        there.wf(),
        to_real_spec(there).wf(),
        to_real_spec(there).covers(from),
{
}

/// A discrete interval that stays clear of the two ends of the discrete
/// domain, turned into a continuous one and back, is the same interval:
/// converting again changes nothing. (The cell of the first index starts, and
/// the cell of the last index ends, outside the range of the discrete domain.)
pub proof fn lemma_reconversion_is_stable(there: Interval<i32>)
    requires
        there.wf(),
        i32::MIN < there.lower,
        there.upper < i32::MAX,
    ensures
        to_index_spec(to_real_spec(there)) == Ok::<Bounds<Interval<i32>>, RealToIndexError>(
            Bounds::Bounded(there),
        ),
{
    let lower = there.lower * 65536 - 32768;
    let upper = there.upper * 65536 + 32768;
    assert(lower == (there.lower - 1) * 65536 + 32768);
    assert(lower / 65536 == there.lower - 1 && lower % 65536 == 32768);
    assert(upper / 65536 == there.upper as int && upper % 65536 == 32768);
    assert(round_up_spec(lower) == there.lower);
    assert(round_down_spec(upper) == there.upper);
}

/// Where both bounds of a continuous interval lie half way between two whole
/// numbers, turning it into a discrete interval and back gives the interval
/// itself, or nothing where the bounds are the same: the result never reaches
/// beyond the interval it began with.
pub proof fn lemma_round_trip_of_cell_bounds(from: Interval<Real>)
    requires
        from.wf(),
        bound_in_index_range(from.lower),
        bound_in_index_range(from.upper),
        from.lower.units() % 65536 == 32768,
        from.upper.units() % 65536 == 32768,
    ensures
        match to_index_spec(from) {
            Ok(Bounds::Bounded(there)) => to_real_spec(there) == from,
            Ok(Bounds::Empty) => from.lower == from.upper,
            Err(_) => false,
        },
{
}

/// Turning a continuous rectangle into a discrete one and back gives a
/// rectangle that holds the one it began with, and converting again changes nothing
/// where the discrete rectangle stays clear of the ends of the discrete domain.
pub proof fn lemma_rect_round_trip(from: Rect<Real>, there: Rect<i32>)
    requires
        from.wf(),
        rect_to_index_spec(from) == Ok::<Bounds<Rect<i32>>, RealToIndexError>(
            Bounds::Bounded(there),
        ),
    ensures
        there.wf(),
        (Rect { x: to_real_spec(there.x), y: to_real_spec(there.y) }).covers(from),
        i32::MIN < there.x.lower && there.x.upper < i32::MAX && i32::MIN < there.y.lower
            && there.y.upper < i32::MAX ==> rect_to_index_spec(
            Rect { x: to_real_spec(there.x), y: to_real_spec(there.y) },
        ) == Ok::<Bounds<Rect<i32>>, RealToIndexError>(Bounds::Bounded(there)),
{
    let x = to_index_spec(from.x);
    let y = to_index_spec(from.y);
    assert(x is Ok && y is Ok);
    assert(x.unwrap() == Bounds::Bounded(there.x));
    assert(y.unwrap() == Bounds::Bounded(there.y));
    lemma_round_trip_holds_source(from.x, there.x);
    lemma_round_trip_holds_source(from.y, there.y);
    if i32::MIN < there.x.lower && there.x.upper < i32::MAX && i32::MIN < there.y.lower
        && there.y.upper < i32::MAX {
        lemma_reconversion_is_stable(there.x);
        lemma_reconversion_is_stable(there.y);
    }
}

} // verus!
