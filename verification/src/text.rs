use vstd::prelude::*;
use vstd::string::*;
use crate::bounds::Bounds;
use crate::continuous::Real;
use crate::convert::RealToIndexError;
use crate::interval::Interval;
use crate::rect::Rect;
use crate::scalar::Scalar;

verus! {

/// The text of one decimal digit.
pub open spec fn digit_text(d: int) -> Seq<char> {
    if d == 0 {
        "0"@
    } else if d == 1 {
        "1"@
    } else if d == 2 {
        "2"@
    } else if d == 3 {
        "3"@
    } else if d == 4 {
        "4"@
    } else if d == 5 {
        "5"@
    } else if d == 6 {
        "6"@
    } else if d == 7 {
        "7"@
    } else if d == 8 {
        "8"@
    } else {
        "9"@
    }
}

/// The decimal text of a natural number, without leading zeros.
pub open spec fn natural_text(n: nat) -> Seq<char>
    decreases n,
{
    if n < 10 {
        digit_text(n as int)
    } else {
        natural_text(n / 10) + digit_text((n % 10) as int)
    }
}

/// The decimal text of an integer: a minus sign before a negative one.
pub open spec fn integer_text(n: int) -> Seq<char> {
    if n < 0 {
        "-"@ + natural_text((-n) as nat)
    } else {
        natural_text(n as nat)
    }
}

/// The decimal digits of the fraction `units / 65536`: at least one, then as
/// many as it takes to write the fraction exactly, `places + 1` at most.
pub open spec fn fraction_text(units: nat, places: nat) -> Seq<char>
    decreases places,
{
    let scaled = units * 10;
    if places == 0 || scaled % 65536 == 0 {
        digit_text((scaled / 65536) as int)
    } else {
        digit_text((scaled / 65536) as int) + fraction_text(
            scaled % 65536,
            (places - 1) as nat,
        )
    }
}

/// The text of a finite value of the continuous domain, given in units: the
/// whole part, a point, and the fraction written exactly.
pub open spec fn finite_text(units: int) -> Seq<char> {
    let size = if units < 0 {
        -units
    } else {
        units
    };
    let sign = if units < 0 {
        "-"@
    } else {
        Seq::<char>::empty()
    };
    sign + natural_text((size / 65536) as nat) + "."@ + fraction_text(
        (size % 65536) as nat,
        15,
    )
}

/// Ten to the power `places`.
pub open spec fn power_of_ten(places: nat) -> nat
    decreases places,
{
    if places == 0 {
        1
    } else {
        10 * power_of_ten((places - 1) as nat)
    }
}

/// The lowest `places` decimal digits of `n`, with leading zeros.
pub open spec fn padded_text(n: nat, places: nat) -> Seq<char>
    decreases places,
{
    if places == 0 {
        Seq::<char>::empty()
    } else {
        padded_text(n / 10, (places - 1) as nat) + digit_text((n % 10) as int)
    }
}

/// The size `size / 65536`, in units of the last of `places` decimal places,
/// rounded to the nearest whole number, and to the even one of two that are
/// equally near.
pub open spec fn rounded_to_places(size: nat, places: nat) -> nat {
    let scaled = size * power_of_ten(places);
    let whole = scaled / 65536;
    let part = scaled % 65536;
    if part > 32768 || (part == 32768 && whole % 2 == 1) {
        whole + 1
    } else {
        whole
    }
}

/// The text of a finite value of the continuous domain, given in units, with
/// `places` digits behind the point, and no point where `places` is zero.
pub open spec fn fixed_text(units: int, places: nat) -> Seq<char> {
    let size = if units < 0 {
        -units
    } else {
        units
    };
    let sign = if units < 0 {
        "-"@
    } else {
        Seq::<char>::empty()
    };
    let rounded = rounded_to_places(size as nat, places);
    let behind = if places == 0 {
        Seq::<char>::empty()
    } else {
        "."@ + padded_text(rounded % power_of_ten(places), places)
    };
    sign + natural_text(rounded / power_of_ten(places)) + behind
}

/// A run of `count` zeros.
pub open spec fn zeros_text(count: nat) -> Seq<char>
    decreases count,
{
    if count == 0 {
        Seq::<char>::empty()
    } else {
        zeros_text((count - 1) as nat) + "0"@
    }
}

/// The text of a finite value of the continuous domain with `places` digits
/// behind the point. No finite value has more than 16 digits behind the
/// point: up to there the value is rounded, and beyond there zeros follow.
pub open spec fn places_text(units: int, places: nat) -> Seq<char> {
    if places <= 16 {
        fixed_text(units, places)
    } else {
        fixed_text(units, 16) + zeros_text((places - 16) as nat)
    }
}

/// A number domain whose values have a canonical text.
pub trait ScalarText: Scalar {
    /// The canonical text of the value.
    spec fn text_of(self) -> Seq<char>;

    /// Whether the value is finite, so that an interval includes it as a
    /// bound.
    spec fn closes_interval(self) -> bool;

    fn append_text(self, out: &mut String)
        ensures
            final(out)@ == old(out)@ + self.text_of(),
    ;

    /// The text of the value with `places` digits behind the point, where
    /// the domain has fractions.
    spec fn text_with_places_of(self, places: nat) -> Seq<char>;

    fn append_text_with_places(self, out: &mut String, places: usize)
        ensures
            final(out)@ == old(out)@ + self.text_with_places_of(places as nat),
    ;

    fn is_closing(self) -> (r: bool)
        ensures
            r == self.closes_interval(),
    ;
}

fn digit_str(d: u64) -> (s: &'static str)
    requires
        d < 10,
    ensures
        s@ == digit_text(d as int),
{
    if d == 0 {
        "0"
    } else if d == 1 {
        "1"
    } else if d == 2 {
        "2"
    } else if d == 3 {
        "3"
    } else if d == 4 {
        "4"
    } else if d == 5 {
        "5"
    } else if d == 6 {
        "6"
    } else if d == 7 {
        "7"
    } else if d == 8 {
        "8"
    } else {
        "9"
    }
}

fn append_natural(out: &mut String, n: u128)
    ensures
        final(out)@ == old(out)@ + natural_text(n as nat),
    decreases n,
{
    if n >= 10 {
        append_natural(out, n / 10);
    }
    out.append(digit_str((n % 10) as u64));
}

fn append_padded(out: &mut String, n: u128, places: usize)
    ensures
        final(out)@ == old(out)@ + padded_text(n as nat, places as nat),
    decreases places,
{
    if places > 0 {
        append_padded(out, n / 10, places - 1);
        out.append(digit_str((n % 10) as u64));
    } else {
        assert(out@ =~= old(out)@ + padded_text(n as nat, places as nat));
    }
}

fn append_zeros(out: &mut String, count: usize)
    ensures
        final(out)@ == old(out)@ + zeros_text(count as nat),
{
    let mut i: usize = 0;
    assert(out@ =~= old(out)@ + zeros_text(0));
    while i < count
        invariant
            i <= count,
            out@ == old(out)@ + zeros_text(i as nat),
        decreases count - i,
    {
        out.append("0");
        i = i + 1;
        assert(out@ =~= old(out)@ + zeros_text(i as nat));
    }
}

/// Ten to the power `places`, for the powers that a finite value has digits
/// for.
fn ten_to(places: usize) -> (r: u128)
    requires
        places <= 16,
    ensures
        r == power_of_ten(places as nat),
        1 <= r <= 10_000_000_000_000_000,
{
    let mut r: u128 = 1;
    let mut i: usize = 0;
    proof {
        reveal_with_fuel(power_of_ten, 17);
        assert(power_of_ten(16) == 10_000_000_000_000_000);
    }
    while i < places
        invariant
            i <= places <= 16,
            r == power_of_ten(i as nat),
            1 <= r,
            r * power_of_ten((16 - i) as nat) == 10_000_000_000_000_000,
        decreases places - i,
    {
        proof {
            let rest = power_of_ten((16 - i - 1) as nat);
            assert(power_of_ten((16 - i) as nat) == 10 * rest);
            assert(r * (10 * rest) == (r * 10) * rest) by (nonlinear_arith);
            lemma_power_of_ten_is_positive((16 - i - 1) as nat);
            assert(r * 10 <= (r * 10) * rest) by (nonlinear_arith)
                requires
                    rest >= 1,
                    r >= 1,
            ;
        }
        r = r * 10;
        i = i + 1;
    }
    proof {
        lemma_power_of_ten_is_positive((16 - i) as nat);
        assert(r <= r * power_of_ten((16 - i) as nat)) by (nonlinear_arith)
            requires
                power_of_ten((16 - i) as nat) >= 1,
                r >= 1,
        ;
    }
    r
}

/// No power of ten is zero.
pub proof fn lemma_power_of_ten_is_positive(places: nat)
    ensures
        power_of_ten(places) >= 1,
    decreases places,
{
    if places > 0 {
        lemma_power_of_ten_is_positive((places - 1) as nat);
    }
}

fn append_fixed(out: &mut String, units: i64, places: usize)
    requires
        places <= 16,
    ensures
        final(out)@ == old(out)@ + fixed_text(units as int, places as nat),
{
    let size: u128 = if units < 0 {
        out.append("-");
        (-(units as i128)) as u128
    } else {
        units as u128
    };
    let scale = ten_to(places);
    assert(size * scale <= 0x8000_0000_0000_0000 * 10_000_000_000_000_000) by (nonlinear_arith)
        requires
            size <= 0x8000_0000_0000_0000,
            scale <= 10_000_000_000_000_000,
    ;
    let scaled: u128 = size * scale;
    let whole: u128 = scaled / 65536;
    let part: u128 = scaled % 65536;
    let rounded: u128 = if part > 32768 || (part == 32768 && whole % 2 == 1) {
        whole + 1
    } else {
        whole
    };
    append_natural(out, rounded / scale);
    if places > 0 {
        out.append(".");
        append_padded(out, rounded % scale, places);
    }
    assert(out@ =~= old(out)@ + fixed_text(units as int, places as nat));
}

fn append_fraction(out: &mut String, units: u64, places: u64)
    requires
        units < 65536,
    ensures
        final(out)@ == old(out)@ + fraction_text(units as nat, places as nat),
    decreases places,
{
    let scaled: u64 = units * 10;
    out.append(digit_str(scaled / 65536));
    if places != 0 && scaled % 65536 != 0 {
        append_fraction(out, scaled % 65536, places - 1);
    }
}

impl ScalarText for i32 {
    open spec fn text_of(self) -> Seq<char> {
        integer_text(self as int)
    }

    open spec fn closes_interval(self) -> bool {
        true
    }

    fn append_text(self, out: &mut String) {
        if self < 0 {
            out.append("-");
            append_natural(out, (-(self as i64)) as u128);
        } else {
            append_natural(out, self as u128);
        }
    }

    open spec fn text_with_places_of(self, places: nat) -> Seq<char> {
        integer_text(self as int)
    }

    fn append_text_with_places(self, out: &mut String, places: usize) {
        self.append_text(out);
    }

    fn is_closing(self) -> (r: bool) {
        true
    }
}

impl ScalarText for Real {
    open spec fn text_of(self) -> Seq<char> {
        match self {
            Real::NegInfinity => "-inf"@,
            Real::Finite(n) => finite_text(n as int),
            Real::Infinity => "inf"@,
            Real::Undefined => "NaN"@,
        }
    }

    open spec fn closes_interval(self) -> bool {
        self is Finite
    }

    fn append_text(self, out: &mut String) {
        match self {
            Real::NegInfinity => {
                out.append("-inf");
            },
            Real::Finite(n) => {
                let size: u64 = if n < 0 {
                    out.append("-");
                    (-(n as i128)) as u64
                } else {
                    n as u64
                };
                append_natural(out, (size / 65536) as u128);
                out.append(".");
                append_fraction(out, size % 65536, 15);
            },
            Real::Infinity => {
                out.append("inf");
            },
            Real::Undefined => {
                out.append("NaN");
            },
        }
    }

    open spec fn text_with_places_of(self, places: nat) -> Seq<char> {
        match self {
            Real::Finite(n) => places_text(n as int, places),
            _ => self.text_of(),
        }
    }

    fn append_text_with_places(self, out: &mut String, places: usize) {
        match self {
            Real::Finite(n) => {
                if places <= 16 {
                    append_fixed(out, n, places);
                } else {
                    append_fixed(out, n, 16);
                    append_zeros(out, places - 16);
                    assert(out@ =~= old(out)@ + places_text(n as int, places as nat));
                }
            },
            _ => {
                self.append_text(out);
            },
        }
    }

    fn is_closing(self) -> (r: bool) {
        self.is_finite()
    }
}

/// The canonical text of an interval: the two bounds in brackets, where a
/// round bracket stands beside a bound that is not finite.
pub open spec fn interval_text<T: ScalarText>(i: Interval<T>) -> Seq<char> {
    (if i.lower.closes_interval() {
        "["@
    } else {
        "("@
    }) + i.lower.text_of() + ", "@ + i.upper.text_of() + (if i.upper.closes_interval() {
        "]"@
    } else {
        ")"@
    })
}

/// The canonical text of a possibly empty interval; that of the empty set is
/// a pair of round brackets.
pub open spec fn bounds_text<T: ScalarText>(b: Bounds<Interval<T>>) -> Seq<char> {
    match b {
        Bounds::Bounded(i) => interval_text(i),
        Bounds::Empty => "()"@,
    }
}

/// The canonical text of a rectangle: its two intervals with a
/// multiplication sign between them.
pub open spec fn rect_text<T: ScalarText>(r: Rect<T>) -> Seq<char> {
    interval_text(r.x) + "\u{d7}"@ + interval_text(r.y)
}

/// The canonical text of a possibly empty rectangle.
pub open spec fn rect_bounds_text<T: ScalarText>(b: Bounds<Rect<T>>) -> Seq<char> {
    match b {
        Bounds::Bounded(r) => rect_text(r),
        Bounds::Empty => "()\u{d7}()"@,
    }
}

fn append_interval<T: ScalarText>(out: &mut String, i: &Interval<T>)
    ensures
        final(out)@ == old(out)@ + interval_text(*i),
{
    if i.lower.is_closing() {
        out.append("[");
    } else {
        out.append("(");
    }
    i.lower.append_text(out);
    out.append(", ");
    i.upper.append_text(out);
    if i.upper.is_closing() {
        out.append("]");
    } else {
        out.append(")");
    }
    assert(out@ =~= old(out)@ + interval_text(*i));
}

/// The text of an interval whose bounds are written with `places` digits
/// behind the point.
pub open spec fn interval_text_with_places<T: ScalarText>(i: Interval<T>, places: nat) -> Seq<
    char,
> {
    (if i.lower.closes_interval() {
        "["@
    } else {
        "("@
    }) + i.lower.text_with_places_of(places) + ", "@ + i.upper.text_with_places_of(places) + (
    if i.upper.closes_interval() {
        "]"@
    } else {
        ")"@
    })
}

/// The text of a possibly empty interval whose bounds are written with
/// `places` digits behind the point.
pub open spec fn bounds_text_with_places<T: ScalarText>(
    b: Bounds<Interval<T>>,
    places: nat,
) -> Seq<char> {
    match b {
        Bounds::Bounded(i) => interval_text_with_places(i, places),
        Bounds::Empty => "()"@,
    }
}

impl<T: ScalarText> Interval<T> {
    /// The text of the interval with `places` digits behind the point of each
    /// bound.
    pub fn to_text_with_places(&self, places: usize) -> (s: String)
        ensures
            s@ == interval_text_with_places(*self, places as nat),
    {
        let mut out = String::new();
        if self.lower.is_closing() {
            out.append("[");
        } else {
            out.append("(");
        }
        self.lower.append_text_with_places(&mut out, places);
        out.append(", ");
        self.upper.append_text_with_places(&mut out, places);
        if self.upper.is_closing() {
            out.append("]");
        } else {
            out.append(")");
        }
        assert(out@ =~= interval_text_with_places(*self, places as nat));
        out
    }

    /// The canonical text of the interval.
    pub fn to_text(&self) -> (s: String)
        ensures
            s@ == interval_text(*self),
    {
        let mut out = String::new();
        append_interval(&mut out, self);
        assert(out@ =~= interval_text(*self));
        out
    }
}

impl<T: ScalarText> Bounds<Interval<T>> {
    /// The text of the bounds with `places` digits behind the point of each
    /// bound.
    pub fn to_text_with_places(&self, places: usize) -> (s: String)
        ensures
            s@ == bounds_text_with_places(*self, places as nat),
    {
        match self {
            Bounds::Bounded(i) => i.to_text_with_places(places),
            Bounds::Empty => String::from_str("()"),
        }
    }

    /// The canonical text of the bounds.
    pub fn to_text(&self) -> (s: String)
        ensures
            s@ == bounds_text(*self),
    {
        match self {
            Bounds::Bounded(i) => i.to_text(),
            Bounds::Empty => String::from_str("()"),
        }
    }
}

/// The text of a rectangle whose bounds are written with `places` digits
/// behind the point.
pub open spec fn rect_text_with_places<T: ScalarText>(r: Rect<T>, places: nat) -> Seq<char> {
    interval_text_with_places(r.x, places) + "\u{d7}"@ + interval_text_with_places(r.y, places)
}

/// The text of a possibly empty rectangle whose bounds are written with
/// `places` digits behind the point.
pub open spec fn rect_bounds_text_with_places<T: ScalarText>(
    b: Bounds<Rect<T>>,
    places: nat,
) -> Seq<char> {
    match b {
        Bounds::Bounded(r) => rect_text_with_places(r, places),
        Bounds::Empty => "()\u{d7}()"@,
    }
}

impl<T: ScalarText> Rect<T> {
    /// The text of the rectangle with `places` digits behind the point of
    /// each bound.
    pub fn to_text_with_places(&self, places: usize) -> (s: String)
        ensures
            s@ == rect_text_with_places(*self, places as nat),
    {
        let mut out = self.x.to_text_with_places(places);
        out.append("\u{d7}");
        let y = self.y.to_text_with_places(places);
        out.append(y.as_str());
        out
    }

    /// The canonical text of the rectangle.
    pub fn to_text(&self) -> (s: String)
        ensures
            s@ == rect_text(*self),
    {
        let mut out = String::new();
        append_interval(&mut out, &self.x);
        out.append("\u{d7}");
        append_interval(&mut out, &self.y);
        assert(out@ =~= rect_text(*self));
        out
    }
}

impl<T: ScalarText> Bounds<Rect<T>> {
    /// The text of the bounds with `places` digits behind the point of each
    /// bound.
    pub fn to_text_with_places(&self, places: usize) -> (s: String)
        ensures
            s@ == rect_bounds_text_with_places(*self, places as nat),
    {
        match self {
            Bounds::Bounded(r) => r.to_text_with_places(places),
            Bounds::Empty => String::from_str("()\u{d7}()"),
        }
    }

    /// The canonical text of the bounds.
    pub fn to_text(&self) -> (s: String)
        ensures
            s@ == rect_bounds_text(*self),
    {
        match self {
            Bounds::Bounded(r) => r.to_text(),
            Bounds::Empty => String::from_str("()\u{d7}()"),
        }
    }
}

/// The message of a failed conversion.
pub open spec fn error_text(e: RealToIndexError) -> Seq<char> {
    "RealInterval "@ + interval_text(e.from) + " cannot be converted to an IndexInterval."@
}

impl RealToIndexError {
    /// The message of the error, which names the interval that has no
    /// discrete counterpart.
    pub fn to_text(&self) -> (s: String)
        ensures
            s@ == error_text(*self),
    {
        let mut out = String::from_str("RealInterval ");
        append_interval(&mut out, &self.from);
        out.append(" cannot be converted to an IndexInterval.");
        out
    }
}

} // verus!
