use region_bounds::{
    AbstractBounds, Bounds, Interval, Point2, Real, RealToIndexError, Rect, Scalar, Vector2,
};
use std::cmp::Ordering;

fn num(x: f64) -> Real {
    Real::Finite((x * 65536.0) as i64)
}

fn spans() -> Vec<Bounds<Interval<i32>>> {
    let mut all = vec![Bounds::Empty];
    for lower in -2..4 {
        for upper in lower..4 {
            all.push(Interval::new(lower, upper));
        }
    }
    all
}

fn areas() -> Vec<Bounds<Rect<Real>>> {
    let marks = [num(-1.5), num(0.0), num(2.25)];
    let mut all = vec![Bounds::Empty];
    for x0 in marks {
        for x1 in marks {
            for y0 in marks {
                for y1 in marks {
                    all.push(Rect::new(Point2::new(x0, y0), Point2::new(x1, y1)));
                }
            }
        }
    }
    all
}

#[test]
fn mutual_containment_is_equality() {
    for a in spans() {
        for b in spans() {
            assert_eq!(a.contains(b) && b.contains(a), a == b);
        }
    }
    for a in areas() {
        for b in areas() {
            assert_eq!(a.contains(b) && b.contains(a), a == b);
        }
    }
}

#[test]
fn clipping_is_empty_iff_apart() {
    for a in spans() {
        for b in spans() {
            assert_eq!(
                a.clipped_to(b).is_empty(),
                a.is_empty() || b.is_empty() || !a.intersects(b)
            );
        }
    }
    for a in areas() {
        for b in areas() {
            assert_eq!(
                a.clipped_to(b).is_empty(),
                a.is_empty() || b.is_empty() || !a.intersects(b)
            );
        }
    }
}

#[test]
fn expansion_holds_both() {
    for a in spans() {
        for b in spans() {
            assert!(a.expanded_to(b).contains(a));
            assert!(a.expanded_to(b).contains(b));
        }
    }
    for a in areas() {
        for b in areas() {
            assert!(a.expanded_to(b).contains(a));
            assert!(a.expanded_to(b).contains(b));
        }
    }
}

#[test]
fn empty_is_identity_and_absorbs() {
    let nothing: Bounds<Interval<i32>> = Bounds::Empty;
    for a in spans() {
        assert_eq!(a.expanded_to(nothing), a);
        assert_eq!(nothing.expanded_to(a), a);
        assert_eq!(a.clipped_to(nothing), nothing);
        assert_eq!(nothing.clipped_to(a), nothing);
        assert!(!a.intersects(nothing));
        assert!(!nothing.intersects(a));
        assert!(a.contains(nothing));
        assert_eq!(nothing.contains(a), a.is_empty());
    }
    let nothing: Bounds<Rect<Real>> = Bounds::Empty;
    for a in areas() {
        assert_eq!(a.expanded_to(nothing), a);
        assert_eq!(a.clipped_to(nothing), nothing);
        assert_eq!(nothing.contains(a), a.is_empty());
    }
}

#[test]
fn hull_ignores_order_and_repeats() {
    let expected = Interval::new(num(-1.5), num(8.625));
    let points = [num(-1.5), num(5.0), num(6.75), num(8.625)];
    let orders: [[usize; 4]; 6] =
        [[0, 1, 2, 3], [3, 2, 1, 0], [1, 3, 0, 2], [2, 0, 3, 1], [3, 0, 1, 2], [1, 0, 3, 2]];
    for order in orders {
        let seq: Vec<Real> = order.iter().map(|k| points[*k]).collect();
        assert_eq!(Interval::hull(&seq), expected);
        let mut twice = seq.clone();
        twice.extend(seq.iter().cloned());
        assert_eq!(Interval::hull(&twice), expected);
    }
    let none: Vec<Real> = vec![];
    assert_eq!(Interval::hull(&none), Bounds::Empty);
    assert_eq!(Interval::hull(&vec![Real::Undefined]), Bounds::Empty);
    let mixed = vec![Interval::new(4, 6), Bounds::Empty, Interval::new(-3, 5)];
    assert_eq!(Bounds::hull(&mixed), Interval::new(-3, 6));
}

#[test]
fn round_trip_holds_the_interval_and_is_stable() {
    let f1 = Interval::new(num(5.75), num(8.25));
    let i1 = f1.to_index_interval().unwrap();
    assert_eq!(i1, Interval::new(6, 8));
    let f2 = i1.to_real_interval();
    assert_eq!(f2, Interval::new(num(5.5), num(8.5)));
    assert!(f2.contains(f1));
    assert_eq!(f2.to_index_interval().unwrap(), i1);

    let cells = Interval::new(num(-2.5), num(3.5));
    let there = cells.to_index_interval().unwrap();
    assert_eq!(there, Interval::new(-2, 3));
    assert_eq!(there.to_real_interval(), cells);
}

#[test]
fn rounding_breaks_ties_towards_the_inside() {
    let index = |lower: f64, upper: f64| {
        Interval::new(num(lower), num(upper)).to_index_interval().unwrap()
    };
    assert_eq!(index(5.5, 9.5), Interval::new(6, 9));
    assert_eq!(index(5.25, 9.75), Interval::new(5, 10));
    assert_eq!(index(5.5, 5.5), Bounds::Empty);
    assert_eq!(index(5.0, 5.0), Interval::new(5, 5));
    assert_eq!(index(-1.75, -0.75), Interval::new(-2, -1));
    assert_eq!(index(-1.5, -0.5), Interval::new(-1, -1));
    assert_eq!(index(-1.25, -0.25), Interval::new(-1, 0));
    let one_unit = Real::Finite(32767);
    assert_eq!(
        Interval::new(one_unit, Real::Finite(32769)).to_index_interval().unwrap(),
        Interval::new(0, 1)
    );
}

#[test]
fn conversion_stops_at_the_ends_of_the_discrete_domain() {
    let top = Real::from_index(i32::MAX);
    let bottom = Real::from_index(i32::MIN);
    assert_eq!(top, Real::Finite(2147483647 * 65536));
    assert_eq!(
        Interval::new(bottom, top).to_index_interval().unwrap(),
        Interval::new(i32::MIN, i32::MAX)
    );
    let beyond = Interval { lower: num(0.0), upper: Real::Finite(2147483647 * 65536 + 1) };
    assert_eq!(
        beyond.to_index_interval().unwrap_err(),
        RealToIndexError { from: beyond }
    );
    let below = Interval { lower: Real::Finite(-2147483648 * 65536 - 1), upper: num(0.0) };
    assert!(below.to_index_interval().is_err());
    let edge = Interval::new(i32::MIN, 0).to_real_interval();
    assert_eq!(edge.min().unwrap(), Real::Finite(-2147483648 * 65536 - 32768));
    assert!(edge.to_index_interval().is_err());
    assert!(Interval::to_upper(num(6.0)).to_index_interval().is_err());
    assert!(Interval::from_lower(num(3.0)).to_index_interval().is_err());
    assert!(Interval::unbounded().to_index_interval().is_err());
}

#[test]
fn rect_conversion_reports_the_axis_that_fails() {
    let x = Interval { lower: num(2.5), upper: num(5.75) };
    let y = Interval { lower: Real::NegInfinity, upper: num(6.0) };
    let e = Rect { x, y }.to_index_rect().unwrap_err();
    assert_eq!(e.from, y);
    let e = Rect { x: y, y: x }.to_index_rect().unwrap_err();
    assert_eq!(e.from, y);
    let flat = Rect { x, y: Interval { lower: num(0.5), upper: num(0.5) } };
    assert_eq!(flat.to_index_rect().unwrap(), Bounds::Empty);
}

#[test]
fn text_is_canonical() {
    assert_eq!(Interval::new(num(1.5), num(2.0)).to_text(), "[1.5, 2.0]");
    assert_eq!(Interval::from_lower(num(1.5)).to_text(), "[1.5, inf)");
    assert_eq!(Interval::to_upper(num(2.0)).to_text(), "(-inf, 2.0]");
    assert_eq!(Interval::unbounded().to_text(), "(-inf, inf)");
    assert_eq!(Bounds::<Interval<Real>>::Empty.to_text(), "()");
    assert_eq!(Bounds::<Interval<i32>>::Empty.to_text(), "()");
    assert_eq!(Interval::new(num(-0.25), num(8.625)).to_text(), "[-0.25, 8.625]");
    assert_eq!(
        Interval::new(Real::Finite(1), Real::Finite(65535)).to_text(),
        "[0.0000152587890625, 0.9999847412109375]"
    );
    assert_eq!(Interval::new(num(-120.0), num(1000000.5)).to_text(), "[-120.0, 1000000.5]");
    assert_eq!(
        Interval::new(i32::MIN, i32::MAX).to_text(),
        "[-2147483648, 2147483647]"
    );
    assert_eq!(Interval::new(0, 10).to_text(), "[0, 10]");
    let odd = Interval { lower: Real::Undefined, upper: Real::Undefined };
    assert_eq!(odd.to_text(), "(NaN, NaN)");
}

#[test]
fn places_round_to_the_even_neighbour() {
    let show = |x: f64, places: usize| {
        Interval { lower: num(x), upper: num(x) }.to_text_with_places(places)
    };
    assert_eq!(show(8.625, 2), "[8.62, 8.62]");
    assert_eq!(show(8.625, 3), "[8.625, 8.625]");
    assert_eq!(show(8.625, 5), "[8.62500, 8.62500]");
    assert_eq!(show(0.375, 2), "[0.38, 0.38]");
    assert_eq!(show(0.125, 1), "[0.1, 0.1]");
    assert_eq!(show(2.5, 0), "[2, 2]");
    assert_eq!(show(3.5, 0), "[4, 4]");
    assert_eq!(show(-1.75, 1), "[-1.8, -1.8]");
    assert_eq!(show(9.96875, 1), "[10.0, 10.0]");
    let tiny = Interval { lower: Real::Finite(-1), upper: Real::Finite(1) };
    assert_eq!(tiny.to_text_with_places(1), "[-0.0, 0.0]");
    assert_eq!(tiny.to_text_with_places(16), "[-0.0000152587890625, 0.0000152587890625]");
    assert_eq!(tiny.to_text_with_places(18), "[-0.000015258789062500, 0.000015258789062500]");
    assert_eq!(show(1.5, 20), "[1.50000000000000000000, 1.50000000000000000000]");
    assert_eq!(Interval::new(-3, 12).to_text_with_places(2), "[-3, 12]");
    let r = Rect::new(Point2::new(num(1.5), num(-2.0)), Point2::new(num(2.125), Real::Infinity));
    assert_eq!(r.to_text_with_places(2), "[1.50, 2.12]\u{d7}[-2.00, inf)");
    assert_eq!(Bounds::<Rect<Real>>::Empty.to_text_with_places(2), "()\u{d7}()");
    assert_eq!(Bounds::<Interval<Real>>::Empty.to_text_with_places(2), "()");
}

#[test]
fn area_is_width_times_height() {
    let r = Rect::new(Point2::new(3, 4), Point2::new(5, 7));
    assert_eq!(r.size(), Vector2::new(3, 4));
    assert_eq!(r.width(), 3);
    assert_eq!(r.height(), 4);
    assert_eq!(r.area(), 12);
    let dot = Rect::new(Point2::new(3, 4), Point2::new(3, 4));
    assert_eq!(dot.area(), 1);
    let nothing = Rect::new(Point2::new(3, 4), Point2::new(2, 9));
    assert!(nothing.is_empty());
    assert_eq!(nothing.area(), 0);
    assert_eq!(nothing.size(), Vector2::new(0, 0));

    let r = Rect::new(Point2::new(num(-1.5), num(0.25)), Point2::new(num(5.0), num(2.0)));
    assert_eq!(r.size(), Vector2::new(num(6.5), num(1.75)));
    assert_eq!(r.area(), num(11.375));
    let flat = Rect::new(Point2::new(num(-1.5), num(2.0)), Point2::new(num(5.0), num(2.0)));
    assert!(!flat.is_empty());
    assert_eq!(flat.height(), num(0.0));
    assert_eq!(flat.area(), num(0.0));
}

#[test]
fn real_arithmetic_knows_the_infinities() {
    assert_eq!(num(1.5).plus(num(2.25)), num(3.75));
    assert_eq!(num(1.5).plus(Real::Infinity), Real::Infinity);
    assert_eq!(Real::NegInfinity.plus(num(2.0)), Real::NegInfinity);
    assert_eq!(num(1.5).minus(num(2.25)), num(-0.75));
    assert_eq!(num(1.5).minus(Real::Infinity), Real::NegInfinity);
    assert_eq!(num(1.5).minus(Real::NegInfinity), Real::Infinity);
    assert_eq!(Real::Infinity.minus(Real::NegInfinity), Real::Infinity);
    assert_eq!(num(1.5).negated(), num(-1.5));
    assert_eq!(Real::Infinity.negated(), Real::NegInfinity);
    assert_eq!(num(1.5).times(num(-2.5)), num(-3.75));
    assert_eq!(num(-1.5).times(num(-2.5)), num(3.75));
    assert_eq!(num(-1.5).times(Real::Infinity), Real::NegInfinity);
    assert_eq!(Real::NegInfinity.times(Real::NegInfinity), Real::Infinity);
    assert_eq!(num(0.0).times(num(7.0)), num(0.0));
    assert_eq!(num(3.0).halved(), num(1.5));
    assert_eq!(num(-3.0).halved(), num(-1.5));
    assert_eq!(Real::size(num(1.5), num(1.5)), num(0.0));
    assert_eq!(num(2.0).max_from_size(num(1.5)), num(3.5));
    assert_eq!(Real::zero(), num(0.0));
    assert!(Real::NegInfinity.at_most(num(0.0)));
    assert!(num(0.0).at_most(num(0.0)));
    assert!(!num(0.0).below(num(0.0)));
    assert!(num(0.0).below(Real::Infinity));
    assert!(!Real::Infinity.below(Real::Infinity));
    assert!(!Real::Undefined.at_most(Real::Undefined));
    assert!(!Real::Undefined.at_most(num(1.0)));
    assert_eq!(Real::Undefined.min(num(1.0)), num(1.0));
    assert_eq!(num(1.0).max(Real::Undefined), num(1.0));
    assert_eq!(num(1.0).min(num(-1.0)), num(-1.0));
    assert_eq!(num(1.0).max(Real::Infinity), Real::Infinity);
    assert!(num(1.0).is_finite());
    assert!(!Real::Infinity.is_finite());
}

#[test]
fn index_arithmetic_counts_both_ends() {
    assert_eq!(<i32 as Scalar>::size(3, 3), 1);
    assert_eq!(<i32 as Scalar>::size(-2, 2), 5);
    assert_eq!(Scalar::max_from_size(3, 4), 6);
    assert_eq!(Scalar::max_from_size(i32::MAX, 1), i32::MAX);
    assert_eq!(Scalar::times(-3, 4), -12);
    assert_eq!(Scalar::plus(i32::MAX, -1), i32::MAX - 1);
    assert_eq!(Scalar::minus(-5, 7), -12);
    assert_eq!(Scalar::negated(i32::MAX), -i32::MAX);
    assert_eq!(Scalar::min(4, -4), -4);
    assert_eq!(Scalar::max(4, -4), 4);
    assert!(Scalar::at_most(4, 4));
    assert!(!Scalar::below(4, 4));
}

#[test]
fn with_min_and_size_builds_from_a_length() {
    assert_eq!(Interval::with_min_and_size(3, 4), Interval::new(3, 6));
    assert_eq!(Interval::with_min_and_size(3, 1), Interval::new(3, 3));
    assert_eq!(Interval::with_min_and_size(3, 0), Bounds::Empty);
    assert_eq!(Interval::with_min_and_size(3, -2), Bounds::Empty);
    assert_eq!(Interval::with_min_and_size(num(2.0), num(1.5)), Interval::new(num(2.0), num(3.5)));
    assert_eq!(Interval::with_min_and_size(num(2.0), num(0.0)), Bounds::Empty);
}

#[test]
fn dilation_grows_and_erosion_shrinks() {
    let i = Interval { lower: 2, upper: 5 };
    assert_eq!(i.dilated_by(2), Interval::new(0, 7));
    assert_eq!(i.dilated_by(-1), Interval::new(3, 4));
    assert_eq!(i.dilated_by(-2), Bounds::Empty);
    assert_eq!(i.eroded_by(1), Interval::new(3, 4));
    assert_eq!(i.eroded_by(2), Bounds::Empty);
    assert_eq!(i.eroded_by(-2), Interval::new(0, 7));
    assert_eq!(Bounds::Bounded(i).dilated_by(1), Interval::new(1, 6));
    assert_eq!(Bounds::<Interval<i32>>::Empty.dilated_by(5), Bounds::Empty);
    let r = Rect { x: i, y: Interval { lower: 0, upper: 0 } };
    assert_eq!(
        r.dilated_by(&Vector2::new(1, 2)),
        Rect::new(Point2::new(1, -2), Point2::new(6, 2))
    );
    assert_eq!(r.dilated_by(&Vector2::new(1, -1)), Bounds::Empty);
    assert_eq!(
        r.eroded_by(&Vector2::new(1, 0)),
        Rect::new(Point2::new(3, 0), Point2::new(4, 0))
    );
    assert_eq!(
        Bounds::Bounded(r).dilated_by(Vector2::new(0, 1)),
        Rect::new(Point2::new(2, -1), Point2::new(5, 1))
    );
}

#[test]
fn intervals_are_ordered_only_when_apart_or_same() {
    let a = Interval { lower: 1, upper: 3 };
    let b = Interval { lower: 4, upper: 6 };
    let c = Interval { lower: 3, upper: 5 };
    assert_eq!(a.partial_cmp(&b), Some(Ordering::Less));
    assert_eq!(b.partial_cmp(&a), Some(Ordering::Greater));
    assert_eq!(a.partial_cmp(&a), Some(Ordering::Equal));
    assert_eq!(a.partial_cmp(&c), None);
    assert_eq!(c.partial_cmp(&a), None);
    assert_eq!(c.partial_cmp(&b), None);
    assert!(a < b);
    assert!(b > a);
    assert!(a <= a);
    assert!(!(a < c));
    assert!(!(c < a));
    assert!(!(a <= c));

    let wide = Interval { lower: num(1.5), upper: num(8.75) };
    let dot = Interval { lower: num(1.5), upper: num(1.5) };
    assert!(!(wide < dot));
    assert!(!(dot < wide));
    assert_ne!(wide, dot);
    let ray = Interval { lower: num(9.0), upper: Real::Infinity };
    assert!(wide < ray);
    assert_eq!(ray.partial_cmp(&ray), Some(Ordering::Equal));
    let odd = Interval { lower: Real::Undefined, upper: Real::Undefined };
    assert_eq!(odd.partial_cmp(&odd), None);

    let nothing: Bounds<Interval<i32>> = Bounds::Empty;
    assert_eq!(nothing.partial_cmp(&nothing), Some(Ordering::Equal));
    assert_eq!(nothing.partial_cmp(&Bounds::Bounded(a)), None);
    assert_eq!(Bounds::Bounded(a).partial_cmp(&nothing), None);
    assert!(Bounds::Bounded(a) < Bounds::Bounded(b));
    assert!(!(Bounds::Bounded(a) < Bounds::Bounded(c)));
}

#[test]
fn ranges_count_from_the_origin() {
    let i = Interval { lower: -2, upper: 3 };
    assert_eq!(i.to_range_with_origin(2), 0..6);
    assert_eq!(i.to_range_with_origin(10), 8..14);
    assert_eq!(Bounds::Bounded(i).to_range_with_origin(4), 2..8);
    assert_eq!(Bounds::<Interval<i32>>::Empty.to_range_with_origin(4), 0..0);
    let r = Rect { x: Interval { lower: 5, upper: 7 }, y: Interval { lower: 1, upper: 1 } };
    assert_eq!(r.to_window(&Point2::new(3, 0)), (1..2, 2..5));
}

#[test]
fn changes_in_place_match_the_pure_forms() {
    let a = Interval::new(1, 3);
    let b = Interval::new(6, 8);
    let mut grown = a;
    grown.expand_to(b);
    assert_eq!(grown, Interval::new(1, 8));
    assert_eq!(grown, a.expanded_to(b));
    let mut cut = grown;
    cut.clip_to(Interval::new(2, 20));
    assert_eq!(cut, Interval::new(2, 8));
    cut.clip_to(Interval::new(30, 40));
    assert_eq!(cut, Bounds::Empty);
    cut.expand_to(5);
    assert_eq!(cut, Interval::new(5, 5));
    cut.shift_by(-7);
    assert_eq!(cut, Interval::new(-2, -2));
    let mut nothing: Bounds<Interval<i32>> = Bounds::Empty;
    nothing.shift_by(3);
    assert_eq!(nothing, Bounds::Empty);

    let mut i = Interval { lower: 1, upper: 3 };
    i.expand_to(7);
    assert_eq!(i, Interval { lower: 1, upper: 7 });
    i.expand_to(Bounds::<Interval<i32>>::Empty);
    assert_eq!(i, Interval { lower: 1, upper: 7 });
    i.shift_by(2);
    assert_eq!(i, Interval { lower: 3, upper: 9 });
    assert_eq!(i.shifted_by(-3), Interval { lower: 0, upper: 6 });
    assert_eq!(i.min(), 3);
    assert_eq!(i.max(), 9);
    assert_eq!(i.lower(), 3);
    assert_eq!(i.upper(), 9);
    assert_eq!(i.size(), 7);
    assert!(!i.is_empty());
    assert!(i.contains(5));
    assert!(!i.contains(10));
    assert!(i.intersects(Interval::new(9, 12)));
    assert_eq!(i.clipped_to(Interval::new(9, 12)), Interval::new(9, 9));
    assert_eq!(i.expanded_to(&Interval { lower: 0, upper: 1 }), Interval::new(0, 9));

    let mut r = Rect { x: i, y: Interval { lower: 0, upper: 1 } };
    r.expand_to(Point2::new(20, -5));
    assert_eq!(Bounds::Bounded(r), Rect::new(Point2::new(3, -5), Point2::new(20, 1)));
    r.shift_by(Vector2::new(-3, 5));
    assert_eq!(Bounds::Bounded(r), Rect::new(Point2::new(0, 0), Point2::new(17, 6)));
    assert_eq!(r.lower(), Point2::new(0, 0));
    assert_eq!(r.upper(), Point2::new(17, 6));
    assert_eq!(r.min(), r.lower());
    assert_eq!(r.max(), r.upper());
    assert!(!r.is_empty());
    assert_eq!(
        r.corners(),
        [Point2::new(0, 0), Point2::new(0, 6), Point2::new(17, 6), Point2::new(17, 0)]
    );
    assert!(r.contains(Point2::new(17, 0)));
    assert!(!r.intersects(Point2::new(18, 0)));
    assert_eq!(
        r.clipped_to(Rect::new(Point2::new(10, 3), Point2::new(30, 30))),
        Rect::new(Point2::new(10, 3), Point2::new(17, 6))
    );
    assert_eq!(r.clipped_to(Rect::new(Point2::new(18, 3), Point2::new(30, 30))), Bounds::Empty);
    assert_eq!(
        r.shifted_by(&Vector2::new(1, 1)),
        Rect { x: Interval { lower: 1, upper: 18 }, y: Interval { lower: 1, upper: 7 } }
    );
    assert_eq!(Bounds::<Rect<i32>>::new(Point2::new(0, 0), Point2::new(17, 6)), r.to_bounds());
}

#[test]
fn centered_shapes_spread_evenly() {
    let r = Rect::with_center_and_size(
        &Point2::new(num(3.0), num(-1.0)),
        &Vector2::new(num(1.0), num(4.5)),
    );
    assert_eq!(
        r,
        Rect::new(Point2::new(num(2.5), num(-3.25)), Point2::new(num(3.5), num(1.25)))
    );
    match r {
        Bounds::Bounded(inner) => assert_eq!(inner.center(), Point2::new(num(3.0), num(-1.0))),
        Bounds::Empty => panic!("a rectangle with both sizes above zero is not empty"),
    }
    assert_eq!(Interval::with_center_and_size(num(3.0), num(-1.0)), Bounds::Empty);
}

#[test]
fn an_unorderable_bound_gives_no_interval() {
    assert_eq!(Interval::new(Real::Undefined, num(1.0)), Bounds::Empty);
    assert_eq!(Interval::new(num(1.0), Real::Undefined), Bounds::Empty);
    assert_eq!(Interval::point(Real::Undefined), Bounds::Empty);
    assert_eq!(Real::Undefined.to_bounds(), Bounds::Empty);
    assert_eq!(Interval::point(Real::Infinity).min(), Some(Real::Infinity));
    assert_eq!(Point2::new(num(1.0), Real::Undefined).to_bounds(), Bounds::Empty);
}

#[test]
fn checked_arithmetic_reports_what_is_not_representable() {
    assert_eq!(Scalar::checked_plus(i32::MAX, 1), None);
    assert_eq!(Scalar::checked_plus(i32::MAX, -1), Some(i32::MAX - 1));
    assert_eq!(Scalar::checked_minus(i32::MIN, 1), None);
    assert_eq!(Scalar::checked_minus(-5, 7), Some(-12));
    assert_eq!(Scalar::checked_negated(i32::MIN), None);
    assert_eq!(Scalar::checked_negated(7), Some(-7));
    assert_eq!(Scalar::checked_times(65536, 32768), None);
    assert_eq!(Scalar::checked_times(-65536, 32768), Some(i32::MIN));
    assert_eq!(<i32 as Scalar>::checked_size(i32::MIN, i32::MAX), None);
    assert_eq!(<i32 as Scalar>::checked_size(3, 2), None);
    assert_eq!(<i32 as Scalar>::checked_size(-2, 2), Some(5));
    assert_eq!(Scalar::checked_max_from_size(i32::MAX, 2), None);
    assert_eq!(Scalar::checked_max_from_size(i32::MAX, 1), Some(i32::MAX));

    assert_eq!(num(1.5).checked_plus(num(2.25)), Some(num(3.75)));
    assert_eq!(Real::Finite(i64::MAX).checked_plus(Real::Finite(1)), None);
    assert_eq!(Real::Infinity.checked_plus(Real::NegInfinity), None);
    assert_eq!(Real::Infinity.checked_plus(Real::Infinity), Some(Real::Infinity));
    assert_eq!(Real::Undefined.checked_plus(num(1.0)), None);
    assert_eq!(Real::Infinity.checked_minus(Real::Infinity), None);
    assert_eq!(num(1.0).checked_minus(Real::Infinity), Some(Real::NegInfinity));
    assert_eq!(Real::Finite(i64::MIN).checked_negated(), None);
    assert_eq!(Real::NegInfinity.checked_negated(), Some(Real::Infinity));
    assert_eq!(Real::Finite(1).checked_times(Real::Finite(1)), None);
    assert_eq!(Real::Finite(1).checked_times(num(1.0)), Some(Real::Finite(1)));
    assert_eq!(num(-1.5).checked_times(num(2.5)), Some(num(-3.75)));
    assert_eq!(Real::Finite(i64::MIN).checked_times(num(-1.0)), None);
    assert_eq!(Real::Finite(i64::MIN).checked_times(num(1.0)), Some(Real::Finite(i64::MIN)));
    assert_eq!(Real::Infinity.checked_times(num(0.0)), None);
    assert_eq!(Real::Infinity.checked_times(num(-2.0)), Some(Real::NegInfinity));
    assert_eq!(Real::checked_size(num(2.0), num(1.0)), None);
    assert_eq!(Real::checked_size(Real::Infinity, Real::Infinity), None);
    assert_eq!(Real::checked_size(Real::NegInfinity, num(1.0)), Some(Real::Infinity));
    assert_eq!(num(2.0).checked_max_from_size(num(1.5)), Some(num(3.5)));
}

#[test]
fn checked_operations_stop_at_the_ends_of_the_domain() {
    let whole = Interval::new(i32::MIN, i32::MAX);
    assert_eq!(whole.checked_size(), None);
    assert_eq!(whole.checked_shifted_by(1), None);
    assert_eq!(whole.checked_shifted_by(0), Some(whole));
    assert_eq!(whole.checked_dilated_by(1), None);
    assert_eq!(whole.checked_dilated_by(-1), Some(Interval::new(i32::MIN + 1, i32::MAX - 1)));
    let some = Interval::new(2, 5);
    assert_eq!(some.checked_size(), Some(4));
    assert_eq!(some.checked_shifted_by(-7), Some(Interval::new(-5, -2)));
    assert_eq!(some.checked_dilated_by(-2), Some(Bounds::Empty));
    let nothing: Bounds<Interval<i32>> = Bounds::Empty;
    assert_eq!(nothing.checked_size(), Some(0));
    assert_eq!(nothing.checked_shifted_by(i32::MAX), Some(nothing));
    assert_eq!(nothing.checked_dilated_by(i32::MAX), Some(nothing));
    let out_of_order = Bounds::Bounded(Interval { lower: 5, upper: 2 });
    assert_eq!(out_of_order.checked_size(), None);

    let plane = Rect::new(Point2::new(i32::MIN, 0), Point2::new(i32::MAX, 3));
    assert_eq!(plane.checked_size(), None);
    assert_eq!(plane.checked_area(), None);
    assert_eq!(plane.checked_shifted_by(Vector2::new(0, 1)), plane.shifted_by(Vector2::new(0, 1)).into());
    assert_eq!(plane.checked_shifted_by(Vector2::new(1, 0)), None);
    let wide = Rect::new(Point2::new(0, 0), Point2::new(65535, 32767));
    assert_eq!(wide.checked_size(), Some(Vector2::new(65536, 32768)));
    assert_eq!(wide.checked_area(), None);
    let r = Rect::new(Point2::new(3, 4), Point2::new(5, 7));
    assert_eq!(r.checked_area(), Some(12));
    assert_eq!(r.checked_dilated_by(Vector2::new(-1, -2)), Some(Bounds::Empty));
    assert_eq!(Bounds::<Rect<i32>>::Empty.checked_area(), Some(0));

    let ray = Interval::from_lower(num(1.0));
    assert_eq!(ray.checked_shifted_by(Real::NegInfinity), None);
    assert_eq!(ray.checked_shifted_by(Real::Infinity), Some(Interval::point(Real::Infinity)));
    assert_eq!(ray.checked_size(), Some(Real::Infinity));
}
