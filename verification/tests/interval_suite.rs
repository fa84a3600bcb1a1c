use rand::rngs::StdRng;
use rand::seq::SliceRandom;
use rand::SeedableRng;
use region_bounds::{
    AbstractBounds, Bounds, IndexInterval, Interval, Real, RealInterval, RealToIndexError, Scalar,
};

type Span<T> = Bounds<Interval<T>>;

trait Num: Scalar + PartialEq + std::fmt::Debug + AbstractBounds<Interval<Self>> {
    fn of(x: f64) -> Self;
    fn raw(self) -> f64;
    fn unit_gap() -> f64;
}

impl Num for i32 {
    fn of(x: f64) -> Self {
        x as i32
    }
    fn raw(self) -> f64 {
        self as f64
    }
    fn unit_gap() -> f64 {
        1.0
    }
}

impl Num for Real {
    fn of(x: f64) -> Self {
        num(x)
    }
    fn raw(self) -> f64 {
        match self {
            Real::NegInfinity => f64::NEG_INFINITY,
            Real::Finite(n) => n as f64 / 65536.0,
            Real::Infinity => f64::INFINITY,
            Real::Undefined => f64::NAN,
        }
    }
    fn unit_gap() -> f64 {
        0.0
    }
}

fn num(x: f64) -> Real {
    if x.is_nan() {
        Real::Undefined
    } else if x == f64::INFINITY {
        Real::Infinity
    } else if x == f64::NEG_INFINITY {
        Real::NegInfinity
    } else {
        Real::Finite((x * 65536.0) as i64)
    }
}

struct TestIntervals<T: Num> {
    nonsingular: Vec<Span<T>>,
    singular: Vec<Span<T>>,
    empty: Vec<Span<T>>,
}

impl<T: Num> TestIntervals<T> {
    fn new(points: &Vec<T>) -> Self {
        let mut result = TestIntervals { nonsingular: vec![], singular: vec![], empty: vec![] };
        for (i, lhs) in points.iter().enumerate() {
            for (j, rhs) in points.iter().enumerate() {
                if i < j {
                    result.nonsingular.push(Interval::new(*lhs, *rhs));
                } else if i > j {
                    result.empty.push(Interval::new(*lhs, *rhs));
                } else {
                    result.singular.push(Interval::point(*lhs));
                }
            }
        }
        result
    }

    fn finite(&self) -> Vec<Span<T>> {
        self.nonsingular.iter().chain(self.singular.iter()).cloned().collect()
    }

    fn empty(&self) -> Vec<Span<T>> {
        self.empty.clone()
    }

    fn all(&self) -> Vec<Span<T>> {
        self.finite().into_iter().chain(self.empty()).collect()
    }
}

struct TestSuite<T: Num> {
    points: Vec<T>,
    intervals: TestIntervals<T>,
    a: T,
    b: T,
    ab: Span<T>,
    ba: Span<T>,
}

fn lo<T: Num>(s: &Span<T>) -> f64 {
    s.min().unwrap().raw()
}

fn hi<T: Num>(s: &Span<T>) -> f64 {
    s.max().unwrap().raw()
}

impl<T: Num> TestSuite<T> {
    fn new(points: Vec<T>) -> Self {
        let a = points[0];
        let b = points[1];
        let intervals = TestIntervals::new(&points);
        Self { points, intervals, a, b, ab: Interval::new(a, b), ba: Interval::new(b, a) }
    }

    fn accessors(&self) {
        assert_eq!(self.ab.min().unwrap(), self.a);
        assert_eq!(self.ab.max().unwrap(), self.b);
        assert_eq!(self.ba.min(), None);
        assert_eq!(self.ba.max(), None);
    }

    fn empty(&self) {
        assert!(self.intervals.finite().iter().all(|i| !i.is_empty()));
        assert!(self.intervals.empty().iter().all(|i| i.is_empty()));
    }

    fn hull(&self) {
        let mut rng = StdRng::from_seed([0; 32]);
        for (n1, p1) in self.points.iter().enumerate() {
            for (n2, p2) in self.points.iter().enumerate().skip(n1) {
                let mut seq = self.points[n1..=n2].to_vec();
                let i = Interval::new(*p1, *p2);
                assert_eq!(i, Interval::hull(&seq));
                let backwards: Vec<T> = seq.iter().rev().cloned().collect();
                assert_eq!(i, Interval::hull(&backwards));
                seq.shuffle(&mut rng);
                assert_eq!(i, Interval::hull(&seq));
            }
        }
    }

    fn contains(&self) {
        for lhs in self.intervals.finite() {
            for rhs in self.intervals.finite() {
                assert_eq!(lhs.contains(&rhs), lo(&lhs) <= lo(&rhs) && hi(&lhs) >= hi(&rhs));
            }
            for rhs in self.intervals.empty() {
                assert!(lhs.contains(&rhs));
            }
            for rhs in &self.points {
                assert_eq!(
                    lhs.contains(*rhs),
                    lo(&lhs) <= rhs.raw() && hi(&lhs) >= rhs.raw()
                );
            }
        }
        for lhs in self.intervals.empty() {
            for rhs in self.intervals.finite() {
                assert!(!lhs.contains(&rhs));
            }
            for rhs in self.intervals.empty() {
                assert!(lhs.contains(&rhs));
            }
        }
    }

    fn intersects(&self) {
        for lhs in self.intervals.finite() {
            for rhs in self.intervals.finite() {
                assert_eq!(
                    lhs.intersects(&rhs),
                    (lo(&lhs) <= hi(&rhs) && hi(&lhs) >= lo(&rhs))
                        || (lo(&rhs) <= hi(&lhs) && hi(&rhs) >= lo(&lhs))
                        || lhs.contains(&rhs)
                        || rhs.contains(&lhs)
                )
            }
            for rhs in self.intervals.empty() {
                assert!(!lhs.intersects(&rhs));
            }
        }
        for lhs in self.intervals.empty() {
            for rhs in self.intervals.all() {
                assert!(!lhs.intersects(&rhs));
            }
        }
    }

    fn equality(&self) {
        for lhs in self.intervals.all() {
            for rhs in self.intervals.all() {
                let should_be_equal = lhs.contains(&rhs) && rhs.contains(&lhs);
                assert_eq!(lhs == rhs, should_be_equal);
                assert_eq!(lhs != rhs, !should_be_equal);
            }
        }
    }

    fn shifted_by(&self) {
        for lhs in self.intervals.finite() {
            for rhs in &self.points {
                let shifted = lhs.shifted_by(*rhs);
                assert_eq!(lhs.size(), shifted.size());
                assert_eq!(T::of(lo(&lhs) + rhs.raw()), shifted.min().unwrap());
                assert_eq!(T::of(hi(&lhs) + rhs.raw()), shifted.max().unwrap());
            }
        }
        for lhs in self.intervals.empty() {
            for rhs in &self.points {
                let shifted = lhs.shifted_by(*rhs);
                assert!(shifted.is_empty());
            }
        }
    }

    fn clipped_to(&self) {
        for lhs in self.intervals.all() {
            for rhs in self.intervals.all() {
                let clipped = lhs.clipped_to(&rhs);
                assert!(lhs.contains(&clipped));
                assert!(rhs.contains(&clipped));
                assert_eq!(
                    clipped.is_empty(),
                    lhs.is_empty() || rhs.is_empty() || !lhs.intersects(&rhs)
                );
                assert_eq!(clipped == rhs, lhs.contains(&rhs));
                assert_eq!(clipped == lhs, rhs.contains(&lhs));
            }
        }
    }

    fn expanded_to(&self) {
        for lhs in self.intervals.all() {
            for rhs in self.intervals.all() {
                let expanded = lhs.expanded_to(&rhs);
                assert!(expanded.contains(&lhs));
                assert!(expanded.contains(&rhs));
                assert_eq!(expanded.is_empty(), lhs.is_empty() && rhs.is_empty());
                assert_eq!(expanded == lhs, lhs.contains(&rhs));
                assert_eq!(expanded == rhs, rhs.contains(&lhs));
            }
        }
    }

    fn dilated_by(&self) {
        for lhs in self.intervals.finite() {
            for rhs in &self.points {
                let dilated = lhs.dilated_by(*rhs);
                if dilated.is_empty() {
                    assert!(lhs.size().raw() - T::unit_gap() < -2.0 * rhs.raw());
                } else {
                    assert_eq!(T::of(lo(&lhs) - rhs.raw()), dilated.min().unwrap());
                    assert_eq!(T::of(hi(&lhs) + rhs.raw()), dilated.max().unwrap());
                }
            }
        }
    }

    fn run(&self) {
        self.accessors();
        self.empty();
        self.hull();
        self.contains();
        self.intersects();
        self.equality();
        self.shifted_by();
        self.clipped_to();
        self.expanded_to();
        self.dilated_by();
    }
}

#[test]
fn real_suite() {
    let suite = TestSuite::new(vec![num(-1.5), num(5.0), num(6.75), num(8.625)]);
    suite.run();
}

#[test]
fn index_suite() {
    let suite = TestSuite::new(vec![-2, 4, 7, 11]);
    suite.run();
}

#[test]
fn real_construction() {
    let a = Interval::new(num(1.5), num(2.0));
    let b = Interval::new(num(1.5), num(2.0));
    assert_eq!(a, b);
    assert_eq!(a.to_text_with_places(1), "[1.5, 2.0]");
    assert_eq!(b.to_text_with_places(1), "[1.5, 2.0]");

    let i = Interval::from_lower(num(1.5));
    assert_eq!(i.min().unwrap(), num(1.5));
    assert_eq!(i.max().unwrap(), num(f64::INFINITY));
    assert_eq!(i.size(), num(f64::INFINITY));
    assert_eq!(i.to_text_with_places(2), "[1.50, inf)");

    let i = Interval::to_upper(num(2.0));
    assert_eq!(i.min().unwrap(), num(f64::NEG_INFINITY));
    assert_eq!(i.max().unwrap(), num(2.0));
    assert_eq!(i.size(), num(f64::INFINITY));
    assert_eq!(i.to_text_with_places(2), "(-inf, 2.00]");

    let i = Interval::to_upper(num(2.0));
    assert_eq!(i.min().unwrap(), num(f64::NEG_INFINITY));
    assert_eq!(i.max().unwrap(), num(2.0));
    assert_eq!(i.size(), num(f64::INFINITY));
    assert_eq!(i.to_text_with_places(2), "(-inf, 2.00]");

    let i = Interval::unbounded();
    assert_eq!(i.min().unwrap(), num(f64::NEG_INFINITY));
    assert_eq!(i.max().unwrap(), num(f64::INFINITY));
    assert_eq!(i.size(), num(f64::INFINITY));
    assert_eq!(i.to_text(), "(-inf, inf)");

    let i: Span<Real> = Bounds::Empty;
    assert!(i.is_empty());
    assert_eq!(i.to_text(), "()");

    let i = num(1.5).to_bounds();
    assert_eq!(i.min().unwrap(), num(1.5));
    assert_eq!(i.max().unwrap(), num(1.5));
    assert_eq!(i.size(), num(0.0));

    let i = Interval::with_center_and_size(num(3.0), num(1.0));
    assert_eq!(i.min().unwrap(), num(2.5));
    assert_eq!(i.max().unwrap(), num(3.5));
    assert_eq!(i.size(), num(1.0));
    match i {
        Bounds::Bounded(inner) => assert_eq!(inner.center(), num(3.0)),
        Bounds::Empty => panic!("an interval of length one is not empty"),
    }
}

#[test]
fn index_construction() {
    let a = Interval::half_open(-2, 3);
    let b = Interval::new(-2, 2);
    assert_eq!(a, b);
    assert_eq!(a.to_text(), "[-2, 2]");
    assert_eq!(b.to_text(), "[-2, 2]");

    let i: Span<i32> = Bounds::Empty;
    assert!(i.is_empty());
    assert_eq!(i.to_text(), "()");

    let i = 3.to_bounds();
    assert_eq!(i.min().unwrap(), 3);
    assert_eq!(i.max().unwrap(), 3);
    assert_eq!(i.size(), 1);
    assert_eq!(i.to_text(), "[3, 3]");
}

#[test]
fn conversion() {
    let f1 = Interval::new(num(5.75), num(8.25));
    let i1 = IndexInterval::try_from(&f1).unwrap();
    let f2 = RealInterval::from(&i1);
    let i2 = IndexInterval::try_from(&f2).unwrap();
    assert_eq!(i1, i2);
    assert!(f2.contains(&f1));
    assert_eq!(i1, Interval::new(6, 8));
    assert_eq!(f2, Interval::new(num(5.5), num(8.5)));

    assert!(IndexInterval::try_from(&Interval::to_upper(num(6.0))).is_err());
    assert!(IndexInterval::try_from(&Interval::from_lower(num(3.0))).is_err());
    assert!(IndexInterval::try_from(&Interval::unbounded()).is_err());
    assert_eq!(IndexInterval::try_from(&RealInterval::Empty).unwrap(), IndexInterval::Empty);
    assert_eq!(RealInterval::from(&IndexInterval::Empty), RealInterval::Empty);
}

#[test]
fn conversion_error_names_the_interval() {
    let from = Interval { lower: num(3.0), upper: Real::Infinity };
    let e = from.to_index_interval().unwrap_err();
    assert_eq!(e, RealToIndexError { from });
    assert_eq!(e.to_text(), "RealInterval [3.0, inf) cannot be converted to an IndexInterval.");
}

#[test]
fn real_ctors() {
    let a = Interval::new(num(1.5), num(8.75));
    let b = num(1.5).to_bounds();
    assert!(!a.is_empty());
    assert!(!b.is_empty());
    assert!(!(a < b));
    assert!(!(b < a));
    assert_ne!(a, b);

    let c = b.expanded_to(a.max().unwrap());
    assert_eq!(a, c);
    assert!(a.contains(b));
    assert!(a.contains(&b));
    assert!(a.contains(num(5.0)));
    assert!(a.contains(Interval::new(num(2.0), num(5.0))));
}
