use comp_math::error::Error;
use comp_math::factorial::Fact;
use comp_math::function::{Domain, FuncType, Function};
use comp_math::interpolation::InterpolationFormulas;
use comp_math::lagrange::{sample_points, DerivativeType, LagrangePolynomial, Residual};
use comp_math::polynomials::Polynomial;
use comp_math::scalar::Scalar;
use std::f64::consts::PI;
use std::rc::Rc;

#[derive(Clone, Copy, Debug, PartialEq)]
struct Real(f64);

impl Scalar for Real {
    fn zero() -> Self {
        Real(0.)
    }
    fn one() -> Self {
        Real(1.)
    }
    fn from_i64(i: i64) -> Self {
        Real(i as f64)
    }
    fn from_usize(i: usize) -> Self {
        Real(i as f64)
    }
    fn negate(self) -> Self {
        Real(-self.0)
    }
    fn plus(self, rhs: Self) -> Self {
        Real(self.0 + rhs.0)
    }
    fn minus(self, rhs: Self) -> Self {
        Real(self.0 - rhs.0)
    }
    fn times(self, rhs: Self) -> Self {
        Real(self.0 * rhs.0)
    }
    fn divided_by(self, rhs: Self) -> Self {
        Real(self.0 / rhs.0)
    }
    fn powi(self, n: usize) -> Self {
        Real(self.0.powi(n as i32))
    }
    fn abs(self) -> Self {
        Real(self.0.abs())
    }
    fn larger(self, rhs: Self) -> Self {
        Real(f64::max(self.0, rhs.0))
    }
    fn le(self, rhs: Self) -> bool {
        self.0 <= rhs.0
    }
    fn lt(self, rhs: Self) -> bool {
        self.0 < rhs.0
    }
    fn round_to_index(self) -> usize {
        self.0.round() as usize
    }
    fn floor_to_index(self) -> usize {
        self.0.floor() as usize
    }
}

struct Curve;

impl FuncType<Real> for Curve {
    fn evaluate(&self, x: Real) -> Real {
        Real(x.0.powi(2) - (PI * x.0).sin())
    }
}

struct CurveDerivative(usize);

impl FuncType<Real> for CurveDerivative {
    fn evaluate(&self, x: Real) -> Real {
        let theta = match self.0 {
            1 => 2. * x.0,
            2 => 2.,
            _ => 0.,
        };
        let order = self.0 as f64;
        Real(theta - PI.powf(order) * (PI * x.0 + PI / 2. * order).sin())
    }
}

struct CurveDerivatives;

impl DerivativeType<Real> for CurveDerivatives {
    type Output = CurveDerivative;

    fn order(&self, n: usize) -> CurveDerivative {
        CurveDerivative(n)
    }
}

fn grid(a: f64, b: f64, eps: f64) -> Vec<Real> {
    let mut points = Vec::new();
    let mut x0 = a;
    while x0 < b {
        x0 += eps;
        points.push(Real(x0));
    }
    points
}

fn curve(x: f64) -> f64 {
    x.powi(2) - (PI * x).sin()
}

fn reals(values: &[f64]) -> Vec<Real> {
    values.iter().map(|v| Real(*v)).collect()
}

fn coefficients(p: &Polynomial<Real>) -> Vec<f64> {
    (0..=p.degree()).map(|i| p.index(i).0).collect()
}

fn builder(start: f64, end: f64) -> LagrangePolynomial<Real, Curve, CurveDerivatives> {
    LagrangePolynomial::new(
        Curve,
        CurveDerivatives,
        Domain { start: Real(start), end: Real(end) },
        Real(0.0001),
        usize::MAX,
    )
}

#[test]
fn real_factorial_follows_the_recurrence() {
    let mut cache: Fact<Real> = Fact::new();
    assert_eq!(cache.fact(0), Ok(Real(1.)));
    for n in 1..102usize {
        let below = cache.fact(n - 1).unwrap();
        assert_eq!(cache.fact(n), Ok(Real(below.0 * n as f64)));
    }
    assert_eq!(cache.fact(10), Ok(Real(3628800.)));
    assert_eq!(cache.fact(102), Err(Error::IndexOutOfRange));
}

#[test]
fn real_polynomial_evaluates_one_minus_two_x_plus_x_squared() {
    let p = Polynomial::from_vec(reals(&[1., -2., 1.]));
    assert_eq!(p.calculate_at(Real(3.)), Real(4.));
}

#[test]
fn real_polynomial_sum_less_second_operand_is_near_first_operand() {
    let p = Polynomial::from_vec(reals(&[0.1, 0.2, 0.3]));
    let q = Polynomial::from_vec(reals(&[1e3, -7.5]));
    let mut r = p.clone();
    r.add_assign(q.clone());
    r.sub_assign(q);
    for (got, want) in coefficients(&r).iter().zip(coefficients(&p)) {
        assert!((got - want).abs() < 1e-9);
    }
}

#[test]
fn real_polynomial_times_one_and_degree_of_product() {
    let p = Polynomial::from_vec(reals(&[0.5, -1.5, 2.25]));
    let mut r = p.clone();
    r.mul_assign(Polynomial::from_vec(reals(&[1.])));
    assert_eq!(coefficients(&r), coefficients(&p));
    let mut s = p.clone();
    s.mul_assign(Polynomial::from_vec(reals(&[1., 2., 3., 4.])));
    assert_eq!(s.degree(), 5);
    let mut d = p.clone();
    d.div_assign(Real(0.5));
    assert_eq!(coefficients(&d), vec![1., -3., 4.5]);
}

#[test]
fn calculate_points_spreads_points_over_the_interval() {
    let app = builder(0., 1.);
    assert_eq!(app.calculate_points(3), Ok(reals(&[0., 0.5, 1.])));
    assert_eq!(app.calculate_points(2), Ok(reals(&[0., 1.])));
}

#[test]
fn calculate_points_refuses_fewer_than_two() {
    let app = builder(0., 1.);
    assert_eq!(app.calculate_points(1), Err(Error::InsufficientPoints));
    assert_eq!(app.calculate_points(0), Err(Error::InsufficientPoints));
    assert!(app.lagrange_polynomial(1).is_err());
    assert_eq!(app.absolute_error(1, Some(Real(0.5))), Err(Error::InsufficientPoints));
    assert_eq!(app.relative_error(0, Some(Real(0.5))), Err(Error::InsufficientPoints));
    assert_eq!(app.absolute_error(1, None), Err(Error::InsufficientPoints));
}

#[test]
fn lagrange_polynomial_passes_through_its_samples() {
    let app = builder(0.4, 0.9);
    for n in [2usize, 3, 5, 8] {
        let p = app.lagrange_polynomial(n).unwrap();
        assert_eq!(p.degree(), n - 1);
        for x in app.calculate_points(n).unwrap() {
            assert!((p.calculate_at(x).0 - curve(x.0)).abs() < 1e-9);
        }
    }
}

#[test]
fn lagrange_polynomial_through_two_points_is_the_chord() {
    let app = builder(0., 1.);
    let p = app.lagrange_polynomial(2).unwrap();
    let got = coefficients(&p);
    assert!((got[0] - curve(0.)).abs() < 1e-12);
    assert!((got[1] - (curve(1.) - curve(0.))).abs() < 1e-12);
}

#[test]
fn error_measures_at_a_point() {
    let mut app = builder(0.4, 0.9);
    let x = Real(0.53);
    let p = app.lagrange_polynomial(5).unwrap();
    let abs = (p.calculate_at(x).0 - curve(0.53)).abs();
    assert_eq!(app.absolute_error(5, Some(x)), Ok(Real(abs)));
    assert_eq!(app.relative_error(5, Some(x)), Ok(Real(abs / curve(0.53).abs() * 100.)));
    assert_eq!(app.norm_of_function(&Curve, Some(x)), Real(curve(0.53).abs()));
    let size = CurveDerivative(5).evaluate(x).0.abs();
    assert_eq!(
        app.lagrange_error_bound(5, Some(x)),
        Ok(Real(size / 120. * (0.9f64 - 0.4).powi(5)))
    );
    assert!(abs < 1e-3);
}

#[test]
fn error_measures_over_the_grid() {
    let mut app = LagrangePolynomial::new(
        Curve,
        CurveDerivatives,
        Domain { start: Real(0.), end: Real(1.) },
        Real(0.25),
        3,
    );
    let sizes: Vec<f64> = [0.25, 0.5, 0.75].iter().map(|x| curve(*x).abs()).collect();
    let largest = sizes.iter().fold(0., |m: f64, v| m.max(*v));
    assert_eq!(app.norm_of_function(&Curve, None), Real(largest));
    let p = app.lagrange_polynomial(3).unwrap();
    let gaps: Vec<f64> =
        [0.25, 0.5, 0.75].iter().map(|x| (p.calculate_at(Real(*x)).0 - curve(*x)).abs()).collect();
    let gap = gaps.iter().fold(0., |m: f64, v| m.max(*v));
    assert_eq!(app.absolute_error(3, None), Ok(Real(gap)));
    assert_eq!(app.relative_error(3, None), Ok(Real(gap / largest * 100.)));
    let slopes: Vec<f64> =
        [0.25, 0.5, 0.75].iter().map(|x| CurveDerivative(3).evaluate(Real(*x)).0.abs()).collect();
    let slope = slopes.iter().fold(0., |m: f64, v| m.max(*v));
    assert_eq!(app.lagrange_error_bound(3, None), Ok(Real(slope / 6. * 1f64.powi(3))));
    let empty = LagrangePolynomial::new(
        Curve,
        CurveDerivatives,
        Domain { start: Real(0.), end: Real(1.) },
        Real(0.25),
        0,
    );
    assert_eq!(empty.norm_of_function(&Curve, None), Real(0.));
}

#[test]
fn error_bound_refuses_what_lies_beyond_the_factorials() {
    let mut app = builder(0.4, 0.9);
    assert_eq!(app.lagrange_error_bound(102, Some(Real(0.5))), Err(Error::IndexOutOfRange));
    assert_eq!(app.lagrange_error_bound(500, None), Err(Error::IndexOutOfRange));
    assert!(app.lagrange_error_bound(101, Some(Real(0.5))).is_ok());
}

#[test]
fn statistics_give_one_record_for_each_count() {
    let mut app = builder(0.4, 0.9);
    let counts = [3usize, 5, 10];
    let x = Some(Real(0.67));
    let records = app.statistics_about_error_in_point(&counts, Real(0.67)).unwrap();
    assert_eq!(records.len(), 3);
    for (record, n) in records.iter().zip(counts) {
        assert_eq!(record.n, n);
        assert_eq!(Ok(record.abs_error), app.absolute_error(n, x));
        assert_eq!(Ok(record.rel_error), app.relative_error(n, x));
        assert_eq!(Ok(record.lagrange_error), app.lagrange_error_bound(n, x));
    }
    assert!(records[2].abs_error.0 < records[0].abs_error.0);
}

#[test]
fn statistics_over_the_interval_bound_those_at_a_point() {
    let mut app = builder(0.4, 0.9);
    let counts = [3usize, 5];
    let over = app.statistics_about_max_error(&counts).unwrap();
    let at = app.statistics_about_error_in_point(&counts, Real(0.53)).unwrap();
    assert_eq!(over.len(), 2);
    for (whole, one) in over.iter().zip(at.iter()) {
        assert_eq!(whole.n, one.n);
        assert_eq!(Ok(whole.abs_error), app.absolute_error(whole.n, None));
        assert!(whole.abs_error.0 >= one.abs_error.0);
    }
    let same = app.statistics(&counts, None).unwrap();
    assert_eq!(same[1].lagrange_error, over[1].lagrange_error);
}

#[test]
fn statistics_fail_as_the_first_refused_count_does() {
    let mut app = builder(0.4, 0.9);
    let few = app.statistics_about_error_in_point(&[3, 1, 200], Real(0.5));
    assert_eq!(few.map(|v| v.len()), Err(Error::InsufficientPoints));
    let many = app.statistics_about_error_in_point(&[3, 102, 1], Real(0.5));
    assert_eq!(many.map(|v| v.len()), Err(Error::IndexOutOfRange));
    let none = app.statistics_about_max_error(&[]);
    assert_eq!(none.map(|v| v.len()), Ok(0));
}

#[test]
fn interpolate_refuses_points_outside_the_half_open_domain() {
    let f = Function::new(Rc::new(Curve), Domain { start: Real(0.4), end: Real(0.9) });
    let mut engine = InterpolationFormulas::new(50, f);
    assert_eq!(engine.interpolate(Real(0.9)), Err(Error::OutOfDomain));
    assert_eq!(engine.interpolate(Real(0.39)), Err(Error::OutOfDomain));
    assert_eq!(engine.interpolate(Real(f64::NAN)).is_err(), true);
    assert!(engine.interpolate(Real(0.4)).is_ok());
}

#[test]
fn interpolate_on_fifty_nodes_stays_near_the_function() {
    let f = Function::new(Rc::new(Curve), Domain { start: Real(0.4), end: Real(0.9) });
    let mut engine = InterpolationFormulas::new(50, f);
    let got = engine.interpolate(Real(0.53)).unwrap().0;
    let want = curve(0.53);
    assert!(((want - got) / want).abs() < 0.03);
    for x in [0.43, 0.86, 0.67] {
        let got = engine.interpolate(Real(x)).unwrap().0;
        assert!((curve(x) - got).abs() < 0.1);
    }
}

#[test]
fn interpolate_between_nodes_is_the_gauss_formula() {
    let f = Function::new(Rc::new(Curve), Domain { start: Real(0.4), end: Real(0.9) });
    let mut engine = InterpolationFormulas::new(50, f);
    let h = (0.9 - 0.4) / 49f64;
    let offset = (0.53 - 0.4) / h;
    assert_eq!(offset.round(), 13.);
    assert_eq!(offset.floor(), 12.);
    let t = Real(offset - 13.);
    let backward = engine.gauss_interpolation_backwards(t, 13);
    let forward = engine.gauss_interpolation_forwards(t, 13);
    assert_eq!(engine.interpolate(Real(0.53)), backward);
    assert!(backward != forward);
    let near = (0.66 - 0.4) / h;
    assert_eq!(near.round(), near.floor());
    let node = near.round() as usize;
    assert_eq!(
        engine.interpolate(Real(0.66)),
        engine.gauss_interpolation_forwards(Real(near - near.round()), node)
    );
}

#[test]
fn interpolate_near_the_lower_bound_is_newton_forwards() {
    let f = Function::new(Rc::new(Curve), Domain { start: Real(0.4), end: Real(0.9) });
    let mut engine = InterpolationFormulas::new(50, f);
    let h = (0.9 - 0.4) / 49f64;
    let x = 0.4 + h / 4.;
    assert_eq!(
        engine.interpolate(Real(x)),
        engine.newton_interpolation_forwards(Real((x - 0.4) / h))
    );
    let first = curve(0.4);
    let second = curve(0.4 + 1f64 * ((0.9 - 0.4) / (50f64 - 1.)));
    let at_zero = engine.newton_interpolation_forwards(Real(0.)).unwrap().0;
    assert!((at_zero - (first + (second - first))).abs() < 1e-12);
}

#[test]
fn sample_points_step_from_the_lower_bound_until_the_upper_one() {
    let unit = Domain { start: Real(0.), end: Real(1.) };
    assert_eq!(sample_points(&unit, Real(0.25), usize::MAX), reals(&[0.25, 0.5, 0.75, 1.]));
    assert_eq!(sample_points(&unit, Real(0.25), 2), reals(&[0.25, 0.5]));
    assert_eq!(sample_points(&unit, Real(0.4), 10), reals(&[0.4, 0.8, 0.8 + 0.4]));
    assert_eq!(sample_points(&unit, Real(0.25), 0), reals(&[]));
    let fine = sample_points(&Domain { start: Real(0.4), end: Real(0.9) }, Real(0.0001), usize::MAX);
    assert_eq!(fine, grid(0.4, 0.9, 0.0001));
    assert!(fine.len() >= 5000 && fine.len() <= 5001);
    assert!(fine[fine.len() - 1].0 >= 0.9);
    assert!(fine[fine.len() - 2].0 < 0.9);
}

#[test]
fn residual_is_polynomial_less_function() {
    let p = Polynomial::from_vec(reals(&[1., 2.]));
    let gap = Residual { polynomial: &p, func: &Curve };
    assert_eq!(gap.evaluate(Real(0.5)), Real((1. + 0.5 * 2.) - curve(0.5)));
}

struct Square;

impl FuncType<Real> for Square {
    fn evaluate(&self, x: Real) -> Real {
        Real(x.0 * x.0)
    }
}

#[test]
fn gauss_factors_shift_by_halves() {
    let f = Function::new(Rc::new(Square), Domain { start: Real(0.), end: Real(2.) });
    let mut engine = InterpolationFormulas::new(3, f);
    assert_eq!(engine.gauss_interpolation_forwards(Real(0.25), 1), Ok(Real(4.75)));
    assert_eq!(engine.gauss_interpolation_backwards(Real(0.25), 1), Ok(Real(1.75)));
    assert_eq!(engine.gauss_interpolation_forwards(Real(0.), 0), Ok(Real(1.5)));
}

#[test]
fn newton_formulas_on_three_nodes() {
    let f = Function::new(Rc::new(Square), Domain { start: Real(0.), end: Real(2.) });
    let mut engine = InterpolationFormulas::new(3, f);
    assert_eq!(engine.newton_interpolation_forwards(Real(2.)), Ok(Real(3.)));
    assert_eq!(engine.newton_interpolation_backwards(Real(0.)), Ok(Real(7.)));
    assert_eq!(engine.newton_interpolation_backwards(Real(-1.)), Ok(Real(6.)));
}
