//! The Lagrange polynomial through uniformly spaced samples of a function,
//! and the measures of its error: at a point, or as the largest value over a
//! grid of points that samples the interval.

use crate::error::Error;
use crate::factorial::factorial;
use crate::factorial::Fact;
use crate::factorial::N_MAX;
use crate::function::Domain;
use crate::function::FuncType;
use crate::polynomials::added;
use crate::polynomials::derived_times;
use crate::polynomials::evaluated;
use crate::polynomials::multiplied;
use crate::polynomials::scaled;
use crate::polynomials::Polynomial;
use crate::scalar::Scalar;
use vstd::prelude::*;

verus! {

/// The derivatives of a function, by order. The values of the callable
/// that `order` returns are a function of the order and the point alone.
pub trait DerivativeType<S: Scalar> {
    /// The kind of callable that a derivative is.
    type Output: FuncType<S>;

    /// The value of the derivative of order `n` at `x`. An implementation
    /// states it by giving this function its body.
    open spec fn value(&self, n: nat, x: S) -> S {
        arbitrary()
    }

    /// Makes the derivative of order `n`.
    fn order(&self, n: usize) -> (r: Self::Output)
        ensures
            forall|x: S| #[trigger] r.value(x) == self.value(n as nat, x),
    ;
}

/// The derivatives of a polynomial are polynomials.
impl<S: Scalar> DerivativeType<S> for Polynomial<S> {
    type Output = Polynomial<S>;

    open spec fn value(&self, n: nat, x: S) -> S {
        evaluated(derived_times(self@, n), x, derived_times(self@, n).len())
    }

    fn order(&self, n: usize) -> (r: Polynomial<S>) {
        self.nth_derivative(n)
    }
}

/// The error measures of the polynomial through `n` points.
#[derive(Clone, Copy, Debug)]
pub struct Record<S: Scalar> {
    pub n: usize,
    pub abs_error: S,
    pub rel_error: S,
    pub lagrange_error: S,
}

impl<S: Scalar> Record<S> {
    /// A record of the four values.
    pub fn new(n: usize, abs_error: S, rel_error: S, lagrange_error: S) -> (r: Self)
        ensures
            r == (Record { n, abs_error, rel_error, lagrange_error }),
    {
        Record { n, abs_error, rel_error, lagrange_error }
    }
}

/// `n` points over `d`, both bounds among them: point `i` is
/// `start + (|end - start| / (n - 1)) * i`.
pub open spec fn points<S: Scalar>(d: Domain<S>, n: nat) -> Seq<S> {
    Seq::new(
        n,
        |i: int|
            d.start.sum(
                d.end.difference(d.start).magnitude().quotient(S::of_int(n - 1)).product(
                    S::of_int(i),
                ),
            ),
    )
}

/// The factor `(x - xj) / (xi - xj)` as a polynomial in `x`: the
/// coefficients `[-xj, 1]`, each multiplied by `1 / (xi - xj)`.
pub open spec fn linear_factor<S: Scalar>(xi: S, xj: S) -> Seq<S> {
    scaled(seq![xj.opposite(), S::one_value()], S::one_value().quotient(xi.difference(xj)))
}

/// The constant `lead` multiplied in turn by the linear factors of point `i`
/// against each point `j < m` other than `i`.
pub open spec fn basis_product<S: Scalar>(lead: S, pts: Seq<S>, i: int, m: nat) -> Seq<S>
    decreases m,
{
    if m == 0 {
        seq![lead]
    } else {
        let rest = basis_product(lead, pts, i, (m - 1) as nat);
        if m - 1 != i {
            multiplied(rest, linear_factor(pts[i], pts[m - 1]))
        } else {
            rest
        }
    }
}

/// The first `m` terms of the Lagrange polynomial of `f` through `pts`,
/// added to the zero polynomial by rising index.
pub open spec fn lagrange_sum<S: Scalar, Func: FuncType<S>>(f: Func, pts: Seq<S>, m: nat) -> Seq<S>
    decreases m,
{
    if m == 0 {
        seq![S::zero_value()]
    } else {
        added(
            lagrange_sum(f, pts, (m - 1) as nat),
            basis_product(f.value(pts[m - 1]), pts, m - 1, pts.len()),
        )
    }
}

/// The coefficients of the Lagrange polynomial of `f` through `n` points
/// over `d`.
pub open spec fn lagrange<S: Scalar, Func: FuncType<S>>(f: Func, d: Domain<S>, n: nat) -> Seq<S> {
    lagrange_sum(f, points(d, n), n)
}

/// The largest of the first `m` values, and zero where all lie below it:
/// each value in turn compared with the largest so far, starting from zero.
pub open spec fn peak<S: Scalar>(values: Seq<S>, m: nat) -> S
    decreases m,
{
    if m == 0 {
        S::zero_value()
    } else {
        peak(values, (m - 1) as nat).maximum(values[m - 1])
    }
}

/// `|f(x)|` for each `x` of the grid.
pub open spec fn magnitudes<S: Scalar, Func: FuncType<S>>(f: Func, grid: Seq<S>) -> Seq<S> {
    Seq::new(grid.len(), |k: int| f.value(grid[k]).magnitude())
}

/// `|p(x) - f(x)|` for the polynomial with the coefficients `p`.
pub open spec fn residual<S: Scalar, Func: FuncType<S>>(f: Func, p: Seq<S>, x: S) -> S {
    evaluated(p, x, p.len()).difference(f.value(x)).magnitude()
}

/// `|p(x) - f(x)|` for each `x` of the grid.
pub open spec fn residuals<S: Scalar, Func: FuncType<S>>(f: Func, p: Seq<S>, grid: Seq<S>) -> Seq<
    S,
> {
    Seq::new(grid.len(), |k: int| residual(f, p, grid[k]))
}

/// The norm of `f`: `|f(x)|` at a given point `x`, else the largest `|f(x)|`
/// over the grid.
pub open spec fn norm<S: Scalar, Func: FuncType<S>>(f: Func, point: Option<S>, grid: Seq<S>) -> S {
    match point {
        Some(x) => f.value(x).magnitude(),
        None => peak(magnitudes(f, grid), grid.len()),
    }
}

/// The magnitude of the derivative of order `n` at each `x` of the grid.
pub open spec fn derivative_magnitudes<S: Scalar, Derivative: DerivativeType<S>>(
    derivative: Derivative,
    n: nat,
    grid: Seq<S>,
) -> Seq<S> {
    Seq::new(grid.len(), |k: int| derivative.value(n, grid[k]).magnitude())
}

/// The norm of the derivative of order `n`: its magnitude at a given point,
/// else its largest magnitude over the grid.
pub open spec fn derivative_norm<S: Scalar, Derivative: DerivativeType<S>>(
    derivative: Derivative,
    n: nat,
    point: Option<S>,
    grid: Seq<S>,
) -> S {
    match point {
        Some(x) => derivative.value(n, x).magnitude(),
        None => peak(derivative_magnitudes(derivative, n, grid), grid.len()),
    }
}

/// The norm of `p - f` for the Lagrange polynomial `p` of `f` through `n`
/// points.
pub open spec fn absolute_error_at<S: Scalar, Func: FuncType<S>>(
    f: Func,
    d: Domain<S>,
    grid: Seq<S>,
    n: nat,
    point: Option<S>,
) -> S {
    match point {
        Some(x) => residual(f, lagrange(f, d, n), x),
        None => peak(residuals(f, lagrange(f, d, n), grid), grid.len()),
    }
}

/// The absolute error as a percentage of the norm of `f`.
pub open spec fn relative_error_at<S: Scalar, Func: FuncType<S>>(
    f: Func,
    d: Domain<S>,
    grid: Seq<S>,
    n: nat,
    point: Option<S>,
) -> S {
    absolute_error_at(f, d, grid, n, point).quotient(norm(f, point, grid)).product(
        S::of_int(100),
    )
}

/// The remainder estimate `size / n! * (end - start)^n`, for `size` the norm
/// of the derivative of order `n`.
pub open spec fn error_bound<S: Scalar>(size: S, d: Domain<S>, n: nat) -> S {
    size.quotient(factorial::<S>(n)).product(d.end.difference(d.start).power(n))
}

/// The three measures for `n` points.
pub open spec fn record_at<S: Scalar, Func: FuncType<S>, Derivative: DerivativeType<S>>(
    f: Func,
    derivative: Derivative,
    d: Domain<S>,
    grid: Seq<S>,
    n: usize,
    point: Option<S>,
) -> Record<S> {
    Record {
        n,
        abs_error: absolute_error_at(f, d, grid, n as nat, point),
        rel_error: relative_error_at(f, d, grid, n as nat, point),
        lagrange_error: error_bound(derivative_norm(derivative, n as nat, point, grid), d, n as nat),
    }
}

/// The records for each count of `degrees`, in their order.
pub open spec fn records_at<S: Scalar, Func: FuncType<S>, Derivative: DerivativeType<S>>(
    f: Func,
    derivative: Derivative,
    d: Domain<S>,
    grid: Seq<S>,
    degrees: Seq<usize>,
    point: Option<S>,
) -> Seq<Record<S>> {
    Seq::new(degrees.len(), |k: int| record_at(f, derivative, d, grid, degrees[k], point))
}

/// Why a list of point counts is refused, going by the first count from
/// index `from` on that is refused: one below 2 for want of points, one from
/// `N_MAX` on for want of its factorial. `None` where every count is served.
pub open spec fn refusal(degrees: Seq<usize>, from: int) -> Option<Error>
    decreases degrees.len() - from,
{
    if from < 0 || from >= degrees.len() {
        None
    } else if degrees[from] <= 1 {
        Some(Error::InsufficientPoints)
    } else if degrees[from] >= N_MAX {
        Some(Error::IndexOutOfRange)
    } else {
        refusal(degrees, from + 1)
    }
}

/// The points at which a norm over the interval is sampled: from `x` on,
/// while the last point lies below `end` and fewer than `limit` points have
/// been taken, the next point is the last one plus `eps`. The first point is
/// `x + eps`, and the last one is the first that does not lie below `end`.
pub open spec fn stepped<S: Scalar>(x: S, end: S, eps: S, limit: nat) -> Seq<S>
    decreases limit,
{
    if limit == 0 || !x.below(end) {
        Seq::empty()
    } else {
        seq![x.sum(eps)] + stepped(x.sum(eps), end, eps, (limit - 1) as nat)
    }
}

/// The sample points over `interval` by steps of `eps`, `limit` of them at
/// most.
pub fn sample_points<S: Scalar>(interval: &Domain<S>, eps: S, limit: usize) -> (r: Vec<S>)
    ensures
        r@ == stepped(interval.start, interval.end, eps, limit as nat),
        r@.len() <= limit,
{
    let mut points: Vec<S> = Vec::new();
    let mut x0 = interval.start;
    let mut left: usize = limit;
    let mut go = left > 0 && x0.lt(interval.end);
    while go
        invariant
            left <= limit,
            points@.len() + left == limit,
            go == (left > 0 && x0.below(interval.end)),
            stepped(interval.start, interval.end, eps, limit as nat) == points@ + stepped(
                x0,
                interval.end,
                eps,
                left as nat,
            ),
        decreases left,
    {
        let ghost taken = points@;
        x0 = x0.plus(eps);
        points.push(x0);
        left = left - 1;
        assert(taken + (seq![x0] + stepped(x0, interval.end, eps, left as nat)) =~= points@
            + stepped(x0, interval.end, eps, left as nat));
        go = left > 0 && x0.lt(interval.end);
    }
    assert(points@ + Seq::<S>::empty() =~= points@);
    points
}

/// The difference of a polynomial and a function, as a callable.
pub struct Residual<'a, S: Scalar, Func: FuncType<S>> {
    pub polynomial: &'a Polynomial<S>,
    pub func: &'a Func,
}

impl<'a, S: Scalar, Func: FuncType<S>> FuncType<S> for Residual<'a, S, Func> {
    open spec fn value(&self, x: S) -> S {
        evaluated(self.polynomial@, x, self.polynomial@.len()).difference(self.func.value(x))
    }

    fn evaluate(&self, x: S) -> (y: S) {
        self.polynomial.calculate_at(x).minus(self.func.evaluate(x))
    }
}

/// A basis product over `m` points has `m + 1` coefficients, one fewer where
/// point `i` itself is among them.
pub proof fn lemma_basis_product_len<S: Scalar>(lead: S, pts: Seq<S>, i: int, m: nat)
    ensures
        basis_product(lead, pts, i, m).len() == if 0 <= i < m {
            m
        } else {
            m + 1
        },
    decreases m,
{
    if m > 0 {
        lemma_basis_product_len(lead, pts, i, (m - 1) as nat);
    }
}

/// A function, its derivatives, the interval it is approximated on, a grid
/// of points that samples the interval, and the factorials that the
/// remainder estimate divides by.
pub struct LagrangePolynomial<S: Scalar, Func: FuncType<S>, Derivative: DerivativeType<S>> {
    func: Func,
    derivative: Derivative,
    interval: Domain<S>,
    grid: Vec<S>,
    fact_cache: Fact<S>,
}

impl<S: Scalar, Func: FuncType<S>, Derivative: DerivativeType<S>> LagrangePolynomial<
    S,
    Func,
    Derivative,
> {
    /// The function that is approximated.
    pub closed spec fn callable(&self) -> Func {
        self.func
    }

    /// The derivatives of that function.
    pub closed spec fn derivatives(&self) -> Derivative {
        self.derivative
    }

    /// The interval of approximation.
    pub closed spec fn domain(&self) -> Domain<S> {
        self.interval
    }

    /// The points at which a norm over the interval is sampled.
    pub closed spec fn sample_grid(&self) -> Seq<S> {
        self.grid@
    }

    /// The factorials are well formed.
    pub closed spec fn wf(&self) -> bool {
        self.fact_cache.wf()
    }

    /// What does not change over the life of a builder is the same in both.
    pub open spec fn same_setting(&self, other: &Self) -> bool {
        &&& self.callable() == other.callable()
        &&& self.derivatives() == other.derivatives()
        &&& self.domain() == other.domain()
        &&& self.sample_grid() == other.sample_grid()
    }

    /// A builder for `func` over `interval`. A norm over the interval is
    /// sampled from `start + eps` on by steps of `eps` until a point does not
    /// lie below `end`, at `limit` points at most. The factorials hold `0!`
    /// alone.
    pub fn new(
        func: Func,
        derivative: Derivative,
        interval: Domain<S>,
        eps: S,
        limit: usize,
    ) -> (r: Self)
        ensures
            r.wf(),
            r.callable() == func,
            r.derivatives() == derivative,
            r.domain() == interval,
            r.sample_grid() == stepped(interval.start, interval.end, eps, limit as nat),
    {
        let grid = sample_points(&interval, eps, limit);
        LagrangePolynomial { func, derivative, interval, grid, fact_cache: Fact::new() }
    }

    /// `n` uniformly spaced points over the interval, both bounds among
    /// them. Fails for `n <= 1`.
    pub fn calculate_points(&self, n: usize) -> (r: Result<Vec<S>, Error>)
        ensures
            n <= 1 ==> r == Err::<Vec<S>, Error>(Error::InsufficientPoints),
            n >= 2 ==> r is Ok && r->Ok_0@ == points(self.domain(), n as nat),
    {
        if n <= 1 {
            return Err(Error::InsufficientPoints);
        }
        let a = self.interval.start;
        let b = self.interval.end;
        let step = b.minus(a).abs().divided_by(S::from_usize(n - 1));
        let mut pts: Vec<S> = Vec::new();
        let mut i: usize = 0;
        while i < n
            invariant
                i <= n,
                pts@.len() == i,
                forall|k: int| 0 <= k < i ==> pts@[k] == points(self.interval, n as nat)[k],
                a == self.interval.start,
                step == self.interval.end.difference(a).magnitude().quotient(S::of_int(n - 1)),
            decreases n - i,
        {
            pts.push(a.plus(step.times(S::from_usize(i))));
            i = i + 1;
        }
        assert(pts@ =~= points(self.interval, n as nat));
        Ok(pts)
    }

    /// The polynomial of degree `n - 1` through the function's values at `n`
    /// uniformly spaced points: the sum over `i` of `f(xi)` times the product
    /// over `j != i` of `(x - xj) / (xi - xj)`. Fails for `n <= 1`.
    pub fn lagrange_polynomial(&self, n: usize) -> (r: Result<Polynomial<S>, Error>)
        ensures
            n <= 1 ==> r is Err && r->Err_0 == Error::InsufficientPoints,
            n >= 2 ==> r is Ok && r->Ok_0@ == lagrange(self.callable(), self.domain(), n as nat),
            n >= 2 ==> r->Ok_0.wf(),
    {
        let mut sum: Polynomial<S> = Polynomial::from_vec(Vec::new());
        let pts = match self.calculate_points(n) {
            Ok(pts) => pts,
            Err(e) => {
                return Err(e);
            },
        };
        let mut i: usize = 0;
        while i < n
            invariant
                i <= n,
                pts@.len() == n,
                pts@ == points(self.interval, n as nat),
                sum@ == lagrange_sum(self.func, pts@, i as nat),
                sum.wf(),
            decreases n - i,
        {
            let lead = self.func.evaluate(pts[i]);
            let mut first: Vec<S> = Vec::new();
            first.push(lead);
            assert(first@ =~= seq![lead]);
            let mut mul: Polynomial<S> = Polynomial::from_vec(first);
            let mut j: usize = 0;
            while j < n
                invariant
                    j <= n,
                    i < n,
                    pts@.len() == n,
                    mul@ == basis_product(lead, pts@, i as int, j as nat),
                decreases n - j,
            {
                if i != j {
                    let mut pair: Vec<S> = Vec::new();
                    pair.push(pts[j].negate());
                    pair.push(S::one());
                    assert(pair@ =~= seq![pts@[j as int].opposite(), S::one_value()]);
                    let mut factor: Polynomial<S> = Polynomial::from_vec(pair);
                    factor.div_assign(pts[i].minus(pts[j]));
                    proof {
                        lemma_basis_product_len(lead, pts@, i as int, j as nat);
                    }
                    mul.mul_assign(factor);
                }
                j = j + 1;
            }
            sum.add_assign(mul);
            i = i + 1;
        }
        Ok(sum)
    }

    /// The norm of `func`: `|func(point)|` where a point is given, else the
    /// largest `|func(x)|` over the grid.
    pub fn norm_of_function<Other: FuncType<S>>(&self, func: &Other, point: Option<S>) -> (r: S)
        ensures
            r == norm(*func, point, self.sample_grid()),
    {
        if let Some(x) = point {
            return func.evaluate(x).abs();
        }
        let mut max = S::zero();
        let mut i: usize = 0;
        while i < self.grid.len()
            invariant
                i <= self.grid@.len(),
                max == peak(magnitudes(*func, self.grid@), i as nat),
            decreases self.grid@.len() - i,
        {
            let y0 = func.evaluate(self.grid[i]).abs();
            max = max.larger(y0);
            i = i + 1;
        }
        max
    }

    /// The norm of `p - f` for the polynomial `p` through `n` points. Fails
    /// for `n <= 1`.
    pub fn absolute_error(&self, n: usize, point: Option<S>) -> (r: Result<S, Error>)
        ensures
            n <= 1 ==> r == Err::<S, Error>(Error::InsufficientPoints),
            n >= 2 ==> r == Ok::<S, Error>(
                absolute_error_at(
                    self.callable(),
                    self.domain(),
                    self.sample_grid(),
                    n as nat,
                    point,
                ),
            ),
    {
        let polynom = match self.lagrange_polynomial(n) {
            Ok(polynom) => polynom,
            Err(e) => {
                return Err(e);
            },
        };
        let gap = Residual { polynomial: &polynom, func: &self.func };
        assert(magnitudes(gap, self.grid@) =~= residuals(self.func, polynom@, self.grid@));
        Ok(self.norm_of_function(&gap, point))
    }

    /// The absolute error as a percentage of the norm of the function.
    /// Fails for `n <= 1`.
    pub fn relative_error(&self, n: usize, point: Option<S>) -> (r: Result<S, Error>)
        ensures
            n <= 1 ==> r == Err::<S, Error>(Error::InsufficientPoints),
            n >= 2 ==> r == Ok::<S, Error>(
                relative_error_at(
                    self.callable(),
                    self.domain(),
                    self.sample_grid(),
                    n as nat,
                    point,
                ),
            ),
    {
        match self.absolute_error(n, point) {
            Ok(abs_error) => Ok(
                abs_error.divided_by(self.norm_of_function(&self.func, point)).times(
                    S::from_i64(100),
                ),
            ),
            Err(e) => Err(e),
        }
    }

    /// The remainder estimate: the norm of the derivative of order `n`,
    /// divided by `n!` and multiplied by `(end - start)^n`. Fails for
    /// `n >= N_MAX`.
    pub fn lagrange_error_bound(&mut self, n: usize, point: Option<S>) -> (r: Result<S, Error>)
        requires
            old(self).wf(),
        ensures
            final(self).wf(),
            final(self).same_setting(old(self)),
            n >= N_MAX ==> r == Err::<S, Error>(Error::IndexOutOfRange),
            n < N_MAX ==> r == Ok::<S, Error>(
                error_bound(
                    derivative_norm(
                        old(self).derivatives(),
                        n as nat,
                        point,
                        old(self).sample_grid(),
                    ),
                    old(self).domain(),
                    n as nat,
                ),
            ),
    {
        let actual_derivative = self.derivative.order(n);
        assert(magnitudes(actual_derivative, self.grid@) =~= derivative_magnitudes(
            self.derivative,
            n as nat,
            self.grid@,
        ));
        match self.fact_cache.fact(n) {
            Ok(f) => Ok(
                self.norm_of_function(&actual_derivative, point).divided_by(f).times(
                    self.interval.end.minus(self.interval.start).powi(n),
                ),
            ),
            Err(e) => Err(e),
        }
    }

    /// For each count of points in `degrees_of_polynomials`, the three error
    /// measures, taken at `point` where one is given and over the grid where
    /// none is. Fails as the first count that is refused does.
    pub fn statistics(&mut self, degrees_of_polynomials: &[usize], point: Option<S>) -> (r: Result<
        Vec<Record<S>>,
        Error,
    >)
        requires
            old(self).wf(),
        ensures
            final(self).wf(),
            final(self).same_setting(old(self)),
            refusal(degrees_of_polynomials@, 0) is Some ==> r is Err && Some(r->Err_0) == refusal(
                degrees_of_polynomials@,
                0,
            ),
            refusal(degrees_of_polynomials@, 0) is None ==> r is Ok && r->Ok_0@ == records_at(
                old(self).callable(),
                old(self).derivatives(),
                old(self).domain(),
                old(self).sample_grid(),
                degrees_of_polynomials@,
                point,
            ),
    {
        let mut records: Vec<Record<S>> = Vec::new();
        let mut i: usize = 0;
        while i < degrees_of_polynomials.len()
            invariant
                i <= degrees_of_polynomials@.len(),
                self.wf(),
                self.same_setting(old(self)),
                refusal(degrees_of_polynomials@, 0) == refusal(degrees_of_polynomials@, i as int),
                records@.len() == i,
                forall|k: int|
                    0 <= k < i ==> records@[k] == record_at(
                        old(self).callable(),
                        old(self).derivatives(),
                        old(self).domain(),
                        old(self).sample_grid(),
                        degrees_of_polynomials@[k],
                        point,
                    ),
            decreases degrees_of_polynomials@.len() - i,
        {
            let n = degrees_of_polynomials[i];
            let abs_error = match self.absolute_error(n, point) {
                Ok(value) => value,
                Err(e) => {
                    return Err(e);
                },
            };
            let rel_error = match self.relative_error(n, point) {
                Ok(value) => value,
                Err(e) => {
                    return Err(e);
                },
            };
            let lagrange_error = match self.lagrange_error_bound(n, point) {
                Ok(value) => value,
                Err(e) => {
                    return Err(e);
                },
            };
            records.push(Record::new(n, abs_error, rel_error, lagrange_error));
            i = i + 1;
        }
        assert(records@ =~= records_at(
            old(self).callable(),
            old(self).derivatives(),
            old(self).domain(),
            old(self).sample_grid(),
            degrees_of_polynomials@,
            point,
        ));
        Ok(records)
    }

    /// The error measures for each count of points, each norm taken as the
    /// largest value over the grid.
    pub fn statistics_about_max_error(&mut self, degrees_of_polynomials: &[usize]) -> (r: Result<
        Vec<Record<S>>,
        Error,
    >)
        requires
            old(self).wf(),
        ensures
            final(self).wf(),
            final(self).same_setting(old(self)),
            refusal(degrees_of_polynomials@, 0) is Some ==> r is Err && Some(r->Err_0) == refusal(
                degrees_of_polynomials@,
                0,
            ),
            refusal(degrees_of_polynomials@, 0) is None ==> r is Ok && r->Ok_0@ == records_at(
                old(self).callable(),
                old(self).derivatives(),
                old(self).domain(),
                old(self).sample_grid(),
                degrees_of_polynomials@,
                None,
            ),
    {
        self.statistics(degrees_of_polynomials, None)
    }

    /// The error measures for each count of points, each norm taken at
    /// `point`.
    pub fn statistics_about_error_in_point(
        &mut self,
        degrees_of_polynomials: &[usize],
        point: S,
    ) -> (r: Result<Vec<Record<S>>, Error>)
        requires
            old(self).wf(),
        ensures
            final(self).wf(),
            final(self).same_setting(old(self)),
            refusal(degrees_of_polynomials@, 0) is Some ==> r is Err && Some(r->Err_0) == refusal(
                degrees_of_polynomials@,
                0,
            ),
            refusal(degrees_of_polynomials@, 0) is None ==> r is Ok && r->Ok_0@ == records_at(
                old(self).callable(),
                old(self).derivatives(),
                old(self).domain(),
                old(self).sample_grid(),
                degrees_of_polynomials@,
                Some(point),
            ),
    {
        self.statistics(degrees_of_polynomials, Some(point))
    }
}

} // verus!
