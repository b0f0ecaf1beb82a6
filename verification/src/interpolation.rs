//! Interpolation from a table of forward differences: Newton's formulas at
//! the ends of the table, Gauss's formulas around an inner node, and the rule
//! that chooses among them.

use crate::error::Error;
use crate::factorial::factorial;
use crate::factorial::Fact;
use crate::factorial::N_MAX;
use crate::finite_difference::clamped;
use crate::finite_difference::difference_row;
use crate::finite_difference::samples;
use crate::finite_difference::FiniteDifferenceTable;
use crate::function::Domain;
use crate::function::FuncType;
use crate::function::Function;
use crate::scalar::Scalar;
use vstd::prelude::*;

verus! {

/// The side from which a formula takes its differences.
#[derive(Clone, Copy, Debug, PartialEq, Eq, Structural)]
pub enum Direction {
    /// Backwards: sign -1.
    Left,
    /// Forwards: sign +1.
    Right,
}

impl Direction {
    /// `k` with the direction's sign: `-k` for `Left`, `k` for `Right`.
    pub open spec fn signed(self, k: int) -> int {
        match self {
            Direction::Left => -k,
            Direction::Right => k,
        }
    }
}

/// The number of factors that multiply term `i`: none for the first two
/// terms, `i - 1` after that.
pub open spec fn factor_count(i: nat) -> nat {
    if i == 0 {
        0
    } else {
        (i - 1) as nat
    }
}

/// The column of row `i` that a Newton formula over `n` nodes reads: the
/// first one forwards, column `n - i` backwards.
pub open spec fn newton_column(n: int, i: int, dir: Direction) -> int {
    match dir {
        Direction::Right => 0,
        Direction::Left => n - i,
    }
}

/// `lead` multiplied in turn by `t - sign * j` for `j < m`.
pub open spec fn newton_factors<S: Scalar>(lead: S, t: S, dir: Direction, m: nat) -> S
    decreases m,
{
    if m == 0 {
        lead
    } else {
        newton_factors(lead, t, dir, (m - 1) as nat).product(
            t.difference(S::of_int(dir.signed(m - 1))),
        )
    }
}

/// Term `i` of a Newton formula: the difference of order `i`, divided by
/// `i!` and multiplied by its factors.
pub open spec fn newton_term<S: Scalar>(rows: Seq<Seq<S>>, t: S, dir: Direction, i: nat) -> S {
    newton_factors(
        clamped(rows[i as int], newton_column(rows.len() as int, i as int, dir)).quotient(
            factorial::<S>(i),
        ),
        t,
        dir,
        factor_count(i),
    )
}

/// The first `m` terms of a Newton formula, added to zero by rising order.
pub open spec fn newton_sum<S: Scalar>(rows: Seq<Seq<S>>, t: S, dir: Direction, m: nat) -> S
    decreases m,
{
    if m == 0 {
        S::zero_value()
    } else {
        newton_sum(rows, t, dir, (m - 1) as nat).sum(newton_term(rows, t, dir, (m - 1) as nat))
    }
}

/// The column of row `i` that a Gauss formula around node `node_idx` reads:
/// `node_idx` less half of `i` (forwards) or of `i + 1` (backwards), rounded
/// down, and 0 where that would lie before the row.
pub open spec fn gauss_column(node_idx: int, i: int, dir: Direction) -> int {
    let back = match dir {
        Direction::Left => (i + 1) / 2,
        Direction::Right => i / 2,
    };
    if back > node_idx {
        0
    } else {
        node_idx - back
    }
}

/// The shift of factor `j` of a Gauss formula: `j + 1` with the direction's
/// sign, divided by 2 in the scalars.
pub open spec fn gauss_shift<S: Scalar>(j: int, dir: Direction) -> S {
    S::of_int(dir.signed(j + 1)).quotient(S::of_int(2))
}

/// `lead` multiplied in turn, for `j < m`, by `t - shift(j)` where `j` is odd
/// and by `t + shift(j)` where it is even.
pub open spec fn gauss_factors<S: Scalar>(lead: S, t: S, dir: Direction, m: nat) -> S
    decreases m,
{
    if m == 0 {
        lead
    } else {
        let j = m - 1;
        let shift = gauss_shift::<S>(j, dir);
        gauss_factors(lead, t, dir, (m - 1) as nat).product(
            if j % 2 != 0 {
                t.difference(shift)
            } else {
                t.sum(shift)
            },
        )
    }
}

/// Term `i` of a Gauss formula: the difference of order `i`, multiplied by
/// `1 / i!` and by its factors.
pub open spec fn gauss_term<S: Scalar>(
    rows: Seq<Seq<S>>,
    t: S,
    node_idx: int,
    dir: Direction,
    i: nat,
) -> S {
    gauss_factors(
        clamped(rows[i as int], gauss_column(node_idx, i as int, dir)).product(
            S::one_value().quotient(factorial::<S>(i)),
        ),
        t,
        dir,
        factor_count(i),
    )
}

/// The first `m` terms of a Gauss formula, added to zero by rising order.
pub open spec fn gauss_sum<S: Scalar>(
    rows: Seq<Seq<S>>,
    t: S,
    node_idx: int,
    dir: Direction,
    m: nat,
) -> S
    decreases m,
{
    if m == 0 {
        S::zero_value()
    } else {
        gauss_sum(rows, t, node_idx, dir, (m - 1) as nat).sum(
            gauss_term(rows, t, node_idx, dir, (m - 1) as nat),
        )
    }
}

/// The step between the nodes of a table of `n` rows over `d`:
/// `(end - start) / (n - 1)`, the subtraction made in the integers.
pub open spec fn spacing<S: Scalar>(d: Domain<S>, n: nat) -> S {
    d.end.difference(d.start).quotient(S::of_int(n - 1))
}

/// The value that the interpolation assigns to a point `x` of the domain.
/// Up to half a step above the lower bound it is Newton's forward formula;
/// from half a step above the upper bound it is Newton's backward formula;
/// between them it is a Gauss formula around the node nearest to `x`, the
/// forward one where `x` is not below that node and the backward one where
/// it is.
pub open spec fn interpolated<S: Scalar>(rows: Seq<Seq<S>>, d: Domain<S>, x: S) -> S {
    let n = rows.len();
    let h = spacing(d, n);
    let offset = x.difference(d.start).quotient(h);
    let half = h.quotient(S::of_int(2));
    if x.at_most(d.start.sum(half)) {
        newton_sum(rows, offset, Direction::Right, n)
    } else if d.end.sum(half).at_most(x) {
        newton_sum(rows, x.difference(d.end).quotient(h), Direction::Left, n)
    } else {
        let i = offset.nearest_index();
        let t = offset.difference(S::of_int(i as int));
        if offset.floor_index() == i {
            gauss_sum(rows, t, i as int, Direction::Right, n)
        } else {
            gauss_sum(rows, t, i as int, Direction::Left, n)
        }
    }
}

/// A function, the table of its forward differences, and the factorials that
/// the formulas divide by.
#[derive(Debug)]
pub struct InterpolationFormulas<S: Scalar, Func: FuncType<S>> {
    func: Function<S, Func>,
    fdt: FiniteDifferenceTable<S>,
    fact_cache: Fact<S>,
}

impl<S: Scalar, Func: FuncType<S>> InterpolationFormulas<S, Func> {
    /// The function that is interpolated, with its domain.
    pub closed spec fn function(&self) -> Function<S, Func> {
        self.func
    }

    /// The table of forward differences.
    pub closed spec fn table(&self) -> FiniteDifferenceTable<S> {
        self.fdt
    }

    /// The table of factorials.
    pub closed spec fn factorials(&self) -> Fact<S> {
        self.fact_cache
    }

    /// The rows of the difference table.
    pub open spec fn rows(&self) -> Seq<Seq<S>> {
        self.table().rows()
    }

    /// The function's domain.
    pub open spec fn interval(&self) -> Domain<S> {
        self.function().interval()
    }

    /// The callable that is interpolated.
    pub open spec fn callable(&self) -> Func {
        self.function().callable()
    }

    /// The table and the factorials are well formed.
    pub open spec fn wf(&self) -> bool {
        self.table().wf() && self.factorials().wf()
    }

    /// `self` is `before` but for factorials that `before` did not hold yet:
    /// the function and the difference table are the same, and every
    /// factorial that `before` held is held unchanged.
    pub open spec fn grown_from(&self, before: &Self) -> bool {
        &&& self.function() == before.function()
        &&& self.table() == before.table()
        &&& forall|i: int|
            (#[trigger] before.factorials().entry(i)) is Some ==> self.factorials().entry(i)
                == before.factorials().entry(i)
    }

    /// Builds the difference table of `func` over `n` nodes, with a table of
    /// factorials that holds `0!` alone.
    pub fn new(n: usize, func: Function<S, Func>) -> (r: Self)
        requires
            n >= 1,
        ensures
            r.wf(),
            r.function() == func,
            r.rows().len() == n,
            r.rows()[0] == samples(func.callable(), func.interval(), n as nat),
            forall|k: int|
                0 <= k < n ==> (#[trigger] r.rows()[k]) == difference_row(r.rows()[0], k as nat),
            r.factorials().entry(0) == Some(S::one_value()),
            forall|i: int| i != 0 ==> r.factorials().entry(i) == None::<S>,
    {
        let fdt = FiniteDifferenceTable::new(n, &func);
        InterpolationFormulas { func, fdt, fact_cache: Fact::new() }
    }

    /// The number of nodes.
    pub fn degree(&self) -> (r: usize)
        ensures
            r == self.rows().len(),
    {
        self.fdt.degree()
    }

    /// Newton's formula at offset `t`, in units of the step, from the first
    /// node (`Right`) or the last (`Left`). Fails where the table has more
    /// rows than there are factorials.
    pub fn newton_interpolation(&mut self, t: S, dir: Direction) -> (r: Result<S, Error>)
        requires
            old(self).wf(),
        ensures
            final(self).wf(),
            final(self).grown_from(old(self)),
            r is Err ==> *final(self) == *old(self),
            old(self).rows().len() <= N_MAX ==> r == Ok::<S, Error>(
                newton_sum(old(self).rows(), t, dir, old(self).rows().len()),
            ),
            old(self).rows().len() > N_MAX ==> r == Err::<S, Error>(Error::IndexOutOfRange),
    {
        let n = self.degree();
        if n > N_MAX {
            return Err(Error::IndexOutOfRange);
        }
        let ghost rows = self.fdt.rows();
        let mut sum = S::zero();
        let mut i: usize = 0;
        while i < n
            invariant
                i <= n,
                n <= N_MAX,
                n == rows.len(),
                self.fdt == old(self).fdt,
                self.func == old(self).func,
                self.fdt.rows() == rows,
                self.fdt.wf(),
                self.fact_cache.wf(),
                forall|k: int|
                    (#[trigger] old(self).fact_cache.entry(k)) is Some ==> self.fact_cache.entry(k)
                        == old(self).fact_cache.entry(k),
                sum == newton_sum(rows, t, dir, i as nat),
            decreases n - i,
        {
            let column = match dir {
                Direction::Right => 0,
                Direction::Left => n - i,
            };
            let entry = self.fdt.index((i, column));
            let mut mul = match self.fact_cache.fact(i) {
                Ok(f) => entry.divided_by(f),
                Err(e) => {
                    return Err(e);
                },
            };
            let ghost lead = mul;
            let count: usize = if i == 0 { 0 } else { i - 1 };
            let mut j: usize = 0;
            while j < count
                invariant
                    j <= count,
                    count < N_MAX,
                    mul == newton_factors(lead, t, dir, j as nat),
                decreases count - j,
            {
                let shift: i64 = match dir {
                    Direction::Right => j as i64,
                    Direction::Left => -(j as i64),
                };
                mul = mul.times(t.minus(S::from_i64(shift)));
                j = j + 1;
            }
            sum = sum.plus(mul);
            i = i + 1;
        }
        Ok(sum)
    }

    /// Newton's formula from the first node.
    pub fn newton_interpolation_forwards(&mut self, t: S) -> (r: Result<S, Error>)
        requires
            old(self).wf(),
        ensures
            final(self).wf(),
            final(self).grown_from(old(self)),
            r is Err ==> *final(self) == *old(self),
            old(self).rows().len() <= N_MAX ==> r == Ok::<S, Error>(
                newton_sum(old(self).rows(), t, Direction::Right, old(self).rows().len()),
            ),
            old(self).rows().len() > N_MAX ==> r == Err::<S, Error>(Error::IndexOutOfRange),
    {
        self.newton_interpolation(t, Direction::Right)
    }

    /// Newton's formula from the last node.
    pub fn newton_interpolation_backwards(&mut self, t: S) -> (r: Result<S, Error>)
        requires
            old(self).wf(),
        ensures
            final(self).wf(),
            final(self).grown_from(old(self)),
            r is Err ==> *final(self) == *old(self),
            old(self).rows().len() <= N_MAX ==> r == Ok::<S, Error>(
                newton_sum(old(self).rows(), t, Direction::Left, old(self).rows().len()),
            ),
            old(self).rows().len() > N_MAX ==> r == Err::<S, Error>(Error::IndexOutOfRange),
    {
        self.newton_interpolation(t, Direction::Left)
    }

    /// A Gauss formula at offset `t`, in units of the step, from node
    /// `node_idx`. Fails where the table has more rows than there are
    /// factorials.
    pub fn gauss_interpolation(&mut self, t: S, node_idx: usize, dir: Direction) -> (r: Result<
        S,
        Error,
    >)
        requires
            old(self).wf(),
        ensures
            final(self).wf(),
            final(self).grown_from(old(self)),
            r is Err ==> *final(self) == *old(self),
            old(self).rows().len() <= N_MAX ==> r == Ok::<S, Error>(
                gauss_sum(old(self).rows(), t, node_idx as int, dir, old(self).rows().len()),
            ),
            old(self).rows().len() > N_MAX ==> r == Err::<S, Error>(Error::IndexOutOfRange),
    {
        let n = self.degree();
        if n > N_MAX {
            return Err(Error::IndexOutOfRange);
        }
        let ghost rows = self.fdt.rows();
        let mut sum = S::zero();
        let mut i: usize = 0;
        while i < n
            invariant
                i <= n,
                n <= N_MAX,
                n == rows.len(),
                self.fdt == old(self).fdt,
                self.func == old(self).func,
                self.fdt.rows() == rows,
                self.fdt.wf(),
                self.fact_cache.wf(),
                forall|k: int|
                    (#[trigger] old(self).fact_cache.entry(k)) is Some ==> self.fact_cache.entry(k)
                        == old(self).fact_cache.entry(k),
                sum == gauss_sum(rows, t, node_idx as int, dir, i as nat),
            decreases n - i,
        {
            let back: usize = match dir {
                Direction::Left => (i + 1) / 2,
                Direction::Right => i / 2,
            };
            let column: usize = if back > node_idx { 0 } else { node_idx - back };
            let entry = self.fdt.index((i, column));
            let mut f = match self.fact_cache.fact(i) {
                Ok(fact) => entry.times(S::one().divided_by(fact)),
                Err(e) => {
                    return Err(e);
                },
            };
            let ghost lead = f;
            let count: usize = if i == 0 { 0 } else { i - 1 };
            let mut j: usize = 0;
            while j < count
                invariant
                    j <= count,
                    count < N_MAX,
                    f == gauss_factors(lead, t, dir, j as nat),
                decreases count - j,
            {
                let signed: i64 = match dir {
                    Direction::Right => (j + 1) as i64,
                    Direction::Left => -((j + 1) as i64),
                };
                let tmp = S::from_i64(signed).divided_by(S::from_i64(2));
                f = f.times(if j % 2 != 0 { t.minus(tmp) } else { t.plus(tmp) });
                j = j + 1;
            }
            sum = sum.plus(f);
            i = i + 1;
        }
        Ok(sum)
    }

    /// The forward Gauss formula around node `node_idx`.
    pub fn gauss_interpolation_forwards(&mut self, t: S, node_idx: usize) -> (r: Result<S, Error>)
        requires
            old(self).wf(),
        ensures
            final(self).wf(),
            final(self).grown_from(old(self)),
            r is Err ==> *final(self) == *old(self),
            old(self).rows().len() <= N_MAX ==> r == Ok::<S, Error>(
                gauss_sum(
                    old(self).rows(),
                    t,
                    node_idx as int,
                    Direction::Right,
                    old(self).rows().len(),
                ),
            ),
            old(self).rows().len() > N_MAX ==> r == Err::<S, Error>(Error::IndexOutOfRange),
    {
        self.gauss_interpolation(t, node_idx, Direction::Right)
    }

    /// The backward Gauss formula around node `node_idx`.
    pub fn gauss_interpolation_backwards(&mut self, t: S, node_idx: usize) -> (r: Result<S, Error>)
        requires
            old(self).wf(),
        ensures
            final(self).wf(),
            final(self).grown_from(old(self)),
            r is Err ==> *final(self) == *old(self),
            old(self).rows().len() <= N_MAX ==> r == Ok::<S, Error>(
                gauss_sum(
                    old(self).rows(),
                    t,
                    node_idx as int,
                    Direction::Left,
                    old(self).rows().len(),
                ),
            ),
            old(self).rows().len() > N_MAX ==> r == Err::<S, Error>(Error::IndexOutOfRange),
    {
        self.gauss_interpolation(t, node_idx, Direction::Left)
    }

    /// The interpolated value at `x`. Fails with `OutOfDomain` for every `x`
    /// outside the domain, and for an `x` inside it with `IndexOutOfRange`
    /// where the table has more rows than there are factorials. A failure
    /// leaves the engine as it was; a success may add factorials to its
    /// table and changes nothing else.
    pub fn interpolate(&mut self, x: S) -> (r: Result<S, Error>)
        requires
            old(self).wf(),
        ensures
            final(self).wf(),
            final(self).grown_from(old(self)),
            r is Err ==> *final(self) == *old(self),
            !old(self).interval().holds(x) ==> r == Err::<S, Error>(Error::OutOfDomain),
            old(self).interval().holds(x) && old(self).rows().len() > N_MAX ==> r == Err::<
                S,
                Error,
            >(Error::IndexOutOfRange),
            old(self).interval().holds(x) && old(self).rows().len() <= N_MAX ==> r == Ok::<
                S,
                Error,
            >(interpolated(old(self).rows(), old(self).interval(), x)),
    {
        let n = self.degree();
        let (a, b) = self.func.domain_tuple();
        if !self.func.domain().contains(x) {
            return Err(Error::OutOfDomain);
        }
        let h = b.minus(a).divided_by(S::from_usize(n - 1));
        let tmp = x.minus(a).divided_by(h);
        let half = h.divided_by(S::from_i64(2));
        if x.le(a.plus(half)) {
            return self.newton_interpolation_forwards(tmp);
        } else if b.plus(half).le(x) {
            return self.newton_interpolation_backwards(x.minus(b).divided_by(h));
        }
        let i = tmp.round_to_index();
        let t = tmp.minus(S::from_usize(i));
        if tmp.floor_to_index() == i {
            self.gauss_interpolation_forwards(t, i)
        } else {
            self.gauss_interpolation_backwards(t, i)
        }
    }
}

} // verus!
