//! The triangle of forward differences of a function's samples.

use crate::function::Domain;
use crate::function::FuncType;
use crate::function::Function;
use crate::scalar::Scalar;
use vstd::prelude::*;

verus! {

/// The distance between two neighbouring nodes of `n` uniformly spaced nodes
/// over `d`: `(end - start) / (n - 1)`, the subtraction made in the scalars.
pub open spec fn step<S: Scalar>(d: Domain<S>, n: nat) -> S {
    d.end.difference(d.start).quotient(S::of_int(n as int).difference(S::one_value()))
}

/// Node `i`: `start + i * step`.
pub open spec fn node<S: Scalar>(d: Domain<S>, n: nat, i: int) -> S {
    d.start.sum(S::of_int(i).product(step(d, n)))
}

/// The values of `f` at the `n` nodes over `d`.
pub open spec fn samples<S: Scalar, Func: FuncType<S>>(f: Func, d: Domain<S>, n: nat) -> Seq<S> {
    Seq::new(n, |i: int| f.value(node(d, n, i)))
}

/// The forward differences of `row`: one entry fewer, entry `j` being
/// `row[j + 1] - row[j]`.
pub open spec fn differences<S: Scalar>(row: Seq<S>) -> Seq<S> {
    Seq::new((row.len() - 1) as nat, |j: int| row[j + 1].difference(row[j]))
}

/// Row `k` of the table over `first`: `first` itself for `k = 0`, else the
/// forward differences of row `k - 1`.
pub open spec fn difference_row<S: Scalar>(first: Seq<S>, k: nat) -> Seq<S>
    decreases k,
{
    if k == 0 {
        first
    } else {
        differences(difference_row(first, (k - 1) as nat))
    }
}

/// Entry `col` of `row`, and the last entry where `col` lies beyond the row.
pub open spec fn clamped<S: Scalar>(row: Seq<S>, col: int) -> S {
    if col < row.len() {
        row[col]
    } else {
        row[row.len() - 1]
    }
}

/// The forward differences of `n` samples, of every order below `n`.
#[derive(Debug)]
pub struct FiniteDifferenceTable<S: Scalar> {
    data: Vec<Vec<S>>,
}

impl<S: Scalar> FiniteDifferenceTable<S> {
    /// The rows of the table, row 0 first.
    pub closed spec fn rows(&self) -> Seq<Seq<S>> {
        Seq::new(self.data@.len(), |k: int| self.data@[k]@)
    }

    /// The table is not empty, and each row after the first holds the forward
    /// differences of the row before it, so row `k` has `k` entries fewer than
    /// row 0.
    pub open spec fn wf(&self) -> bool {
        &&& self.rows().len() >= 1
        &&& self.rows().len() == self.rows()[0].len()
        &&& forall|k: int|
            0 <= k < self.rows().len() ==> (#[trigger] self.rows()[k]) == difference_row(
                self.rows()[0],
                k as nat,
            )
        &&& forall|k: int|
            0 <= k < self.rows().len() ==> (#[trigger] self.rows()[k]).len() == self.rows().len()
                - k
    }

    /// Samples `func` at `n` uniformly spaced nodes over its domain and takes
    /// differences of every order.
    pub fn new<Func: FuncType<S>>(n: usize, func: &Function<S, Func>) -> (r: Self)
        requires
            n >= 1,
        ensures
            r.wf(),
            r.rows().len() == n,
            r.rows()[0] == samples(func.callable(), func.interval(), n as nat),
    {
        let d = *func.domain();
        let h = d.end.minus(d.start).divided_by(S::from_usize(n).minus(S::one()));
        let ghost first = samples(func.callable(), func.interval(), n as nat);
        let mut row: Vec<S> = Vec::new();
        let mut i: usize = 0;
        while i < n
            invariant
                i <= n,
                d == func.interval(),
                h == step(d, n as nat),
                first == samples(func.callable(), d, n as nat),
                row@.len() == i,
                forall|k: int| 0 <= k < i ==> row@[k] == first[k],
            decreases n - i,
        {
            row.push(func.call(d.start.plus(S::from_usize(i).times(h))));
            i = i + 1;
        }
        assert(row@ =~= first);
        let mut data: Vec<Vec<S>> = Vec::new();
        data.push(row);
        let mut k: usize = 1;
        while k < n
            invariant
                1 <= k <= n,
                first.len() == n,
                data@.len() == k,
                forall|m: int| 0 <= m < k ==> (#[trigger] data@[m])@ == difference_row(first, m as nat),
                forall|m: int| 0 <= m < k ==> (#[trigger] data@[m])@.len() == n - m,
            decreases n - k,
        {
            let mut next: Vec<S> = Vec::new();
            let ghost above = data@[k - 1]@;
            let mut j: usize = 0;
            while j < n - k
                invariant
                    1 <= k < n,
                    j <= n - k,
                    data@.len() == k,
                    data@[k - 1]@ == above,
                    above.len() == n - k + 1,
                    next@.len() == j,
                    forall|c: int| 0 <= c < j ==> next@[c] == above[c + 1].difference(above[c]),
                decreases n - k - j,
            {
                next.push(data[k - 1][j + 1].minus(data[k - 1][j]));
                j = j + 1;
            }
            assert(next@ =~= differences(above));
            data.push(next);
            k = k + 1;
        }
        let r = FiniteDifferenceTable { data };
        assert(r.rows().len() == n);
        assert forall|m: int| 0 <= m < n implies (#[trigger] r.rows()[m]) == difference_row(
            r.rows()[0],
            m as nat,
        ) && r.rows()[m].len() == n - m by {
            assert(r.rows()[m] == r.data@[m]@);
            assert(r.rows()[0] == r.data@[0]@);
        }
        r
    }

    /// The number of rows, which is the number of samples.
    pub fn degree(&self) -> (r: usize)
        ensures
            r == self.rows().len(),
    {
        self.data.len()
    }

    /// The entry at `(row, column)`; for a column beyond the row, the row's
    /// last entry.
    pub fn index(&self, index: (usize, usize)) -> (r: S)
        requires
            self.wf(),
            index.0 < self.rows().len(),
        ensures
            r == clamped(self.rows()[index.0 as int], index.1 as int),
    {
        assert(self.rows()[index.0 as int] == self.data@[index.0 as int]@);
        let row = &self.data[index.0];
        if index.1 < row.len() {
            row[index.1]
        } else {
            row[row.len() - 1]
        }
    }
}

/// In a well-formed table every entry below the first row is the entry
/// above and to its right less the entry above it.
pub proof fn lemma_rows_are_differences<S: Scalar>(table: &FiniteDifferenceTable<S>, k: int, j: int)
    requires
        table.wf(),
        0 <= k,
        k + 1 < table.rows().len(),
        0 <= j < table.rows()[k + 1].len(),
    ensures
        table.rows()[k].len() == table.rows()[k + 1].len() + 1,
        table.rows()[k + 1][j] == table.rows()[k][j + 1].difference(table.rows()[k][j]),
{
    assert(table.rows()[k + 1] == difference_row(table.rows()[0], (k + 1) as nat));
    assert(table.rows()[k] == difference_row(table.rows()[0], k as nat));
}

} // verus!
