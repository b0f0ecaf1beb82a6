//! Dense polynomials over a scalar arithmetic, with their ring operations.

use crate::function::FuncType;
use crate::scalar::ExactScalar;
use crate::scalar::Scalar;
use vstd::prelude::*;

verus! {

/// A polynomial as its coefficients: index `i` holds the coefficient of `x^i`.
#[derive(Clone, Debug, PartialEq)]
pub struct Polynomial<S: Scalar> {
    data: Vec<S>,
}

/// The zero polynomial of `len` coefficients.
pub open spec fn zeros<S: Scalar>(len: nat) -> Seq<S> {
    Seq::new(len, |i: int| S::zero_value())
}

/// Every coefficient multiplied by `k`.
pub open spec fn scaled<S: Scalar>(p: Seq<S>, k: S) -> Seq<S> {
    Seq::new(p.len(), |i: int| p[i].product(k))
}

/// Every coefficient multiplied by -1.
pub open spec fn negated<S: Scalar>(p: Seq<S>) -> Seq<S> {
    scaled(p, S::of_int(-1))
}

/// The shorter operand added into the longer one, coefficient by
/// coefficient; what the longer one holds beyond stays. Of two operands of
/// one length the second counts as the longer.
pub open spec fn added<S: Scalar>(p: Seq<S>, q: Seq<S>) -> Seq<S> {
    if p.len() > q.len() {
        Seq::new(p.len(), |i: int| if i < q.len() { p[i].sum(q[i]) } else { p[i] })
    } else {
        Seq::new(q.len(), |i: int| if i < p.len() { q[i].sum(p[i]) } else { q[i] })
    }
}

/// `p` with the negation of `q` added.
pub open spec fn subtracted<S: Scalar>(p: Seq<S>, q: Seq<S>) -> Seq<S> {
    added(p, negated(q))
}

/// Coefficient `k` of a product, as far as the first `m` coefficients of `p`
/// have contributed: the terms `p[i] * q[k - i]` added to zero by rising `i`.
pub open spec fn product_coefficient<S: Scalar>(p: Seq<S>, q: Seq<S>, k: int, m: nat) -> S
    decreases m,
{
    if m == 0 {
        S::zero_value()
    } else {
        let rest = product_coefficient(p, q, k, (m - 1) as nat);
        let i = m - 1;
        if 0 <= k - i < q.len() {
            rest.sum(p[i].product(q[k - i]))
        } else {
            rest
        }
    }
}

/// The convolution of two coefficient sequences.
pub open spec fn multiplied<S: Scalar>(p: Seq<S>, q: Seq<S>) -> Seq<S> {
    Seq::new(
        (p.len() + q.len() - 1) as nat,
        |k: int| product_coefficient(p, q, k, p.len()),
    )
}

/// The sum of `x^i * p[i]` over `i < m`, added to zero by rising `i`.
pub open spec fn evaluated<S: Scalar>(p: Seq<S>, x: S, m: nat) -> S
    decreases m,
{
    if m == 0 {
        S::zero_value()
    } else {
        evaluated(p, x, (m - 1) as nat).sum(x.power((m - 1) as nat).product(p[m - 1]))
    }
}

/// The coefficients of the derivative: coefficient `k` is `p[k + 1] * (k + 1)`;
/// the derivative of a constant is `[0]`.
pub open spec fn derived<S: Scalar>(p: Seq<S>) -> Seq<S> {
    if p.len() <= 1 {
        seq![S::zero_value()]
    } else {
        Seq::new((p.len() - 1) as nat, |k: int| p[k + 1].product(S::of_int(k + 1)))
    }
}

/// The coefficients of the derivative of order `n`.
pub open spec fn derived_times<S: Scalar>(p: Seq<S>, n: nat) -> Seq<S>
    decreases n,
{
    if n == 0 {
        p
    } else {
        derived(derived_times(p, (n - 1) as nat))
    }
}

impl<S: Scalar> View for Polynomial<S> {
    type V = Seq<S>;

    closed spec fn view(&self) -> Seq<S> {
        self.data@
    }
}

impl<S: Scalar> Polynomial<S> {
    /// A polynomial has at least one coefficient.
    pub open spec fn wf(&self) -> bool {
        self@.len() >= 1
    }

    /// The zero polynomial of degree `size`.
    pub fn new(size: usize) -> (r: Self)
        requires
            size < usize::MAX,
        ensures
            r.wf(),
            r@ == zeros::<S>((size + 1) as nat),
    {
        let mut data: Vec<S> = Vec::new();
        let mut i: usize = 0;
        while i <= size
            invariant
                i <= size + 1,
                size < usize::MAX,
                data@ == zeros::<S>(i as nat),
            decreases size + 1 - i,
        {
            data.push(S::zero());
            i = i + 1;
            assert(data@ =~= zeros::<S>(i as nat));
        }
        Polynomial { data }
    }

    /// The polynomial with the given coefficients; `[0]` for none.
    pub fn from_vec(vec: Vec<S>) -> (r: Self)
        ensures
            r.wf(),
            vec@.len() == 0 ==> r@ == seq![S::zero_value()],
            vec@.len() > 0 ==> r@ == vec@,
    {
        if vec.len() == 0 {
            let mut data: Vec<S> = Vec::new();
            data.push(S::zero());
            assert(data@ =~= seq![S::zero_value()]);
            Polynomial { data }
        } else {
            Polynomial { data: vec }
        }
    }

    /// The number of coefficients less one.
    pub fn degree(&self) -> (r: usize)
        requires
            self.wf(),
        ensures
            r == self@.len() - 1,
    {
        self.data.len() - 1
    }

    /// The coefficient of `x^index`.
    pub fn index(&self, index: usize) -> (r: S)
        requires
            index < self@.len(),
        ensures
            r == self@[index as int],
    {
        self.data[index]
    }

    /// Replaces the coefficient of `x^index`.
    pub fn index_mut(&mut self, index: usize, coefficient: S)
        requires
            index < old(self)@.len(),
        ensures
            final(self)@ == old(self)@.update(index as int, coefficient),
    {
        self.data.set(index, coefficient);
    }

    /// The value at `x0`: the terms `x0^i * c[i]` summed by rising `i`.
    pub fn calculate_at(&self, x0: S) -> (y0: S)
        ensures
            y0 == evaluated(self@, x0, self@.len()),
    {
        let mut y0 = S::zero();
        let mut i: usize = 0;
        while i < self.data.len()
            invariant
                i <= self.data@.len(),
                y0 == evaluated(self.data@, x0, i as nat),
            decreases self.data@.len() - i,
        {
            y0 = y0.plus(x0.powi(i).times(self.data[i]));
            i = i + 1;
        }
        y0
    }

    /// The derivative.
    pub fn derivative(&self) -> (r: Self)
        ensures
            r.wf(),
            r@ == derived(self@),
    {
        let mut data: Vec<S> = Vec::new();
        if self.data.len() <= 1 {
            data.push(S::zero());
            assert(data@ =~= derived(self.data@));
            return Polynomial { data };
        }
        let mut k: usize = 1;
        while k < self.data.len()
            invariant
                1 <= k <= self.data@.len(),
                data@.len() == k - 1,
                forall|c: int|
                    0 <= c < k - 1 ==> data@[c] == self.data@[c + 1].product(S::of_int(c + 1)),
            decreases self.data@.len() - k,
        {
            data.push(self.data[k].times(S::from_usize(k)));
            k = k + 1;
        }
        assert(data@ =~= derived(self.data@));
        Polynomial { data }
    }

    /// The derivative of order `n`.
    pub fn nth_derivative(&self, n: usize) -> (r: Self)
        ensures
            r@ == derived_times(self@, n as nat),
    {
        let mut data: Vec<S> = Vec::new();
        let mut k: usize = 0;
        while k < self.data.len()
            invariant
                k <= self.data@.len(),
                data@ == self.data@.subrange(0, k as int),
            decreases self.data@.len() - k,
        {
            data.push(self.data[k]);
            k = k + 1;
            assert(data@ =~= self.data@.subrange(0, k as int));
        }
        assert(data@ =~= self.data@);
        let mut r = Polynomial { data };
        let mut i: usize = 0;
        while i < n
            invariant
                i <= n,
                r@ == derived_times(self@, i as nat),
            decreases n - i,
        {
            r = r.derivative();
            i = i + 1;
        }
        r
    }

    /// Multiplies every coefficient by `rhs`.
    pub fn scale_assign(&mut self, rhs: S)
        ensures
            final(self)@ == scaled(old(self)@, rhs),
    {
        let ghost before = self.data@;
        let mut i: usize = 0;
        while i < self.data.len()
            invariant
                i <= self.data@.len(),
                self.data@.len() == before.len(),
                forall|k: int| 0 <= k < i ==> self.data@[k] == before[k].product(rhs),
                forall|k: int| i <= k < before.len() ==> self.data@[k] == before[k],
            decreases self.data@.len() - i,
        {
            let c = self.data[i].times(rhs);
            self.data.set(i, c);
            i = i + 1;
        }
        assert(self.data@ =~= scaled(before, rhs));
    }

    /// Divides every coefficient by `rhs`: multiplies it by `1 / rhs`.
    pub fn div_assign(&mut self, rhs: S)
        ensures
            final(self)@ == scaled(old(self)@, S::one_value().quotient(rhs)),
    {
        self.scale_assign(S::one().divided_by(rhs));
    }

    /// The polynomial with every coefficient multiplied by -1.
    pub fn neg(self) -> (r: Self)
        ensures
            r@ == negated(self@),
    {
        let mut r = self;
        r.scale_assign(S::from_i64(-1));
        r
    }

    /// Adds `rhs` to `self`. The result has the larger of the two degrees.
    pub fn add_assign(&mut self, rhs: Self)
        ensures
            final(self)@ == added(old(self)@, rhs@),
            final(self)@.len() == if old(self)@.len() > rhs@.len() {
                old(self)@.len()
            } else {
                rhs@.len()
            },
    {
        let ghost before = self.data@;
        let ghost other = rhs.data@;
        let mut tmp: Vec<S> = Vec::new();
        let mut rhs = rhs;
        if self.data.len() > rhs.data.len() {
            std::mem::swap(&mut self.data, &mut tmp);
        } else {
            std::mem::swap(&mut rhs.data, &mut tmp);
            std::mem::swap(&mut self.data, &mut rhs.data);
        }
        let ghost long = tmp@;
        let ghost short = rhs.data@;
        let n = rhs.data.len();
        let mut i: usize = 0;
        while i < n
            invariant
                i <= n,
                n == short.len(),
                rhs.data@ == short,
                short.len() <= long.len(),
                tmp@.len() == long.len(),
                forall|k: int| 0 <= k < i ==> tmp@[k] == long[k].sum(short[k]),
                forall|k: int| i <= k < long.len() ==> tmp@[k] == long[k],
            decreases n - i,
        {
            let c = tmp[i].plus(rhs.data[i]);
            tmp.set(i, c);
            i = i + 1;
        }
        self.data = tmp;
        assert(self.data@ =~= added(before, other));
    }

    /// The sum of `self` and `rhs`.
    pub fn plus(self, rhs: Self) -> (r: Self)
        ensures
            r@ == added(self@, rhs@),
    {
        let mut r = self;
        r.add_assign(rhs);
        r
    }

    /// `self` less `rhs`.
    pub fn minus(self, rhs: Self) -> (r: Self)
        ensures
            r@ == subtracted(self@, rhs@),
    {
        let mut r = self;
        r.sub_assign(rhs);
        r
    }

    /// `self` with every coefficient multiplied by `rhs`.
    pub fn scale(self, rhs: S) -> (r: Self)
        ensures
            r@ == scaled(self@, rhs),
    {
        let mut r = self;
        r.scale_assign(rhs);
        r
    }

    /// `self` with every coefficient divided by `rhs`.
    pub fn divide(self, rhs: S) -> (r: Self)
        ensures
            r@ == scaled(self@, S::one_value().quotient(rhs)),
    {
        let mut r = self;
        r.div_assign(rhs);
        r
    }

    /// The product of `self` and `rhs`.
    pub fn times(self, rhs: Self) -> (r: Self)
        requires
            self.wf(),
            rhs.wf(),
            self@.len() + rhs@.len() - 1 <= usize::MAX,
        ensures
            r.wf(),
            r@ == multiplied(self@, rhs@),
            r@.len() - 1 == (self@.len() - 1) + (rhs@.len() - 1),
    {
        let mut r = self;
        r.mul_assign(rhs);
        r
    }

    /// Subtracts `rhs` from `self`: adds its negation.
    pub fn sub_assign(&mut self, rhs: Self)
        ensures
            final(self)@ == subtracted(old(self)@, rhs@),
            final(self)@.len() == if old(self)@.len() > rhs@.len() {
                old(self)@.len()
            } else {
                rhs@.len()
            },
    {
        self.add_assign(rhs.neg());
    }

    /// Multiplies `self` by `rhs`. The result's degree is the sum of the two
    /// degrees.
    pub fn mul_assign(&mut self, rhs: Self)
        requires
            old(self).wf(),
            rhs.wf(),
            old(self)@.len() + rhs@.len() - 1 <= usize::MAX,
        ensures
            final(self).wf(),
            final(self)@ == multiplied(old(self)@, rhs@),
            final(self)@.len() - 1 == (old(self)@.len() - 1) + (rhs@.len() - 1),
    {
        let ghost p = self.data@;
        let ghost q = rhs.data@;
        let l_len = self.data.len();
        let r_len = rhs.data.len();
        let mut mul: Self = Self::new(l_len - 1 + (r_len - 1));
        let mut i: usize = 0;
        while i < l_len
            invariant
                i <= l_len,
                l_len == p.len(),
                r_len == q.len(),
                r_len >= 1,
                self.data@ == p,
                rhs.data@ == q,
                mul.data@.len() == p.len() + q.len() - 1,
                p.len() + q.len() - 1 <= usize::MAX,
                forall|k: int|
                    0 <= k < mul.data@.len() ==> mul.data@[k] == product_coefficient(
                        p,
                        q,
                        k,
                        i as nat,
                    ),
            decreases l_len - i,
        {
            let mut j: usize = 0;
            while j < r_len
                invariant
                    i < l_len,
                    j <= r_len,
                    l_len == p.len(),
                    r_len == q.len(),
                    self.data@ == p,
                    rhs.data@ == q,
                    mul.data@.len() == p.len() + q.len() - 1,
                    p.len() + q.len() - 1 <= usize::MAX,
                    forall|k: int|
                        0 <= k < mul.data@.len() ==> mul.data@[k] == if i <= k < i + j {
                            product_coefficient(p, q, k, (i + 1) as nat)
                        } else {
                            product_coefficient(p, q, k, i as nat)
                        },
                decreases r_len - j,
            {
                let c = mul.data[i + j].plus(self.data[i].times(rhs.data[j]));
                mul.data.set(i + j, c);
                j = j + 1;
            }
            i = i + 1;
        }
        self.data = mul.data;
        assert(self.data@ =~= multiplied(p, q));
    }
}

/// A polynomial is a callable: its value at `x` is what `calculate_at` sums.
impl<S: Scalar> FuncType<S> for Polynomial<S> {
    open spec fn value(&self, x: S) -> S {
        evaluated(self@, x, self@.len())
    }

    fn evaluate(&self, x: S) -> (y: S) {
        self.calculate_at(x)
    }
}

/// In every arithmetic the degree of a product is the sum of the degrees.
pub proof fn lemma_product_degree<S: Scalar>(p: Seq<S>, q: Seq<S>)
    requires
        p.len() >= 1,
        q.len() >= 1,
    ensures
        multiplied(p, q).len() - 1 == (p.len() - 1) + (q.len() - 1),
{
}

/// In every arithmetic a sum, and a sum less its second operand, have the
/// larger of the two degrees.
pub proof fn lemma_sum_degree<S: Scalar>(p: Seq<S>, q: Seq<S>)
    ensures
        added(p, q).len() == if p.len() > q.len() {
            p.len()
        } else {
            q.len()
        },
        subtracted(added(p, q), q).len() == added(p, q).len(),
{
}

/// In an exact arithmetic, addition of polynomials commutes.
pub proof fn lemma_add_commutes<S: ExactScalar>(p: Seq<S>, q: Seq<S>)
    ensures
        added(p, q) == added(q, p),
{
    assert forall|i: int| 0 <= i < added(p, q).len() implies added(p, q)[i] == added(q, p)[i] by {
        if i < p.len() && i < q.len() {
            S::lemma_sum_commutes(p[i], q[i]);
        }
    }
    assert(added(p, q) =~= added(q, p));
}

/// In an exact arithmetic, `(p + q) - q` is `p`, coefficient by coefficient;
/// where `q` is the longer one, what lies beyond `p` is zero.
pub proof fn lemma_add_then_subtract<S: ExactScalar>(p: Seq<S>, q: Seq<S>)
    ensures
        subtracted(added(p, q), q).len() == if p.len() > q.len() {
            p.len()
        } else {
            q.len()
        },
        forall|i: int| 0 <= i < p.len() ==> (#[trigger] subtracted(added(p, q), q)[i]) == p[i],
        forall|i: int|
            p.len() <= i < q.len() ==> (#[trigger] subtracted(added(p, q), q)[i])
                == S::zero_value(),
{
    let s = added(p, q);
    let n = negated(q);
    assert forall|i: int| 0 <= i < s.len() implies (i < p.len() ==> (#[trigger] subtracted(s, q)[i])
        == p[i]) && (p.len() <= i ==> subtracted(s, q)[i] == S::zero_value()) by {
        if i < q.len() {
            assert(n[i] == q[i].product(S::of_int(-1)));
            if i < p.len() {
                S::lemma_sum_commutes(p[i], q[i]);
                S::lemma_sum_cancels(p[i], q[i]);
                S::lemma_sum_commutes(s[i], n[i]);
            } else {
                S::lemma_sum_cancels(q[i], q[i]);
                S::lemma_sum_commutes(q[i], n[i]);
            }
        }
    }
}

/// In an exact arithmetic, coefficient `k` of `p * [1]` is `p[k]` once the
/// first `k + 1` coefficients of `p` have contributed, and zero before.
proof fn lemma_unit_coefficient<S: ExactScalar>(p: Seq<S>, k: int, m: nat)
    requires
        0 <= k < p.len(),
        m <= p.len(),
    ensures
        product_coefficient(p, seq![S::one_value()], k, m) == if k < m {
            p[k]
        } else {
            S::zero_value()
        },
    decreases m,
{
    if m > 0 {
        lemma_unit_coefficient(p, k, (m - 1) as nat);
        if k == m - 1 {
            assert(seq![S::one_value()][k - (m - 1)] == S::one_value());
            S::lemma_unit(p[k]);
        }
    }
}

/// In an exact arithmetic, `p * [1]` is `p`.
pub proof fn lemma_multiply_by_one<S: ExactScalar>(p: Seq<S>)
    requires
        p.len() >= 1,
    ensures
        multiplied(p, seq![S::one_value()]) == p,
{
    assert forall|k: int| 0 <= k < p.len() implies (#[trigger] multiplied(
        p,
        seq![S::one_value()],
    )[k]) == p[k] by {
        lemma_unit_coefficient(p, k, p.len());
    }
    assert(multiplied(p, seq![S::one_value()]) =~= p);
}

} // verus!
