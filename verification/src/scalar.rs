//! The arithmetic that the kernel computes with.
//!
//! Every contract of this crate is stated over the operations of a `Scalar`,
//! applied in the order in which the code applies them. Nothing is assumed of
//! the operations themselves (neither associativity nor exactness), so what is
//! proved holds of rounding arithmetic as it holds of exact arithmetic.

use vstd::prelude::*;

verus! {

/// A number type with the operations the kernel needs. Each executable
/// operation returns exactly what its specification function names.
///
/// An implementation states what its operations compute by giving the
/// specification functions their bodies, as the one for `i64` below does, and
/// is then held to them. The bodies that stand here name one fixed value for
/// every operation, which no arithmetic meets: an implementation that keeps
/// them can only be written where nothing is verified, and nothing that this
/// crate proves is a claim about it. For such an implementation the contracts
/// of the kernel are a description of which operations are applied, to what,
/// and in which order.
pub trait Scalar: Copy {
    /// The additive identity.
    open spec fn zero_value() -> Self {
        arbitrary()
    }

    /// The multiplicative identity.
    open spec fn one_value() -> Self {
        arbitrary()
    }

    /// The scalar that stands for the integer `i`.
    open spec fn of_int(i: int) -> Self {
        arbitrary()
    }

    /// `self + rhs`.
    open spec fn sum(self, rhs: Self) -> Self {
        arbitrary()
    }

    /// `self - rhs`.
    open spec fn difference(self, rhs: Self) -> Self {
        arbitrary()
    }

    /// `self * rhs`.
    open spec fn product(self, rhs: Self) -> Self {
        arbitrary()
    }

    /// `self / rhs`.
    open spec fn quotient(self, rhs: Self) -> Self {
        arbitrary()
    }

    /// `self` raised to the power `n`.
    open spec fn power(self, n: nat) -> Self {
        arbitrary()
    }

    /// `-self`.
    open spec fn opposite(self) -> Self {
        arbitrary()
    }

    /// `|self|`.
    open spec fn magnitude(self) -> Self {
        arbitrary()
    }

    /// The larger of `self` and `rhs`.
    open spec fn maximum(self, rhs: Self) -> Self {
        arbitrary()
    }

    /// `self <= rhs`.
    open spec fn at_most(self, rhs: Self) -> bool {
        arbitrary()
    }

    /// `self < rhs`.
    open spec fn below(self, rhs: Self) -> bool {
        arbitrary()
    }

    /// The index nearest to `self`, halves rounded away from zero, and 0 for
    /// what lies below every index.
    open spec fn nearest_index(self) -> usize {
        arbitrary()
    }

    /// The largest index that is not above `self`, and 0 for what lies below
    /// every index.
    open spec fn floor_index(self) -> usize {
        arbitrary()
    }

    fn zero() -> (r: Self)
        ensures
            r == Self::zero_value(),
    ;

    fn one() -> (r: Self)
        ensures
            r == Self::one_value(),
    ;

    fn from_i64(i: i64) -> (r: Self)
        ensures
            r == Self::of_int(i as int),
    ;

    fn from_usize(i: usize) -> (r: Self)
        ensures
            r == Self::of_int(i as int),
    ;

    fn negate(self) -> (r: Self)
        ensures
            r == self.opposite(),
    ;

    fn plus(self, rhs: Self) -> (r: Self)
        ensures
            r == self.sum(rhs),
    ;

    fn minus(self, rhs: Self) -> (r: Self)
        ensures
            r == self.difference(rhs),
    ;

    fn times(self, rhs: Self) -> (r: Self)
        ensures
            r == self.product(rhs),
    ;

    fn divided_by(self, rhs: Self) -> (r: Self)
        ensures
            r == self.quotient(rhs),
    ;

    fn powi(self, n: usize) -> (r: Self)
        ensures
            r == self.power(n as nat),
    ;

    fn abs(self) -> (r: Self)
        ensures
            r == self.magnitude(),
    ;

    fn larger(self, rhs: Self) -> (r: Self)
        ensures
            r == self.maximum(rhs),
    ;

    fn le(self, rhs: Self) -> (r: bool)
        ensures
            r == self.at_most(rhs),
    ;

    fn lt(self, rhs: Self) -> (r: bool)
        ensures
            r == self.below(rhs),
    ;

    fn round_to_index(self) -> (r: usize)
        ensures
            r == self.nearest_index(),
    ;

    fn floor_to_index(self) -> (r: usize)
        ensures
            r == self.floor_index(),
    ;
}

/// `base` multiplied `n` times into 1, wrapping at the width of `i64`.
pub open spec fn wrapping_power(base: i64, n: nat) -> i64
    decreases n,
{
    if n == 0 {
        1i64
    } else {
        vstd::wrapping::i64_specs::wrapping_mul(wrapping_power(base, (n - 1) as nat), base)
    }
}

/// The quotient of `i64`, rounded towards zero; 0 where the divisor is 0 or
/// an operand is the least `i64`, whose magnitude does not fit.
pub open spec fn total_quotient(a: i64, b: i64) -> i64 {
    if b == 0 || a == i64::MIN || b == i64::MIN {
        0i64
    } else if (a >= 0) == (b > 0) {
        (abs_int(a as int) / abs_int(b as int)) as i64
    } else {
        (-(abs_int(a as int) / abs_int(b as int))) as i64
    }
}

/// The absolute value of an integer.
pub open spec fn abs_int(a: int) -> int {
    if a < 0 {
        -a
    } else {
        a
    }
}

/// The integers modulo 2^64, in two's complement: an exact arithmetic.
impl Scalar for i64 {
    open spec fn zero_value() -> Self {
        0i64
    }

    open spec fn one_value() -> Self {
        1i64
    }

    open spec fn of_int(i: int) -> Self {
        i as i64
    }

    open spec fn sum(self, rhs: Self) -> Self {
        vstd::wrapping::i64_specs::wrapping_add(self, rhs)
    }

    open spec fn difference(self, rhs: Self) -> Self {
        vstd::wrapping::i64_specs::wrapping_sub(self, rhs)
    }

    open spec fn product(self, rhs: Self) -> Self {
        vstd::wrapping::i64_specs::wrapping_mul(self, rhs)
    }

    open spec fn quotient(self, rhs: Self) -> Self {
        total_quotient(self, rhs)
    }

    open spec fn power(self, n: nat) -> Self {
        wrapping_power(self, n)
    }

    open spec fn opposite(self) -> Self {
        vstd::wrapping::i64_specs::wrapping_sub(0i64, self)
    }

    open spec fn magnitude(self) -> Self {
        if self < 0 {
            vstd::wrapping::i64_specs::wrapping_sub(0i64, self)
        } else {
            self
        }
    }

    open spec fn maximum(self, rhs: Self) -> Self {
        if self >= rhs {
            self
        } else {
            rhs
        }
    }

    open spec fn at_most(self, rhs: Self) -> bool {
        self <= rhs
    }

    open spec fn below(self, rhs: Self) -> bool {
        self < rhs
    }

    open spec fn nearest_index(self) -> usize {
        if self < 0 {
            0usize
        } else {
            self as usize
        }
    }

    open spec fn floor_index(self) -> usize {
        if self < 0 {
            0usize
        } else {
            self as usize
        }
    }

    fn zero() -> (r: Self) {
        0i64
    }

    fn one() -> (r: Self) {
        1i64
    }

    fn from_i64(i: i64) -> (r: Self) {
        i
    }

    fn from_usize(i: usize) -> (r: Self) {
        #[verifier::truncate]
        (i as i64)
    }

    fn negate(self) -> (r: Self) {
        0i64.wrapping_sub(self)
    }

    fn plus(self, rhs: Self) -> (r: Self) {
        self.wrapping_add(rhs)
    }

    fn minus(self, rhs: Self) -> (r: Self) {
        self.wrapping_sub(rhs)
    }

    fn times(self, rhs: Self) -> (r: Self) {
        self.wrapping_mul(rhs)
    }

    fn divided_by(self, rhs: Self) -> (r: Self) {
        if rhs == 0 || self == i64::MIN || rhs == i64::MIN {
            0i64
        } else {
            let a: i64 = if self < 0 { -self } else { self };
            let b: i64 = if rhs < 0 { -rhs } else { rhs };
            let q: i64 = a / b;
            if (self >= 0) == (rhs > 0) {
                q
            } else {
                -q
            }
        }
    }

    fn powi(self, n: usize) -> (r: Self) {
        let mut acc: i64 = 1;
        let mut k: usize = 0;
        while k < n
            invariant
                k <= n,
                acc == wrapping_power(self, k as nat),
            decreases n - k,
        {
            acc = acc.wrapping_mul(self);
            k = k + 1;
        }
        acc
    }

    fn abs(self) -> (r: Self) {
        if self < 0 {
            0i64.wrapping_sub(self)
        } else {
            self
        }
    }

    fn larger(self, rhs: Self) -> (r: Self) {
        if self >= rhs {
            self
        } else {
            rhs
        }
    }

    fn le(self, rhs: Self) -> (r: bool) {
        self <= rhs
    }

    fn lt(self, rhs: Self) -> (r: bool) {
        self < rhs
    }

    fn round_to_index(self) -> (r: usize) {
        if self < 0 {
            0usize
        } else {
            self as usize
        }
    }

    fn floor_to_index(self) -> (r: usize) {
        if self < 0 {
            0usize
        } else {
            self as usize
        }
    }
}

/// An arithmetic without rounding, as far as the laws of polynomials need
/// it: sums commute, a number added and then taken away leaves what was
/// there, and zero and one are neutral. An implementation proves these of its
/// own operations.
pub trait ExactScalar: Scalar {
    /// `x + y` is `y + x`.
    proof fn lemma_sum_commutes(x: Self, y: Self)
        ensures
            x.sum(y) == y.sum(x),
    ;

    /// `(x + y) + y * (-1)` is `x`, and `y + y * (-1)` is zero.
    proof fn lemma_sum_cancels(x: Self, y: Self)
        ensures
            x.sum(y).sum(y.product(Self::of_int(-1))) == x,
            y.sum(y.product(Self::of_int(-1))) == Self::zero_value(),
    ;

    /// `0 + x * 1` is `x`.
    proof fn lemma_unit(x: Self)
        ensures
            Self::zero_value().sum(x.product(Self::one_value())) == x,
    ;
}

/// The integers modulo 2^64 are exact.
impl ExactScalar for i64 {
    proof fn lemma_sum_commutes(x: Self, y: Self) {
    }

    proof fn lemma_sum_cancels(x: Self, y: Self) {
    }

    proof fn lemma_unit(x: Self) {
    }
}

} // verus!
