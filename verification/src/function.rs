//! A scalar function together with the interval on which it is sampled.

use crate::scalar::Scalar;
use std::rc::Rc;
use vstd::prelude::*;

verus! {

/// A callable from scalars to scalars. What it returns is a function of its
/// argument alone.
pub trait FuncType<S: Scalar> {
    /// The value at `x`. An implementation states it by giving this
    /// function its body.
    open spec fn value(&self, x: S) -> S {
        arbitrary()
    }

    /// Computes the value at `x`.
    fn evaluate(&self, x: S) -> (y: S)
        ensures
            y == self.value(x),
    ;
}

/// The half-open interval `[start, end)`.
#[derive(Clone, Copy, Debug, PartialEq)]
pub struct Domain<S: Scalar> {
    pub start: S,
    pub end: S,
}

impl<S: Scalar> Domain<S> {
    /// The lower bound lies below the upper one.
    pub open spec fn wf(&self) -> bool {
        self.start.below(self.end)
    }

    /// Tests whether the lower bound lies below the upper one.
    pub fn is_wf(&self) -> (r: bool)
        ensures
            r == self.wf(),
    {
        self.start.lt(self.end)
    }

    /// Membership: `start <= x < end`, the upper bound excluded.
    pub open spec fn holds(&self, x: S) -> bool {
        self.start.at_most(x) && x.below(self.end)
    }

    /// Tests whether `x` lies in the interval.
    pub fn contains(&self, x: S) -> (r: bool)
        ensures
            r == self.holds(x),
    {
        self.start.le(x) && x.lt(self.end)
    }
}

/// A shared callable paired with its domain.
#[derive(Clone, Debug, PartialEq)]
pub struct Function<S: Scalar, Func: FuncType<S>> {
    func: Rc<Func>,
    domain: Domain<S>,
}

impl<S: Scalar, Func: FuncType<S>> Function<S, Func> {
    /// The wrapped callable.
    pub closed spec fn callable(&self) -> Func {
        *self.func
    }

    /// The interval the function is sampled on.
    pub closed spec fn interval(&self) -> Domain<S> {
        self.domain
    }

    /// The value of the wrapped callable at `x`.
    pub open spec fn value(&self, x: S) -> S {
        self.callable().value(x)
    }

    /// The domain's lower bound lies below its upper bound.
    pub open spec fn wf(&self) -> bool {
        self.interval().wf()
    }

    /// Pairs `func` with `domain`.
    pub fn new(func: Rc<Func>, domain: Domain<S>) -> (r: Self)
        requires
            domain.wf(),
        ensures
            r.wf(),
            r.callable() == *func,
            r.interval() == domain,
    {
        Function { func, domain }
    }

    /// The domain.
    pub fn domain(&self) -> (r: &Domain<S>)
        ensures
            *r == self.interval(),
    {
        &self.domain
    }

    /// The domain's two bounds.
    pub fn domain_tuple(&self) -> (r: (S, S))
        ensures
            r.0 == self.interval().start,
            r.1 == self.interval().end,
    {
        (self.domain.start, self.domain.end)
    }

    /// Another handle on the wrapped callable.
    pub fn function(&self) -> (r: Rc<Func>)
        ensures
            *r == self.callable(),
    {
        Rc::clone(&self.func)
    }

    /// Evaluates the wrapped callable at `x`, inside the domain or not.
    pub fn call(&self, x: S) -> (y: S)
        ensures
            y == self.value(x),
    {
        self.func.evaluate(x)
    }
}

} // verus!
