//! A factorial table that is filled on demand.

use crate::error::Error;
use crate::scalar::Scalar;
use vstd::prelude::*;

verus! {

/// The number of entries of a factorial table.
pub const N_MAX: usize = 102;

/// `n!` in the scalar arithmetic: 1 for `n = 0`, else `(n-1)! * n`.
pub open spec fn factorial<S: Scalar>(n: nat) -> S
    decreases n,
{
    if n == 0 {
        S::one_value()
    } else {
        factorial::<S>((n - 1) as nat).product(S::of_int(n as int))
    }
}

/// `0! = 1`, and `n! = (n-1)! * n` from 1 on.
pub proof fn lemma_factorial_recurrence<S: Scalar>(n: nat)
    ensures
        factorial::<S>(0) == S::one_value(),
        n >= 1 ==> factorial::<S>(n) == factorial::<S>((n - 1) as nat).product(S::of_int(n as int)),
{
}

/// Factorials of `0 .. N_MAX`, each computed once.
#[derive(Debug)]
pub struct Fact<S: Scalar> {
    cache: Vec<Option<S>>,
}

impl<S: Scalar> Fact<S> {
    /// The entry for `n`, if it has been computed.
    pub closed spec fn entry(&self, n: int) -> Option<S> {
        if 0 <= n < self.cache@.len() {
            self.cache@[n]
        } else {
            None
        }
    }

    /// The table has its full size, entry 0 is present, every entry that is
    /// present holds the factorial of its index, and so do all entries below
    /// it.
    pub closed spec fn wf(&self) -> bool {
        &&& self.cache@.len() == N_MAX
        &&& self.cache@[0] == Some(S::one_value())
        &&& forall|i: int, j: int|
            0 <= i <= j < N_MAX && (#[trigger] self.cache@[j]) is Some
                ==> (#[trigger] self.cache@[i]) is Some
        &&& forall|i: int|
            0 <= i < N_MAX ==> (#[trigger] self.cache@[i]) == None::<S> || self.cache@[i] == Some(
                factorial::<S>(i as nat),
            )
    }

    /// In a well-formed table entry 0 is present, and an entry that is
    /// present holds the factorial of its index.
    pub proof fn lemma_entries_are_factorials(&self, i: int)
        requires
            self.wf(),
        ensures
            self.entry(0) == Some(S::one_value()),
            self.entry(i) is Some ==> 0 <= i < N_MAX && self.entry(i) == Some(
                factorial::<S>(i as nat),
            ),
    {
        if 0 <= i < N_MAX {
            assert(self.cache@[i] == None::<S> || self.cache@[i] == Some(factorial::<S>(i as nat)));
        }
    }

    /// A table that holds `0! = 1` and nothing else.
    pub fn new() -> (r: Self)
        ensures
            r.wf(),
            r.entry(0) == Some(S::one_value()),
            forall|i: int| i != 0 ==> r.entry(i) == None::<S>,
    {
        let mut cache: Vec<Option<S>> = Vec::new();
        cache.push(Some(S::one()));
        let mut i: usize = 1;
        while i < N_MAX
            invariant
                1 <= i <= N_MAX,
                cache@.len() == i,
                cache@[0] == Some(S::one_value()),
                forall|k: int| 1 <= k < i ==> cache@[k] == None::<S>,
            decreases N_MAX - i,
        {
            cache.push(None);
            i = i + 1;
        }
        Fact { cache }
    }

    /// `n!` for an `n` within the table, computed from the nearest entry below
    /// that is present, and kept.
    fn lookup(&mut self, n: usize) -> (r: S)
        requires
            old(self).wf(),
            n < N_MAX,
        ensures
            final(self).wf(),
            r == factorial::<S>(n as nat),
            forall|i: int| 0 <= i <= n ==> final(self).entry(i) == Some(factorial::<S>(i as nat)),
            forall|i: int| old(self).entry(i) is Some ==> final(self).entry(i) == old(self).entry(i),
            forall|i: int| i > n ==> final(self).entry(i) == old(self).entry(i),
        decreases n,
    {
        let at_n = self.cache[n];
        match at_n {
            Some(res) => {
                assert forall|i: int| 0 <= i <= n implies self.entry(i) == Some(
                    factorial::<S>(i as nat),
                ) by {
                    assert(self.cache@[n as int] is Some);
                    assert(self.cache@[i] is Some);
                }
                res
            },
            None => {
                let ghost before = self.cache@;
                let below = self.lookup(n - 1);
                let res = below.times(S::from_i64(n as i64));
                let ghost filled = self.cache@;
                assert forall|j: int| n < j < N_MAX implies filled[j] == None::<S> by {
                    assert(self.entry(j) == old(self).entry(j));
                    if before[j] is Some {
                        assert(before[n as int] is Some);
                    }
                }
                assert forall|i: int| 0 <= i < n implies filled[i] == Some(
                    factorial::<S>(i as nat),
                ) by {
                    assert(self.entry(i) == Some(factorial::<S>(i as nat)));
                }
                self.cache.set(n, Some(res));
                assert forall|i: int, j: int|
                    0 <= i <= j < N_MAX && (#[trigger] self.cache@[j]) is Some
                    implies (#[trigger] self.cache@[i]) is Some by {
                    if j > n {
                        assert(filled[j] == None::<S>);
                    } else if i < n {
                        assert(filled[i] is Some);
                    }
                }
                assert forall|i: int| old(self).entry(i) is Some implies self.entry(i) == old(
                    self,
                ).entry(i) by {
                    if 0 <= i < N_MAX && i != n {
                        assert(self.cache@[i] == filled[i]);
                    }
                }
                res
            },
        }
    }

    /// `n!`, kept in the table once computed, with the factorials below it;
    /// what the table held stays, and the entries above `n` are not touched.
    /// Fails for `n >= N_MAX` and then leaves the table as it was.
    pub fn fact(&mut self, n: usize) -> (r: Result<S, Error>)
        requires
            old(self).wf(),
        ensures
            final(self).wf(),
            n < N_MAX ==> r == Ok::<S, Error>(factorial::<S>(n as nat)),
            n >= N_MAX ==> r == Err::<S, Error>(Error::IndexOutOfRange) && *final(self) == *old(
                self,
            ),
            n < N_MAX ==> forall|i: int|
                0 <= i <= n ==> final(self).entry(i) == Some(factorial::<S>(i as nat)),
            forall|i: int| old(self).entry(i) is Some ==> final(self).entry(i) == old(self).entry(i),
            forall|i: int| i > n ==> final(self).entry(i) == old(self).entry(i),
    {
        if n >= N_MAX {
            Err(Error::IndexOutOfRange)
        } else {
            Ok(self.lookup(n))
        }
    }

    /// The entry for `index`, without computing anything.
    pub fn index(&self, index: usize) -> (r: Option<S>)
        requires
            index < N_MAX,
            self.wf(),
        ensures
            r == self.entry(index as int),
    {
        self.cache[index]
    }
}

} // verus!
