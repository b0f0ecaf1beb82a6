//! The ways in which a request can be refused.

use vstd::prelude::*;

verus! {

/// Why an operation of the kernel gave no value.
#[derive(Clone, Copy, Debug, PartialEq, Eq, Structural)]
pub enum Error {
    /// The query point lies outside the function's domain.
    OutOfDomain,
    /// A factorial was asked for beyond the table's capacity.
    IndexOutOfRange,
    /// Fewer than two sample points were asked for.
    InsufficientPoints,
}

impl Error {
    /// The text that describes `self`.
    pub open spec fn text(self) -> Seq<char> {
        match self {
            Error::OutOfDomain => "the point lies outside the function's domain"@,
            Error::IndexOutOfRange => "the factorial lies beyond the table"@,
            Error::InsufficientPoints => "a polynomial needs at least two points"@,
        }
    }

    /// A description for a reader.
    pub fn message(&self) -> (r: &'static str)
        ensures
            r@ == self.text(),
    {
        match self {
            Error::OutOfDomain => "the point lies outside the function's domain",
            Error::IndexOutOfRange => "the factorial lies beyond the table",
            Error::InsufficientPoints => "a polynomial needs at least two points",
        }
    }
}

} // verus!
