//! Approximation of a scalar function sampled at uniformly spaced nodes:
//! finite-difference interpolation and Lagrange polynomials, stated over an
//! abstract scalar arithmetic.

pub mod error;
pub mod factorial;
pub mod finite_difference;
pub mod function;
pub mod interpolation;
pub mod lagrange;
pub mod polynomials;
pub mod scalar;
