//! Exact fractions over 32-bit integers, kept in lowest terms, and the data
//! model of small arithmetic expression trees.

pub mod decimal;
pub mod expression;
pub mod gcd;
pub mod laws;
pub mod fraction;
pub mod rational;
