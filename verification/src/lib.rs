//! Algebra of square matrices over the two-element field GF(2), and the
//! multiplicative order of an invertible matrix: the smallest exponent at
//! which repeated self-multiplication reaches the identity matrix.

pub mod field;
pub mod laws;
pub mod matrix;
pub mod order;
