//! Shape checking and Lie-closure bookkeeping for simulating parameterized
//! circuits inside their dynamical Lie algebra.
//!
//! The numeric work (commutators, orthogonalization, matrix exponentials) is
//! done on complex matrices by the caller; this crate decides what is computed
//! next, and which inputs are rejected.
pub mod error;
pub mod shape;
pub mod circuit;
pub mod closure;
