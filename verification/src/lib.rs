//! Gate-arithmetization backend for a circuit compiler over a prime field.
//!
//! The crate models circuit variables (compile-time constants and
//! runtime cells), an append-only table of polynomial gates, lazy
//! witness computation with memoization, and the builders for the
//! standard-library operations: a Poseidon-style sponge permutation
//! and an equality assertion.

pub mod ast;
pub mod constants;
pub mod error;
pub mod field;
pub mod stdlib;
pub mod witness;

pub use field::FieldElem;
