//! Errors, split into user-facing failures and internal invariant
//! violations.
//!
//! A bad `use std::...` statement is the user's: it comes back as
//! `ErrorKind::StdImport`. An arity or shape violation in a builtin
//! means the front end's type checker let something through: it is an
//! `ErrorKind::InternalFault`, fatal to the build, and never expected
//! to surface to a user.

use vstd::prelude::*;
use crate::constants::Span;

verus! {

/// What went wrong in a `use std::...` import.
#[derive(Clone, Copy, PartialEq, Eq, Structural, Debug)]
pub enum StdImportError {
    /// the path ends right after `std`
    NoModuleName,
    /// the module is not in the standard library's catalogue
    UnknownModule,
}

/// An internal invariant the front end should have enforced.
#[derive(Clone, Copy, PartialEq, Eq, Structural, Debug)]
pub enum Fault {
    /// a builtin was handed the wrong number of operands
    WrongArity,
    /// a builtin needed a circuit value and got a constant
    NotCircuitVar,
    /// a builtin needed a scalar and got a composite value
    NotScalar,
    /// two compile-time constants asserted equal are not
    ConstantMismatch,
}

/// The kind of a failure.
#[derive(Clone, Copy, PartialEq, Eq, Structural, Debug)]
pub enum ErrorKind {
    /// user-facing: a bad standard-library import
    StdImport(StdImportError),
    /// fatal: an internal invariant violation
    InternalFault(Fault),
    /// witness generation: an input value the environment does not hold
    MissingInput,
}

/// A failure, with the source region it points at.
#[derive(Clone, Copy, PartialEq, Eq, Structural, Debug)]
pub struct Error {
    pub kind: ErrorKind,
    pub span: Span,
}

} // verus!
