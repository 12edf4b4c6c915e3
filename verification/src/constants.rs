//! Fixed parameters of the constraint system, and source spans.

use vstd::prelude::*;

verus! {

/// Width of each gate row: how many variable slots a row wires.
pub const NUM_REGISTERS: usize = 15;

/// Width of the sponge state of the permutation.
pub const SPONGE_WIDTH: usize = 3;

/// How many permutation gate rows one hash takes.
pub const ROWS: usize = 11;

/// How many full rounds one permutation gate row covers.
pub const ROUNDS_PER_ROW: usize = 5;

/// Total number of full rounds of the permutation.
pub const TOTAL_ROUNDS: usize = 55;

/// A region of source text, carried for error reporting.
#[derive(Clone, Copy, PartialEq, Eq, Structural, Debug)]
pub struct Span {
    pub start: usize,
    pub len: usize,
}

} // verus!
