//! The ways in which a request to the engine can be rejected.

use vstd::prelude::*;

verus! {

/// Why the engine rejected a request. None of these is fatal: the caller
/// may try again with another input.
#[derive(Debug, Copy, Clone, Eq, PartialEq, Hash, Structural)]
pub enum BoardError {
    /// A board was asked for with a side of zero cells or with more mines than cells.
    InvalidConfiguration,
    /// A coordinate names no cell of the board.
    OutOfBounds,
    /// A flag was asked for on a cell that is already revealed.
    NotCovered,
}

} // verus!
