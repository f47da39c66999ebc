//! What a move changed.

use crate::coordinates::Coordinates;
use vstd::prelude::*;

verus! {

/// The result of a reveal. Each variant lists the cells that the reveal
/// uncovered, in the order in which it reached them.
#[derive(Debug, Clone, PartialEq, Eq)]
pub enum RevealOutcome {
    /// The game goes on.
    Revealed(Vec<Coordinates>),
    /// The reveal set off the mine at the named cell: the game is lost.
    Loss(Coordinates, Vec<Coordinates>),
    /// The reveal left only as many cells covered as there are mines: the game is won.
    Win(Vec<Coordinates>),
}

impl RevealOutcome {
    /// The cells that the reveal uncovered.
    pub open spec fn cells(self) -> Seq<Coordinates> {
        match self {
            RevealOutcome::Revealed(cells) => cells@,
            RevealOutcome::Loss(_, cells) => cells@,
            RevealOutcome::Win(cells) => cells@,
        }
    }

    /// The cells that the reveal uncovered.
    pub fn uncovered(&self) -> (r: &Vec<Coordinates>)
        ensures
            r@ == self.cells(),
    {
        match self {
            RevealOutcome::Revealed(cells) => cells,
            RevealOutcome::Loss(_, cells) => cells,
            RevealOutcome::Win(cells) => cells,
        }
    }

    /// Whether the reveal ended the game, by a loss or by a win.
    pub fn is_terminal(&self) -> (r: bool)
        ensures
            r == (*self is Loss || *self is Win),
    {
        match self {
            RevealOutcome::Revealed(_) => false,
            _ => true,
        }
    }
}

/// The result of toggling a flag: the new state of the cell.
#[derive(Debug, Copy, Clone, PartialEq, Eq, Hash, Structural)]
pub enum FlagOutcome {
    /// The cell now carries a flag.
    Flagged(Coordinates),
    /// The cell no longer carries a flag.
    Unflagged(Coordinates),
}

impl FlagOutcome {
    /// The cell whose flag was toggled.
    pub open spec fn spec_coordinates(self) -> Coordinates {
        match self {
            FlagOutcome::Flagged(c) => c,
            FlagOutcome::Unflagged(c) => c,
        }
    }

    /// The cell whose flag was toggled.
    pub fn coordinates(&self) -> (r: Coordinates)
        ensures
            r == self.spec_coordinates(),
    {
        match self {
            FlagOutcome::Flagged(c) => *c,
            FlagOutcome::Unflagged(c) => *c,
        }
    }
}

} // verus!
