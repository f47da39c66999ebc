//! The classification of a single cell.

use vstd::prelude::*;

verus! {

/// What a cell holds. It is fixed when the minefield is generated.
#[derive(Debug, Copy, Clone, Eq, PartialEq, Hash, Structural)]
pub enum Tile {
    /// A mine: revealing it ends the game.
    Mine,
    /// A safe cell with no mine among its neighbours.
    Empty,
    /// A safe cell with this many mines among its up to eight neighbours.
    Adjacent(u8),
}

impl Tile {
    /// The classification of a safe cell that has `count` mines around it.
    pub open spec fn spec_for_count(count: nat) -> Tile {
        if count == 0 {
            Tile::Empty
        } else {
            Tile::Adjacent(count as u8)
        }
    }

    /// The classification of a safe cell that has `count` mines around it.
    pub fn for_count(count: u8) -> (r: Tile)
        ensures
            r == Tile::spec_for_count(count as nat),
    {
        if count == 0 {
            Tile::Empty
        } else {
            Tile::Adjacent(count)
        }
    }

    /// Whether the cell holds a mine.
    pub fn is_mine(&self) -> (r: bool)
        ensures
            r == (*self is Mine),
    {
        match self {
            Tile::Mine => true,
            _ => false,
        }
    }

    /// Whether the cell is safe and has no mine around it.
    pub fn is_empty(&self) -> (r: bool)
        ensures
            r == (*self is Empty),
    {
        match self {
            Tile::Empty => true,
            _ => false,
        }
    }

    /// The number of mines around the cell: zero for an empty cell, nothing for a mine.
    pub open spec fn spec_mines_around(self) -> Option<u8> {
        match self {
            Tile::Mine => None,
            Tile::Empty => Some(0u8),
            Tile::Adjacent(n) => Some(n),
        }
    }

    /// The number of mines around the cell: zero for an empty cell, nothing for a mine.
    pub fn mines_around(&self) -> (r: Option<u8>)
        ensures
            r == self.spec_mines_around(),
    {
        match self {
            Tile::Mine => None,
            Tile::Empty => Some(0),
            Tile::Adjacent(n) => Some(*n),
        }
    }
}

} // verus!
