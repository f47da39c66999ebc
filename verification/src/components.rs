//! Markers that a host attaches to what it draws for a cell.

use crate::tile::Tile;
use vstd::prelude::*;

verus! {

/// Marks a cell that holds a mine.
#[derive(Debug, Copy, Clone)]
pub struct Bomb;

/// Marks a safe cell that has mines around it.
#[derive(Debug, Copy, Clone, Ord, PartialOrd, Eq, PartialEq, Hash)]
pub struct BombNeighbor {
    /// The number of mines around the cell.
    pub count: u8,
}

/// Marks a covered cell that is to be uncovered.
#[derive(Debug, Copy, Clone, Ord, PartialOrd, Eq, PartialEq, Hash)]
pub struct Uncover {}

/// Marks a cell whose cover is being taken off.
#[derive(Debug, Copy, Clone)]
pub struct Uncovering {
    /// The ticks that the animation still has to run.
    pub remaining_ticks: u8,
}

impl Tile {
    /// The marker for a cell with this tile if it holds a mine.
    pub fn bomb(&self) -> (r: Option<Bomb>)
        ensures
            r is Some <==> *self is Mine,
    {
        match self {
            Tile::Mine => Some(Bomb),
            _ => None,
        }
    }

    /// The marker for a cell with this tile if it shows a number.
    pub fn bomb_neighbor(&self) -> (r: Option<BombNeighbor>)
        ensures
            match *self {
                Tile::Adjacent(count) => r.is_some() && r.unwrap().count == count,
                _ => r.is_none(),
            },
    {
        match self {
            Tile::Adjacent(count) => Some(BombNeighbor { count: *count }),
            _ => None,
        }
    }
}

} // verus!
