//! The options with which a game is started.

use vstd::prelude::*;

verus! {

/// What a host chooses for a new game.
#[derive(Debug, Clone, Copy, Eq, PartialEq, Hash)]
pub struct BoardOptions {
    /// The number of columns and the number of rows.
    pub map_size: (u16, u16),
    /// The number of mines.
    pub mine_count: u16,
    /// Whether a cell is named for an opening reveal: one that has no mine
    /// around it, if the board has such a cell.
    pub safe_start: bool,
}

impl Default for BoardOptions {
    /// Fifteen columns and rows, thirty mines, no opening reveal.
    fn default() -> (r: Self)
        ensures
            r == (BoardOptions { map_size: (15u16, 15u16), mine_count: 30, safe_start: false }),
    {
        BoardOptions { map_size: (15, 15), mine_count: 30, safe_start: false }
    }
}

} // verus!
