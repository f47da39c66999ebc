//! The mathematical model of a game in progress and of the moves on it.

use crate::coordinates::Coordinates;
use crate::grid::GridView;
use crate::tile::Tile;
use vstd::prelude::*;

verus! {

/// A move of the player.
pub enum Move {
    /// Reveal the cell.
    Reveal(Coordinates),
    /// Toggle the flag of the cell.
    ToggleFlag(Coordinates),
}

/// The state of a game: the minefield, the cells that are still covered and
/// the covered cells that carry a flag.
pub struct BoardView {
    pub grid: GridView,
    pub covered: Set<Coordinates>,
    pub flagged: Set<Coordinates>,
}

impl BoardView {
    /// The minefield is well-formed, only cells of the board are covered and
    /// only covered cells are flagged.
    pub open spec fn wf(self) -> bool {
        &&& self.grid.wf()
        &&& self.covered.subset_of(self.grid.cells())
        &&& self.flagged.subset_of(self.covered)
    }

    /// The state at the start of a game on `grid`: every cell covered, none flagged.
    pub open spec fn initial(grid: GridView) -> BoardView {
        BoardView { grid, covered: grid.cells(), flagged: Set::empty() }
    }

    /// The number of cells that are still covered.
    pub open spec fn covered_count(self) -> nat {
        self.covered.len()
    }

    /// The game is won when as many cells are covered as there are mines.
    pub open spec fn is_won(self) -> bool {
        self.covered_count() == self.grid.mine_count()
    }

    /// A cell that a reveal may uncover: covered and not flagged.
    pub open spec fn is_revealable(self, c: Coordinates) -> bool {
        self.covered.contains(c) && !self.flagged.contains(c)
    }

    /// A reveal passes from `a` on to `b`: `a` shows no mine around it, `b`
    /// touches `a`, and both may be uncovered.
    pub open spec fn spreads(self, a: Coordinates, b: Coordinates) -> bool {
        &&& self.is_revealable(a)
        &&& self.grid.tile(a) is Empty
        &&& a.is_adjacent(b)
        &&& self.is_revealable(b)
    }

    /// A reveal passes from the cell at position `i` of `path` on to the next one.
    pub open spec fn links(self, path: Seq<Coordinates>, i: int) -> bool {
        self.spreads(path[i], path[i + 1])
    }

    /// `path` is a way along which a reveal travels: it starts at a cell that
    /// may be uncovered and passes on from each cell to the next.
    pub open spec fn is_flood_path(self, path: Seq<Coordinates>) -> bool {
        &&& path.len() > 0
        &&& self.is_revealable(path[0])
        &&& forall|i: int| 0 <= i < path.len() - 1 ==> #[trigger] self.links(path, i)
    }

    /// `path` is a way of a reveal from `start` to `c`.
    pub open spec fn reaches(
        self,
        start: Coordinates,
        c: Coordinates,
        path: Seq<Coordinates>,
    ) -> bool {
        &&& self.is_flood_path(path)
        &&& path[0] == start
        &&& path[path.len() - 1] == c
    }

    /// The cells that a reveal at `start` uncovers: those to which a way of
    /// the reveal leads from `start`. It is empty if `start` is flagged or
    /// already uncovered.
    pub open spec fn flood_region(self, start: Coordinates) -> Set<Coordinates> {
        Set::new(
            |c: Coordinates| exists|path: Seq<Coordinates>| #[trigger] self.reaches(start, c, path),
        )
    }

    /// `found` followed by those cells of `neighbors` that may be uncovered
    /// and are not listed yet, in the order of `neighbors`.
    pub open spec fn handed_on(
        self,
        found: Seq<Coordinates>,
        neighbors: Seq<Coordinates>,
    ) -> Seq<Coordinates>
        decreases neighbors.len(),
    {
        if neighbors.len() == 0 {
            found
        } else {
            let before = self.handed_on(found, neighbors.drop_last());
            let d = neighbors.last();
            if self.is_revealable(d) && !before.contains(d) {
                before.push(d)
            } else {
                before
            }
        }
    }

    /// The list `found` after the cell at position `head` has handed the
    /// reveal on: a cell that shows no mine around it hands it on to its
    /// neighbours, any other cell to none.
    pub open spec fn flood_step(self, found: Seq<Coordinates>, head: int) -> Seq<Coordinates> {
        if self.grid.tile(found[head]) is Empty {
            self.handed_on(found, self.grid.neighbors(found[head]))
        } else {
            found
        }
    }

    /// The list `found` after the cells from position `head` on have handed
    /// the reveal on, one after the other, for at most `rounds` cells.
    pub open spec fn flood_from(self, found: Seq<Coordinates>, head: int, rounds: nat) -> Seq<
        Coordinates,
    >
        decreases rounds,
    {
        if rounds == 0 || head >= found.len() {
            found
        } else {
            self.flood_from(self.flood_step(found, head), head + 1, (rounds - 1) as nat)
        }
    }

    /// The cells that a reveal at `start` uncovers, in the order in which it
    /// reaches them: `start` first, then breadth first, the neighbours of
    /// each cell in the order in which the minefield lists them.
    pub open spec fn flood_order(self, start: Coordinates) -> Seq<Coordinates> {
        if self.is_revealable(start) {
            self.flood_from(seq![start], 0, self.covered.len())
        } else {
            Seq::empty()
        }
    }

    /// The state after a reveal at `start`.
    pub open spec fn after_reveal(self, start: Coordinates) -> BoardView {
        BoardView {
            grid: self.grid,
            covered: self.covered.difference(self.flood_region(start)),
            flagged: self.flagged,
        }
    }

    /// A reveal at `start` sets off a mine.
    pub open spec fn detonates(self, start: Coordinates) -> bool {
        self.is_revealable(start) && self.grid.tile(start) is Mine
    }

    /// A reveal at `start` wins the game: it uncovers something, sets off no
    /// mine and leaves only as many cells covered as there are mines.
    pub open spec fn wins_by(self, start: Coordinates) -> bool {
        &&& self.is_revealable(start)
        &&& !self.detonates(start)
        &&& self.after_reveal(start).is_won()
    }

    /// The state after the flag on `c` is toggled. A cell that is not
    /// covered takes no flag.
    pub open spec fn after_toggle(self, c: Coordinates) -> BoardView {
        if !self.covered.contains(c) {
            self
        } else if self.flagged.contains(c) {
            BoardView { grid: self.grid, covered: self.covered, flagged: self.flagged.remove(c) }
        } else {
            BoardView { grid: self.grid, covered: self.covered, flagged: self.flagged.insert(c) }
        }
    }

    /// The state after one move.
    pub open spec fn after_move(self, m: Move) -> BoardView {
        match m {
            Move::Reveal(c) => self.after_reveal(c),
            Move::ToggleFlag(c) => self.after_toggle(c),
        }
    }

    /// The state after the moves of `moves`, one after the other.
    pub open spec fn after_moves(self, moves: Seq<Move>) -> BoardView
        decreases moves.len(),
    {
        if moves.len() == 0 {
            self
        } else {
            self.after_moves(moves.drop_last()).after_move(moves.last())
        }
    }

    /// The state after the single cell `c` is uncovered; a flag on it goes first.
    pub open spec fn after_uncover(self, c: Coordinates) -> BoardView {
        BoardView {
            grid: self.grid,
            covered: self.covered.remove(c),
            flagged: self.flagged.remove(c),
        }
    }

    /// Every cell listed in `found` before position `upto` has handed the
    /// reveal on: each cell that it passes on to is listed too.
    pub open spec fn is_closed_upto(self, found: Seq<Coordinates>, upto: int) -> bool {
        forall|i: int, d: Coordinates|
            0 <= i < upto && #[trigger] self.spreads(found[i], d) ==> found.contains(d)
    }
}

} // verus!
