//! A game in progress: the minefield with its covered and flagged cells,
//! and the moves that change them.

use crate::cell_set::CellSet;
use crate::coordinates::Coordinates;
use crate::error::BoardError;
use crate::grid::{sampled_mines, state_after, Grid, GridView};
use crate::options::BoardOptions;
use crate::outcome::{FlagOutcome, RevealOutcome};
use crate::random::RandomSource;
use crate::state::BoardView;
use crate::tile::Tile;
use vstd::prelude::*;
use vstd::seq_lib::lemma_seq_contains_after_push;

verus! {

/// The state in which `grid` is played with the given covered and flagged cells.
pub open spec fn state_of(grid: &Grid, covered: &CellSet, flagged: &CellSet) -> BoardView {
    BoardView { grid: grid@, covered: covered@, flagged: flagged@ }
}

/// A list stays closed up to a position when a cell is appended to it.
proof fn lemma_closed_after_push(s: BoardView, found: Seq<Coordinates>, upto: int, v: Coordinates)
    requires
        s.is_closed_upto(found, upto),
        upto <= found.len(),
    ensures
        s.is_closed_upto(found.push(v), upto),
{
    let longer = found.push(v);
    assert forall|i: int, d: Coordinates|
        0 <= i < upto && #[trigger] s.spreads(longer[i], d) implies longer.contains(d) by {
        assert(longer[i] == found[i]);
        assert(s.spreads(found[i], d));
        lemma_seq_contains_after_push(found, v, d);
    }
}

/// Uncovers the cells that a reveal at `start` reaches and lists them in the
/// order in which it reached them; tells also whether `start` holds a mine.
///
/// The list of the cells found so far is the work queue as well: a cell is
/// uncovered when it is found, so no cell enters the list twice and the
/// list never grows beyond the number of covered cells.
fn flood(grid: &Grid, covered: &mut CellSet, flagged: &CellSet, start: Coordinates) -> (r: (
    Vec<Coordinates>,
    bool,
))
    requires
        grid.wf(),
        old(covered).wf(),
        flagged.wf(),
        old(covered).spec_width() == grid@.width,
        old(covered).spec_height() == grid@.height,
        state_of(grid, old(covered), flagged).wf(),
        state_of(grid, old(covered), flagged).is_revealable(start),
    ensures
        final(covered).wf(),
        final(covered).spec_width() == grid@.width,
        final(covered).spec_height() == grid@.height,
        final(covered)@ == old(covered)@.difference(
            state_of(grid, old(covered), flagged).flood_region(start),
        ),
        r.0@ == state_of(grid, old(covered), flagged).flood_order(start),
        r.0@.no_duplicates(),
        r.0@.to_set() == state_of(grid, old(covered), flagged).flood_region(start),
        r.0@.len() > 0,
        r.0@[0] == start,
        r.1 == (grid@.tile(start) is Mine),
{
    let ghost s = state_of(grid, covered, flagged);
    let ghost region = s.flood_region(start);
    let ghost order = s.flood_order(start);
    proof {
        s.lemma_region_holds_start(start);
        covered.lemma_within_board();
    }
    let mut found: Vec<Coordinates> = Vec::new();
    let mut detonated = false;
    covered.remove(start);
    found.push(start);
    let mut head: usize = 0;
    proof {
        assert(found@ =~= seq![start]);
        assert forall|c: Coordinates| covered@.contains(c) <==> (s.covered.contains(c)
            && !found@.contains(c)) by {
            if found@.contains(c) {
                let i = choose|i: int| 0 <= i < found@.len() && found@[i] == c;
            }
            if c == start {
                assert(found@[0] == c);
            }
        }
    }
    while head < found.len()
        invariant
            grid.wf(),
            covered.wf(),
            flagged.wf(),
            covered.spec_width() == grid@.width,
            covered.spec_height() == grid@.height,
            s.wf(),
            s.grid == grid@,
            s.flagged == flagged@,
            s.covered.finite(),
            region == s.flood_region(start),
            head <= found.len(),
            found.len() > 0,
            found@[0] == start,
            found@.no_duplicates(),
            forall|i: int| 0 <= i < found.len() ==> region.contains(#[trigger] found@[i]),
            forall|c: Coordinates|
                covered@.contains(c) <==> (s.covered.contains(c) && !found@.contains(c)),
            covered@.len() + found.len() == s.covered.len(),
            s.is_closed_upto(found@, head as int),
            detonated == (head > 0 && s.grid.tile(start) is Mine),
            order == s.flood_from(found@, head as int, (s.covered.len() - head) as nat),
        decreases s.covered.len() - head,
    {
        let c = found[head];
        let ghost base = found@;
        proof {
            covered.lemma_within_board();
            s.lemma_region_is_revealable(start, c);
            if head > 0 {
                s.lemma_region_is_safe(start, c);
            }
        }
        let tile = grid.tile(c);
        head = head + 1;
        match tile {
            Tile::Mine => {
                detonated = true;
            },
            Tile::Adjacent(_) => {},
            Tile::Empty => {
                let neighbors = grid.neighbors(c);
                let mut k: usize = 0;
                proof {
                    assert(neighbors@.take(0) =~= Seq::<Coordinates>::empty());
                }
                while k < neighbors.len()
                    invariant
                        grid.wf(),
                        covered.wf(),
                        flagged.wf(),
                        covered.spec_width() == grid@.width,
                        covered.spec_height() == grid@.height,
                        s.wf(),
                        s.grid == grid@,
                        s.flagged == flagged@,
                        s.covered.finite(),
                        region == s.flood_region(start),
                        1 <= head <= found.len(),
                        found@[0] == start,
                        found@.no_duplicates(),
                        forall|i: int|
                            0 <= i < found.len() ==> region.contains(#[trigger] found@[i]),
                        forall|c: Coordinates|
                            covered@.contains(c) <==> (s.covered.contains(c) && !found@.contains(
                                c,
                            )),
                        covered@.len() + found.len() == s.covered.len(),
                        s.is_closed_upto(found@, head - 1),
                        base.len() >= head,
                        c == base[head - 1],
                        c == found@[head - 1],
                        s.grid.tile(c) is Empty,
                        s.is_revealable(c),
                        neighbors@ == s.grid.neighbors(c),
                        k <= neighbors.len(),
                        found@ == s.handed_on(base, neighbors@.take(k as int)),
                        forall|j: int|
                            0 <= j < k && s.is_revealable(#[trigger] neighbors@[j])
                                ==> found@.contains(neighbors@[j]),
                    decreases neighbors.len() - k,
                {
                    let d = neighbors[k];
                    proof {
                        let upto = neighbors@.take(k + 1);
                        assert(upto.drop_last() =~= neighbors@.take(k as int));
                        assert(upto.last() == d);
                    }
                    if covered.contains(d) && !flagged.contains(d) {
                        let ghost before = found@;
                        proof {
                            assert(neighbors@.contains(d));
                            s.grid.lemma_neighbors(c, d);
                            s.lemma_region_step(start, c, d);
                            covered.lemma_within_board();
                            lemma_closed_after_push(s, before, head - 1, d);
                        }
                        covered.remove(d);
                        found.push(d);
                        proof {
                            assert forall|x: Coordinates| found@.contains(x) <==> (x == d
                                || before.contains(x)) by {
                                lemma_seq_contains_after_push(before, d, x);
                            }
                            assert forall|i: int| 0 <= i < found.len() implies region.contains(
                                #[trigger] found@[i],
                            ) by {
                                if i < before.len() {
                                    assert(found@[i] == before[i]);
                                }
                            }
                        }
                    }
                    k = k + 1;
                }
                proof {
                    assert(neighbors@.take(neighbors@.len() as int) =~= neighbors@);
                    assert forall|i: int, d: Coordinates|
                        0 <= i < head && #[trigger] s.spreads(found@[i], d) implies found@.contains(
                        d,
                    ) by {
                        if i == head - 1 {
                            s.grid.lemma_neighbors(c, d);
                            let j = choose|j: int| 0 <= j < neighbors@.len() && neighbors@[j] == d;
                            assert(s.is_revealable(neighbors@[j]));
                        }
                    }
                }
            },
        }
    }
    proof {
        s.lemma_closed_is_region(start, found@);
        assert(covered@ =~= s.covered.difference(region));
    }
    (found, detonated)
}

/// A game in progress.
#[derive(Debug, Clone)]
pub struct Board {
    grid: Grid,
    covered: CellSet,
    flagged: CellSet,
}

impl View for Board {
    type V = BoardView;

    /// The minefield, the covered cells and the flagged cells.
    closed spec fn view(&self) -> BoardView {
        state_of(&self.grid, &self.covered, &self.flagged)
    }
}

impl Board {
    /// The parts are well-formed, have one size, and make up a well-formed state.
    pub closed spec fn wf(&self) -> bool {
        &&& self.grid.wf()
        &&& self.covered.wf()
        &&& self.flagged.wf()
        &&& self.covered.spec_width() == self.grid@.width
        &&& self.covered.spec_height() == self.grid@.height
        &&& self.flagged.spec_width() == self.grid@.width
        &&& self.flagged.spec_height() == self.grid@.height
        &&& self@.wf()
    }

    /// The state of a well-formed board is well-formed and finite.
    pub proof fn lemma_wf(&self)
        requires
            self.wf(),
        ensures
            self@.wf(),
            self@.covered.finite(),
            self@.flagged.finite(),
            self@.grid.mines.finite(),
            self@.covered.len() <= self@.grid.width * self@.grid.height,
    {
        self.covered.lemma_within_board();
        self.flagged.lemma_within_board();
        self@.grid.lemma_counts();
    }

    /// Starts a game on `grid`: every cell covered, none flagged.
    pub fn new(grid: Grid) -> (r: Board)
        requires
            grid.wf(),
        ensures
            r.wf(),
            r@ == BoardView::initial(grid@),
    {
        proof {
            grid.lemma_wf();
        }
        let covered = CellSet::full(grid.width(), grid.height());
        let flagged = CellSet::empty(grid.width(), grid.height());
        Board { grid, covered, flagged }
    }

    /// The minefield under the covers.
    pub fn grid(&self) -> (r: &Grid)
        ensures
            r@ == self@.grid,
            self.wf() ==> r.wf(),
    {
        &self.grid
    }

    /// The tile of cell `coord`, or `OutOfBounds` if the board has no such cell.
    pub fn tile_at(&self, coord: Coordinates) -> (r: Result<Tile, BoardError>)
        requires
            self.wf(),
        ensures
            match r {
                Ok(tile) => self@.grid.in_bounds(coord) && tile == self@.grid.tile(coord),
                Err(e) => !self@.grid.in_bounds(coord) && e == BoardError::OutOfBounds,
            },
    {
        self.grid.tile_at(coord)
    }

    /// Whether cell `coord` is still covered. A position outside the board is not.
    pub fn is_covered(&self, coord: Coordinates) -> (r: bool)
        requires
            self.wf(),
        ensures
            r == self@.covered.contains(coord),
    {
        self.covered.contains(coord)
    }

    /// Whether cell `coord` carries a flag. A position outside the board does not.
    pub fn is_flagged(&self, coord: Coordinates) -> (r: bool)
        requires
            self.wf(),
        ensures
            r == self@.flagged.contains(coord),
    {
        self.flagged.contains(coord)
    }

    /// The number of cells that are still covered.
    pub fn remaining_covered_count(&self) -> (r: usize)
        requires
            self.wf(),
        ensures
            r == self@.covered_count(),
    {
        self.covered.len()
    }

    /// Whether the game is won: as many cells are covered as there are
    /// mines. Flags play no part in it.
    pub fn is_won(&self) -> (r: bool)
        requires
            self.wf(),
        ensures
            r == self@.is_won(),
            r == (self@.covered_count() == self@.grid.mine_count()),
    {
        self.covered.len() == self.grid.mine_count() as usize
    }

    /// Whether the board is completed, which is to say won.
    pub fn is_completed(&self) -> (r: bool)
        requires
            self.wf(),
        ensures
            r == self@.is_won(),
    {
        self.is_won()
    }

    /// A cell with which a game can safely start: the first cell, reading
    /// row by row, that shows no mine around it. There is none if every safe
    /// cell has a mine next to it.
    pub fn safe_reveal_candidate(&self) -> (r: Option<Coordinates>)
        requires
            self.wf(),
        ensures
            match r {
                Some(c) => self@.grid.is_first_empty(c),
                None => self@.grid.has_no_empty(),
            },
    {
        self.grid.first_empty()
    }

    /// The tile that a reveal at `coords` would uncover first: nothing if
    /// the cell is flagged, already uncovered or outside the board.
    pub fn tile_to_uncover(&self, coords: &Coordinates) -> (r: Option<Tile>)
        requires
            self.wf(),
        ensures
            r == if self@.is_revealable(*coords) {
                Some(self@.grid.tile(*coords))
            } else {
                None
            },
    {
        proof {
            self.covered.lemma_within_board();
        }
        if self.covered.contains(*coords) && !self.flagged.contains(*coords) {
            Some(self.grid.tile(*coords))
        } else {
            None
        }
    }

    /// Takes the flag off the cell `coords` and hands the cell back if it
    /// carried one.
    fn unmark_tile(&mut self, coords: &Coordinates) -> (r: Option<Coordinates>)
        requires
            old(self).grid.wf(),
            old(self).covered.wf(),
            old(self).flagged.wf(),
        ensures
            final(self).grid == old(self).grid,
            final(self).covered == old(self).covered,
            final(self).flagged.wf(),
            final(self).flagged.spec_width() == old(self).flagged.spec_width(),
            final(self).flagged.spec_height() == old(self).flagged.spec_height(),
            final(self).flagged@ == old(self).flagged@.remove(*coords),
            r == if old(self).flagged@.contains(*coords) {
                Some(*coords)
            } else {
                None
            },
    {
        if self.flagged.remove(*coords) {
            Some(*coords)
        } else {
            None
        }
    }

    /// Uncovers the single cell `coords`, taking its flag away first, and
    /// hands out its tile. Nothing happens if the cell is not covered.
    pub fn try_uncover_tile(&mut self, coords: &Coordinates) -> (r: Option<Tile>)
        requires
            old(self).wf(),
        ensures
            final(self).wf(),
            final(self)@ == old(self)@.after_uncover(*coords),
            r == if old(self)@.covered.contains(*coords) {
                Some(old(self)@.grid.tile(*coords))
            } else {
                None
            },
    {
        proof {
            self.covered.lemma_within_board();
        }
        self.unmark_tile(coords);
        if self.covered.remove(*coords) {
            Some(self.grid.tile(*coords))
        } else {
            None
        }
    }

    /// Toggles the flag on the covered cell `coords` and tells whether the
    /// cell now carries one. Nothing happens if the cell is not covered.
    pub fn try_toggle_mark(&mut self, coords: &Coordinates) -> (r: Option<bool>)
        requires
            old(self).wf(),
        ensures
            final(self).wf(),
            final(self)@ == old(self)@.after_toggle(*coords),
            r == if old(self)@.covered.contains(*coords) {
                Some(!old(self)@.flagged.contains(*coords))
            } else {
                None
            },
    {
        proof {
            self.covered.lemma_within_board();
        }
        if !self.covered.contains(*coords) {
            return None;
        }
        if self.flagged.contains(*coords) {
            self.unmark_tile(coords);
            Some(false)
        } else {
            self.flagged.insert(*coords);
            Some(true)
        }
    }

    /// Toggles the flag on the cell `coord`.
    ///
    /// A covered cell takes a flag if it has none and loses the one it has.
    /// A cell that is already revealed is rejected with `NotCovered`, a
    /// position outside the board with `OutOfBounds`; neither changes the
    /// board. Whether the game is won is not looked at.
    pub fn toggle_flag(&mut self, coord: Coordinates) -> (r: Result<FlagOutcome, BoardError>)
        requires
            old(self).wf(),
        ensures
            final(self).wf(),
            final(self)@ == old(self)@.after_toggle(coord),
            match r {
                Ok(FlagOutcome::Flagged(c)) => {
                    &&& c == coord
                    &&& old(self)@.covered.contains(coord)
                    &&& !old(self)@.flagged.contains(coord)
                },
                Ok(FlagOutcome::Unflagged(c)) => {
                    &&& c == coord
                    &&& old(self)@.flagged.contains(coord)
                },
                Err(e) => {
                    &&& !old(self)@.covered.contains(coord)
                    &&& final(self)@ == old(self)@
                    &&& e == if old(self)@.grid.in_bounds(coord) {
                        BoardError::NotCovered
                    } else {
                        BoardError::OutOfBounds
                    }
                },
            },
    {
        proof {
            self.covered.lemma_within_board();
        }
        if !self.grid.in_bounds(coord) {
            return Err(BoardError::OutOfBounds);
        }
        match self.try_toggle_mark(&coord) {
            Some(true) => Ok(FlagOutcome::Flagged(coord)),
            Some(false) => Ok(FlagOutcome::Unflagged(coord)),
            None => Err(BoardError::NotCovered),
        }
    }

    /// The neighbours of `coord` to which a reveal passes on: those that are
    /// covered and not flagged, in the order in which the minefield lists
    /// neighbours.
    pub fn adjacent_covered_tiles(&self, coord: Coordinates) -> (r: Vec<Coordinates>)
        requires
            self.wf(),
        ensures
            r@ == self@.grid.neighbors(coord).filter(|d: Coordinates| self@.is_revealable(d)),
    {
        let neighbors = self.grid.neighbors(coord);
        let ghost may_uncover = |d: Coordinates| self@.is_revealable(d);
        let mut found: Vec<Coordinates> = Vec::new();
        let mut k: usize = 0;
        proof {
            assert(neighbors@.take(0) =~= Seq::<Coordinates>::empty());
            Seq::<Coordinates>::empty().lemma_filter_len(may_uncover);
        }
        while k < neighbors.len()
            invariant
                self.wf(),
                k <= neighbors.len(),
                may_uncover == |d: Coordinates| self@.is_revealable(d),
                found@ == neighbors@.take(k as int).filter(may_uncover),
            decreases neighbors.len() - k,
        {
            let d = neighbors[k];
            proof {
                neighbors@.lemma_take_succ_push(k as int);
                neighbors@.take(k as int).lemma_filter_push(d, may_uncover);
            }
            if self.covered.contains(d) && !self.flagged.contains(d) {
                found.push(d);
            }
            k = k + 1;
        }
        proof {
            neighbors@.lemma_take_len();
        }
        found
    }

    /// Reveals the cell `coord` and every cell that the reveal spreads to.
    ///
    /// Nothing happens if the cell is flagged or already uncovered. Else the
    /// cell is uncovered, and from every uncovered cell that shows no mine
    /// around it the reveal passes on to the neighbours that are covered and
    /// not flagged. A cell that shows a number is uncovered and passes
    /// nothing on. The outcome lists each uncovered cell once, in the order
    /// in which the reveal reached it, `coord` first. It is a loss if
    /// `coord` holds a mine, a win if the reveal left only as many cells
    /// covered as there are mines.
    pub fn reveal_at(&mut self, coord: Coordinates) -> (r: Result<RevealOutcome, BoardError>)
        requires
            old(self).wf(),
        ensures
            final(self).wf(),
            r is Err <==> !old(self)@.grid.in_bounds(coord),
            match r {
                Ok(outcome) => {
                    &&& final(self)@ == old(self)@.after_reveal(coord)
                    &&& outcome.cells() == old(self)@.flood_order(coord)
                    &&& outcome.cells().no_duplicates()
                    &&& outcome.cells().to_set() == old(self)@.flood_region(coord)
                    &&& outcome.cells().len() > 0 ==> outcome.cells()[0] == coord
                    &&& !old(self)@.is_revealable(coord) ==> {
                        &&& final(self)@ == old(self)@
                        &&& outcome.cells().len() == 0
                        &&& outcome is Revealed
                    }
                    &&& outcome is Loss <==> old(self)@.detonates(coord)
                    &&& outcome matches RevealOutcome::Loss(site, _) ==> site == coord
                    &&& outcome is Win <==> old(self)@.wins_by(coord)
                },
                Err(e) => {
                    &&& e == BoardError::OutOfBounds
                    &&& final(self)@ == old(self)@
                },
            },
    {
        proof {
            self.covered.lemma_within_board();
        }
        if !self.grid.in_bounds(coord) {
            return Err(BoardError::OutOfBounds);
        }
        if !self.covered.contains(coord) || self.flagged.contains(coord) {
            proof {
                self@.lemma_region_of_blocked(coord);
            }
            let untouched: Vec<Coordinates> = Vec::new();
            assert(untouched@.to_set() =~= Set::<Coordinates>::empty());
            assert(untouched@ =~= old(self)@.flood_order(coord));
            return Ok(RevealOutcome::Revealed(untouched));
        }
        let (cells, detonated) = flood(&self.grid, &mut self.covered, &self.flagged, coord);
        proof {
            old(self)@.lemma_after_reveal_wf(coord);
        }
        if detonated {
            Ok(RevealOutcome::Loss(coord, cells))
        } else if self.is_won() {
            Ok(RevealOutcome::Win(cells))
        } else {
            Ok(RevealOutcome::Revealed(cells))
        }
    }
}

/// Starts a game as `options` ask: generates the minefield with numbers
/// drawn from `rng` and covers every cell, with no flag on any.
///
/// With the board comes the cell for an opening reveal, if one is asked for
/// and the board has a cell with no mine around it: the first such cell,
/// reading row by row. The reveal itself is left to the caller, so the
/// board comes back untouched. Options with a side of zero cells or with
/// more mines than cells are rejected and draw nothing from `rng`.
pub fn create_board(options: &BoardOptions, rng: &mut RandomSource) -> (r: Result<
    (Board, Option<Coordinates>),
    BoardError,
>)
    ensures
        r is Err <==> (options.map_size.0 == 0 || options.map_size.1 == 0 || options.mine_count
            > options.map_size.0 * options.map_size.1),
        match r {
            Ok((board, opening)) => {
                &&& board.wf()
                &&& board@ == BoardView::initial(board@.grid)
                &&& board@.grid == (GridView {
                    width: options.map_size.0 as nat,
                    height: options.map_size.1 as nat,
                    mines: sampled_mines(
                        options.map_size.0 as nat,
                        options.map_size.1 as nat,
                        options.mine_count as nat,
                        old(rng)@,
                    ),
                })
                &&& board@.grid.mine_count() == options.mine_count
                &&& board@.covered_count() == options.map_size.0 * options.map_size.1
                &&& final(rng)@ == state_after(
                    old(rng)@,
                    (options.map_size.0 * options.map_size.1) as nat,
                )
                &&& match opening {
                    Some(c) => options.safe_start && board@.grid.is_first_empty(c),
                    None => !options.safe_start || board@.grid.has_no_empty(),
                }
            },
            Err(e) => {
                &&& e == BoardError::InvalidConfiguration
                &&& final(rng)@ == old(rng)@
            },
        },
{
    let width = options.map_size.0;
    let height = options.map_size.1;
    let grid = match Grid::generate(width, height, options.mine_count as u32, rng) {
        Ok(grid) => grid,
        Err(e) => {
            return Err(e);
        },
    };
    let board = Board::new(grid);
    proof {
        board.grid.lemma_wf();
        board@.grid.lemma_counts();
    }
    let opening = if options.safe_start {
        board.safe_reveal_candidate()
    } else {
        None
    };
    Ok((board, opening))
}

} // verus!
