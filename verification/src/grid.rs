//! The minefield: where the mines are and what every other cell shows.

use crate::cell_set::CellSet;
use crate::coordinates::Coordinates;
use crate::error::BoardError;
use crate::plane::{
    cell_at, cell_at_index, cell_index, cells_of, lemma_area_bound, lemma_cells_len, Plane,
};
use crate::random::{draw_below, next_state, RandomSource};
use crate::tile::Tile;
use vstd::prelude::*;

verus! {

/// The mathematical model of a minefield: its size and the cells that hold a
/// mine. What every other cell shows follows from these.
pub struct GridView {
    pub width: nat,
    pub height: nat,
    pub mines: Set<Coordinates>,
}

impl GridView {
    /// Both sides are positive and fit in 16 bits, and every mine lies on the board.
    pub open spec fn wf(self) -> bool {
        &&& 0 < self.width <= u16::MAX
        &&& 0 < self.height <= u16::MAX
        &&& self.mines.subset_of(cells_of(self.width, self.height))
    }

    /// Whether `c` is a cell of the board.
    pub open spec fn in_bounds(self, c: Coordinates) -> bool {
        c.x < self.width && c.y < self.height
    }

    /// All cells of the board.
    pub open spec fn cells(self) -> Set<Coordinates> {
        cells_of(self.width, self.height)
    }

    /// The cells that hold no mine.
    pub open spec fn safe_cells(self) -> Set<Coordinates> {
        self.cells().difference(self.mines)
    }

    /// The number of mines on the board.
    pub open spec fn mine_count(self) -> nat {
        self.mines.len()
    }

    /// The cell one step from `c` in direction `(dx, dy)`, if the board has
    /// one there. The board does not wrap around at its edges.
    pub open spec fn neighbor(self, c: Coordinates, dx: int, dy: int) -> Option<Coordinates> {
        match c.spec_offset(dx, dy) {
            Some(d) => if self.in_bounds(d) {
                Some(d)
            } else {
                None
            },
            None => None,
        }
    }

    /// One if the neighbour of `c` in direction `(dx, dy)` holds a mine, else zero.
    pub open spec fn mine_toward(self, c: Coordinates, dx: int, dy: int) -> nat {
        match self.neighbor(c, dx, dy) {
            Some(d) => if self.mines.contains(d) {
                1
            } else {
                0
            },
            None => 0,
        }
    }

    /// The number of mines among the up to eight neighbours of `c`.
    #[verifier::opaque]
    pub open spec fn adjacent_mines(self, c: Coordinates) -> nat {
        self.mine_toward(c, -1, -1) + self.mine_toward(c, 0, -1) + self.mine_toward(c, 1, -1)
            + self.mine_toward(c, -1, 0) + self.mine_toward(c, 1, 0) + self.mine_toward(c, -1, 1)
            + self.mine_toward(c, 0, 1) + self.mine_toward(c, 1, 1)
    }

    /// What the cell `c` shows: a mine, or the number of mines around it.
    pub open spec fn tile(self, c: Coordinates) -> Tile {
        if self.mines.contains(c) {
            Tile::Mine
        } else {
            Tile::spec_for_count(self.adjacent_mines(c))
        }
    }

    /// `c` is the first cell, reading row by row, that shows no mine around it.
    pub open spec fn is_first_empty(self, c: Coordinates) -> bool {
        &&& self.in_bounds(c)
        &&& self.tile(c) is Empty
        &&& forall|d: Coordinates|
            self.in_bounds(d) && #[trigger] self.tile(d) is Empty ==> !d.reads_before(c)
    }

    /// Every cell of the board holds a mine or has one next to it.
    pub open spec fn has_no_empty(self) -> bool {
        forall|d: Coordinates| self.in_bounds(d) ==> !(#[trigger] self.tile(d) is Empty)
    }

    /// `found` followed by the neighbour of `c` in direction `(dx, dy)`, if there is one.
    pub open spec fn with_neighbor(
        self,
        found: Seq<Coordinates>,
        c: Coordinates,
        dx: int,
        dy: int,
    ) -> Seq<Coordinates> {
        match self.neighbor(c, dx, dy) {
            Some(d) => found.push(d),
            None => found,
        }
    }

    /// The neighbours of `c` on the board, row by row from the one up and to
    /// the left of `c` to the one down and to the right.
    pub open spec fn neighbors(self, c: Coordinates) -> Seq<Coordinates> {
        let s0 = Seq::<Coordinates>::empty();
        let s1 = self.with_neighbor(s0, c, -1, -1);
        let s2 = self.with_neighbor(s1, c, 0, -1);
        let s3 = self.with_neighbor(s2, c, 1, -1);
        let s4 = self.with_neighbor(s3, c, -1, 0);
        let s5 = self.with_neighbor(s4, c, 1, 0);
        let s6 = self.with_neighbor(s5, c, -1, 1);
        let s7 = self.with_neighbor(s6, c, 0, 1);
        self.with_neighbor(s7, c, 1, 1)
    }

    /// A cell is listed after one more direction if it was listed before or
    /// is the neighbour in that direction.
    pub proof fn lemma_with_neighbor(
        self,
        found: Seq<Coordinates>,
        c: Coordinates,
        dx: int,
        dy: int,
        d: Coordinates,
    )
        ensures
            self.with_neighbor(found, c, dx, dy).contains(d) <==> (found.contains(d)
                || self.neighbor(c, dx, dy) == Some(d)),
    {
        let after = self.with_neighbor(found, c, dx, dy);
        match self.neighbor(c, dx, dy) {
            Some(n) => {
                if found.contains(d) {
                    let i = choose|i: int| 0 <= i < found.len() && found[i] == d;
                    assert(after[i] == d);
                }
                if n == d {
                    assert(after[found.len() as int] == d);
                }
                if after.contains(d) {
                    let i = choose|i: int| 0 <= i < after.len() && after[i] == d;
                    if i < found.len() {
                        assert(found[i] == d);
                    }
                }
            },
            None => {},
        }
    }

    /// The neighbours of `c` are the cells of the board that touch `c` by a
    /// side or a corner.
    pub proof fn lemma_neighbors(self, c: Coordinates, d: Coordinates)
        ensures
            self.neighbors(c).contains(d) <==> (self.in_bounds(d) && c.is_adjacent(d)),
    {
        let s0 = Seq::<Coordinates>::empty();
        let s1 = self.with_neighbor(s0, c, -1, -1);
        let s2 = self.with_neighbor(s1, c, 0, -1);
        let s3 = self.with_neighbor(s2, c, 1, -1);
        let s4 = self.with_neighbor(s3, c, -1, 0);
        let s5 = self.with_neighbor(s4, c, 1, 0);
        let s6 = self.with_neighbor(s5, c, -1, 1);
        let s7 = self.with_neighbor(s6, c, 0, 1);
        self.lemma_with_neighbor(s0, c, -1, -1, d);
        self.lemma_with_neighbor(s1, c, 0, -1, d);
        self.lemma_with_neighbor(s2, c, 1, -1, d);
        self.lemma_with_neighbor(s3, c, -1, 0, d);
        self.lemma_with_neighbor(s4, c, 1, 0, d);
        self.lemma_with_neighbor(s5, c, -1, 1, d);
        self.lemma_with_neighbor(s6, c, 0, 1, d);
        self.lemma_with_neighbor(s7, c, 1, 1, d);
        assert(!s0.contains(d));
    }

    /// A cell shows a mine exactly if it holds one, and a safe cell shows
    /// the number of mines around it, which is at most eight.
    pub proof fn lemma_tile(self, c: Coordinates)
        ensures
            self.tile(c) is Mine <==> self.mines.contains(c),
            self.tile(c) is Empty <==> !self.mines.contains(c) && self.adjacent_mines(c) == 0,
            self.tile(c) matches Tile::Adjacent(n) ==> n == self.adjacent_mines(c) && 1 <= n <= 8,
            self.adjacent_mines(c) <= 8,
    {
        reveal(GridView::adjacent_mines);
    }

    /// A cell that shows no mine around it has no mine next to it.
    pub proof fn lemma_empty_has_safe_neighbors(self, c: Coordinates, d: Coordinates)
        requires
            self.tile(c) is Empty,
            self.in_bounds(d),
            c.is_adjacent(d),
        ensures
            !self.mines.contains(d),
    {
        reveal(GridView::adjacent_mines);
        let dx = d.x - c.x;
        let dy = d.y - c.y;
        assert(self.neighbor(c, dx, dy) == Some(d));
        if self.mines.contains(d) {
            assert(self.mine_toward(c, dx, dy) == 1);
        }
    }

    /// The mines that touch `c` by a side or a corner.
    pub open spec fn mined_neighbors(self, c: Coordinates) -> Set<Coordinates> {
        Set::new(|d: Coordinates| self.mines.contains(d) && c.is_adjacent(d))
    }

    /// The neighbour of `c` in direction `(dx, dy)` if it holds a mine, as a set.
    pub open spec fn mined_toward(self, c: Coordinates, dx: int, dy: int) -> Set<Coordinates> {
        match self.neighbor(c, dx, dy) {
            Some(d) => if self.mines.contains(d) {
                set![d]
            } else {
                Set::empty()
            },
            None => Set::empty(),
        }
    }

    /// What is counted for `c` is the number of mines that touch `c`.
    pub proof fn lemma_adjacent_mines_is_a_count(self, c: Coordinates)
        requires
            self.wf(),
        ensures
            self.mined_neighbors(c).finite(),
            self.adjacent_mines(c) == self.mined_neighbors(c).len(),
    {
        reveal(GridView::adjacent_mines);
        let a1 = self.mined_toward(c, -1, -1);
        let a2 = self.mined_toward(c, 0, -1);
        let a3 = self.mined_toward(c, 1, -1);
        let a4 = self.mined_toward(c, -1, 0);
        let a5 = self.mined_toward(c, 1, 0);
        let a6 = self.mined_toward(c, -1, 1);
        let a7 = self.mined_toward(c, 0, 1);
        let a8 = self.mined_toward(c, 1, 1);
        let u2 = a1.union(a2);
        let u3 = u2.union(a3);
        let u4 = u3.union(a4);
        let u5 = u4.union(a5);
        let u6 = u5.union(a6);
        let u7 = u6.union(a7);
        let u8 = u7.union(a8);
        assert(a1.len() == self.mine_toward(c, -1, -1) && a1.finite());
        assert(a2.len() == self.mine_toward(c, 0, -1) && a2.finite());
        assert(a3.len() == self.mine_toward(c, 1, -1) && a3.finite());
        assert(a4.len() == self.mine_toward(c, -1, 0) && a4.finite());
        assert(a5.len() == self.mine_toward(c, 1, 0) && a5.finite());
        assert(a6.len() == self.mine_toward(c, -1, 1) && a6.finite());
        assert(a7.len() == self.mine_toward(c, 0, 1) && a7.finite());
        assert(a8.len() == self.mine_toward(c, 1, 1) && a8.finite());
        vstd::set_lib::lemma_set_disjoint_lens(a1, a2);
        vstd::set_lib::lemma_set_disjoint_lens(u2, a3);
        vstd::set_lib::lemma_set_disjoint_lens(u3, a4);
        vstd::set_lib::lemma_set_disjoint_lens(u4, a5);
        vstd::set_lib::lemma_set_disjoint_lens(u5, a6);
        vstd::set_lib::lemma_set_disjoint_lens(u6, a7);
        vstd::set_lib::lemma_set_disjoint_lens(u7, a8);
        assert forall|d: Coordinates| self.mined_neighbors(c).contains(d) implies u8.contains(
            d,
        ) by {
            let dx = d.x - c.x;
            let dy = d.y - c.y;
            assert(self.neighbor(c, dx, dy) == Some(d));
        }
        assert(self.mined_neighbors(c) =~= u8);
    }

    /// On a well-formed board the mines and the safe cells are finite and
    /// together make up the board.
    pub proof fn lemma_counts(self)
        requires
            self.wf(),
        ensures
            self.mines.finite(),
            self.cells().finite(),
            self.cells().len() == self.width * self.height,
            self.mine_count() <= self.width * self.height,
            self.safe_cells().finite(),
            self.safe_cells().len() == self.width * self.height - self.mine_count(),
    {
        lemma_cells_len(self.width, self.height);
        vstd::set_lib::lemma_len_subset(self.mines, self.cells());
        vstd::set_lib::lemma_len_difference(self.cells(), self.mines);
        vstd::set_lib::lemma_set_difference_len(self.cells(), self.mines);
        assert(self.cells().intersect(self.mines) =~= self.mines);
    }
}

/// The mines that selection sampling places on the cells from position `at`
/// on, in row-major order, when `needed` mines are still to be placed and the
/// random source is in state `state`.
///
/// Each cell takes the next number below the count of cells that are left,
/// and holds a mine if that number is below `needed`. Every choice of
/// `needed` cells is equally likely under a uniform source, and exactly
/// `needed` cells are chosen.
pub open spec fn sample_from(width: nat, total: nat, at: nat, needed: nat, state: u64) -> Set<
    Coordinates,
>
    decreases total - at,
{
    if at >= total {
        Set::empty()
    } else {
        let hit = draw_below(state, total - at) < needed;
        let rest = sample_from(
            width,
            total,
            at + 1,
            if hit {
                (needed - 1) as nat
            } else {
                needed
            },
            next_state(state),
        );
        if hit {
            rest.insert(cell_at(width as int, at as int))
        } else {
            rest
        }
    }
}

/// The mines of a `width` by `height` board with `mine_count` mines that is
/// generated from a random source in state `seed`.
pub open spec fn sampled_mines(width: nat, height: nat, mine_count: nat, seed: u64) -> Set<
    Coordinates,
> {
    sample_from(width, width * height, 0, mine_count, seed)
}

/// Selection sampling places exactly the mines that are still needed, each
/// on a cell of the board at or after position `at`.
pub proof fn lemma_sample_from(width: nat, height: nat, at: nat, needed: nat, state: u64)
    requires
        0 < width <= u16::MAX,
        height <= u16::MAX,
        at <= width * height,
        needed <= width * height - at,
    ensures
        sample_from(width, width * height, at, needed, state).finite(),
        sample_from(width, width * height, at, needed, state).len() == needed,
        forall|c: Coordinates| #[trigger]
            sample_from(width, width * height, at, needed, state).contains(c) ==> c.x < width
                && c.y < height && cell_index(width as int, c) >= at,
    decreases width * height - at,
{
    let total = width * height;
    if at < total {
        let draw = draw_below(state, total - at);
        vstd::arithmetic::div_mod::lemma_mod_pos_bound(
            crate::random::output_of(state) as int,
            total - at,
        );
        let hit = draw < needed;
        let left = if hit {
            (needed - 1) as nat
        } else {
            needed
        };
        lemma_sample_from(width, height, at + 1, left, next_state(state));
        crate::plane::lemma_cell_at(width as int, height as int, at as int);
    }
}

/// A generated board holds exactly the mines asked for, all of them on the
/// board, whatever the state of the random source.
pub proof fn lemma_sampled_mines(width: nat, height: nat, mine_count: nat, seed: u64)
    requires
        0 < width <= u16::MAX,
        0 < height <= u16::MAX,
        mine_count <= width * height,
    ensures
        sampled_mines(width, height, mine_count, seed).finite(),
        sampled_mines(width, height, mine_count, seed).len() == mine_count,
        (GridView {
            width,
            height,
            mines: sampled_mines(width, height, mine_count, seed),
        }).wf(),
{
    lemma_sample_from(width, height, 0, mine_count, seed);
}

/// The state of a random source after `draws` numbers were taken from state `state`.
pub open spec fn state_after(state: u64, draws: nat) -> u64
    decreases draws,
{
    if draws == 0 {
        state
    } else {
        next_state(state_after(state, (draws - 1) as nat))
    }
}

/// Chooses `mine_count` distinct cells of a `width` by `height` board.
///
/// The cells are visited once in row-major order and one number is drawn for
/// each, so the choice never fails and never places a mine twice.
fn place_mines(width: u16, height: u16, mine_count: u32, rng: &mut RandomSource) -> (r:
    CellSet)
    requires
        mine_count <= width * height,
    ensures
        r.wf(),
        r.spec_width() == width,
        r.spec_height() == height,
        r@ == sampled_mines(width as nat, height as nat, mine_count as nat, old(rng)@),
        r@.len() == mine_count,
        final(rng)@ == state_after(old(rng)@, (width * height) as nat),
{
    proof {
        lemma_area_bound(width as int, height as int);
    }
    let total: u32 = width as u32 * height as u32;
    let mut placed = CellSet::empty(width, height);
    let mut needed: u32 = mine_count;
    let mut at: u32 = 0;
    let ghost seed = rng@;
    let ghost goal = sampled_mines(width as nat, height as nat, mine_count as nat, seed);
    while at < total
        invariant
            total == width * height,
            at <= total,
            placed.wf(),
            placed.spec_width() == width,
            placed.spec_height() == height,
            needed <= total - at,
            placed@.len() + needed == mine_count,
            forall|c: Coordinates| #[trigger]
                placed@.contains(c) ==> cell_index(width as int, c) < at,
            rng@ == state_after(seed, at as nat),
            goal == placed@.union(
                sample_from(width as nat, total as nat, at as nat, needed as nat, rng@),
            ),
        decreases total - at,
    {
        let ghost before = placed@;
        let ghost state = rng@;
        let ghost rest = sample_from(
            width as nat,
            total as nat,
            at as nat,
            needed as nat,
            state,
        );
        let c = cell_at_index(width, height, at);
        let draw = rng.next_below(total - at);
        if draw < needed {
            proof {
                placed.lemma_within_board();
            }
            let added = placed.insert(c);
            assert(added);
            needed = needed - 1;
        }
        at = at + 1;
        proof {
            let tail = sample_from(
                width as nat,
                total as nat,
                at as nat,
                needed as nat,
                rng@,
            );
            assert(before.union(rest) =~= placed@.union(tail));
            assert forall|d: Coordinates| #[trigger] placed@.contains(d) implies cell_index(
                width as int,
                d,
            ) < at by {
                if d != c {
                    assert(before.contains(d));
                }
            }
        }
    }
    proof {
        assert(goal =~= placed@);
    }
    placed
}

/// One if the neighbour of `c` in direction `(dx, dy)` is in `mines`, else zero.
fn mine_toward(mines: &CellSet, c: Coordinates, dx: i8, dy: i8) -> (r: u8)
    requires
        mines.wf(),
    ensures
        r == layout_of(mines).mine_toward(c, dx as int, dy as int),
        r <= 1,
{
    proof {
        mines.lemma_within_board();
    }
    match c.checked_offset(dx, dy) {
        Some(d) => if mines.contains(d) {
            1
        } else {
            0
        },
        None => 0,
    }
}

/// The board that has the size of `mines` and a mine on each of its cells.
pub open spec fn layout_of(mines: &CellSet) -> GridView {
    GridView { width: mines.spec_width(), height: mines.spec_height(), mines: mines@ }
}

/// Counts the mines among the up to eight neighbours of `c`.
pub fn count_adjacent_mines(mines: &CellSet, c: Coordinates) -> (r: u8)
    requires
        mines.wf(),
    ensures
        r == layout_of(mines).adjacent_mines(c),
        r <= 8,
{
    proof {
        reveal(GridView::adjacent_mines);
    }
    mine_toward(mines, c, -1, -1) + mine_toward(mines, c, 0, -1) + mine_toward(mines, c, 1, -1)
        + mine_toward(mines, c, -1, 0) + mine_toward(mines, c, 1, 0) + mine_toward(
        mines,
        c,
        -1,
        1,
    ) + mine_toward(mines, c, 0, 1) + mine_toward(mines, c, 1, 1)
}

/// A fully solved minefield. It does not change once it is built.
#[derive(Debug, Clone)]
pub struct Grid {
    tiles: Plane<Tile>,
    mine_count: u32,
}

impl View for Grid {
    type V = GridView;

    /// The size of the board and the cells whose tile is a mine.
    closed spec fn view(&self) -> GridView {
        GridView {
            width: self.tiles.spec_width(),
            height: self.tiles.spec_height(),
            mines: Set::new(
                |c: Coordinates| self.tiles@.dom().contains(c) && self.tiles@[c] is Mine,
            ),
        }
    }
}

impl Grid {
    /// Every cell stores the tile that the model gives it, and the stored
    /// number of mines is the number of mines.
    pub closed spec fn wf(&self) -> bool {
        &&& self.tiles.wf()
        &&& self@.wf()
        &&& self.mine_count == self@.mines.len()
        &&& forall|c: Coordinates| #[trigger]
            self.tiles@.dom().contains(c) ==> self.tiles@[c] == self@.tile(c)
    }

    /// The model of a well-formed minefield is well-formed.
    pub proof fn lemma_wf(&self)
        requires
            self.wf(),
        ensures
            self@.wf(),
    {
    }

    /// Builds the minefield that has a mine on each cell of `mines`: every
    /// other cell gets the number of mines around it.
    pub fn from_mines(mines: &CellSet) -> (r: Result<Grid, BoardError>)
        requires
            mines.wf(),
        ensures
            match r {
                Ok(grid) => {
                    &&& grid.wf()
                    &&& grid@ == layout_of(mines)
                },
                Err(e) => {
                    &&& e == BoardError::InvalidConfiguration
                    &&& (mines.spec_width() == 0 || mines.spec_height() == 0)
                },
            },
            r is Err <==> (mines.spec_width() == 0 || mines.spec_height() == 0),
    {
        let width = mines.width();
        let height = mines.height();
        if width == 0 || height == 0 {
            return Err(BoardError::InvalidConfiguration);
        }
        proof {
            mines.lemma_within_board();
        }
        let ghost model = layout_of(mines);
        let mut tiles: Plane<Tile> = Plane::new(width, height, Tile::Empty);
        let mut y: u16 = 0;
        while y < height
            invariant
                mines.wf(),
                model == layout_of(mines),
                width == mines.spec_width(),
                height == mines.spec_height(),
                tiles.wf(),
                tiles.spec_width() == width,
                tiles.spec_height() == height,
                y <= height,
                forall|c: Coordinates|
                    c.x < width && c.y < y ==> #[trigger] tiles@[c] == model.tile(c),
            decreases height - y,
        {
            let mut x: u16 = 0;
            while x < width
                invariant
                    mines.wf(),
                    model == layout_of(mines),
                    width == mines.spec_width(),
                    height == mines.spec_height(),
                    tiles.wf(),
                    tiles.spec_width() == width,
                    tiles.spec_height() == height,
                    y < height,
                    x <= width,
                    forall|c: Coordinates|
                        c.x < width && (c.y < y || (c.y == y && c.x < x)) ==> #[trigger] tiles@[c]
                            == model.tile(c),
                decreases width - x,
            {
                let c = Coordinates { x, y };
                let tile = if mines.contains(c) {
                    Tile::Mine
                } else {
                    Tile::for_count(count_adjacent_mines(mines, c))
                };
                proof {
                    tiles.lemma_domain();
                }
                tiles.set(c, tile);
                x = x + 1;
            }
            y = y + 1;
        }
        let mine_count = mines.len() as u32;
        let grid = Grid { tiles, mine_count };
        proof {
            grid.tiles.lemma_domain();
            assert(grid@.mines =~= mines@);
        }
        Ok(grid)
    }

    /// Generates a `width` by `height` minefield with `mine_count` mines,
    /// placed by numbers drawn from `rng`.
    ///
    /// A side of zero cells, or more mines than cells, is rejected and
    /// draws nothing from `rng`.
    pub fn generate(width: u16, height: u16, mine_count: u32, rng: &mut RandomSource) -> (r:
        Result<Grid, BoardError>)
        ensures
            r is Err <==> (width == 0 || height == 0 || mine_count > width * height),
            match r {
                Ok(grid) => {
                    &&& grid.wf()
                    &&& grid@.width == width
                    &&& grid@.height == height
                    &&& grid@.mines == sampled_mines(
                        width as nat,
                        height as nat,
                        mine_count as nat,
                        old(rng)@,
                    )
                    &&& grid@.mine_count() == mine_count
                    &&& grid@.safe_cells().len() == width * height - mine_count
                    &&& final(rng)@ == state_after(old(rng)@, (width * height) as nat)
                },
                Err(e) => {
                    &&& e == BoardError::InvalidConfiguration
                    &&& final(rng)@ == old(rng)@
                },
            },
    {
        proof {
            lemma_area_bound(width as int, height as int);
        }
        if width == 0 || height == 0 {
            assert(width * height == 0) by (nonlinear_arith)
                requires
                    width == 0 || height == 0,
            ;
            return Err(BoardError::InvalidConfiguration);
        }
        let total: u32 = width as u32 * height as u32;
        if mine_count > total {
            return Err(BoardError::InvalidConfiguration);
        }
        let mines = place_mines(width, height, mine_count, rng);
        match Grid::from_mines(&mines) {
            Ok(grid) => {
                proof {
                    grid@.lemma_counts();
                }
                Ok(grid)
            },
            Err(e) => Err(e),
        }
    }

    /// The number of columns.
    pub fn width(&self) -> (r: u16)
        ensures
            r == self@.width,
    {
        self.tiles.width()
    }

    /// The number of rows.
    pub fn height(&self) -> (r: u16)
        ensures
            r == self@.height,
    {
        self.tiles.height()
    }

    /// The number of mines on the board.
    pub fn mine_count(&self) -> (r: u32)
        requires
            self.wf(),
        ensures
            r == self@.mine_count(),
    {
        self.mine_count
    }

    /// Whether `c` is a cell of the board.
    pub fn in_bounds(&self, c: Coordinates) -> (r: bool)
        ensures
            r == self@.in_bounds(c),
    {
        self.tiles.in_bounds(c)
    }

    /// The tile of cell `c`, or `OutOfBounds` if the board has no such cell.
    pub fn tile_at(&self, c: Coordinates) -> (r: Result<Tile, BoardError>)
        requires
            self.wf(),
        ensures
            match r {
                Ok(tile) => self@.in_bounds(c) && tile == self@.tile(c),
                Err(e) => !self@.in_bounds(c) && e == BoardError::OutOfBounds,
            },
    {
        if self.tiles.in_bounds(c) {
            Ok(self.tiles.get(c))
        } else {
            Err(BoardError::OutOfBounds)
        }
    }

    /// The tile of the cell `c` of the board.
    pub(crate) fn tile(&self, c: Coordinates) -> (r: Tile)
        requires
            self.wf(),
            self@.in_bounds(c),
        ensures
            r == self@.tile(c),
    {
        proof {
            self.tiles.lemma_domain();
        }
        self.tiles.get(c)
    }

    /// Whether cell `c` holds a mine. A position outside the board holds none.
    pub fn is_mine(&self, c: Coordinates) -> (r: bool)
        requires
            self.wf(),
        ensures
            r == self@.mines.contains(c),
    {
        self.tiles.in_bounds(c) && self.tiles.get(c).is_mine()
    }

    /// Appends to `found` the neighbour of `c` in direction `(dx, dy)`, if
    /// the board has one there.
    fn push_neighbor(&self, found: &mut Vec<Coordinates>, c: Coordinates, dx: i8, dy: i8)
        ensures
            final(found)@ == self@.with_neighbor(old(found)@, c, dx as int, dy as int),
    {
        match c.checked_offset(dx, dy) {
            Some(d) => {
                if self.tiles.in_bounds(d) {
                    found.push(d);
                }
            },
            None => {},
        }
    }

    /// The up to eight cells of the board that touch `c`, in a fixed order:
    /// row by row from the one up and to the left of `c`. Positions beyond
    /// an edge are left out.
    pub fn neighbors(&self, c: Coordinates) -> (r: Vec<Coordinates>)
        ensures
            r@ == self@.neighbors(c),
    {
        let mut found: Vec<Coordinates> = Vec::new();
        self.push_neighbor(&mut found, c, -1, -1);
        self.push_neighbor(&mut found, c, 0, -1);
        self.push_neighbor(&mut found, c, 1, -1);
        self.push_neighbor(&mut found, c, -1, 0);
        self.push_neighbor(&mut found, c, 1, 0);
        self.push_neighbor(&mut found, c, -1, 1);
        self.push_neighbor(&mut found, c, 0, 1);
        self.push_neighbor(&mut found, c, 1, 1);
        found
    }

    /// The first cell, reading row by row, that shows no mine around it, or
    /// nothing if the board has no such cell.
    pub fn first_empty(&self) -> (r: Option<Coordinates>)
        requires
            self.wf(),
        ensures
            match r {
                Some(c) => self@.is_first_empty(c),
                None => self@.has_no_empty(),
            },
    {
        let width = self.tiles.width();
        let height = self.tiles.height();
        let mut y: u16 = 0;
        while y < height
            invariant
                self.wf(),
                width == self@.width,
                height == self@.height,
                y <= height,
                forall|d: Coordinates|
                    d.x < width && d.y < y ==> !(#[trigger] self@.tile(d) is Empty),
            decreases height - y,
        {
            let mut x: u16 = 0;
            while x < width
                invariant
                    self.wf(),
                    width == self@.width,
                    height == self@.height,
                    y < height,
                    x <= width,
                    forall|d: Coordinates|
                        d.x < width && (d.y < y || (d.y == y && d.x < x)) ==> !(
                        #[trigger] self@.tile(d) is Empty),
                decreases width - x,
            {
                let c = Coordinates { x, y };
                proof {
                    self.tiles.lemma_domain();
                }
                if self.tiles.get(c).is_empty() {
                    return Some(c);
                }
                x = x + 1;
            }
            y = y + 1;
        }
        None
    }
}

} // verus!
