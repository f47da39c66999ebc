//! A dense rectangular array addressed by [`Coordinates`].
//!
//! All arithmetic that turns a coordinate into a position in memory lives in
//! this module; the rest of the crate reasons about a [`Plane`] through its
//! view, a map from coordinates to values.

use crate::coordinates::Coordinates;
use vstd::prelude::*;
use vstd::set_lib::lemma_len_subset;

verus! {

/// The cells of a `width` by `height` board.
pub open spec fn cells_of(width: nat, height: nat) -> Set<Coordinates> {
    Set::new(|c: Coordinates| c.x < width && c.y < height)
}

/// The first `count` cells of row `y`.
pub open spec fn row_prefix(count: nat, y: u16) -> Set<Coordinates> {
    Set::new(|c: Coordinates| c.x < count && c.y == y)
}

/// A row prefix is finite and holds as many cells as it is long.
pub proof fn lemma_row_prefix_len(count: nat, y: u16)
    requires
        count <= u16::MAX + 1,
    ensures
        row_prefix(count, y).finite(),
        row_prefix(count, y).len() == count,
    decreases count,
{
    if count == 0 {
        assert(row_prefix(count, y) =~= Set::empty());
    } else {
        let before = (count - 1) as nat;
        lemma_row_prefix_len(before, y);
        let last = Coordinates { x: before as u16, y };
        assert(row_prefix(count, y) =~= row_prefix(before, y).insert(last));
    }
}

/// A board is finite and holds `width * height` cells.
pub proof fn lemma_cells_len(width: nat, height: nat)
    requires
        width <= u16::MAX + 1,
        height <= u16::MAX + 1,
    ensures
        cells_of(width, height).finite(),
        cells_of(width, height).len() == width * height,
    decreases height,
{
    if height == 0 {
        assert(cells_of(width, height) =~= Set::empty());
        assert(width * height == 0) by (nonlinear_arith)
            requires
                height == 0,
        ;
    } else {
        let above = (height - 1) as nat;
        lemma_cells_len(width, above);
        lemma_row_prefix_len(width, above as u16);
        let row = row_prefix(width, above as u16);
        let rest = cells_of(width, above);
        assert(cells_of(width, height) =~= rest.union(row));
        assert(rest.disjoint(row));
        vstd::set_lib::lemma_set_disjoint_lens(rest, row);
        assert(width * height == width * above + width) by (nonlinear_arith)
            requires
                height == above + 1,
        ;
    }
}

/// A finite set of cells of a board holds at most `width * height` cells.
pub proof fn lemma_cells_bound(cells: Set<Coordinates>, width: nat, height: nat)
    requires
        width <= u16::MAX + 1,
        height <= u16::MAX + 1,
        cells.subset_of(cells_of(width, height)),
    ensures
        cells.finite(),
        cells.len() <= width * height,
{
    lemma_cells_len(width, height);
    lemma_len_subset(cells, cells_of(width, height));
}

/// The position of cell `c` in the row-major order of a board `width` wide.
pub open spec fn cell_index(width: int, c: Coordinates) -> int {
    c.y * width + c.x
}

/// A cell of the board has a position below `width * height`.
pub proof fn lemma_cell_index_bound(width: int, height: int, c: Coordinates)
    requires
        c.x < width <= u16::MAX,
        c.y < height <= u16::MAX,
    ensures
        0 <= cell_index(width, c) < width * height,
        width * height <= u16::MAX * u16::MAX,
{
    let y = c.y as int;
    assert(y * width + width <= height * width) by (nonlinear_arith)
        requires
            0 <= y < height,
            0 <= width,
    ;
    assert(0 <= y * width) by (nonlinear_arith)
        requires
            0 <= y,
            0 <= width,
    ;
    assert(height * width == width * height) by (nonlinear_arith);
    lemma_area_bound(width, height);
}

/// The area of a board whose sides fit in 16 bits fits in 32 bits.
pub proof fn lemma_area_bound(width: int, height: int)
    requires
        0 <= width <= u16::MAX,
        0 <= height <= u16::MAX,
    ensures
        0 <= width * height <= u16::MAX * u16::MAX,
        u16::MAX * u16::MAX < u32::MAX,
        u32::MAX <= usize::MAX,
{
    assert(0 <= width * height <= 65535 * 65535) by (nonlinear_arith)
        requires
            0 <= width <= 65535,
            0 <= height <= 65535,
    ;
}

/// Two cells of one board that share a position are the same cell.
pub proof fn lemma_cell_index_injective(width: int, a: Coordinates, b: Coordinates)
    requires
        a.x < width,
        b.x < width,
        cell_index(width, a) == cell_index(width, b),
    ensures
        a == b,
{
    let ay = a.y as int;
    let by = b.y as int;
    if ay < by {
        assert(ay * width + width <= by * width) by (nonlinear_arith)
            requires
                ay < by,
                0 <= width,
        ;
    } else if by < ay {
        assert(by * width + width <= ay * width) by (nonlinear_arith)
            requires
                by < ay,
                0 <= width,
        ;
    }
}

/// The cell at position `index` in the row-major order of a board `width` wide.
pub open spec fn cell_at(width: int, index: int) -> Coordinates {
    Coordinates { x: (index % width) as u16, y: (index / width) as u16 }
}

/// Every position below `width * height` is the position of one cell of the board.
pub proof fn lemma_cell_at(width: int, height: int, index: int)
    requires
        0 < width <= u16::MAX,
        0 <= height <= u16::MAX,
        0 <= index < width * height,
    ensures
        cell_at(width, index).x == index % width,
        cell_at(width, index).y == index / width,
        cell_at(width, index).x < width,
        cell_at(width, index).y < height,
        cell_index(width, cell_at(width, index)) == index,
{
    vstd::arithmetic::div_mod::lemma_fundamental_div_mod(index, width);
    vstd::arithmetic::div_mod::lemma_mod_pos_bound(index, width);
    vstd::arithmetic::div_mod::lemma_div_pos_is_pos(index, width);
    vstd::arithmetic::div_mod::lemma_multiply_divide_lt(index, width, height);
    let row = index / width;
    assert(width * row == row * width) by (nonlinear_arith);
}

/// The cell at position `index` of a `width` by `height` board.
pub(crate) fn cell_at_index(width: u16, height: u16, index: u32) -> (c: Coordinates)
    requires
        index < width * height,
    ensures
        c == cell_at(width as int, index as int),
        c.x < width,
        c.y < height,
        cell_index(width as int, c) == index,
{
    proof {
        assert(width > 0) by (nonlinear_arith)
            requires
                0 <= index < width * height,
                0 <= width,
        ;
        lemma_cell_at(width as int, height as int, index as int);
    }
    let x = index % (width as u32);
    let y = index / (width as u32);
    Coordinates { x: x as u16, y: y as u16 }
}

/// A `width` by `height` array of values, one for each cell of a board.
#[derive(Debug, Clone)]
pub(crate) struct Plane<T> {
    width: u16,
    height: u16,
    cells: Vec<T>,
}

impl<T> View for Plane<T> {
    type V = Map<Coordinates, T>;

    /// The value held for each cell of the board.
    closed spec fn view(&self) -> Map<Coordinates, T> {
        Map::new(
            |c: Coordinates| c.x < self.width && c.y < self.height,
            |c: Coordinates| self.cells@[cell_index(self.width as int, c)],
        )
    }
}

impl<T: Copy> Plane<T> {
    /// The number of columns.
    pub(crate) closed spec fn spec_width(&self) -> nat {
        self.width as nat
    }

    /// The number of rows.
    pub(crate) closed spec fn spec_height(&self) -> nat {
        self.height as nat
    }

    /// The array holds exactly one value for each cell.
    pub(crate) closed spec fn wf(&self) -> bool {
        self.cells.len() == self.width * self.height
    }

    /// The view is defined on the cells of the board and nowhere else.
    pub(crate) proof fn lemma_domain(&self)
        ensures
            self@.dom() == cells_of(self.spec_width(), self.spec_height()),
            self.spec_width() <= u16::MAX,
            self.spec_height() <= u16::MAX,
    {
        assert(self@.dom() =~= cells_of(self.spec_width(), self.spec_height()));
    }

    /// A plane that holds `fill` for every cell.
    pub(crate) fn new(width: u16, height: u16, fill: T) -> (r: Plane<T>)
        ensures
            r.wf(),
            r.spec_width() == width,
            r.spec_height() == height,
            forall|c: Coordinates| #[trigger] r@.dom().contains(c) ==> r@[c] == fill,
    {
        proof {
            lemma_area_bound(width as int, height as int);
        }
        let total: usize = width as usize * height as usize;
        let mut cells: Vec<T> = Vec::new();
        let mut filled: usize = 0;
        while filled < total
            invariant
                filled <= total,
                cells.len() == filled,
                forall|i: int| 0 <= i < filled ==> cells@[i] == fill,
            decreases total - filled,
        {
            cells.push(fill);
            filled = filled + 1;
        }
        let r = Plane { width, height, cells };
        proof {
            assert forall|c: Coordinates| #[trigger] r@.dom().contains(c) implies r@[c] == fill by {
                lemma_cell_index_bound(width as int, height as int, c);
            }
        }
        r
    }

    /// The number of columns.
    pub(crate) fn width(&self) -> (r: u16)
        ensures
            r == self.spec_width(),
    {
        self.width
    }

    /// The number of rows.
    pub(crate) fn height(&self) -> (r: u16)
        ensures
            r == self.spec_height(),
    {
        self.height
    }

    /// Whether `c` is a cell of the board.
    pub(crate) fn in_bounds(&self, c: Coordinates) -> (r: bool)
        ensures
            r == self@.dom().contains(c),
            r == (c.x < self.spec_width() && c.y < self.spec_height()),
    {
        c.x < self.width && c.y < self.height
    }

    /// The value held for cell `c`.
    pub(crate) fn get(&self, c: Coordinates) -> (r: T)
        requires
            self.wf(),
            self@.dom().contains(c),
        ensures
            r == self@[c],
    {
        proof {
            lemma_cell_index_bound(self.width as int, self.height as int, c);
        }
        let at: usize = c.y as usize * self.width as usize + c.x as usize;
        self.cells[at]
    }

    /// Replaces the value held for cell `c` and leaves every other cell alone.
    pub(crate) fn set(&mut self, c: Coordinates, value: T)
        requires
            old(self).wf(),
            old(self)@.dom().contains(c),
        ensures
            final(self).wf(),
            final(self).spec_width() == old(self).spec_width(),
            final(self).spec_height() == old(self).spec_height(),
            final(self)@ == old(self)@.insert(c, value),
    {
        proof {
            lemma_cell_index_bound(self.width as int, self.height as int, c);
        }
        let at: usize = c.y as usize * self.width as usize + c.x as usize;
        self.cells.set(at, value);
        proof {
            let width = self.width as int;
            let before = old(self)@;
            assert forall|d: Coordinates| #[trigger] self@.dom().contains(d) implies self@[d]
                == before.insert(c, value)[d] by {
                lemma_cell_index_bound(width, self.height as int, d);
                if d != c {
                    if cell_index(width, d) == cell_index(width, c) {
                        lemma_cell_index_injective(width, d, c);
                    }
                }
            }
            assert(self@ =~= old(self)@.insert(c, value));
        }
    }
}

} // verus!
