//! A set of cells of one board, with constant-time membership and size.

use crate::coordinates::Coordinates;
use crate::plane::{cells_of, lemma_cells_bound, lemma_cells_len, Plane};
use vstd::prelude::*;

verus! {

/// A set of cells of a `width` by `height` board.
///
/// The set is kept as one mark for each cell of the board, beside the number
/// of marks that are set.
#[derive(Debug, Clone)]
pub struct CellSet {
    marks: Plane<bool>,
    count: usize,
}

impl View for CellSet {
    type V = Set<Coordinates>;

    /// The cells that are in the set.
    closed spec fn view(&self) -> Set<Coordinates> {
        Set::new(|c: Coordinates| self.marks@.dom().contains(c) && self.marks@[c])
    }
}

impl CellSet {
    /// The number of columns of the board.
    pub closed spec fn spec_width(&self) -> nat {
        self.marks.spec_width()
    }

    /// The number of rows of the board.
    pub closed spec fn spec_height(&self) -> nat {
        self.marks.spec_height()
    }

    /// The marks cover the board and the stored size is the size of the set.
    pub closed spec fn wf(&self) -> bool {
        &&& self.marks.wf()
        &&& self@.finite()
        &&& self.count == self@.len()
    }

    /// A well-formed set holds cells of its board only, so it is no larger
    /// than the board.
    pub proof fn lemma_within_board(&self)
        requires
            self.wf(),
        ensures
            self@.subset_of(cells_of(self.spec_width(), self.spec_height())),
            self@.finite(),
            self@.len() <= self.spec_width() * self.spec_height(),
            self.spec_width() <= u16::MAX,
            self.spec_height() <= u16::MAX,
            self.spec_width() * self.spec_height() <= u32::MAX,
    {
        self.marks.lemma_domain();
        lemma_cells_bound(self@, self.spec_width(), self.spec_height());
        crate::plane::lemma_area_bound(self.spec_width() as int, self.spec_height() as int);
    }

    /// The empty set of cells of a `width` by `height` board.
    pub fn empty(width: u16, height: u16) -> (r: CellSet)
        ensures
            r.wf(),
            r.spec_width() == width,
            r.spec_height() == height,
            r@ == Set::<Coordinates>::empty(),
    {
        let r = CellSet { marks: Plane::new(width, height, false), count: 0 };
        assert(r@ =~= Set::<Coordinates>::empty());
        r
    }

    /// The set of all cells of a `width` by `height` board.
    pub fn full(width: u16, height: u16) -> (r: CellSet)
        ensures
            r.wf(),
            r.spec_width() == width,
            r.spec_height() == height,
            r@ == cells_of(width as nat, height as nat),
    {
        proof {
            crate::plane::lemma_area_bound(width as int, height as int);
            lemma_cells_len(width as nat, height as nat);
        }
        let marks = Plane::new(width, height, true);
        let count: usize = width as usize * height as usize;
        let r = CellSet { marks, count };
        proof {
            r.marks.lemma_domain();
            assert(r@ =~= cells_of(width as nat, height as nat));
        }
        r
    }

    /// The number of columns of the board.
    pub fn width(&self) -> (r: u16)
        ensures
            r == self.spec_width(),
    {
        self.marks.width()
    }

    /// The number of rows of the board.
    pub fn height(&self) -> (r: u16)
        ensures
            r == self.spec_height(),
    {
        self.marks.height()
    }

    /// The number of cells in the set.
    pub fn len(&self) -> (r: usize)
        requires
            self.wf(),
        ensures
            r == self@.len(),
    {
        self.count
    }

    /// Whether `c` is in the set. A position outside the board never is.
    pub fn contains(&self, c: Coordinates) -> (r: bool)
        requires
            self.wf(),
        ensures
            r == self@.contains(c),
    {
        self.marks.in_bounds(c) && self.marks.get(c)
    }

    /// Adds `c` to the set and tells whether the set grew. A position
    /// outside the board is not added.
    pub fn insert(&mut self, c: Coordinates) -> (added: bool)
        requires
            old(self).wf(),
        ensures
            final(self).wf(),
            final(self).spec_width() == old(self).spec_width(),
            final(self).spec_height() == old(self).spec_height(),
            final(self)@ == if c.x < old(self).spec_width() && c.y < old(self).spec_height() {
                old(self)@.insert(c)
            } else {
                old(self)@
            },
            added == (c.x < old(self).spec_width() && c.y < old(self).spec_height() && !old(
                self,
            )@.contains(c)),
    {
        proof {
            self.marks.lemma_domain();
        }
        if !self.marks.in_bounds(c) {
            false
        } else if self.marks.get(c) {
            assert(self@ =~= old(self)@.insert(c));
            false
        } else {
            self.marks.set(c, true);
            proof {
                self.marks.lemma_domain();
                assert(self@ =~= old(self)@.insert(c));
                lemma_cells_bound(self@, self.spec_width(), self.spec_height());
                crate::plane::lemma_area_bound(
                    self.spec_width() as int,
                    self.spec_height() as int,
                );
            }
            self.count = self.count + 1;
            true
        }
    }

    /// Takes `c` out of the set and tells whether it was in it.
    pub fn remove(&mut self, c: Coordinates) -> (removed: bool)
        requires
            old(self).wf(),
        ensures
            final(self).wf(),
            final(self).spec_width() == old(self).spec_width(),
            final(self).spec_height() == old(self).spec_height(),
            final(self)@ == old(self)@.remove(c),
            removed == old(self)@.contains(c),
    {
        if self.marks.in_bounds(c) && self.marks.get(c) {
            self.marks.set(c, false);
            assert(self@ =~= old(self)@.remove(c));
            self.count = self.count - 1;
            true
        } else {
            assert(self@ =~= old(self)@.remove(c));
            false
        }
    }
}

} // verus!
