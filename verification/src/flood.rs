//! Facts about the cells that a reveal uncovers.

use crate::coordinates::Coordinates;
use crate::state::BoardView;
use crate::tile::Tile;
use vstd::prelude::*;

verus! {

impl BoardView {
    /// A reveal at a cell that may be uncovered uncovers that cell.
    pub proof fn lemma_region_holds_start(self, start: Coordinates)
        requires
            self.is_revealable(start),
        ensures
            self.flood_region(start).contains(start),
    {
        let path = seq![start];
        assert(self.reaches(start, start, path));
    }

    /// A reveal that uncovers `c` uncovers every cell that `c` passes it on to.
    pub proof fn lemma_region_step(self, start: Coordinates, c: Coordinates, d: Coordinates)
        requires
            self.flood_region(start).contains(c),
            self.spreads(c, d),
        ensures
            self.flood_region(start).contains(d),
    {
        let path = choose|path: Seq<Coordinates>| self.reaches(start, c, path);
        let longer = path.push(d);
        assert forall|i: int| 0 <= i < longer.len() - 1 implies #[trigger] self.links(
            longer,
            i,
        ) by {
            if i < path.len() - 1 {
                assert(self.links(path, i));
            }
        }
        assert(self.reaches(start, d, longer));
    }

    /// Every cell on a way of a reveal may be uncovered.
    pub proof fn lemma_path_is_revealable(self, path: Seq<Coordinates>, k: int)
        requires
            self.is_flood_path(path),
            0 <= k < path.len(),
        ensures
            self.is_revealable(path[k]),
    {
        if k > 0 {
            assert(self.links(path, k - 1));
        }
    }

    /// A reveal uncovers only cells that are covered and not flagged.
    pub proof fn lemma_region_is_revealable(self, start: Coordinates, c: Coordinates)
        requires
            self.flood_region(start).contains(c),
        ensures
            self.is_revealable(c),
            self.is_revealable(start),
    {
        let path = choose|path: Seq<Coordinates>| self.reaches(start, c, path);
        self.lemma_path_is_revealable(path, path.len() - 1);
    }

    /// A reveal at a cell that is flagged or already uncovered uncovers nothing.
    pub proof fn lemma_region_of_blocked(self, start: Coordinates)
        requires
            !self.is_revealable(start),
        ensures
            self.flood_region(start) == Set::<Coordinates>::empty(),
            self.after_reveal(start) == self,
    {
        assert forall|c: Coordinates| !self.flood_region(start).contains(c) by {
            if self.flood_region(start).contains(c) {
                self.lemma_region_is_revealable(start, c);
            }
        }
        assert(self.flood_region(start) =~= Set::<Coordinates>::empty());
        assert(self.after_reveal(start).covered =~= self.covered);
    }

    /// A reveal at a cell that shows a mine or a number uncovers that cell alone.
    pub proof fn lemma_region_of_boundary(self, start: Coordinates)
        requires
            self.is_revealable(start),
            !(self.grid.tile(start) is Empty),
        ensures
            self.flood_region(start) == set![start],
    {
        self.lemma_region_holds_start(start);
        assert forall|c: Coordinates| self.flood_region(start).contains(c) implies c == start by {
            let path = choose|path: Seq<Coordinates>| self.reaches(start, c, path);
            if path.len() > 1 {
                assert(self.links(path, 0));
            }
        }
        assert(self.flood_region(start) =~= set![start]);
    }

    /// A list that starts with the first cell of a way and is closed holds
    /// every cell of the way.
    pub proof fn lemma_closed_holds_path(
        self,
        found: Seq<Coordinates>,
        path: Seq<Coordinates>,
        k: int,
    )
        requires
            self.is_flood_path(path),
            found.len() > 0,
            found[0] == path[0],
            self.is_closed_upto(found, found.len() as int),
            0 <= k < path.len(),
        ensures
            found.contains(path[k]),
        decreases k,
    {
        if k > 0 {
            self.lemma_closed_holds_path(found, path, k - 1);
            let i = choose|i: int| 0 <= i < found.len() && found[i] == path[k - 1];
            assert(self.links(path, k - 1));
            assert(self.spreads(found[i], path[k]));
        }
    }

    /// A list of cells of the region that starts with `start` and is closed
    /// lists the region of a reveal at `start`.
    pub proof fn lemma_closed_is_region(self, start: Coordinates, found: Seq<Coordinates>)
        requires
            found.len() > 0,
            found[0] == start,
            self.is_closed_upto(found, found.len() as int),
            forall|i: int|
                0 <= i < found.len() ==> self.flood_region(start).contains(#[trigger] found[i]),
        ensures
            found.to_set() == self.flood_region(start),
    {
        assert forall|c: Coordinates| self.flood_region(start).contains(c) implies found.contains(
            c,
        ) by {
            let path = choose|path: Seq<Coordinates>| self.reaches(start, c, path);
            self.lemma_closed_holds_path(found, path, path.len() - 1);
        }
        assert(found.to_set() =~= self.flood_region(start));
    }

    /// Nothing that a reveal uncovers holds a mine, but for the cell at which
    /// it started.
    pub proof fn lemma_region_is_safe(self, start: Coordinates, c: Coordinates)
        requires
            self.wf(),
            self.flood_region(start).contains(c),
            c != start,
        ensures
            !self.grid.mines.contains(c),
    {
        let path = choose|path: Seq<Coordinates>| self.reaches(start, c, path);
        let last = path.len() - 1;
        assert(last > 0);
        assert(self.links(path, last - 1));
        self.grid.lemma_empty_has_safe_neighbors(path[last - 1], c);
    }

    /// A reveal keeps the state well-formed.
    pub proof fn lemma_after_reveal_wf(self, start: Coordinates)
        requires
            self.wf(),
        ensures
            self.after_reveal(start).wf(),
    {
        assert forall|c: Coordinates| self.flagged.contains(c) implies self.after_reveal(
            start,
        ).covered.contains(c) by {
            if self.flood_region(start).contains(c) {
                self.lemma_region_is_revealable(start, c);
            }
        }
    }

    /// `found` lists cells that a reveal at `start` uncovers, `start` first
    /// and none twice, and the cells before position `head` have handed the
    /// reveal on.
    pub open spec fn is_flood_prefix(
        self,
        start: Coordinates,
        found: Seq<Coordinates>,
        head: int,
    ) -> bool {
        &&& 0 <= head <= found.len()
        &&& found.len() > 0
        &&& found[0] == start
        &&& found.no_duplicates()
        &&& forall|i: int|
            0 <= i < found.len() ==> self.flood_region(start).contains(#[trigger] found[i])
        &&& self.is_closed_upto(found, head)
    }

    /// Handing the reveal on from `c` to `neighbors` keeps what is listed,
    /// lists no cell twice and no cell beyond the reach of the reveal, and
    /// lists every neighbour that may be uncovered.
    pub proof fn lemma_handed_on(
        self,
        start: Coordinates,
        found: Seq<Coordinates>,
        c: Coordinates,
        neighbors: Seq<Coordinates>,
    )
        requires
            found.no_duplicates(),
            forall|i: int|
                0 <= i < found.len() ==> self.flood_region(start).contains(#[trigger] found[i]),
            self.flood_region(start).contains(c),
            self.grid.tile(c) is Empty,
            forall|j: int| 0 <= j < neighbors.len() ==> c.is_adjacent(#[trigger] neighbors[j]),
        ensures
            self.handed_on(found, neighbors).len() >= found.len(),
            forall|i: int|
                0 <= i < found.len() ==> #[trigger] self.handed_on(found, neighbors)[i] == found[i],
            self.handed_on(found, neighbors).no_duplicates(),
            forall|i: int|
                0 <= i < self.handed_on(found, neighbors).len() ==> self.flood_region(
                    start,
                ).contains(#[trigger] self.handed_on(found, neighbors)[i]),
            forall|j: int|
                0 <= j < neighbors.len() && self.is_revealable(#[trigger] neighbors[j])
                    ==> self.handed_on(found, neighbors).contains(neighbors[j]),
        decreases neighbors.len(),
    {
        if neighbors.len() > 0 {
            let rest = neighbors.drop_last();
            let d = neighbors.last();
            let before = self.handed_on(found, rest);
            let after = self.handed_on(found, neighbors);
            assert forall|j: int| 0 <= j < rest.len() implies c.is_adjacent(
                #[trigger] rest[j],
            ) by {
                assert(rest[j] == neighbors[j]);
            }
            self.lemma_handed_on(start, found, c, rest);
            if self.is_revealable(d) && !before.contains(d) {
                assert(c.is_adjacent(neighbors[neighbors.len() - 1]));
                self.lemma_region_is_revealable(start, c);
                self.lemma_region_step(start, c, d);
                assert(after[before.len() as int] == d);
            }
            assert forall|j: int|
                0 <= j < neighbors.len() && self.is_revealable(
                    #[trigger] neighbors[j],
                ) implies after.contains(neighbors[j]) by {
                if j < rest.len() {
                    assert(rest[j] == neighbors[j]);
                    let i = choose|i: int| 0 <= i < before.len() && before[i] == neighbors[j];
                    assert(after[i] == neighbors[j]);
                } else if before.contains(d) {
                    let i = choose|i: int| 0 <= i < before.len() && before[i] == d;
                    assert(after[i] == d);
                }
            }
        }
    }

    /// One round of a reveal keeps its list in order: after the cell at
    /// `head` has handed the reveal on, the cells up to it are done.
    pub proof fn lemma_flood_step(self, start: Coordinates, found: Seq<Coordinates>, head: int)
        requires
            self.wf(),
            self.is_flood_prefix(start, found, head),
            head < found.len(),
        ensures
            self.is_flood_prefix(start, self.flood_step(found, head), head + 1),
    {
        let c = found[head];
        let after = self.flood_step(found, head);
        if self.grid.tile(c) is Empty {
            let neighbors = self.grid.neighbors(c);
            assert forall|j: int| 0 <= j < neighbors.len() implies c.is_adjacent(
                #[trigger] neighbors[j],
            ) by {
                assert(neighbors.contains(neighbors[j]));
                self.grid.lemma_neighbors(c, neighbors[j]);
            }
            self.lemma_handed_on(start, found, c, neighbors);
        }
        assert forall|i: int, d: Coordinates|
            0 <= i < head + 1 && #[trigger] self.spreads(after[i], d) implies after.contains(
            d,
        ) by {
            assert(after[i] == found[i]);
            if i < head {
                let k = choose|k: int| 0 <= k < found.len() && found[k] == d;
                assert(after[k] == d);
            } else {
                self.grid.lemma_neighbors(c, d);
                let neighbors = self.grid.neighbors(c);
                let j = choose|j: int| 0 <= j < neighbors.len() && neighbors[j] == d;
                assert(self.is_revealable(neighbors[j]));
            }
        }
    }

    /// A list of distinct cells that a reveal uncovers is no longer than the
    /// number of covered cells.
    pub proof fn lemma_flood_prefix_len(
        self,
        start: Coordinates,
        found: Seq<Coordinates>,
        head: int,
    )
        requires
            self.covered.finite(),
            self.is_flood_prefix(start, found, head),
        ensures
            found.len() <= self.covered.len(),
    {
        found.unique_seq_to_set();
        assert forall|c: Coordinates| found.to_set().contains(c) implies self.covered.contains(
            c,
        ) by {
            let i = choose|i: int| 0 <= i < found.len() && found[i] == c;
            self.lemma_region_is_revealable(start, found[i]);
        }
        vstd::set_lib::lemma_len_subset(found.to_set(), self.covered);
    }

    /// Enough rounds bring a reveal to its end: every listed cell has handed
    /// the reveal on.
    pub proof fn lemma_flood_from(
        self,
        start: Coordinates,
        found: Seq<Coordinates>,
        head: int,
        rounds: nat,
    )
        requires
            self.wf(),
            self.covered.finite(),
            self.is_flood_prefix(start, found, head),
            rounds >= self.covered.len() - head,
        ensures
            self.is_flood_prefix(
                start,
                self.flood_from(found, head, rounds),
                self.flood_from(found, head, rounds).len() as int,
            ),
        decreases rounds,
    {
        self.lemma_flood_prefix_len(start, found, head);
        if rounds == 0 || head >= found.len() {
        } else {
            self.lemma_flood_step(start, found, head);
            self.lemma_flood_from(
                start,
                self.flood_step(found, head),
                head + 1,
                (rounds - 1) as nat,
            );
        }
    }

    /// The order of a reveal lists the cells that the reveal uncovers, each
    /// once and the cell at which it starts first.
    pub proof fn lemma_flood_order_lists_region(self, start: Coordinates)
        requires
            self.wf(),
            self.covered.finite(),
        ensures
            self.flood_order(start).no_duplicates(),
            self.flood_order(start).to_set() == self.flood_region(start),
            self.flood_order(start).len() == self.flood_region(start).len(),
            self.is_revealable(start) ==> self.flood_order(start).len() > 0 && self.flood_order(
                start,
            )[0] == start,
    {
        let order = self.flood_order(start);
        if self.is_revealable(start) {
            let first = seq![start];
            self.lemma_region_holds_start(start);
            assert(self.is_flood_prefix(start, first, 0));
            self.lemma_flood_from(start, first, 0, self.covered.len());
            self.lemma_closed_is_region(start, order);
        } else {
            self.lemma_region_of_blocked(start);
            assert(order.to_set() =~= Set::<Coordinates>::empty());
        }
        order.unique_seq_to_set();
    }
}

} // verus!
