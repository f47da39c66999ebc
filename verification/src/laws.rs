//! What holds of every game, proved from the model of the moves.

use crate::coordinates::Coordinates;
use crate::grid::{lemma_sampled_mines, sampled_mines, GridView};
use crate::plane::lemma_cells_bound;
use crate::state::{BoardView, Move};
use crate::tile::Tile;
use vstd::prelude::*;

verus! {

/// A generated board holds exactly as many mines as were asked for, and
/// every other cell is safe, whatever the random source hands out.
pub proof fn law_generation_places_the_mines_asked_for(
    width: nat,
    height: nat,
    mine_count: nat,
    seed: u64,
)
    requires
        0 < width <= u16::MAX,
        0 < height <= u16::MAX,
        mine_count <= width * height,
    ensures
        ({
            let grid = GridView {
                width,
                height,
                mines: sampled_mines(width, height, mine_count, seed),
            };
            &&& grid.wf()
            &&& grid.mine_count() == mine_count
            &&& grid.safe_cells().len() == width * height - mine_count
        }),
{
    lemma_sampled_mines(width, height, mine_count, seed);
    let grid = GridView { width, height, mines: sampled_mines(width, height, mine_count, seed) };
    grid.lemma_counts();
}

/// A safe cell shows the number of mines that touch it by a side or a
/// corner: nothing for none, else that number, which is at most eight. The
/// board does not wrap around, so only cells next to it are counted.
pub proof fn law_tile_counts_adjacent_mines(grid: GridView, c: Coordinates)
    requires
        grid.wf(),
        !grid.mines.contains(c),
    ensures
        grid.mined_neighbors(c).finite(),
        grid.mined_neighbors(c).len() <= 8,
        grid.tile(c) == Tile::spec_for_count(grid.mined_neighbors(c).len()),
        grid.tile(c) is Empty <==> grid.mined_neighbors(c) == Set::<Coordinates>::empty(),
        grid.tile(c) matches Tile::Adjacent(n) ==> n == grid.mined_neighbors(c).len() && n >= 1,
{
    grid.lemma_adjacent_mines_is_a_count(c);
    grid.lemma_tile(c);
    if grid.mined_neighbors(c).len() == 0 {
        assert(grid.mined_neighbors(c) =~= Set::<Coordinates>::empty());
    }
}

/// A cell that holds a mine shows the mine, whatever is around it.
pub proof fn law_mine_shows_mine(grid: GridView, c: Coordinates)
    ensures
        grid.tile(c) is Mine <==> grid.mines.contains(c),
{
    grid.lemma_tile(c);
}

/// A reveal at a cell that is already uncovered changes nothing and
/// uncovers nothing.
pub proof fn law_reveal_of_uncovered_is_noop(s: BoardView, c: Coordinates)
    requires
        !s.covered.contains(c),
    ensures
        s.flood_region(c) == Set::<Coordinates>::empty(),
        s.after_reveal(c) == s,
{
    s.lemma_region_of_blocked(c);
}

/// A reveal at a flagged cell changes nothing and uncovers nothing.
pub proof fn law_reveal_of_flagged_is_noop(s: BoardView, c: Coordinates)
    requires
        s.flagged.contains(c),
    ensures
        s.flood_region(c) == Set::<Coordinates>::empty(),
        s.after_reveal(c) == s,
{
    s.lemma_region_of_blocked(c);
}

/// The outcome of a reveal lists what the reveal uncovers: each cell once,
/// and as many cells as leave the covered ones.
pub proof fn law_reveal_lists_what_it_uncovers(s: BoardView, start: Coordinates)
    requires
        s.wf(),
    ensures
        s.flood_order(start).no_duplicates(),
        s.flood_order(start).to_set() == s.flood_region(start),
        s.flood_region(start).subset_of(s.covered),
        s.after_reveal(start).covered_count() == s.covered_count() - s.flood_order(start).len(),
{
    lemma_cells_bound(s.covered, s.grid.width, s.grid.height);
    s.lemma_flood_order_lists_region(start);
    assert forall|c: Coordinates| s.flood_region(start).contains(c) implies s.covered.contains(
        c,
    ) by {
        s.lemma_region_is_revealable(start, c);
    }
    vstd::set_lib::lemma_set_difference_len(s.covered, s.flood_region(start));
    assert(s.covered.intersect(s.flood_region(start)) =~= s.flood_region(start));
}

/// A second reveal at the same cell changes nothing.
pub proof fn law_reveal_is_idempotent(s: BoardView, c: Coordinates)
    ensures
        s.after_reveal(c).after_reveal(c) == s.after_reveal(c),
{
    let once = s.after_reveal(c);
    if s.is_revealable(c) {
        s.lemma_region_holds_start(c);
        once.lemma_region_of_blocked(c);
    } else {
        s.lemma_region_of_blocked(c);
        once.lemma_region_of_blocked(c);
    }
}

/// A reveal never uncovers a flagged cell and never takes a flag away.
pub proof fn law_reveal_spares_flags(s: BoardView, start: Coordinates, c: Coordinates)
    requires
        s.wf(),
        s.flagged.contains(c),
    ensures
        !s.flood_region(start).contains(c),
        s.after_reveal(start).covered.contains(c),
        s.after_reveal(start).flagged.contains(c),
{
    if s.flood_region(start).contains(c) {
        s.lemma_region_is_revealable(start, c);
    }
}

/// A flag is a firebreak: once a covered cell is flagged, no reveal
/// uncovers it, wherever the reveal starts.
pub proof fn law_flag_is_firebreak(s: BoardView, flag: Coordinates, start: Coordinates)
    requires
        s.wf(),
        s.covered.contains(flag),
        !s.flagged.contains(flag),
    ensures
        s.after_toggle(flag).flagged.contains(flag),
        s.after_toggle(flag).after_reveal(start).covered.contains(flag),
        s.after_toggle(flag).after_reveal(start).flagged.contains(flag),
{
    let flagged = s.after_toggle(flag);
    law_reveal_spares_flags(flagged, start, flag);
}

/// A reveal reaches a cell other than the one it started at only from an
/// uncovered neighbour that shows no mine around it: it never passes
/// through a cell that shows a number.
pub proof fn law_reveal_passes_through_empty_cells_only(
    s: BoardView,
    start: Coordinates,
    c: Coordinates,
)
    requires
        s.flood_region(start).contains(c),
        c != start,
    ensures
        exists|d: Coordinates|
            #![trigger s.flood_region(start).contains(d)]
            s.flood_region(start).contains(d) && s.grid.tile(d) is Empty && d.is_adjacent(c),
{
    let path = choose|path: Seq<Coordinates>| s.reaches(start, c, path);
    let last = path.len() - 1;
    assert(s.links(path, last - 1));
    let d = path[last - 1];
    let shorter = path.take(last);
    assert forall|i: int| 0 <= i < shorter.len() - 1 implies #[trigger] s.links(shorter, i) by {
        assert(s.links(path, i));
    }
    assert(s.reaches(start, d, shorter));
    assert(s.flood_region(start).contains(d));
}

/// Cells that show a number bound a reveal: if no cell of `inside` that
/// touches a cell beyond `inside` is empty, a reveal that starts in
/// `inside` uncovers nothing beyond it.
pub proof fn law_numbered_border_bounds_reveal(
    s: BoardView,
    start: Coordinates,
    inside: Set<Coordinates>,
)
    requires
        inside.contains(start),
        forall|a: Coordinates, b: Coordinates|
            inside.contains(a) && !inside.contains(b) && #[trigger] a.is_adjacent(b) ==> !(
            s.grid.tile(a) is Empty),
    ensures
        s.flood_region(start).subset_of(inside),
{
    assert forall|c: Coordinates| s.flood_region(start).contains(c) implies inside.contains(c) by {
        let path = choose|path: Seq<Coordinates>| s.reaches(start, c, path);
        lemma_path_stays_inside(s, path, inside, path.len() - 1);
    }
}

/// A way of a reveal that starts in `inside` stays in it if the border of
/// `inside` holds no empty cell.
proof fn lemma_path_stays_inside(
    s: BoardView,
    path: Seq<Coordinates>,
    inside: Set<Coordinates>,
    k: int,
)
    requires
        s.is_flood_path(path),
        inside.contains(path[0]),
        forall|a: Coordinates, b: Coordinates|
            inside.contains(a) && !inside.contains(b) && #[trigger] a.is_adjacent(b) ==> !(
            s.grid.tile(a) is Empty),
        0 <= k < path.len(),
    ensures
        inside.contains(path[k]),
    decreases k,
{
    if k > 0 {
        lemma_path_stays_inside(s, path, inside, k - 1);
        assert(s.links(path, k - 1));
    }
}

/// A reveal at a covered, unflagged mine uncovers that mine and nothing else.
pub proof fn law_mine_reveal_uncovers_the_mine_alone(s: BoardView, c: Coordinates)
    requires
        s.detonates(c),
    ensures
        s.flood_region(c) == set![c],
        s.after_reveal(c).covered == s.covered.remove(c),
{
    s.lemma_region_of_boundary(c);
    assert(s.after_reveal(c).covered =~= s.covered.remove(c));
}

/// A reveal that starts at a safe cell uncovers no mine.
pub proof fn law_safe_reveal_uncovers_no_mine(s: BoardView, start: Coordinates, c: Coordinates)
    requires
        s.wf(),
        !s.grid.mines.contains(start),
        s.flood_region(start).contains(c),
    ensures
        !s.grid.mines.contains(c),
{
    if c != start {
        s.lemma_region_is_safe(start, c);
    }
}

/// While every mine is still covered, the game is won exactly when the
/// covered cells are the mines, that is when every safe cell is revealed.
pub proof fn law_won_when_all_safe_cells_revealed(s: BoardView)
    requires
        s.wf(),
        s.grid.mines.subset_of(s.covered),
    ensures
        s.is_won() <==> s.covered == s.grid.mines,
        s.is_won() <==> s.grid.safe_cells().disjoint(s.covered),
{
    s.grid.lemma_counts();
    vstd::set_lib::lemma_len_subset(s.covered, s.grid.cells());
    if s.is_won() {
        vstd::set_lib::lemma_subset_equality(s.grid.mines, s.covered);
    }
    if s.grid.safe_cells().disjoint(s.covered) {
        assert(s.covered =~= s.grid.mines);
    }
}

/// Whatever is played, the state stays well-formed, the minefield stays as
/// it is, no cell is covered again, and the game counts as won exactly when
/// as many cells are covered as there are mines.
pub proof fn law_play_keeps_the_board_in_order(s: BoardView, moves: Seq<Move>)
    requires
        s.wf(),
    ensures
        s.after_moves(moves).wf(),
        s.after_moves(moves).grid == s.grid,
        s.after_moves(moves).covered.subset_of(s.covered),
        s.after_moves(moves).is_won() <==> s.after_moves(moves).covered_count()
            == s.grid.mine_count(),
    decreases moves.len(),
{
    if moves.len() > 0 {
        let before = s.after_moves(moves.drop_last());
        law_play_keeps_the_board_in_order(s, moves.drop_last());
        match moves.last() {
            Move::Reveal(c) => {
                before.lemma_after_reveal_wf(c);
            },
            Move::ToggleFlag(c) => {
                law_toggle_keeps_covers(before, c);
            },
        }
    }
}

/// As long as no reveal is aimed at a mine, every mine stays covered, and
/// the game is won exactly when every safe cell is revealed.
pub proof fn law_safe_play_wins_by_revealing_all_safe_cells(s: BoardView, moves: Seq<Move>)
    requires
        s.wf(),
        s.grid.mines.subset_of(s.covered),
        forall|i: int|
            0 <= i < moves.len() ==> (#[trigger] moves[i] matches Move::Reveal(c)
                ==> !s.grid.mines.contains(c)),
    ensures
        s.after_moves(moves).wf(),
        s.grid.mines.subset_of(s.after_moves(moves).covered),
        s.after_moves(moves).is_won() <==> s.after_moves(moves).covered == s.grid.mines,
    decreases moves.len(),
{
    law_play_keeps_the_board_in_order(s, moves);
    if moves.len() > 0 {
        let earlier = moves.drop_last();
        let before = s.after_moves(earlier);
        assert forall|i: int| 0 <= i < earlier.len() implies (#[trigger] earlier[i] matches
            Move::Reveal(c) ==> !s.grid.mines.contains(c)) by {
            assert(earlier[i] == moves[i]);
        }
        law_safe_play_wins_by_revealing_all_safe_cells(s, earlier);
        law_play_keeps_the_board_in_order(s, earlier);
        match moves.last() {
            Move::Reveal(start) => {
                assert(moves[moves.len() - 1] == moves.last());
                assert forall|c: Coordinates| s.grid.mines.contains(c) implies s.after_moves(
                    moves,
                ).covered.contains(c) by {
                    if before.flood_region(start).contains(c) {
                        law_safe_reveal_uncovers_no_mine(before, start, c);
                    }
                }
            },
            Move::ToggleFlag(c) => {},
        }
    }
    law_won_when_all_safe_cells_revealed(s.after_moves(moves));
}

/// Toggling the flag of a cell twice gives back the state before.
pub proof fn law_toggle_twice_restores(s: BoardView, c: Coordinates)
    ensures
        s.after_toggle(c).after_toggle(c) == s,
{
    let twice = s.after_toggle(c).after_toggle(c);
    assert(twice.flagged =~= s.flagged);
}

/// Toggling a flag changes neither the minefield nor the covered cells, so
/// it never decides whether the game is won.
pub proof fn law_toggle_keeps_covers(s: BoardView, c: Coordinates)
    ensures
        s.after_toggle(c).grid == s.grid,
        s.after_toggle(c).covered == s.covered,
        s.after_toggle(c).is_won() == s.is_won(),
        s.wf() ==> s.after_toggle(c).wf(),
{
}

/// At the start of a game every cell is covered and none is flagged, and the
/// state is well-formed.
pub proof fn law_initial_state(s: BoardView)
    requires
        s.grid.wf(),
        s == BoardView::initial(s.grid),
    ensures
        s.wf(),
        s.covered_count() == s.grid.width * s.grid.height,
        forall|c: Coordinates| s.grid.in_bounds(c) ==> s.is_revealable(c),
{
    s.grid.lemma_counts();
}

} // verus!
