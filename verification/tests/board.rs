use board_plugin::{
    create_board, Board, BoardError, BoardOptions, CellSet, Coordinates, FlagOutcome, Grid,
    RandomSource, RevealOutcome, Tile,
};

fn at(x: u16, y: u16) -> Coordinates {
    Coordinates { x, y }
}

fn board_with_mines(width: u16, height: u16, mines: &[(u16, u16)]) -> Board {
    let mut set = CellSet::empty(width, height);
    for &(x, y) in mines {
        assert!(set.insert(at(x, y)));
    }
    Board::new(Grid::from_mines(&set).unwrap())
}

fn sorted(cells: &[Coordinates]) -> Vec<Coordinates> {
    let mut cells = cells.to_vec();
    cells.sort();
    cells
}

fn covered_cells(board: &Board) -> Vec<Coordinates> {
    let mut cells = Vec::new();
    for y in 0..board.grid().height() {
        for x in 0..board.grid().width() {
            if board.is_covered(at(x, y)) {
                cells.push(at(x, y));
            }
        }
    }
    cells
}

fn flagged_cells(board: &Board) -> Vec<Coordinates> {
    let mut cells = Vec::new();
    for y in 0..board.grid().height() {
        for x in 0..board.grid().width() {
            if board.is_flagged(at(x, y)) {
                cells.push(at(x, y));
            }
        }
    }
    cells
}

#[test]
fn single_safe_cell_is_won_by_one_reveal() {
    let mut rng = RandomSource::from_seed(11);
    let grid = Grid::generate(1, 1, 0, &mut rng).unwrap();
    assert_eq!(grid.tile_at(at(0, 0)), Ok(Tile::Empty));
    let mut board = Board::new(grid);
    assert!(!board.is_won());
    assert_eq!(board.reveal_at(at(0, 0)), Ok(RevealOutcome::Win(vec![at(0, 0)])));
    assert!(board.is_won());
    assert_eq!(board.remaining_covered_count(), 0);
}

#[test]
fn two_by_two_with_one_mine_reveals_cell_by_cell() {
    let mut board = board_with_mines(2, 2, &[(1, 0)]);
    assert_eq!(board.tile_at(at(1, 0)), Ok(Tile::Mine));
    for c in [at(0, 0), at(0, 1), at(1, 1)] {
        assert_eq!(board.tile_at(c), Ok(Tile::Adjacent(1)));
    }
    assert_eq!(board.reveal_at(at(0, 0)), Ok(RevealOutcome::Revealed(vec![at(0, 0)])));
    assert_eq!(board.remaining_covered_count(), 3);
    assert_eq!(board.reveal_at(at(1, 1)), Ok(RevealOutcome::Revealed(vec![at(1, 1)])));
    assert_eq!(board.remaining_covered_count(), 2);
    assert!(!board.is_won());
    assert_eq!(board.reveal_at(at(0, 1)), Ok(RevealOutcome::Win(vec![at(0, 1)])));
    assert!(board.is_won());
    assert_eq!(covered_cells(&board), vec![at(1, 0)]);
}

#[test]
fn two_by_two_with_a_generated_mine_has_ones_everywhere_else() {
    for seed in 0..16u64 {
        let mut rng = RandomSource::from_seed(seed);
        let grid = Grid::generate(2, 2, 1, &mut rng).unwrap();
        let mut mine = None;
        for y in 0..2 {
            for x in 0..2 {
                if grid.is_mine(at(x, y)) {
                    assert_eq!(mine, None);
                    mine = Some(at(x, y));
                }
            }
        }
        let mine = mine.unwrap();
        let mut board = Board::new(grid);
        let mut safe = Vec::new();
        for y in 0..2 {
            for x in 0..2 {
                if at(x, y) != mine {
                    assert_eq!(board.tile_at(at(x, y)), Ok(Tile::Adjacent(1)));
                    safe.push(at(x, y));
                }
            }
        }
        assert_eq!(board.reveal_at(safe[0]), Ok(RevealOutcome::Revealed(vec![safe[0]])));
        assert_eq!(board.reveal_at(safe[1]), Ok(RevealOutcome::Revealed(vec![safe[1]])));
        assert_eq!(board.reveal_at(safe[2]), Ok(RevealOutcome::Win(vec![safe[2]])));
    }
}

#[test]
fn empty_five_by_five_is_won_by_any_single_reveal() {
    for y in 0..5 {
        for x in 0..5 {
            let mut rng = RandomSource::from_seed(1);
            let grid = Grid::generate(5, 5, 0, &mut rng).unwrap();
            for ty in 0..5 {
                for tx in 0..5 {
                    assert_eq!(grid.tile_at(at(tx, ty)), Ok(Tile::Empty));
                }
            }
            let mut board = Board::new(grid);
            let outcome = board.reveal_at(at(x, y)).unwrap();
            let cells = match &outcome {
                RevealOutcome::Win(cells) => cells.clone(),
                other => panic!("expected a win, got {:?}", other),
            };
            assert_eq!(cells.len(), 25);
            assert_eq!(cells[0], at(x, y));
            let mut all = Vec::new();
            for cx in 0..5 {
                for cy in 0..5 {
                    all.push(at(cx, cy));
                }
            }
            assert_eq!(sorted(&cells), sorted(&all));
            assert_eq!(board.remaining_covered_count(), 0);
            assert!(board.is_won());
        }
    }
}

#[test]
fn new_board_covers_every_cell_and_flags_none() {
    let board = board_with_mines(4, 3, &[(0, 0), (3, 2)]);
    assert_eq!(board.remaining_covered_count(), 12);
    assert_eq!(covered_cells(&board).len(), 12);
    assert!(flagged_cells(&board).is_empty());
    assert!(!board.is_won());
    assert!(!board.is_covered(at(4, 0)));
    assert!(!board.is_flagged(at(0, 3)));
}

#[test]
fn reveal_of_uncovered_cell_is_noop() {
    let mut board = board_with_mines(3, 3, &[(2, 2)]);
    let first = board.reveal_at(at(1, 1)).unwrap();
    assert_eq!(first, RevealOutcome::Revealed(vec![at(1, 1)]));
    let covered = covered_cells(&board);
    assert_eq!(board.reveal_at(at(1, 1)), Ok(RevealOutcome::Revealed(vec![])));
    assert_eq!(covered_cells(&board), covered);
    assert_eq!(board.remaining_covered_count(), 8);
}

#[test]
fn reveal_of_flagged_cell_is_noop() {
    let mut board = board_with_mines(3, 3, &[(2, 2)]);
    assert_eq!(board.toggle_flag(at(0, 0)), Ok(FlagOutcome::Flagged(at(0, 0))));
    assert_eq!(board.reveal_at(at(0, 0)), Ok(RevealOutcome::Revealed(vec![])));
    assert!(board.is_covered(at(0, 0)));
    assert!(board.is_flagged(at(0, 0)));
    assert_eq!(board.remaining_covered_count(), 9);
}

#[test]
fn reveal_of_flagged_mine_does_not_detonate() {
    let mut board = board_with_mines(2, 2, &[(0, 0)]);
    board.toggle_flag(at(0, 0)).unwrap();
    assert_eq!(board.reveal_at(at(0, 0)), Ok(RevealOutcome::Revealed(vec![])));
    assert!(board.is_covered(at(0, 0)));
}

#[test]
fn reveal_outside_the_board_is_rejected() {
    let mut board = board_with_mines(3, 2, &[]);
    assert_eq!(board.reveal_at(at(3, 0)), Err(BoardError::OutOfBounds));
    assert_eq!(board.reveal_at(at(0, 2)), Err(BoardError::OutOfBounds));
    assert_eq!(board.remaining_covered_count(), 6);
}

#[test]
fn flag_stops_the_flood() {
    // A row of five empty cells: a flag on the middle one cuts the row in two.
    let mut board = board_with_mines(5, 1, &[]);
    assert_eq!(board.tile_at(at(2, 0)), Ok(Tile::Empty));
    assert_eq!(board.toggle_flag(at(2, 0)), Ok(FlagOutcome::Flagged(at(2, 0))));
    let outcome = board.reveal_at(at(1, 0)).unwrap();
    assert_eq!(outcome, RevealOutcome::Revealed(vec![at(1, 0), at(0, 0)]));
    assert!(board.is_covered(at(2, 0)));
    assert!(board.is_flagged(at(2, 0)));
    assert!(board.is_covered(at(3, 0)));
    assert!(board.is_covered(at(4, 0)));
}

#[test]
fn flagged_empty_cell_next_to_the_reveal_stays_covered() {
    let mut board = board_with_mines(4, 4, &[]);
    board.toggle_flag(at(1, 1)).unwrap();
    let outcome = board.reveal_at(at(0, 0)).unwrap();
    assert_eq!(outcome.uncovered().len(), 15);
    assert!(!outcome.uncovered().contains(&at(1, 1)));
    assert!(board.is_covered(at(1, 1)));
    assert_eq!(covered_cells(&board), vec![at(1, 1)]);
    assert!(matches!(outcome, RevealOutcome::Revealed(_)));
}

#[test]
fn numbered_cells_bound_the_flood() {
    // A column of mines in the middle splits the board: the reveal on the
    // left uncovers the two columns on the left and stops at the numbers.
    let mut board = board_with_mines(7, 3, &[(3, 0), (3, 1), (3, 2)]);
    let outcome = board.reveal_at(at(0, 1)).unwrap();
    let cells = outcome.uncovered().clone();
    assert!(matches!(outcome, RevealOutcome::Revealed(_)));
    let expected: Vec<Coordinates> =
        [(0, 0), (0, 1), (0, 2), (1, 0), (1, 1), (1, 2), (2, 0), (2, 1), (2, 2)]
            .iter()
            .map(|&(x, y)| at(x, y))
            .collect();
    assert_eq!(sorted(&cells), sorted(&expected));
    for y in 0..3 {
        assert_eq!(board.tile_at(at(2, y)), Ok(Tile::Adjacent(if y == 1 { 3 } else { 2 })));
        for x in 3..7 {
            assert!(board.is_covered(at(x, y)));
        }
    }
}

#[test]
fn reveal_of_numbered_cell_uncovers_it_alone() {
    let mut board = board_with_mines(5, 5, &[(0, 0)]);
    assert_eq!(board.reveal_at(at(1, 1)), Ok(RevealOutcome::Revealed(vec![at(1, 1)])));
    assert_eq!(board.remaining_covered_count(), 24);
}

#[test]
fn reveal_lists_cells_in_the_order_reached() {
    let mut board = board_with_mines(3, 3, &[(2, 2)]);
    let outcome = board.reveal_at(at(0, 0)).unwrap();
    // From (0, 0): its neighbours row by row; then those of (1, 0), and so on.
    // (1, 1) shows a number and hands nothing on.
    let expected: Vec<Coordinates> =
        [(0, 0), (1, 0), (0, 1), (1, 1), (2, 0), (2, 1), (0, 2), (1, 2)]
            .iter()
            .map(|&(x, y)| at(x, y))
            .collect();
    assert_eq!(outcome, RevealOutcome::Win(expected));
}

#[test]
fn reveal_of_mine_is_a_loss_at_that_cell() {
    let mut board = board_with_mines(3, 3, &[(1, 1), (0, 2)]);
    assert_eq!(board.reveal_at(at(1, 1)), Ok(RevealOutcome::Loss(at(1, 1), vec![at(1, 1)])));
    assert!(!board.is_covered(at(1, 1)));
    assert_eq!(board.remaining_covered_count(), 8);
    assert_eq!(board.reveal_at(at(0, 2)), Ok(RevealOutcome::Loss(at(0, 2), vec![at(0, 2)])));
}

#[test]
fn loss_takes_precedence_over_the_count_of_covered_cells() {
    // Two safe cells revealed, then the mine: one cell is left covered and
    // the board has one mine, yet the outcome is a loss.
    let mut board = board_with_mines(2, 2, &[(0, 0)]);
    board.reveal_at(at(1, 0)).unwrap();
    board.reveal_at(at(0, 1)).unwrap();
    assert_eq!(board.reveal_at(at(0, 0)), Ok(RevealOutcome::Loss(at(0, 0), vec![at(0, 0)])));
}

#[test]
fn win_follows_the_count_of_covered_cells() {
    let mut rng = RandomSource::from_seed(31);
    let grid = Grid::generate(6, 6, 7, &mut rng).unwrap();
    let mut board = Board::new(grid);
    for y in 0..6 {
        for x in 0..6 {
            if !board.grid().is_mine(at(x, y)) {
                let outcome = board.reveal_at(at(x, y)).unwrap();
                assert!(!matches!(outcome, RevealOutcome::Loss(_, _)));
                let won = board.remaining_covered_count() == 7;
                assert_eq!(board.is_won(), won);
                assert_eq!(board.is_completed(), won);
                if !outcome.uncovered().is_empty() {
                    assert_eq!(matches!(outcome, RevealOutcome::Win(_)), won);
                    assert_eq!(outcome.is_terminal(), won);
                }
            }
        }
    }
    assert!(board.is_won());
    assert_eq!(board.remaining_covered_count(), board.grid().mine_count() as usize);
}

#[test]
fn win_does_not_depend_on_flags() {
    let mut board = board_with_mines(2, 1, &[(0, 0)]);
    board.toggle_flag(at(0, 0)).unwrap();
    assert!(!board.is_won());
    board.toggle_flag(at(0, 0)).unwrap();
    assert_eq!(board.reveal_at(at(1, 0)), Ok(RevealOutcome::Win(vec![at(1, 0)])));
    assert!(board.is_won());
    board.toggle_flag(at(0, 0)).unwrap();
    assert!(board.is_won());
}

#[test]
fn toggle_flag_twice_restores_the_board() {
    let mut board = board_with_mines(3, 3, &[(0, 0)]);
    board.toggle_flag(at(2, 2)).unwrap();
    let covered = covered_cells(&board);
    let flagged = flagged_cells(&board);
    assert_eq!(board.toggle_flag(at(1, 2)), Ok(FlagOutcome::Flagged(at(1, 2))));
    assert!(board.is_flagged(at(1, 2)));
    assert_eq!(board.toggle_flag(at(1, 2)), Ok(FlagOutcome::Unflagged(at(1, 2))));
    assert_eq!(covered_cells(&board), covered);
    assert_eq!(flagged_cells(&board), flagged);
    assert_eq!(board.toggle_flag(at(2, 2)), Ok(FlagOutcome::Unflagged(at(2, 2))));
    assert_eq!(board.toggle_flag(at(2, 2)), Ok(FlagOutcome::Flagged(at(2, 2))));
    assert_eq!(flagged_cells(&board), flagged);
}

#[test]
fn toggle_flag_rejects_a_revealed_cell() {
    let mut board = board_with_mines(3, 3, &[(0, 0)]);
    board.reveal_at(at(1, 1)).unwrap();
    assert_eq!(board.toggle_flag(at(1, 1)), Err(BoardError::NotCovered));
    assert!(!board.is_flagged(at(1, 1)));
    assert_eq!(board.try_toggle_mark(&at(1, 1)), None);
}

#[test]
fn toggle_flag_rejects_a_position_outside_the_board() {
    let mut board = board_with_mines(3, 3, &[(0, 0)]);
    assert_eq!(board.toggle_flag(at(3, 3)), Err(BoardError::OutOfBounds));
    assert!(flagged_cells(&board).is_empty());
}

#[test]
fn flag_outcome_names_the_cell() {
    assert_eq!(FlagOutcome::Flagged(at(4, 5)).coordinates(), at(4, 5));
    assert_eq!(FlagOutcome::Unflagged(at(6, 7)).coordinates(), at(6, 7));
}

#[test]
fn try_toggle_mark_tells_the_new_mark() {
    let mut board = board_with_mines(2, 2, &[]);
    assert_eq!(board.try_toggle_mark(&at(0, 1)), Some(true));
    assert!(board.is_flagged(at(0, 1)));
    assert_eq!(board.try_toggle_mark(&at(0, 1)), Some(false));
    assert!(!board.is_flagged(at(0, 1)));
    assert_eq!(board.try_toggle_mark(&at(2, 2)), None);
}

#[test]
fn tile_to_uncover_skips_flagged_and_uncovered_cells() {
    let mut board = board_with_mines(3, 1, &[(0, 0)]);
    assert_eq!(board.tile_to_uncover(&at(0, 0)), Some(Tile::Mine));
    assert_eq!(board.tile_to_uncover(&at(1, 0)), Some(Tile::Adjacent(1)));
    assert_eq!(board.tile_to_uncover(&at(2, 0)), Some(Tile::Empty));
    board.toggle_flag(at(0, 0)).unwrap();
    assert_eq!(board.tile_to_uncover(&at(0, 0)), None);
    board.reveal_at(at(1, 0)).unwrap();
    assert_eq!(board.tile_to_uncover(&at(1, 0)), None);
    assert_eq!(board.tile_to_uncover(&at(3, 0)), None);
}

#[test]
fn try_uncover_tile_takes_the_flag_away_first() {
    let mut board = board_with_mines(3, 1, &[(0, 0)]);
    board.toggle_flag(at(1, 0)).unwrap();
    assert_eq!(board.try_uncover_tile(&at(1, 0)), Some(Tile::Adjacent(1)));
    assert!(!board.is_covered(at(1, 0)));
    assert!(!board.is_flagged(at(1, 0)));
    assert_eq!(board.remaining_covered_count(), 2);
    assert_eq!(board.try_uncover_tile(&at(1, 0)), None);
    assert_eq!(board.try_uncover_tile(&at(9, 9)), None);
    assert_eq!(board.remaining_covered_count(), 2);
    // A single uncover does not spread.
    assert_eq!(board.try_uncover_tile(&at(2, 0)), Some(Tile::Empty));
    assert_eq!(covered_cells(&board), vec![at(0, 0)]);
}

#[test]
fn adjacent_covered_tiles_lists_covered_unflagged_neighbours_in_order() {
    let mut board = board_with_mines(3, 3, &[(0, 0)]);
    board.try_uncover_tile(&at(1, 0));
    board.try_uncover_tile(&at(2, 2));
    board.toggle_flag(at(0, 1)).unwrap();
    let around = board.adjacent_covered_tiles(at(1, 1));
    let expected: Vec<Coordinates> =
        [(0, 0), (2, 0), (2, 1), (0, 2), (1, 2)].iter().map(|&(x, y)| at(x, y)).collect();
    assert_eq!(around, expected);
    assert_eq!(board.adjacent_covered_tiles(at(0, 0)), vec![at(1, 1)]);
    board.toggle_flag(at(0, 1)).unwrap();
    assert_eq!(board.adjacent_covered_tiles(at(0, 0)), vec![at(0, 1), at(1, 1)]);
}

#[test]
fn adjacent_covered_tiles_leaves_out_a_flagged_neighbour() {
    let mut board = board_with_mines(2, 2, &[]);
    board.toggle_flag(at(1, 0)).unwrap();
    assert_eq!(board.adjacent_covered_tiles(at(0, 0)), vec![at(0, 1), at(1, 1)]);
    assert!(board.adjacent_covered_tiles(at(5, 5)).is_empty());
    assert_eq!(board.remaining_covered_count(), 4);
    assert!(board.is_flagged(at(1, 0)));
}

#[test]
fn safe_reveal_candidate_is_the_first_empty_cell() {
    let board = board_with_mines(4, 3, &[(0, 0), (2, 0)]);
    assert_eq!(board.safe_reveal_candidate(), Some(at(0, 2)));
    let crowded = board_with_mines(3, 3, &[(1, 1)]);
    assert_eq!(crowded.safe_reveal_candidate(), None);
}

#[test]
fn board_tile_at_rejects_a_position_outside_the_board() {
    let board = board_with_mines(2, 2, &[(1, 1)]);
    assert_eq!(board.tile_at(at(2, 0)), Err(BoardError::OutOfBounds));
    assert_eq!(board.tile_at(at(1, 1)), Ok(Tile::Mine));
}

#[test]
fn default_options_ask_for_fifteen_by_fifteen_with_thirty_mines() {
    let options = BoardOptions::default();
    assert_eq!(options.map_size, (15, 15));
    assert_eq!(options.mine_count, 30);
    assert!(!options.safe_start);
}

#[test]
fn create_board_covers_every_cell_and_flags_none() {
    let mut rng = RandomSource::from_seed(8);
    let (board, opening) = create_board(&BoardOptions::default(), &mut rng).unwrap();
    assert_eq!(opening, None);
    assert_eq!(board.remaining_covered_count(), 225);
    assert_eq!(covered_cells(&board).len(), 225);
    assert!(flagged_cells(&board).is_empty());
    assert_eq!(board.grid().mine_count(), 30);
    assert_eq!(board.grid().width(), 15);
    assert_eq!(board.grid().height(), 15);
}

#[test]
fn create_board_with_safe_start_names_the_first_empty_cell_and_reveals_nothing() {
    for seed in 0..20u64 {
        let options = BoardOptions { map_size: (20, 20), mine_count: 50, safe_start: true };
        let mut rng = RandomSource::from_seed(seed);
        let (mut board, opening) = create_board(&options, &mut rng).unwrap();
        assert_eq!(opening, board.safe_reveal_candidate());
        assert_eq!(board.remaining_covered_count(), 400);
        assert!(flagged_cells(&board).is_empty());
        if let Some(c) = opening {
            assert_eq!(board.tile_at(c), Ok(Tile::Empty));
            let outcome = board.reveal_at(c).unwrap();
            let cells = outcome.uncovered();
            assert_eq!(cells[0], c);
            assert!(!matches!(outcome, RevealOutcome::Loss(_, _)));
            assert_eq!(board.remaining_covered_count(), 400 - cells.len());
            for cell in cells {
                assert!(!board.grid().is_mine(*cell));
            }
        }
    }
}

#[test]
fn create_board_on_an_empty_five_by_five_leaves_all_cells_covered() {
    let options = BoardOptions { map_size: (5, 5), mine_count: 0, safe_start: true };
    let mut rng = RandomSource::from_seed(3);
    let (mut board, opening) = create_board(&options, &mut rng).unwrap();
    assert_eq!(opening, Some(at(0, 0)));
    assert_eq!(board.remaining_covered_count(), 25);
    assert_eq!(covered_cells(&board).len(), 25);
    assert!(flagged_cells(&board).is_empty());
    let outcome = board.reveal_at(at(0, 0)).unwrap();
    assert!(matches!(outcome, RevealOutcome::Win(_)));
    assert_eq!(outcome.uncovered().len(), 25);
}

#[test]
fn create_board_without_safe_start_names_no_cell() {
    let options = BoardOptions { map_size: (5, 5), mine_count: 0, safe_start: false };
    let mut rng = RandomSource::from_seed(3);
    let (board, opening) = create_board(&options, &mut rng).unwrap();
    assert_eq!(opening, None);
    assert_eq!(board.remaining_covered_count(), 25);
}

#[test]
fn create_board_with_safe_start_and_no_empty_cell_names_no_cell() {
    let options = BoardOptions { map_size: (3, 3), mine_count: 9, safe_start: true };
    let mut rng = RandomSource::from_seed(8);
    let (board, opening) = create_board(&options, &mut rng).unwrap();
    assert_eq!(opening, None);
    assert_eq!(board.remaining_covered_count(), 9);
    assert!(board.is_won());
}

#[test]
fn create_board_rejects_impossible_options() {
    let mut rng = RandomSource::from_seed(8);
    let too_many = BoardOptions { map_size: (3, 3), mine_count: 10, safe_start: false };
    assert_eq!(create_board(&too_many, &mut rng).err(), Some(BoardError::InvalidConfiguration));
    let flat = BoardOptions { map_size: (0, 3), mine_count: 0, safe_start: true };
    assert_eq!(create_board(&flat, &mut rng).err(), Some(BoardError::InvalidConfiguration));
}

#[test]
fn flood_matches_a_search_over_the_board() {
    // The cells uncovered by one reveal are those reached from the start
    // through covered, unflagged cells, passing on from empty cells only.
    for seed in 0..30u64 {
        let mut rng = RandomSource::from_seed(seed);
        let grid = Grid::generate(9, 7, 8, &mut rng).unwrap();
        let mut board = Board::new(grid);
        board.toggle_flag(at(4, 3)).unwrap();
        board.toggle_flag(at(2, 5)).unwrap();
        let start = match board.safe_reveal_candidate() {
            Some(c) => c,
            None => continue,
        };
        if board.is_flagged(start) {
            continue;
        }
        let mut reached = vec![start];
        let mut next = 0;
        while next < reached.len() {
            let c = reached[next];
            next += 1;
            if board.tile_at(c) != Ok(Tile::Empty) {
                continue;
            }
            for d in board.grid().neighbors(c) {
                if board.is_covered(d) && !board.is_flagged(d) && !reached.contains(&d) {
                    reached.push(d);
                }
            }
        }
        let before = board.remaining_covered_count();
        let outcome = board.reveal_at(start).unwrap();
        assert_eq!(outcome.uncovered(), &reached);
        assert_eq!(board.remaining_covered_count(), before - reached.len());
        for c in &reached {
            assert!(!board.is_covered(*c));
        }
        assert!(board.is_covered(at(4, 3)));
        assert!(board.is_covered(at(2, 5)));
    }
}

#[test]
fn flood_covers_a_large_empty_board() {
    let mut board = board_with_mines(300, 200, &[]);
    let outcome = board.reveal_at(at(150, 100)).unwrap();
    assert_eq!(outcome.uncovered().len(), 60000);
    assert!(matches!(outcome, RevealOutcome::Win(_)));
    assert_eq!(board.remaining_covered_count(), 0);
}

#[test]
fn second_reveal_after_a_flood_uncovers_nothing() {
    let mut board = board_with_mines(6, 6, &[(5, 5)]);
    let first = board.reveal_at(at(0, 0)).unwrap();
    assert_eq!(first.uncovered().len(), 35);
    for c in first.uncovered().clone() {
        assert_eq!(board.reveal_at(c), Ok(RevealOutcome::Revealed(vec![])));
    }
    assert_eq!(board.remaining_covered_count(), 1);
}
