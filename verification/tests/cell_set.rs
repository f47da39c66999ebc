use board_plugin::{CellSet, Coordinates};

#[test]
fn empty_set_holds_nothing() {
    let set = CellSet::empty(4, 3);
    assert_eq!(set.len(), 0);
    assert_eq!(set.width(), 4);
    assert_eq!(set.height(), 3);
    assert!(!set.contains(Coordinates { x: 0, y: 0 }));
}

#[test]
fn full_set_holds_every_cell_of_the_board() {
    let set = CellSet::full(4, 3);
    assert_eq!(set.len(), 12);
    for y in 0..3 {
        for x in 0..4 {
            assert!(set.contains(Coordinates { x, y }));
        }
    }
    assert!(!set.contains(Coordinates { x: 4, y: 0 }));
    assert!(!set.contains(Coordinates { x: 0, y: 3 }));
}

#[test]
fn insert_and_remove_keep_the_size() {
    let mut set = CellSet::empty(5, 5);
    let c = Coordinates { x: 2, y: 4 };
    assert!(set.insert(c));
    assert!(!set.insert(c));
    assert_eq!(set.len(), 1);
    assert!(set.contains(c));
    assert!(!set.contains(Coordinates { x: 4, y: 2 }));
    assert!(set.remove(c));
    assert!(!set.remove(c));
    assert_eq!(set.len(), 0);
}

#[test]
fn insert_leaves_out_positions_beyond_the_board() {
    let mut set = CellSet::empty(2, 2);
    assert!(!set.insert(Coordinates { x: 2, y: 0 }));
    assert!(!set.insert(Coordinates { x: 0, y: 2 }));
    assert_eq!(set.len(), 0);
    assert!(!set.remove(Coordinates { x: 5, y: 5 }));
}

#[test]
fn cells_of_different_rows_do_not_collide() {
    let mut set = CellSet::empty(3, 3);
    assert!(set.insert(Coordinates { x: 0, y: 1 }));
    assert!(!set.contains(Coordinates { x: 1, y: 0 }));
    assert!(set.insert(Coordinates { x: 2, y: 0 }));
    assert!(!set.contains(Coordinates { x: 0, y: 2 }));
    assert_eq!(set.len(), 2);
}
