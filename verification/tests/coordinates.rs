use board_plugin::Coordinates;

#[test]
fn from_pair_takes_x_then_y() {
    let c = Coordinates::from((3, 7));
    assert_eq!(c, Coordinates { x: 3, y: 7 });
}

#[test]
fn default_is_origin() {
    assert_eq!(Coordinates::default(), Coordinates { x: 0, y: 0 });
}

#[test]
fn add_is_component_wise() {
    let a = Coordinates { x: 2, y: 40 };
    let b = Coordinates { x: 5, y: 2 };
    assert_eq!(a + b, Coordinates { x: 7, y: 42 });
}

#[test]
fn add_offset_moves_in_both_directions() {
    let c = Coordinates { x: 10, y: 10 };
    assert_eq!(c + (-1, 1), Coordinates { x: 9, y: 11 });
    assert_eq!(c + (127, -128), Coordinates { x: 137, y: 0 });
}

#[test]
fn add_offset_stops_at_zero() {
    let c = Coordinates { x: 0, y: 3 };
    assert_eq!(c + (-1, -5), Coordinates { x: 0, y: 0 });
}

#[test]
fn add_offset_stops_at_upper_end() {
    let c = Coordinates { x: 65535, y: 65500 };
    assert_eq!(c + (1, 100), Coordinates { x: 65535, y: 65535 });
}

#[test]
fn sub_stops_at_zero() {
    let a = Coordinates { x: 3, y: 9 };
    let b = Coordinates { x: 5, y: 4 };
    assert_eq!(a - b, Coordinates { x: 0, y: 5 });
    assert_eq!(b - a, Coordinates { x: 2, y: 0 });
}

#[test]
fn checked_offset_refuses_to_leave_the_range() {
    let c = Coordinates { x: 0, y: 65535 };
    assert_eq!(c.checked_offset(-1, 0), None);
    assert_eq!(c.checked_offset(0, 1), None);
    assert_eq!(c.checked_offset(1, -1), Some(Coordinates { x: 1, y: 65534 }));
}

#[test]
fn order_is_by_column_then_row() {
    let a = Coordinates { x: 1, y: 9 };
    let b = Coordinates { x: 2, y: 0 };
    let c = Coordinates { x: 2, y: 1 };
    assert!(a < b);
    assert!(b < c);
    assert!(a < c);
    assert!(!(c < b));
    assert_eq!(a.partial_cmp(&a), Some(std::cmp::Ordering::Equal));
    assert_eq!(b.cmp(&c), std::cmp::Ordering::Less);
    assert_eq!(c.cmp(&a), std::cmp::Ordering::Greater);
    let mut cells = vec![c, a, b];
    cells.sort();
    assert_eq!(cells, vec![a, b, c]);
}

#[test]
fn to_string_writes_the_pair_in_brackets() {
    assert_eq!(Coordinates { x: 3, y: 7 }.to_string(), "(3, 7)");
    assert_eq!(Coordinates { x: 0, y: 0 }.to_string(), "(0, 0)");
    assert_eq!(Coordinates { x: 65535, y: 10 }.to_string(), "(65535, 10)");
    assert_eq!(Coordinates { x: 100, y: 909 }.to_string(), "(100, 909)");
}
