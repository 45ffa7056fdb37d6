use virtualcli::apply;
use virtualcli::Op;
use virtualcli::State;

#[test]
fn new_blank_is_spaces_with_cursor_at_origin() {
    let s = State::new_blank(2, 3);
    assert_eq!(s.rows, 2);
    assert_eq!(s.cols, 3);
    assert_eq!(s.cells, vec![vec![' '; 3]; 2]);
    assert_eq!((s.cursor_row, s.cursor_col), (0, 0));
}

#[test]
fn new_real_is_thirty_by_thirty() {
    let s = State::new_real();
    assert_eq!((s.rows, s.cols), (30, 30));
    assert_eq!(s.cells, vec![vec![' '; 30]; 30]);
}

#[test]
fn put_changes_one_cell() {
    let mut s = State::new_blank(3, 3);
    s.put(1, 2, 'k');
    assert_eq!(s.cells[1][2], 'k');
    assert_eq!(s.cells[1][1], ' ');
    assert_eq!(s.cells[2][2], ' ');
}

#[test]
fn write_places_a_string_left_to_right() {
    let mut s = State::new_blank(2, 6);
    s.write(1, 2, "abc");
    assert_eq!(s.cells[1], vec![' ', ' ', 'a', 'b', 'c', ' ']);
    assert_eq!(s.cells[0], vec![' '; 6]);
}

#[test]
fn clear_resets_cells_and_cursor() {
    let mut s = State::new_blank(2, 2);
    s.write(0, 0, "ab");
    s.cursor_row = 1;
    s.cursor_col = 1;
    s.clear();
    assert_eq!(s, State::new_blank(2, 2));
}

#[test]
fn apply_erase_blanks_everything() {
    let mut s = State::new_blank(2, 2);
    s.write(0, 0, "xy");
    s.cursor_row = 1;
    apply(&[Op::EraseEntireDisplay], &mut s);
    assert_eq!(s, State::new_blank(2, 2));
}

#[test]
fn apply_resize_pads_and_truncates_with_spaces() {
    let mut s = State::new_blank(2, 2);
    s.write(0, 0, "ab");
    s.write(1, 0, "cd");
    apply(&[Op::Resize(3, 1)], &mut s);
    assert_eq!(s.cells, vec![vec!['a', 'b', ' ']]);
    assert_eq!((s.rows, s.cols), (1, 3));
}

#[test]
fn apply_put_writes_and_advances_with_wrap() {
    let mut s = State::new_blank(2, 2);
    apply(&[Op::Put('a'), Op::Put('b'), Op::Put('c')], &mut s);
    assert_eq!(s.cells, vec![vec!['a', 'b'], vec!['c', ' ']]);
    assert_eq!((s.cursor_row, s.cursor_col), (1, 1));
}

#[test]
fn apply_cursor_position_moves_without_writing() {
    let mut s = State::new_blank(3, 3);
    apply(&[Op::CursorPosition(2, 1)], &mut s);
    assert_eq!((s.cursor_row, s.cursor_col), (2, 1));
    assert_eq!(s.cells, vec![vec![' '; 3]; 3]);
}
