use virtualcli::apply;
use virtualcli::spill;
use virtualcli::Op;
use virtualcli::State;

fn assert_consistency(old_state: State, new_state: State) {
    let ops = spill(&old_state, &new_state);

    let mut applied = old_state.clone();
    apply(&ops, &mut applied);

    assert_eq!(applied, new_state);
}

#[test]
fn it_works() {
    assert_consistency(
        State {
            cols: 10,
            rows: 10,
            cells: vec![vec![' '; 10]; 10],
            cursor_row: 1,
            cursor_col: 1,
        },
        State {
            cols: 8,
            rows: 10,
            cells: vec![vec![' '; 8]; 10],
            cursor_row: 5,
            cursor_col: 3,
        },
    );
}

#[test]
fn identical_frames_yield_no_ops() {
    let mut s = State::new_blank(4, 6);
    s.put(2, 3, 'q');
    s.cursor_row = 1;
    s.cursor_col = 5;
    let ops = spill(&s, &s.clone());
    assert_eq!(ops, vec![]);
}

#[test]
fn same_cells_different_cursor_yields_cursor_only() {
    let mut old_state = State::new_blank(4, 6);
    old_state.put(0, 0, 'a');
    let mut new_state = old_state.clone();
    new_state.cursor_row = 3;
    new_state.cursor_col = 2;
    let ops = spill(&old_state, &new_state);
    assert_eq!(ops, vec![Op::CursorPosition(3, 2)]);
}

#[test]
fn single_changed_cell_scenario() {
    let old_state = State::new_blank(3, 3);
    let mut new_state = State::new_blank(3, 3);
    new_state.put(1, 1, 'X');
    let ops = spill(&old_state, &new_state);
    assert_eq!(
        ops,
        vec![Op::CursorPosition(1, 1), Op::Put('X'), Op::CursorPosition(0, 0)]
    );
    let bytes = virtualcli::code(&ops);
    assert_eq!(bytes, b"\x1b[2;2HX\x1b[1;1H".to_vec());
}

#[test]
fn resize_comes_first_and_round_trips() {
    let mut old_state = State::new_blank(2, 5);
    old_state.write(0, 0, "hello");
    let mut new_state = State::new_blank(3, 4);
    new_state.write(1, 0, "done");
    let ops = spill(&old_state, &new_state);
    assert_eq!(ops[0], Op::Resize(4, 3));
    let mut applied = old_state.clone();
    apply(&ops, &mut applied);
    assert_eq!(applied, new_state);
}

#[test]
fn adjacent_changes_need_one_move() {
    let old_state = State::new_blank(2, 4);
    let mut new_state = State::new_blank(2, 4);
    new_state.put(0, 1, 'a');
    new_state.put(0, 2, 'b');
    new_state.cursor_row = 0;
    new_state.cursor_col = 3;
    let ops = spill(&old_state, &new_state);
    assert_eq!(
        ops,
        vec![Op::CursorPosition(0, 1), Op::Put('a'), Op::Put('b')]
    );
}

#[test]
fn put_wraps_to_next_row() {
    let old_state = State::new_blank(2, 3);
    let mut new_state = State::new_blank(2, 3);
    new_state.put(0, 2, 'e');
    new_state.put(1, 0, 'f');
    new_state.cursor_row = 1;
    new_state.cursor_col = 1;
    let ops = spill(&old_state, &new_state);
    assert_eq!(
        ops,
        vec![Op::CursorPosition(0, 2), Op::Put('e'), Op::Put('f')]
    );
    let mut applied = old_state.clone();
    apply(&ops, &mut applied);
    assert_eq!(applied, new_state);
}

#[test]
fn diffing_is_deterministic() {
    let mut old_state = State::new_blank(4, 4);
    old_state.write(2, 0, "grid");
    let mut new_state = State::new_blank(4, 4);
    new_state.write(0, 1, "new");
    new_state.cursor_row = 3;
    assert_eq!(spill(&old_state, &new_state), spill(&old_state, &new_state));
}

#[test]
fn shrinking_grid_round_trips() {
    let mut old_state = State::new_blank(5, 5);
    old_state.write(4, 0, "below");
    old_state.cursor_row = 4;
    old_state.cursor_col = 4;
    let mut new_state = State::new_blank(2, 2);
    new_state.put(0, 0, 'z');
    let ops = spill(&old_state, &new_state);
    let mut applied = old_state.clone();
    apply(&ops, &mut applied);
    assert_eq!(applied, new_state);
}
