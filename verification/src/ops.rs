//! The abstract operations that transform one frame into another, and
//! their apply semantics.
//!
//! The apply semantics exist to state and validate the diff engine: the
//! operation list produced by [`crate::spill`] replayed against the old
//! frame reproduces the new one.  [`apply`] is an executable form of the
//! same semantics.

use vstd::prelude::*;

use crate::grid::ScreenView;
use crate::grid::State;

verus! {

/// One abstract terminal operation.
///
/// - `EraseEntireDisplay` clears every cell and resets the cursor to the
///   origin.
/// - `Resize(cols, rows)` changes the buffer dimensions, truncating or
///   padding with spaces; it carries no terminal bytes.
/// - `Put(c)` writes `c` at the cursor, which then advances one column,
///   wrapping to the start of the next row at the right edge.
/// - `CursorPosition(row, col)` repositions the cursor (0-based) without
///   writing.
#[derive(Clone, Copy, PartialEq, Eq, Debug)]
pub enum Op {
    EraseEntireDisplay,
    Resize(usize, usize),
    Put(char),
    CursorPosition(usize, usize),
}

/// The character the frame `s` shows at `(r, c)`: the stored cell when
/// `(r, c)` lies inside the buffer, and a space otherwise.
pub open spec fn cell_or_space(s: ScreenView, r: int, c: int) -> char {
    if 0 <= r < s.cells.len() && 0 <= c < s.cells[r].len() {
        s.cells[r][c]
    } else {
        ' '
    }
}

/// Whether a `Put` at the current cursor of `s` lands inside the buffer.
pub open spec fn put_in_range(s: ScreenView) -> bool {
    &&& s.cursor_row < s.rows
    &&& s.cursor_col < s.cols
    &&& s.cursor_row < s.cells.len()
    &&& s.cursor_col < s.cells[s.cursor_row as int].len()
}

/// The effect of one operation on a frame.
///
/// `Resize` keeps the overlapping cells and pads new cells with spaces,
/// leaving the cursor where it was.  `Put` at an out-of-range cursor is a
/// caller error; it is defined here to leave the frame unchanged.
/// `CursorPosition` sets the cursor unconditionally, without clamping.
pub open spec fn apply_op(s: ScreenView, op: Op) -> ScreenView {
    match op {
        Op::EraseEntireDisplay => ScreenView::blank(s.rows, s.cols),
        Op::Resize(cols, rows) => ScreenView {
            rows: rows as nat,
            cols: cols as nat,
            cells: Seq::new(
                rows as nat,
                |r: int| Seq::new(cols as nat, |c: int| cell_or_space(s, r, c)),
            ),
            ..s
        },
        Op::Put(ch) => {
            if put_in_range(s) {
                let written = s.with_cell(s.cursor_row as int, s.cursor_col as int, ch);
                if s.cursor_col + 1 == s.cols {
                    written.with_cursor((s.cursor_row + 1) as nat, 0)
                } else {
                    written.with_cursor(s.cursor_row, (s.cursor_col + 1) as nat)
                }
            } else {
                s
            }
        },
        Op::CursorPosition(row, col) => s.with_cursor(row as nat, col as nat),
    }
}

/// The effect of an operation list, applied left to right.
pub open spec fn apply_ops(s: ScreenView, ops: Seq<Op>) -> ScreenView
    decreases ops.len(),
{
    if ops.len() == 0 {
        s
    } else {
        apply_ops(apply_op(s, ops[0]), ops.drop_first())
    }
}

/// Applying `ops` and then one more operation is applying the extended
/// list.
pub proof fn lemma_apply_ops_snoc(s: ScreenView, ops: Seq<Op>, op: Op)
    ensures
        apply_ops(s, ops.push(op)) == apply_op(apply_ops(s, ops), op),
    decreases ops.len(),
{
    if ops.len() == 0 {
        assert(ops.push(op)[0] == op);
        assert(ops.push(op).drop_first() =~= Seq::<Op>::empty());
        assert(apply_ops(apply_op(s, op), ops.push(op).drop_first()) == apply_op(s, op));
        assert(apply_ops(s, ops) == s);
    } else {
        assert(ops.push(op)[0] == ops[0]);
        assert(ops.push(op).drop_first() =~= ops.drop_first().push(op));
        lemma_apply_ops_snoc(apply_op(s, ops[0]), ops.drop_first(), op);
        assert(apply_ops(s, ops.push(op)) == apply_ops(
            apply_op(s, ops[0]),
            ops.drop_first().push(op),
        ));
        assert(apply_ops(s, ops) == apply_ops(apply_op(s, ops[0]), ops.drop_first()));
    }
}

/// Replay an operation list against a frame, per the apply semantics.
pub fn apply(ops: &[Op], s: &mut State)
    ensures
        final(s)@ == apply_ops(old(s)@, ops@),
{
    let n = ops.len();
    for i in 0..n
        invariant
            n == ops@.len(),
            s@ == apply_ops(old(s)@, ops@.take(i as int)),
    {
        proof {
            lemma_apply_ops_snoc(old(s)@, ops@.take(i as int), ops@[i as int]);
            assert(ops@.take(i as int).push(ops@[i as int]) =~= ops@.take(i + 1));
        }
        apply_one(ops[i], s);
    }
    proof {
        assert(ops@.take(n as int) =~= ops@);
    }
}

/// Replay a single operation against a frame.
fn apply_one(op: Op, s: &mut State)
    ensures
        final(s)@ == apply_op(old(s)@, op),
{
    match op {
        Op::EraseEntireDisplay => {
            let rows = s.rows;
            let cols = s.cols;
            let mut cells: Vec<Vec<char>> = Vec::with_capacity(rows);
            for r in 0..rows
                invariant
                    cells@.len() == r,
                    forall|i: int|
                        0 <= i < r ==> (#[trigger] cells@[i])@ =~= Seq::new(
                            old(s)@.cols,
                            |c: int| ' ',
                        ),
                    cols == old(s)@.cols,
            {
                let mut line: Vec<char> = Vec::with_capacity(cols);
                for c in 0..cols
                    invariant
                        line@ =~= Seq::new(c as nat, |j: int| ' '),
                {
                    line.push(' ');
                }
                cells.push(line);
            }
            s.cells = cells;
            s.cursor_row = 0;
            s.cursor_col = 0;
            proof {
                assert(s@ =~~= ScreenView::blank(old(s)@.rows, old(s)@.cols));
            }
        },
        Op::Resize(cols, rows) => {
            let mut cells: Vec<Vec<char>> = Vec::with_capacity(rows);
            for r in 0..rows
                invariant
                    cells@.len() == r,
                    forall|i: int|
                        0 <= i < r ==> (#[trigger] cells@[i])@ =~= Seq::new(
                            cols as nat,
                            |c: int| cell_or_space(old(s)@, i, c),
                        ),
                    *s == *old(s),
            {
                let mut line: Vec<char> = Vec::with_capacity(cols);
                for c in 0..cols
                    invariant
                        line@ =~= Seq::new(c as nat, |j: int| cell_or_space(old(s)@, r as int, j)),
                        *s == *old(s),
                {
                    let ch = if r < s.cells.len() && c < s.cells[r].len() {
                        s.cells[r][c]
                    } else {
                        ' '
                    };
                    line.push(ch);
                }
                cells.push(line);
            }
            s.cells = cells;
            s.cols = cols;
            s.rows = rows;
            proof {
                assert(s@ =~~= apply_op(old(s)@, op));
            }
        },
        Op::Put(ch) => {
            if s.cursor_row < s.rows && s.cursor_col < s.cols && s.cursor_row < s.cells.len() {
                let row = s.cursor_row;
                if s.cursor_col < s.cells[row].len() {
                    let col = s.cursor_col;
                    set_cell(s, row, col, ch);
                    if col + 1 == s.cols {
                        s.cursor_row = row + 1;
                        s.cursor_col = 0;
                    } else {
                        s.cursor_col = col + 1;
                    }
                    proof {
                        assert(s@ =~~= apply_op(old(s)@, op));
                    }
                } else {
                    proof {
                        assert(s@ =~~= apply_op(old(s)@, op));
                    }
                }
            } else {
                proof {
                    assert(s@ =~~= apply_op(old(s)@, op));
                }
            }
        },
        Op::CursorPosition(row, col) => {
            s.cursor_row = row;
            s.cursor_col = col;
            proof {
                assert(s@ =~~= apply_op(old(s)@, op));
            }
        },
    }
}

/// Store `c` at `(row, col)` without touching anything else; unlike
/// [`State::put`] this does not ask for a well-formed frame.
fn set_cell(s: &mut State, row: usize, col: usize, c: char)
    requires
        row < old(s)@.cells.len(),
        col < old(s)@.cells[row as int].len(),
    ensures
        final(s)@ =~~= old(s)@.with_cell(row as int, col as int, c),
{
    s.cells[row][col] = c;
}

} // verus!
