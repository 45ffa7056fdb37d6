//! The diff engine: a greedy row-major comparison of two frames that
//! produces an operation list reproducing the new frame from the old one.

use vstd::prelude::*;

use crate::grid::ScreenView;
use crate::grid::State;
use crate::ops::Op;
use crate::ops::apply_op;
use crate::ops::apply_ops;
use crate::ops::cell_or_space;
use crate::ops::lemma_apply_ops_snoc;

verus! {

/// The frame reached midway through the scan: dimensions of `next`, cells
/// before position `(row, col)` in row-major order already taken from
/// `next`, the rest still showing what `prev` showed (spaces outside its
/// bounds), and the cursor at `(cr, cc)`.
spec fn scanned_view(
    prev: ScreenView,
    next: ScreenView,
    row: int,
    col: int,
    cr: nat,
    cc: nat,
) -> ScreenView {
    ScreenView {
        rows: next.rows,
        cols: next.cols,
        cells: Seq::new(
            next.rows,
            |r: int|
                Seq::new(
                    next.cols,
                    |c: int|
                        if r < row || (r == row && c < col) {
                            next.cells[r][c]
                        } else {
                            cell_or_space(prev, r, c)
                        },
                ),
        ),
        cursor_row: cr,
        cursor_col: cc,
    }
}

/// How many of the first `col` cells of row `r` of `next` differ from
/// what `prev` showed there.
pub open spec fn changes_in_row(prev: ScreenView, next: ScreenView, r: int, col: int) -> nat
    decreases col,
{
    if col <= 0 {
        0
    } else {
        changes_in_row(prev, next, r, col - 1) + if next.cells[r][col - 1] != cell_or_space(
            prev,
            r,
            col - 1,
        ) {
            1nat
        } else {
            0nat
        }
    }
}

/// How many cells of the first `row` rows of `next` differ from what
/// `prev` showed there.
pub open spec fn changes_before_row(prev: ScreenView, next: ScreenView, row: int) -> nat
    decreases row,
{
    if row <= 0 {
        0
    } else {
        changes_before_row(prev, next, row - 1) + changes_in_row(
            prev,
            next,
            row - 1,
            next.cols as int,
        )
    }
}

/// How many cells of `next` differ from what `prev` showed there (a
/// space outside `prev`'s bounds).
pub open spec fn changed_cells(prev: ScreenView, next: ScreenView) -> nat {
    changes_before_row(prev, next, next.rows as int)
}

/// Where the tracked cursor of the greedy row-major scan stands after
/// the scan has passed every position of `next` from `(row, col)`
/// onward, starting from `(cr, cc)`: a `Put` at a changed cell advances
/// it one column, wrapping to the start of the next row at the right
/// edge; unchanged cells leave it alone.
pub open spec fn scan_end(
    prev: ScreenView,
    next: ScreenView,
    row: int,
    col: int,
    cr: nat,
    cc: nat,
) -> (nat, nat)
    decreases next.rows - row, next.cols - col,
{
    if row >= next.rows {
        (cr, cc)
    } else if col >= next.cols {
        scan_end(prev, next, row + 1, 0, cr, cc)
    } else if next.cells[row][col] == cell_or_space(prev, row, col) {
        scan_end(prev, next, row, col + 1, cr, cc)
    } else if col + 1 == next.cols {
        scan_end(prev, next, row, col + 1, (row + 1) as nat, 0)
    } else {
        scan_end(prev, next, row, col + 1, row as nat, (col + 1) as nat)
    }
}

/// The operations the greedy row-major scan emits from position
/// `(row, col)` of `next` onward, with the tracked cursor at `(cr, cc)`.
///
/// An unchanged cell emits nothing.  A changed cell emits its `Put`,
/// preceded by a `CursorPosition` exactly when the tracked cursor is
/// elsewhere; the tracked cursor then advances as [`scan_end`] says.
pub open spec fn scan_ops(
    prev: ScreenView,
    next: ScreenView,
    row: int,
    col: int,
    cr: nat,
    cc: nat,
) -> Seq<Op>
    decreases next.rows - row, next.cols - col,
{
    if row >= next.rows {
        Seq::empty()
    } else if col >= next.cols {
        scan_ops(prev, next, row + 1, 0, cr, cc)
    } else if next.cells[row][col] == cell_or_space(prev, row, col) {
        scan_ops(prev, next, row, col + 1, cr, cc)
    } else if col + 1 == next.cols {
        (if cr == row && cc == col {
            Seq::<Op>::empty()
        } else {
            seq![Op::CursorPosition(row as usize, col as usize)]
        }) + seq![Op::Put(cell_or_space(next, row, col))] + scan_ops(
            prev,
            next,
            row,
            col + 1,
            (row + 1) as nat,
            0,
        )
    } else {
        (if cr == row && cc == col {
            Seq::<Op>::empty()
        } else {
            seq![Op::CursorPosition(row as usize, col as usize)]
        }) + seq![Op::Put(cell_or_space(next, row, col))] + scan_ops(
            prev,
            next,
            row,
            col + 1,
            row as nat,
            (col + 1) as nat,
        )
    }
}

/// The scan's operations from `(row, col)` onward, followed by the
/// trailing cursor move exactly when the tracked cursor does not end at
/// `next`'s cursor.
pub open spec fn scan_finish(
    prev: ScreenView,
    next: ScreenView,
    row: int,
    col: int,
    cr: nat,
    cc: nat,
) -> Seq<Op> {
    let end = scan_end(prev, next, row, col, cr, cc);
    scan_ops(prev, next, row, col, cr, cc) + (if end.1 != next.cursor_col || end.0
        != next.cursor_row {
        seq![Op::CursorPosition(next.cursor_row as usize, next.cursor_col as usize)]
    } else {
        Seq::empty()
    })
}

/// The exact operation list the diff engine returns for `prev` and
/// `next`: a `Resize` first when (and only when) the dimensions differ,
/// then the greedy scan's operations, then the trailing cursor move
/// when one is needed.
pub open spec fn spill_spec(prev: ScreenView, next: ScreenView) -> Seq<Op> {
    let resize: Seq<Op> = if next.cols != prev.cols || next.rows != prev.rows {
        seq![Op::Resize(next.cols as usize, next.rows as usize)]
    } else {
        Seq::empty()
    };
    resize + scan_finish(prev, next, 0, 0, prev.cursor_row, prev.cursor_col)
}

/// The diff engine is a pure function of the two frames alone: equal
/// inputs yield equal operation lists.
pub proof fn lemma_spill_deterministic(
    prev: ScreenView,
    next: ScreenView,
    first: Seq<Op>,
    second: Seq<Op>,
)
    requires
        first == spill_spec(prev, next),
        second == spill_spec(prev, next),
    ensures
        first == second,
{
}

/// Pushing one operation is appending a singleton list.
proof fn lemma_push_is_concat(s: Seq<Op>, op: Op)
    ensures
        s.push(op) == s + seq![op],
{
    assert(s.push(op) =~= s + seq![op]);
}

/// The empty list is a unit for concatenation.
proof fn lemma_concat_empty(s: Seq<Op>)
    ensures
        s + Seq::<Op>::empty() == s,
        Seq::<Op>::empty() + s == s,
{
    assert(s + Seq::<Op>::empty() =~= s);
    assert(Seq::<Op>::empty() + s =~= s);
}

/// One changed cell advances the scan: joining the operations it emits
/// to what was already emitted leaves the total list unchanged.
proof fn lemma_scan_step_changed(
    prev: ScreenView,
    next: ScreenView,
    row: int,
    col: int,
    ecr: nat,
    ecc: nat,
    ncr: nat,
    ncc: nat,
    before: Seq<Op>,
    after: Seq<Op>,
    total: Seq<Op>,
)
    requires
        0 <= row < next.rows,
        0 <= col < next.cols,
        next.cells[row][col] != cell_or_space(prev, row, col),
        ncr == (if col + 1 == next.cols {
            (row + 1) as nat
        } else {
            row as nat
        }),
        ncc == (if col + 1 == next.cols {
            0nat
        } else {
            (col + 1) as nat
        }),
        after == before + (if ecr == row && ecc == col {
            Seq::<Op>::empty()
        } else {
            seq![Op::CursorPosition(row as usize, col as usize)]
        }) + seq![Op::Put(cell_or_space(next, row, col))],
        before + scan_finish(prev, next, row, col, ecr, ecc) == total,
    ensures
        after + scan_finish(prev, next, row, col + 1, ncr, ncc) == total,
{
    let moved: Seq<Op> = if ecr == row && ecc == col {
        Seq::empty()
    } else {
        seq![Op::CursorPosition(row as usize, col as usize)]
    };
    let put: Seq<Op> = seq![Op::Put(cell_or_space(next, row, col))];
    let rest = scan_ops(prev, next, row, col + 1, ncr, ncc);
    let here = scan_ops(prev, next, row, col, ecr, ecc);
    assert(scan_end(prev, next, row, col, ecr, ecc) == scan_end(prev, next, row, col + 1, ncr, ncc));
    assert(here =~= moved + put + rest);
    let end = scan_end(prev, next, row, col + 1, ncr, ncc);
    let trail: Seq<Op> = if end.1 != next.cursor_col || end.0 != next.cursor_row {
        seq![Op::CursorPosition(next.cursor_row as usize, next.cursor_col as usize)]
    } else {
        Seq::empty()
    };
    assert(scan_finish(prev, next, row, col, ecr, ecc) == here + trail);
    assert(scan_finish(prev, next, row, col + 1, ncr, ncc) == rest + trail);
    assert(after + (rest + trail) =~= before + (here + trail));
}

/// Compare two frames and produce an ordered operation list that turns
/// `prev` into `next`.
///
/// The list starts with a `Resize` exactly when the dimensions differ;
/// it holds one `Put` (preceded by a `CursorPosition` whenever the
/// tracked cursor is elsewhere) for each cell of `next` that differs
/// from what `prev` showed there (a space outside `prev`'s bounds), in
/// row-major order; and it ends with a `CursorPosition` exactly when the
/// tracked cursor does not already rest at `next`'s cursor.
///
/// Replaying the list against `prev` per the apply semantics yields
/// `next` exactly, content and cursor.  When nothing changed the list is
/// empty, and when only the cursor position changed it is that single
/// cursor move.  No operation is emitted for an unchanged cell, so the
/// list never exceeds two operations per changed cell plus the initial
/// resize and the final cursor move.
///
/// The returned list is pinned exactly: it equals [`spill_spec`] of the
/// two frames, so the result depends on nothing but their values.
#[verifier::rlimit(60)]
pub fn spill(prev: &State, next: &State) -> (ops: Vec<Op>)
    requires
        prev@.wf(),
        next@.wf(),
    ensures
        ops@ == spill_spec(prev@, next@),
        apply_ops(prev@, ops@) == next@,
        prev@ == next@ ==> ops@.len() == 0,
        (prev@.rows == next@.rows && prev@.cols == next@.cols && prev@.cells == next@.cells
            && prev@.cursor_row == next@.cursor_row && prev@.cursor_col == next@.cursor_col)
            ==> ops@.len() == 0,
        (prev@.rows == next@.rows && prev@.cols == next@.cols && prev@.cells == next@.cells && !(
        prev@.cursor_row == next@.cursor_row && prev@.cursor_col == next@.cursor_col)) ==> (
        ops@.len() == 1 && ops@[0] == Op::CursorPosition(next.cursor_row, next.cursor_col)),
        ops@.len() <= 2 * changed_cells(prev@, next@) + 2,
{
    let mut cursor_row: usize = prev.cursor_row;
    let mut cursor_col: usize = prev.cursor_col;
    let mut ops: Vec<Op> = Vec::new();

    if next.cols != prev.cols || next.rows != prev.rows {
        ops.push(Op::Resize(next.cols, next.rows));
        proof {
            let rop = Op::Resize(next.cols, next.rows);
            assert(ops@ =~= seq![rop]);
            assert(ops@ + scan_finish(prev@, next@, 0, 0, cursor_row as nat, cursor_col as nat)
                =~= spill_spec(prev@, next@));
            assert(apply_ops(apply_op(prev@, rop), ops@.drop_first()) == apply_op(prev@, rop));
            assert(apply_ops(prev@, ops@) =~~= scanned_view(
                prev@,
                next@,
                0,
                0,
                cursor_row as nat,
                cursor_col as nat,
            ));
        }
    } else {
        proof {
            assert(ops@ + scan_finish(prev@, next@, 0, 0, cursor_row as nat, cursor_col as nat)
                =~= spill_spec(prev@, next@));
            assert(apply_ops(prev@, ops@) =~~= scanned_view(
                prev@,
                next@,
                0,
                0,
                cursor_row as nat,
                cursor_col as nat,
            ));
        }
    }

    let rows = next.rows;
    let cols = next.cols;
    for row in 0..rows
        invariant
            prev@.wf(),
            next@.wf(),
            rows == next@.rows,
            cols == next@.cols,
            apply_ops(prev@, ops@) == scanned_view(
                prev@,
                next@,
                row as int,
                0,
                cursor_row as nat,
                cursor_col as nat,
            ),
            (prev@.rows == next@.rows && prev@.cols == next@.cols && prev@.cells == next@.cells)
                ==> (ops@.len() == 0 && cursor_row == prev@.cursor_row && cursor_col
                == prev@.cursor_col),
            ops@.len() <= 1 + 2 * changes_before_row(prev@, next@, row as int),
            ops@ + scan_finish(prev@, next@, row as int, 0, cursor_row as nat, cursor_col as nat)
                == spill_spec(prev@, next@),
    {
        for col in 0..cols
            invariant
                prev@.wf(),
                next@.wf(),
                rows == next@.rows,
                cols == next@.cols,
                row < rows,
                apply_ops(prev@, ops@) == scanned_view(
                    prev@,
                    next@,
                    row as int,
                    col as int,
                    cursor_row as nat,
                    cursor_col as nat,
                ),
                (prev@.rows == next@.rows && prev@.cols == next@.cols && prev@.cells
                    == next@.cells) ==> (ops@.len() == 0 && cursor_row == prev@.cursor_row
                    && cursor_col == prev@.cursor_col),
                ops@.len() <= 1 + 2 * (changes_before_row(prev@, next@, row as int)
                    + changes_in_row(prev@, next@, row as int, col as int)),
                ops@ + scan_finish(
                    prev@,
                    next@,
                    row as int,
                    col as int,
                    cursor_row as nat,
                    cursor_col as nat,
                ) == spill_spec(prev@, next@),
        {
            let ghost entry_len = ops@.len();
            let ghost entry_ops = ops@;
            let ghost ecr = cursor_row as nat;
            let ghost ecc = cursor_col as nat;
            proof {
                assert(next@.cells[row as int].len() == next@.cols);
            }
            let old_cell = if row < prev.rows && col < prev.cols {
                proof {
                    assert(prev@.cells[row as int].len() == prev@.cols);
                }
                prev.cells[row][col]
            } else {
                ' '
            };
            let new_cell = next.cells[row][col];
            proof {
                assert(old_cell == cell_or_space(prev@, row as int, col as int));
            }

            if old_cell != new_cell {
                proof {
                    if prev@.rows == next@.rows && prev@.cols == next@.cols && prev@.cells
                        == next@.cells {
                        assert(prev@.cells[row as int] == next@.cells[row as int]);
                        assert(false);
                    }
                }
                if cursor_col != col || cursor_row != row {
                    proof {
                        lemma_apply_ops_snoc(prev@, ops@, Op::CursorPosition(row, col));
                    }
                    ops.push(Op::CursorPosition(row, col));
                    proof {
                        lemma_push_is_concat(entry_ops, Op::CursorPosition(row, col));
                        assert(ops@ == entry_ops + seq![Op::CursorPosition(row, col)]);
                        assert(ops@.len() == entry_len + 1);
                    }
                    cursor_row = row;
                    cursor_col = col;
                    proof {
                        assert(apply_ops(prev@, ops@) =~~= scanned_view(
                            prev@,
                            next@,
                            row as int,
                            col as int,
                            cursor_row as nat,
                            cursor_col as nat,
                        ));
                    }
                }
                proof {
                    lemma_apply_ops_snoc(prev@, ops@, Op::Put(new_cell));
                }
                let ghost at_cell = apply_ops(prev@, ops@);
                proof {
                    assert(ops@.len() <= entry_len + 1);
                }
                let ghost pre = ops@;
                ops.push(Op::Put(new_cell));
                proof {
                    vstd::seq::axiom_seq_push_len(pre, Op::Put(new_cell));
                    assert(ops@.len() == pre.len() + 1);
                    assert(ops@.len() <= entry_len + 2);
                }
                cursor_col += 1;
                if cursor_col >= cols {
                    cursor_col -= cols;
                    cursor_row += 1;
                }
                proof {
                    assert(next@.cells[row as int][col as int] != cell_or_space(
                        prev@,
                        row as int,
                        col as int,
                    ));
                    assert(changes_in_row(prev@, next@, row as int, col + 1) == changes_in_row(
                        prev@,
                        next@,
                        row as int,
                        col as int,
                    ) + 1);
                    assert(ops@.len() <= 1 + 2 * (changes_before_row(prev@, next@, row as int)
                        + changes_in_row(prev@, next@, row as int, col + 1)));
                    assert(at_cell.cells[row as int].len() == next@.cols);
                    assert(crate::ops::put_in_range(at_cell));
                    assert(apply_ops(prev@, ops@) =~~= scanned_view(
                        prev@,
                        next@,
                        row as int,
                        col + 1,
                        cursor_row as nat,
                        cursor_col as nat,
                    ));
                    let moved_ops: Seq<Op> = if ecr == row as int && ecc == col as int {
                        Seq::empty()
                    } else {
                        seq![Op::CursorPosition(row, col)]
                    };
                    lemma_push_is_concat(pre, Op::Put(new_cell));
                    lemma_concat_empty(entry_ops);
                    assert(pre == entry_ops + moved_ops);
                    assert(ops@ == (entry_ops + moved_ops) + seq![Op::Put(new_cell)]);
                    lemma_scan_step_changed(
                        prev@,
                        next@,
                        row as int,
                        col as int,
                        ecr,
                        ecc,
                        cursor_row as nat,
                        cursor_col as nat,
                        entry_ops,
                        ops@,
                        spill_spec(prev@, next@),
                    );
                }
            } else {
                proof {
                    assert(changes_in_row(prev@, next@, row as int, col + 1) == changes_in_row(
                        prev@,
                        next@,
                        row as int,
                        col as int,
                    ));
                    assert(ops@.len() <= 1 + 2 * (changes_before_row(prev@, next@, row as int)
                        + changes_in_row(prev@, next@, row as int, col + 1)));
                    assert(scanned_view(
                        prev@,
                        next@,
                        row as int,
                        col as int,
                        cursor_row as nat,
                        cursor_col as nat,
                    ) =~~= scanned_view(
                        prev@,
                        next@,
                        row as int,
                        col + 1,
                        cursor_row as nat,
                        cursor_col as nat,
                    ));
                    assert(scan_ops(prev@, next@, row as int, col as int, ecr, ecc)
                        == scan_ops(prev@, next@, row as int, col + 1, ecr, ecc));
                    assert(scan_end(prev@, next@, row as int, col as int, ecr, ecc)
                        == scan_end(prev@, next@, row as int, col + 1, ecr, ecc));
                    assert(ops@ + scan_finish(
                        prev@,
                        next@,
                        row as int,
                        col + 1,
                        cursor_row as nat,
                        cursor_col as nat,
                    ) == ops@ + scan_finish(prev@, next@, row as int, col as int, ecr, ecc));
                }
            }
        }
        proof {
            assert(changes_before_row(prev@, next@, row + 1) == changes_before_row(
                prev@,
                next@,
                row as int,
            ) + changes_in_row(prev@, next@, row as int, cols as int));
            assert(scanned_view(
                prev@,
                next@,
                row as int,
                cols as int,
                cursor_row as nat,
                cursor_col as nat,
            ) =~~= scanned_view(
                prev@,
                next@,
                row + 1,
                0,
                cursor_row as nat,
                cursor_col as nat,
            ));
            assert(scan_ops(prev@, next@, row as int, cols as int, cursor_row as nat,
                cursor_col as nat) == scan_ops(prev@, next@, row + 1, 0, cursor_row as nat,
                cursor_col as nat));
            assert(scan_end(prev@, next@, row as int, cols as int, cursor_row as nat,
                cursor_col as nat) == scan_end(prev@, next@, row + 1, 0, cursor_row as nat,
                cursor_col as nat));
        }
    }

    proof {
        assert(scan_ops(prev@, next@, rows as int, 0, cursor_row as nat, cursor_col as nat)
            =~= Seq::<Op>::empty());
        assert(scan_end(prev@, next@, rows as int, 0, cursor_row as nat, cursor_col as nat) == (
            cursor_row as nat,
            cursor_col as nat,
        ));
    }
    if cursor_col != next.cursor_col || cursor_row != next.cursor_row {
        proof {
            lemma_apply_ops_snoc(prev@, ops@, Op::CursorPosition(next.cursor_row, next.cursor_col));
            assert(scan_finish(prev@, next@, rows as int, 0, cursor_row as nat, cursor_col as nat)
                =~= seq![Op::CursorPosition(next.cursor_row, next.cursor_col)]);
        }
        let ghost before_trail = ops@;
        ops.push(Op::CursorPosition(next.cursor_row, next.cursor_col));
        proof {
            assert(ops@ =~= before_trail + scan_finish(
                prev@,
                next@,
                rows as int,
                0,
                cursor_row as nat,
                cursor_col as nat,
            ));
            assert(ops@ == spill_spec(prev@, next@));
            assert(apply_ops(prev@, ops@) =~~= next@);
        }
    } else {
        proof {
            assert(scan_finish(prev@, next@, rows as int, 0, cursor_row as nat, cursor_col as nat)
                =~= Seq::<Op>::empty());
            assert(ops@ =~= ops@ + scan_finish(
                prev@,
                next@,
                rows as int,
                0,
                cursor_row as nat,
                cursor_col as nat,
            ));
            assert(ops@ == spill_spec(prev@, next@));
            assert(apply_ops(prev@, ops@) =~~= next@);
        }
    }

    ops
}

} // verus!
