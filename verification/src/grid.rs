//! The grid model: a fixed-size rectangular buffer of characters plus a
//! logical cursor position, representing one terminal frame.
//!
//! Coordinates are 0-based everywhere inside the library; the encoder
//! translates cursor positions to the terminal's 1-based convention.

use vstd::prelude::*;

verus! {

/// The mathematical model of one terminal frame: the grid dimensions, the
/// cell contents in row-major order, and the logical cursor position.
#[verifier::ext_equal]
pub ghost struct ScreenView {
    pub rows: nat,
    pub cols: nat,
    pub cells: Seq<Seq<char>>,
    pub cursor_row: nat,
    pub cursor_col: nat,
}

impl ScreenView {
    /// Well-formedness: the dimensions are positive and the cell buffer
    /// has exactly `rows` rows of exactly `cols` characters each (no row
    /// is ragged).  The cursor is not constrained: replaying operations
    /// can legitimately leave it just past the grid's edge.
    pub open spec fn wf(self) -> bool {
        &&& self.rows >= 1
        &&& self.cols >= 1
        &&& self.cells.len() == self.rows
        &&& forall|r: int| 0 <= r < self.rows ==> (#[trigger] self.cells[r]).len() == self.cols
    }

    /// The same frame with one cell replaced.
    pub open spec fn with_cell(self, row: int, col: int, c: char) -> ScreenView {
        ScreenView { cells: self.cells.update(row, self.cells[row].update(col, c)), ..self }
    }

    /// The same frame with the cursor moved.
    pub open spec fn with_cursor(self, row: nat, col: nat) -> ScreenView {
        ScreenView { cursor_row: row, cursor_col: col, ..self }
    }

    /// A `rows` by `cols` frame filled with spaces, cursor at the origin.
    pub open spec fn blank(rows: nat, cols: nat) -> ScreenView {
        ScreenView {
            rows,
            cols,
            cells: Seq::new(rows, |r: int| Seq::new(cols, |c: int| ' ')),
            cursor_row: 0,
            cursor_col: 0,
        }
    }
}

/// One terminal frame: a `rows` x `cols` character buffer plus the cursor
/// position the terminal is believed to have.  `cells` holds exactly
/// `rows` rows of exactly `cols` characters whenever the value is
/// well-formed (see [`ScreenView::wf`]).
#[derive(Clone, PartialEq, Eq, Debug)]
pub struct State {
    pub cols: usize,
    pub rows: usize,
    pub cells: Vec<Vec<char>>,
    pub cursor_row: usize,
    pub cursor_col: usize,
}

impl View for State {
    type V = ScreenView;

    open spec fn view(&self) -> ScreenView {
        ScreenView {
            rows: self.rows as nat,
            cols: self.cols as nat,
            cells: Seq::new(self.cells@.len(), |r: int| self.cells@[r]@),
            cursor_row: self.cursor_row as nat,
            cursor_col: self.cursor_col as nat,
        }
    }
}

/// A vector holding `n` copies of the character `value`.
pub fn repeat_vec(value: char, n: usize) -> (v: Vec<char>)
    ensures
        v@ =~= Seq::new(n as nat, |c: int| value),
{
    let mut v: Vec<char> = Vec::with_capacity(n);
    for i in 0..n
        invariant
            v@ =~= Seq::new(i as nat, |c: int| value),
    {
        v.push(value);
    }
    v
}

impl State {
    /// A blank `rows` x `cols` frame: every cell a space, cursor at the
    /// origin.
    pub fn new_blank(rows: usize, cols: usize) -> (s: State)
        requires
            rows >= 1,
            cols >= 1,
        ensures
            s@ =~~= ScreenView::blank(rows as nat, cols as nat),
            s@.wf(),
    {
        let mut cells: Vec<Vec<char>> = Vec::with_capacity(rows);
        for r in 0..rows
            invariant
                cells@.len() == r,
                forall|i: int|
                    0 <= i < r ==> (#[trigger] cells@[i])@ =~= Seq::new(
                        cols as nat,
                        |c: int| ' ',
                    ),
        {
            cells.push(repeat_vec(' ', cols));
        }
        State { rows, cols, cells, cursor_row: 0, cursor_col: 0 }
    }

    /// The frame assumed to describe the real terminal before anything has
    /// been drawn: a blank 30 x 30 grid.
    pub fn new_real() -> (s: State)
        ensures
            s@ =~~= ScreenView::blank(30, 30),
            s@.wf(),
    {
        State::new_blank(30, 30)
    }

    /// Decide [`ScreenView::wf`] at run time, so that code outside the
    /// library (a render callback writing into a frame, say) can test
    /// the precondition of [`crate::spill`] before relying on it.
    pub fn is_well_formed(&self) -> (b: bool)
        ensures
            b == self@.wf(),
    {
        if self.rows < 1 || self.cols < 1 || self.cells.len() != self.rows {
            return false;
        }
        let rows = self.rows;
        for r in 0..rows
            invariant
                rows == self@.rows,
                rows == self@.cells.len(),
                self@.rows >= 1,
                self@.cols >= 1,
                forall|i: int| 0 <= i < r ==> (#[trigger] self@.cells[i]).len() == self@.cols,
        {
            if self.cells[r].len() != self.cols {
                proof {
                    assert(self@.cells[r as int].len() != self@.cols);
                }
                return false;
            }
        }
        true
    }

    /// Write character `c` at cell `(row, col)`.
    pub fn put(&mut self, row: usize, col: usize, c: char)
        requires
            old(self)@.wf(),
            row < old(self)@.rows,
            col < old(self)@.cols,
        ensures
            final(self)@ =~~= old(self)@.with_cell(row as int, col as int, c),
            final(self)@.wf(),
    {
        proof {
            assert(self@.cells[row as int].len() == self@.cols);
        }
        self.cells[row][col] = c;
    }

    /// Write the characters of `s` left to right starting at cell
    /// `(row, col)`.
    pub fn write(&mut self, row: usize, col: usize, s: &str)
        requires
            old(self)@.wf(),
            row < old(self)@.rows,
            col + s@.len() <= old(self)@.cols,
        ensures
            final(self)@.wf(),
            final(self)@.rows == old(self)@.rows,
            final(self)@.cols == old(self)@.cols,
            final(self)@.cursor_row == old(self)@.cursor_row,
            final(self)@.cursor_col == old(self)@.cursor_col,
            final(self)@.cells[row as int] =~= old(self)@.cells[row as int].map(
                |c: int, ch: char|
                    if col <= c < col + s@.len() {
                        s@[c - col]
                    } else {
                        ch
                    },
            ),
            forall|r: int|
                0 <= r < old(self)@.rows && r != row ==> final(self)@.cells[r] == old(
                    self,
                )@.cells[r],
    {
        let n = s.unicode_len();
        for i in 0..n
            invariant
                self@.wf(),
                n == s@.len(),
                row < self@.rows,
                col + n <= self@.cols,
                self@.rows == old(self)@.rows,
                self@.cols == old(self)@.cols,
                self@.cursor_row == old(self)@.cursor_row,
                self@.cursor_col == old(self)@.cursor_col,
                self@.cells[row as int] =~= old(self)@.cells[row as int].map(
                    |c: int, ch: char|
                        if col <= c < col + i {
                            s@[c - col]
                        } else {
                            ch
                        },
                ),
                forall|r: int|
                    0 <= r < old(self)@.rows && r != row ==> self@.cells[r] == old(
                        self,
                    )@.cells[r],
        {
            let c = s.get_char(i);
            self.put(row, col + i, c);
        }
    }

    /// Reset the frame: every cell becomes a space and the cursor returns
    /// to the origin.
    pub fn clear(&mut self)
        requires
            old(self)@.wf(),
        ensures
            final(self)@ =~~= ScreenView::blank(old(self)@.rows, old(self)@.cols),
            final(self)@.wf(),
    {
        self.cursor_row = 0;
        self.cursor_col = 0;
        let rows = self.rows;
        let cols = self.cols;
        for row in 0..rows
            invariant
                self@.wf(),
                rows == self@.rows,
                cols == self@.cols,
                self@.cursor_row == 0,
                self@.cursor_col == 0,
                forall|r: int|
                    0 <= r < row ==> (#[trigger] self@.cells[r]) =~= Seq::new(
                        cols as nat,
                        |c: int| ' ',
                    ),
        {
            for col in 0..cols
                invariant
                    self@.wf(),
                    rows == self@.rows,
                    cols == self@.cols,
                    row < rows,
                    self@.cursor_row == 0,
                    self@.cursor_col == 0,
                    forall|r: int|
                        0 <= r < row ==> (#[trigger] self@.cells[r]) =~= Seq::new(
                            cols as nat,
                            |c: int| ' ',
                        ),
                    forall|c: int| 0 <= c < col ==> self@.cells[row as int][c] == ' ',
            {
                self.put(row, col, ' ');
            }
        }
    }
}

} // verus!
