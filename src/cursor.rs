use vstd::prelude::*;
use crate::buffer::{Buffer, GUTTER_WIDTH, screen_rows};
use crate::text::char_count;

verus! {

/// Screen rows taken by the lines above line `row`.
pub open spec fn rows_above(lines: Seq<Seq<char>>, row: nat, width: nat) -> nat
    decreases row,
{
    if row == 0 {
        0
    } else {
        rows_above(lines, (row - 1) as nat, width) + screen_rows(lines, (row - 1) as nat, width)
    }
}

/// Terminal rows are numbered by `u16`: a position further down is reported as the last one.
pub open spec fn capped(x: int) -> int {
    if x <= u16::MAX {
        x
    } else {
        u16::MAX as int
    }
}

/// The screen row of logical position `(row, col)` when the text starts on screen row
/// `base`: the rows of the lines above, then the wrap row that column `col` falls on.
pub open spec fn screen_row_of(lines: Seq<Seq<char>>, base: nat, row: nat, col: nat, width: nat) -> nat {
    base + rows_above(lines, row, width) + col / ((width - GUTTER_WIDTH) as nat)
}

/// The screen column of logical column `col`, right of the gutter.
pub open spec fn screen_col_of(col: nat, width: nat) -> int {
    GUTTER_WIDTH + col % ((width - GUTTER_WIDTH) as nat)
}

/// `col` brought back to the end of line `row` when it lies past it (kept when the line
/// is missing).
pub open spec fn clamp_col(lines: Seq<Seq<char>>, row: nat, col: nat) -> nat {
    if row < lines.len() && col > lines[row as int].len() {
        lines[row as int].len()
    } else {
        col
    }
}

/// `(row, col)` after a move one column left: none at column 0.
pub open spec fn left_of(row: nat, col: nat) -> (nat, nat) {
    if col > 0 {
        (row, (col - 1) as nat)
    } else {
        (row, col)
    }
}

/// `(row, col)` after a move one column right: none at the end of the line or on a
/// missing line.
pub open spec fn right_of(lines: Seq<Seq<char>>, row: nat, col: nat) -> (nat, nat) {
    if row < lines.len() && col < lines[row as int].len() {
        (row, col + 1)
    } else {
        (row, col)
    }
}

/// `(row, col)` after a move one line up (none on the first line), the column then
/// brought back to the end of the line it is on.
pub open spec fn above(lines: Seq<Seq<char>>, row: nat, col: nat) -> (nat, nat) {
    let r = if row > 0 { (row - 1) as nat } else { row };
    (r, clamp_col(lines, r, col))
}

/// `(row, col)` after a move one line down (none on the last line), the column then
/// brought back to the end of the line it is on.
pub open spec fn below(lines: Seq<Seq<char>>, row: nat, col: nat) -> (nat, nat) {
    let r = if row + 1 < lines.len() { row + 1 } else { row };
    (r, clamp_col(lines, r, col))
}

/// `(row, col)` after a move to the end of the line: none on a missing line.
pub open spec fn line_end(lines: Seq<Seq<char>>, row: nat, col: nat) -> (nat, nat) {
    if row < lines.len() {
        (row, lines[row as int].len())
    } else {
        (row, col)
    }
}

/// Moves at the edge of the document are no-ops on the coordinate they would push past
/// the edge: left at column 0 keeps the column, right at the end of an existing line
/// keeps the column, up on the first line and down on the last line keep the row.
pub proof fn lemma_moves_stop_at_edges(lines: Seq<Seq<char>>, row: nat, col: nat)
    ensures
        col == 0 ==> left_of(row, col) == (row, col),
        row < lines.len() && col == lines[row as int].len() ==> right_of(lines, row, col) == (row, col),
        row == 0 ==> above(lines, row, col).0 == row,
        row + 1 == lines.len() ==> below(lines, row, col).0 == row,
{
}

/// A position in a buffer, logical and on the screen.
pub struct Cursor {
    /// Line of the document, from 0.
    pub row: usize,
    /// Character column within the line, from 0.
    pub col: usize,
    /// Terminal row of the position, wrapping taken into account.
    pub screen_row: u16,
    /// Terminal column of the position, right of the line-number gutter.
    pub screen_col: u16,
    /// Terminal row on which the first line of text is shown.
    pub base_row: u16,
}

impl Cursor {
    /// Whether the position lies inside the document: an existing line, and a column
    /// no further than the end of it.
    pub open spec fn within(&self, lines: Seq<Seq<char>>) -> bool {
        self.row < lines.len() && self.col <= lines[self.row as int].len()
    }

    /// Whether the screen position is the one that the logical position gives at
    /// terminal width `width`.
    pub open spec fn placed(&self, lines: Seq<Seq<char>>, width: nat) -> bool {
        &&& self.screen_row == capped(screen_row_of(lines, self.base_row as nat, self.row as nat, self.col as nat, width) as int)
        &&& self.screen_col == screen_col_of(self.col as nat, width)
    }

    /// A cursor at the start of the document, whose text begins on screen row `start_row`.
    pub fn new(start_row: u16) -> (c: Cursor)
        ensures
            c.row == 0,
            c.col == 0,
            c.screen_row == start_row,
            c.screen_col == GUTTER_WIDTH,
            c.base_row == start_row,
            forall|lines: Seq<Seq<char>>, width: nat| width > GUTTER_WIDTH ==> #[trigger] c.placed(lines, width),
    {
        Cursor { row: 0, col: 0, screen_row: start_row, screen_col: GUTTER_WIDTH as u16, base_row: start_row }
    }

    /// Recomputes the screen position from the logical one at terminal width `term_width`.
    pub fn update_screen_position(&mut self, buffer: &Buffer, term_width: u16)
        requires
            term_width > GUTTER_WIDTH,
        ensures
            final(self).row == old(self).row,
            final(self).col == old(self).col,
            final(self).base_row == old(self).base_row,
            final(self).placed(buffer@, term_width as nat),
    {
        let mut acc: u16 = self.base_row;
        let mut i: usize = 0;
        while i < self.row
            invariant
                i <= self.row,
                term_width > GUTTER_WIDTH,
                acc == capped(self.base_row + rows_above(buffer@, i as nat, term_width as nat)),
            decreases self.row - i,
        {
            let rows = buffer.line_screen_rows(i, term_width);
            acc = add_capped(acc, rows);
            i = i + 1;
        }
        let eff = (term_width - GUTTER_WIDTH as u16) as usize;
        self.screen_row = add_capped(acc, self.col / eff);
        self.screen_col = (GUTTER_WIDTH + self.col % eff) as u16;
    }

    /// One column left; nothing moves at column 0.
    pub fn move_left(&mut self, buffer: &Buffer, term_width: u16)
        requires
            term_width > GUTTER_WIDTH,
        ensures
            (final(self).row as nat, final(self).col as nat) == left_of(old(self).row as nat, old(self).col as nat),
            old(self).col == 0 ==> final(self).col == old(self).col,
            final(self).base_row == old(self).base_row,
            final(self).placed(buffer@, term_width as nat),
            old(self).within(buffer@) ==> final(self).within(buffer@),
    {
        if self.col > 0 {
            self.col = self.col - 1;
        }
        self.update_screen_position(buffer, term_width);
    }

    /// One column right, up to the end of the line; nothing moves at the end of the line
    /// or on a missing line.
    pub fn move_right(&mut self, buffer: &Buffer, term_width: u16)
        requires
            term_width > GUTTER_WIDTH,
        ensures
            (final(self).row as nat, final(self).col as nat) == right_of(buffer@, old(self).row as nat, old(self).col as nat),
            old(self).row < buffer@.len() && old(self).col == buffer@[old(self).row as int].len()
                ==> final(self).col == old(self).col,
            final(self).base_row == old(self).base_row,
            final(self).placed(buffer@, term_width as nat),
            old(self).within(buffer@) ==> final(self).within(buffer@),
    {
        if let Some(line) = buffer.get_line(self.row) {
            if self.col < char_count(line) {
                self.col = self.col + 1;
            }
        }
        self.update_screen_position(buffer, term_width);
    }

    /// One line up (the row stays on the first line), then the column brought back to the
    /// end of the line if it lies past it.
    pub fn move_up(&mut self, buffer: &Buffer, term_width: u16)
        requires
            term_width > GUTTER_WIDTH,
        ensures
            (final(self).row as nat, final(self).col as nat) == above(buffer@, old(self).row as nat, old(self).col as nat),
            old(self).row == 0 ==> final(self).row == old(self).row,
            final(self).base_row == old(self).base_row,
            final(self).placed(buffer@, term_width as nat),
            old(self).row < buffer@.len() ==> final(self).within(buffer@),
    {
        if self.row > 0 {
            self.row = self.row - 1;
        }
        self.clamp_col(buffer);
        self.update_screen_position(buffer, term_width);
    }

    /// One line down (the row stays on the last line), then the column brought back to the
    /// end of the line if it lies past it.
    pub fn move_down(&mut self, buffer: &Buffer, term_width: u16)
        requires
            term_width > GUTTER_WIDTH,
        ensures
            (final(self).row as nat, final(self).col as nat) == below(buffer@, old(self).row as nat, old(self).col as nat),
            old(self).row + 1 == buffer@.len() ==> final(self).row == old(self).row,
            final(self).base_row == old(self).base_row,
            final(self).placed(buffer@, term_width as nat),
            old(self).row < buffer@.len() ==> final(self).within(buffer@),
    {
        if self.row < buffer.line_count() - 1 {
            self.row = self.row + 1;
        }
        self.clamp_col(buffer);
        self.update_screen_position(buffer, term_width);
    }

    /// Brings the column back to the end of the line when it lies past it.
    fn clamp_col(&mut self, buffer: &Buffer)
        ensures
            final(self).row == old(self).row,
            final(self).col == clamp_col(buffer@, old(self).row as nat, old(self).col as nat),
            final(self).base_row == old(self).base_row,
    {
        if let Some(line) = buffer.get_line(self.row) {
            let len = char_count(line);
            if self.col > len {
                self.col = len;
            }
        }
    }

    /// To column 0 of the line.
    pub fn move_to_start(&mut self, buffer: &Buffer, term_width: u16)
        requires
            term_width > GUTTER_WIDTH,
        ensures
            final(self).row == old(self).row,
            final(self).col == 0,
            final(self).base_row == old(self).base_row,
            final(self).placed(buffer@, term_width as nat),
            old(self).within(buffer@) ==> final(self).within(buffer@),
    {
        self.col = 0;
        self.update_screen_position(buffer, term_width);
    }

    /// To the end of the line, just past its last character; nothing moves on a missing line.
    pub fn move_to_end(&mut self, buffer: &Buffer, term_width: u16)
        requires
            term_width > GUTTER_WIDTH,
        ensures
            (final(self).row as nat, final(self).col as nat) == line_end(buffer@, old(self).row as nat, old(self).col as nat),
            final(self).base_row == old(self).base_row,
            final(self).placed(buffer@, term_width as nat),
            old(self).within(buffer@) ==> final(self).within(buffer@),
    {
        if let Some(line) = buffer.get_line(self.row) {
            self.col = char_count(line);
        }
        self.update_screen_position(buffer, term_width);
    }
}

/// `a + b`, capped at the last terminal row.
fn add_capped(a: u16, b: usize) -> (r: u16)
    ensures
        r == capped(a + b),
{
    if b >= (u16::MAX - a) as usize {
        u16::MAX
    } else {
        a + b as u16
    }
}

} // verus!
