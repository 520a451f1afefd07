use vstd::prelude::*;
use vstd::arithmetic::div_mod::lemma_hoist_over_denominator;
use crate::text::{char_count, char_slice, padded, with_char_inserted, with_char_removed};

verus! {

/// Screen cells reserved on the left of every text row for the line number.
pub const GUTTER_WIDTH: usize = 5;

/// `lines` extended with empty lines until it holds at least `n` of them.
pub open spec fn grown_to(lines: Seq<Seq<char>>, n: nat) -> Seq<Seq<char>> {
    if lines.len() >= n {
        lines
    } else {
        lines + Seq::new((n - lines.len()) as nat, |_i: int| Seq::<char>::empty())
    }
}

/// The lines after `text` is inserted as line `index`, empty lines filling any gap first.
pub open spec fn line_inserted(lines: Seq<Seq<char>>, index: nat, text: Seq<char>) -> Seq<Seq<char>> {
    grown_to(lines, index).insert(index as int, text)
}

/// The lines after `c` is inserted at column `col` of line `row`: missing lines are
/// added empty, and a line shorter than `col` is padded with spaces first.
pub open spec fn char_inserted(lines: Seq<Seq<char>>, row: nat, col: nat, c: char) -> Seq<Seq<char>> {
    let g = grown_to(lines, row + 1);
    g.update(row as int, padded(g[row as int], col).insert(col as int, c))
}

/// Whether there is a character at column `col` of line `row`.
pub open spec fn has_char_at(lines: Seq<Seq<char>>, row: nat, col: nat) -> bool {
    row < lines.len() && col < lines[row as int].len()
}

/// The lines after the character at `(row, col)` is removed, if there is one.
pub open spec fn char_removed(lines: Seq<Seq<char>>, row: nat, col: nat) -> Seq<Seq<char>> {
    if has_char_at(lines, row, col) {
        lines.update(row as int, lines[row as int].remove(col as int))
    } else {
        lines
    }
}

/// Screen rows taken by a line of `len` characters behind the gutter, wrapped at
/// `width` cells: the ceiling of `(len + GUTTER_WIDTH) / width`.
pub open spec fn rows_for_len(len: nat, width: nat) -> nat
    recommends
        width > 0,
{
    ((len + GUTTER_WIDTH + width - 1) as nat / width) as nat
}

/// Screen rows taken by line `row`; a missing line counts as one row.
pub open spec fn screen_rows(lines: Seq<Seq<char>>, row: nat, width: nat) -> nat {
    if row < lines.len() {
        rows_for_len(lines[row as int].len(), width)
    } else {
        1
    }
}

/// The piece of `line` shown on its wrap row `k` when `eff` characters fit on a row.
pub open spec fn wrap_piece(line: Seq<char>, k: nat, eff: nat) -> Seq<char> {
    let start = k * eff;
    if start >= line.len() {
        Seq::empty()
    } else if start + eff <= line.len() {
        line.subrange(start as int, (start + eff) as int)
    } else {
        line.subrange(start as int, line.len() as int)
    }
}

/// The text of line `row` on its wrap row `k` at terminal width `width`; empty for a
/// missing line.
pub open spec fn line_part(lines: Seq<Seq<char>>, row: nat, k: nat, width: nat) -> Seq<char> {
    if row < lines.len() {
        wrap_piece(lines[row as int], k, (width - GUTTER_WIDTH) as nat)
    } else {
        Seq::empty()
    }
}

/// The text of each string.
spec fn texts(v: Seq<String>) -> Seq<Seq<char>> {
    v.map_values(|s: String| s@)
}

/// The text of the first `n` wrap rows of line `row`, joined in order.
pub open spec fn joined_parts(lines: Seq<Seq<char>>, row: nat, width: nat, n: nat) -> Seq<char>
    decreases n,
{
    if n == 0 {
        Seq::empty()
    } else {
        joined_parts(lines, row, width, (n - 1) as nat) + line_part(lines, row, (n - 1) as nat, width)
    }
}

/// The smaller of a line's length and `limit`.
pub open spec fn shown_len(len: nat, limit: nat) -> int {
    if limit <= len {
        limit as int
    } else {
        len as int
    }
}

/// Inserting a character at `(row, col)` and then removing the character at `(row, col)`
/// gives back the lines unchanged, for any existing line and any column up to its length.
pub proof fn lemma_insert_then_remove(lines: Seq<Seq<char>>, row: nat, col: nat, c: char)
    requires
        row < lines.len(),
        col <= lines[row as int].len(),
    ensures
        has_char_at(char_inserted(lines, row, col, c), row, col),
        char_removed(char_inserted(lines, row, col, c), row, col) == lines,
{
    let inserted = char_inserted(lines, row, col, c);
    assert(grown_to(lines, row + 1) == lines);
    assert(padded(lines[row as int], col) == lines[row as int]);
    assert(inserted[row as int].remove(col as int) =~= lines[row as int]);
    assert(char_removed(inserted, row, col) =~= lines);
}

/// The first `n` wrap rows of an existing line, joined, are the line's first
/// `n * (width - GUTTER_WIDTH)` characters (all of it when it is shorter).
pub proof fn lemma_joined_parts_prefix(lines: Seq<Seq<char>>, row: nat, width: nat, n: nat)
    requires
        row < lines.len(),
        width > GUTTER_WIDTH,
    ensures
        joined_parts(lines, row, width, n) == lines[row as int].subrange(
            0,
            shown_len(lines[row as int].len(), n * (width - GUTTER_WIDTH) as nat),
        ),
    decreases n,
{
    let line = lines[row as int];
    let eff = (width - GUTTER_WIDTH) as nat;
    if n == 0 {
        assert(line.subrange(0, 0) =~= Seq::<char>::empty());
        assert(n * (width - GUTTER_WIDTH) == 0) by (nonlinear_arith)
            requires n == 0;
    } else {
        let m = (n - 1) as nat;
        lemma_joined_parts_prefix(lines, row, width, m);
        assert(n * eff == m * eff + eff) by (nonlinear_arith)
            requires n == m + 1;
        let start = m * eff;
        assert(n * (width - GUTTER_WIDTH) == n * eff);
        assert(joined_parts(lines, row, width, n) == joined_parts(lines, row, width, m) + wrap_piece(line, m, eff));
        if start >= line.len() {
            assert(n * eff >= line.len());
            assert(wrap_piece(line, m, eff) =~= Seq::<char>::empty());
            assert(joined_parts(lines, row, width, n) =~= line.subrange(0, line.len() as int));
        } else if start + eff <= line.len() {
            assert(line.subrange(0, start as int) + line.subrange(start as int, (start + eff) as int)
                =~= line.subrange(0, (start + eff) as int));
        } else {
            assert(line.subrange(0, start as int) + line.subrange(start as int, line.len() as int)
                =~= line.subrange(0, line.len() as int));
        }
    }
}

/// Joining the parts of an existing line over all the screen rows that `screen_rows`
/// counts for it gives back the line, whenever those rows hold all of its characters.
pub proof fn lemma_wrap_reconstructs(lines: Seq<Seq<char>>, row: nat, width: nat)
    requires
        row < lines.len(),
        width > GUTTER_WIDTH,
        lines[row as int].len() <= screen_rows(lines, row, width) * (width - GUTTER_WIDTH),
    ensures
        joined_parts(lines, row, width, screen_rows(lines, row, width)) == lines[row as int],
{
    lemma_joined_parts_prefix(lines, row, width, screen_rows(lines, row, width));
    assert(lines[row as int].subrange(0, lines[row as int].len() as int) =~= lines[row as int]);
}

/// An ordered sequence of text lines; never empty.
pub struct Buffer {
    lines: Vec<String>,
}

impl View for Buffer {
    type V = Seq<Seq<char>>;

    closed spec fn view(&self) -> Seq<Seq<char>> {
        texts(self.lines@)
    }
}

impl Buffer {
    #[verifier::type_invariant]
    spec fn inv(self) -> bool {
        self.lines@.len() >= 1
    }

    /// A buffer holding one empty line.
    pub fn new() -> (b: Buffer)
        ensures
            b@ == seq![Seq::<char>::empty()],
    {
        let b = Buffer { lines: vec![String::new()] };
        assert(b@ =~= seq![Seq::<char>::empty()]);
        b
    }

    /// The number of lines; never 0.
    pub fn line_count(&self) -> (n: usize)
        ensures
            n == self@.len(),
            n >= 1,
    {
        proof {
            use_type_invariant(self);
        }
        self.lines.len()
    }

    /// Line `index`, or `None` past the last line.
    pub fn get_line(&self, index: usize) -> (r: Option<&String>)
        ensures
            index < self@.len() ==> (r matches Some(s) && s@ == self@[index as int]),
            index >= self@.len() ==> r is None,
    {
        if index < self.lines.len() {
            Some(&self.lines[index])
        } else {
            None
        }
    }

    /// Line `index` for changing in place, or `None` past the last line; whatever is
    /// written through it becomes that line.
    pub fn get_line_mut(&mut self, index: usize) -> (r: Option<&mut String>)
        ensures
            index >= old(self)@.len() ==> r is None && final(self)@ == old(self)@,
            index < old(self)@.len() ==> (r matches Some(s) && s@ == old(self)@[index as int]
                && final(self)@ == old(self)@.update(index as int, final(s)@)),
    {
        if index < self.lines.len() {
            Some(&mut self.lines[index])
        } else {
            None
        }
    }

    /// The number of screen rows line `line_index` takes, gutter included, when the
    /// terminal is `term_width` cells wide; a missing line takes one row.
    pub fn line_screen_rows(&self, line_index: usize, term_width: u16) -> (rows: usize)
        requires
            term_width > 0,
            term_width > GUTTER_WIDTH || screen_rows(self@, line_index as nat, term_width as nat)
                <= usize::MAX,
        ensures
            rows == screen_rows(self@, line_index as nat, term_width as nat),
            rows >= 1,
    {
        match self.get_line(line_index) {
            None => 1,
            Some(line) => rows_for(char_count(line), term_width),
        }
    }

    /// The text of line `line_index` shown on its wrap row `row_index`: with
    /// `term_width - GUTTER_WIDTH` characters to a row, the characters from
    /// `row_index * (term_width - GUTTER_WIDTH)` on, as many as fit; empty when the line is
    /// missing or shorter than that start.
    pub fn get_line_part(&self, line_index: usize, row_index: u16, term_width: u16) -> (part: String)
        requires
            line_index < self@.len() ==> term_width >= GUTTER_WIDTH,
        ensures
            part@ == line_part(self@, line_index as nat, row_index as nat, term_width as nat),
    {
        match self.get_line(line_index) {
            None => String::new(),
            Some(line) => {
                let len = char_count(line);
                let eff = (term_width - GUTTER_WIDTH as u16) as usize;
                let k = row_index as usize;
                proof {
                    assert(k * eff <= 0xffff * 0xffff) by (nonlinear_arith)
                        requires k <= 0xffff, eff <= 0xffff;
                }
                let start = k * eff;
                if start >= len {
                    String::new()
                } else if len - start >= eff {
                    char_slice(line, start, start + eff)
                } else {
                    char_slice(line, start, len)
                }
            },
        }
    }

    /// Moves the lines out, leaving one empty line in their place.
    fn take_lines(&mut self) -> (lines: Vec<String>)
        ensures
            lines@ == old(self).lines@,
            texts(lines@) == old(self)@,
            lines@.len() >= 1,
    {
        proof {
            use_type_invariant(&*self);
        }
        let mut lines = vec![String::new()];
        std::mem::swap(&mut self.lines, &mut lines);
        lines
    }

    /// Inserts `line` as line `index`; when `index` is past the end, empty lines fill the gap.
    pub fn insert_line(&mut self, index: usize, line: String)
        ensures
            final(self)@ == line_inserted(old(self)@, index as nat, line@),
    {
        let mut lines = self.take_lines();
        grow_lines(&mut lines, index);
        if index == lines.len() {
            lines.push(line);
        } else {
            lines.insert(index, line);
        }
        assert(texts(lines@) =~= line_inserted(old(self)@, index as nat, line@));
        self.lines = lines;
    }

    /// Inserts `c` at column `col` of line `line`. Missing lines are added empty, and a
    /// line shorter than `col` is first padded with spaces.
    pub fn insert_char(&mut self, line: usize, col: usize, c: char)
        ensures
            final(self)@ == char_inserted(old(self)@, line as nat, col as nat, c),
            final(self)@[line as int].len() <= usize::MAX,
    {
        let mut lines = self.take_lines();
        grow_lines(&mut lines, line);
        let ghost grown = lines@;
        if line == lines.len() {
            lines.push(String::new());
            assert(texts(lines@) =~= texts(grown).push(Seq::empty()));
            assert(grown_to(old(self)@, (line + 1) as nat) =~= grown_to(old(self)@, line as nat).push(Seq::empty()));
        } else {
            assert(grown_to(old(self)@, (line + 1) as nat) =~= grown_to(old(self)@, line as nat));
        }
        assert(texts(lines@) =~= grown_to(old(self)@, (line + 1) as nat));
        let new_line = with_char_inserted(&lines[line], col, c);
        lines.set(line, new_line);
        assert(texts(lines@) =~= char_inserted(old(self)@, line as nat, col as nat, c));
        self.lines = lines;
    }

    /// Removes the character at column `col` of line `line`. Returns whether there was one;
    /// when there was none nothing changes.
    pub fn remove_char(&mut self, line: usize, col: usize) -> (removed: bool)
        ensures
            removed == has_char_at(old(self)@, line as nat, col as nat),
            final(self)@ == char_removed(old(self)@, line as nat, col as nat),
    {
        if line < self.lines.len() {
            let len = char_count(&self.lines[line]);
            if col < len {
                let new_line = with_char_removed(&self.lines[line], col);
                let mut lines = self.take_lines();
                lines.set(line, new_line);
                assert(texts(lines@) =~= char_removed(old(self)@, line as nat, col as nat));
                self.lines = lines;
                return true;
            }
        }
        false
    }
}

/// The screen rows taken by a line of `len` characters at terminal width `width`.
fn rows_for(len: usize, width: u16) -> (rows: usize)
    requires
        width > 0,
        width > GUTTER_WIDTH || rows_for_len(len as nat, width as nat) <= usize::MAX,
    ensures
        rows == rows_for_len(len as nat, width as nat),
        rows >= 1,
{
    let w = width as usize;
    let q = len / w;
    let r = len % w;
    proof {
        lemma_hoist_over_denominator((r + GUTTER_WIDTH - 1) as int, (q + 1) as int, w as nat);
        assert(len == q * w + r) by (nonlinear_arith)
            requires q == len / w, r == len % w, w > 0;
        assert((q + 1) * w == q * w + w) by (nonlinear_arith);
        if w > GUTTER_WIDTH {
            assert(q <= len / 2) by (nonlinear_arith)
                requires q == len / w, w >= 2;
            assert((r + 4) / (w as int) <= 1) by (nonlinear_arith)
                requires r < w, w > 5;
        }
    }
    q + (r + GUTTER_WIDTH - 1) / w + 1
}

/// Appends empty lines to `lines` until there are at least `n`.
fn grow_lines(lines: &mut Vec<String>, n: usize)
    ensures
        texts(final(lines)@) == grown_to(texts(old(lines)@), n as nat),
        final(lines)@.len() >= old(lines)@.len(),
        final(lines)@.len() >= n,
{
    while lines.len() < n
        invariant
            lines@.len() >= old(lines)@.len(),
            lines@.len() <= n || lines@ == old(lines)@,
            texts(lines@) == grown_to(texts(old(lines)@), lines@.len()),
        decreases n - lines.len(),
    {
        let ghost prev = lines@;
        lines.push(String::new());
        assert(texts(lines@) =~= texts(prev).push(Seq::empty()));
        assert(grown_to(texts(old(lines)@), lines@.len()) =~= grown_to(texts(old(lines)@), prev.len()).push(Seq::empty()));
    }
    assert(texts(lines@) =~= grown_to(texts(old(lines)@), n as nat));
}

} // verus!
