use vstd::prelude::*;
use crate::buffer::{Buffer, GUTTER_WIDTH, char_inserted, char_removed, line_inserted};
use crate::cursor::{Cursor, left_of, right_of, above, below, line_end};
use crate::text::{char_count, char_slice};

verus! {

/// Terminal row on which the first line of text is shown, below the header rows.
pub const TEXT_TOP_ROW: u16 = 4;

/// A key event, already decoded.
#[derive(Clone, Copy, Debug, PartialEq, Eq, Structural)]
pub enum Key {
    /// A character key; Enter arrives as `'\n'`.
    Char(char),
    Left,
    Right,
    Up,
    Down,
    Backspace,
    Esc,
    /// A character typed with Ctrl held; Ctrl-c ends the session.
    Ctrl(char),
}

/// The editing mode.
#[derive(Clone, Copy, Debug, PartialEq, Eq, Structural)]
pub enum Mode {
    Normal,
    Insert,
}

impl Mode {
    /// The label shown for the mode in the status area.
    pub fn display_name(&self) -> (name: &'static str)
        ensures
            *self == Mode::Normal ==> name@ == "-- NORMAL --"@,
            *self == Mode::Insert ==> name@ == "-- INSERT --"@,
    {
        match self {
            Mode::Normal => "-- NORMAL --",
            Mode::Insert => "-- INSERT --",
        }
    }
}

/// Whether `key` ends the session (Ctrl-c).
pub open spec fn ends_session(key: Key) -> bool {
    key == Key::Ctrl('c')
}

/// The lines after line `row` is split at column `col`: the text before `col` stays,
/// the text from `col` on becomes a new line right below it.
pub open spec fn line_split(lines: Seq<Seq<char>>, row: nat, col: nat) -> Seq<Seq<char>> {
    let line = lines[row as int];
    line_inserted(
        lines.update(row as int, line.subrange(0, col as int)),
        row + 1,
        line.subrange(col as int, line.len() as int),
    )
}

/// What a key does in Normal mode to lines, cursor row and column, and mode.
pub open spec fn normal_step(lines: Seq<Seq<char>>, row: nat, col: nat, mode: Mode, key: Key) -> (Seq<Seq<char>>, nat, nat, Mode) {
    match key {
        Key::Char(c) => {
            if c == 'i' {
                (lines, row, col, Mode::Insert)
            } else if c == 'h' {
                (lines, left_of(row, col).0, left_of(row, col).1, mode)
            } else if c == 'l' {
                (lines, right_of(lines, row, col).0, right_of(lines, row, col).1, mode)
            } else if c == 'k' {
                (lines, above(lines, row, col).0, above(lines, row, col).1, mode)
            } else if c == 'j' {
                (lines, below(lines, row, col).0, below(lines, row, col).1, mode)
            } else if c == '0' {
                (lines, row, 0, mode)
            } else if c == '$' {
                (lines, line_end(lines, row, col).0, line_end(lines, row, col).1, mode)
            } else if c == 'x' {
                (char_removed(lines, row, col), row, col, mode)
            } else if c == 'o' {
                (line_inserted(lines, row + 1, Seq::empty()), row + 1, 0, Mode::Insert)
            } else if c == 'O' {
                (line_inserted(lines, row, Seq::empty()), row, 0, Mode::Insert)
            } else {
                (lines, row, col, mode)
            }
        },
        _ => (lines, row, col, mode),
    }
}

/// What a key does in Insert mode to lines, cursor row and column, and mode.
pub open spec fn insert_step(lines: Seq<Seq<char>>, row: nat, col: nat, mode: Mode, key: Key) -> (Seq<Seq<char>>, nat, nat, Mode) {
    match key {
        Key::Esc => (lines, row, col, Mode::Normal),
        Key::Char(c) => {
            if c == '\n' {
                (line_split(lines, row, col), row + 1, 0, mode)
            } else {
                (char_inserted(lines, row, col, c), row, col + 1, mode)
            }
        },
        Key::Backspace => {
            if col > 0 {
                (char_removed(lines, row, (col - 1) as nat), row, (col - 1) as nat, mode)
            } else {
                (lines, row, col, mode)
            }
        },
        _ => (lines, row, col, mode),
    }
}

/// What a key does in any mode: the arrows move the cursor, Ctrl-c changes nothing (it
/// ends the session), and every other key goes by the mode.
pub open spec fn key_step(lines: Seq<Seq<char>>, row: nat, col: nat, mode: Mode, key: Key) -> (Seq<Seq<char>>, nat, nat, Mode) {
    match key {
        Key::Left => (lines, left_of(row, col).0, left_of(row, col).1, mode),
        Key::Right => (lines, right_of(lines, row, col).0, right_of(lines, row, col).1, mode),
        Key::Up => (lines, above(lines, row, col).0, above(lines, row, col).1, mode),
        Key::Down => (lines, below(lines, row, col).0, below(lines, row, col).1, mode),
        _ => {
            if ends_session(key) {
                (lines, row, col, mode)
            } else {
                match mode {
                    Mode::Normal => normal_step(lines, row, col, mode, key),
                    Mode::Insert => insert_step(lines, row, col, mode, key),
                }
            }
        },
    }
}

/// A document, a cursor in it, and the editing mode.
pub struct Editor {
    pub buffer: Buffer,
    pub cursor: Cursor,
    pub mode: Mode,
}

impl Editor {
    /// The cursor lies inside the document.
    pub open spec fn wf(&self) -> bool {
        self.cursor.within(self.buffer@)
    }

    /// Lines, cursor row and column, and mode, as values.
    pub open spec fn state(&self) -> (Seq<Seq<char>>, nat, nat, Mode) {
        (self.buffer@, self.cursor.row as nat, self.cursor.col as nat, self.mode)
    }

    /// An editor on one empty line, cursor at its start, in Normal mode.
    pub fn new() -> (e: Editor)
        ensures
            e.buffer@ == seq![Seq::<char>::empty()],
            e.cursor.row == 0,
            e.cursor.col == 0,
            e.cursor.screen_row == TEXT_TOP_ROW,
            e.cursor.screen_col == GUTTER_WIDTH,
            e.cursor.base_row == TEXT_TOP_ROW,
            e.mode == Mode::Normal,
            e.wf(),
            forall|width: nat| width > GUTTER_WIDTH ==> #[trigger] e.cursor.placed(e.buffer@, width),
    {
        Editor { buffer: Buffer::new(), cursor: Cursor::new(TEXT_TOP_ROW), mode: Mode::Normal }
    }

    /// Handles one key at terminal width `term_width`. Returns false on Ctrl-c, which
    /// ends the session; true otherwise.
    pub fn handle_key(&mut self, key: Key, term_width: u16) -> (go_on: bool)
        requires
            old(self).wf(),
            term_width > GUTTER_WIDTH,
        ensures
            go_on == !ends_session(key),
            !go_on ==> *final(self) == *old(self),
            final(self).state() == key_step(old(self).buffer@, old(self).cursor.row as nat, old(self).cursor.col as nat, old(self).mode, key),
            final(self).wf(),
            final(self).cursor.base_row == old(self).cursor.base_row,
            go_on ==> final(self).cursor.placed(final(self).buffer@, term_width as nat),
    {
        match key {
            Key::Left => self.cursor.move_left(&self.buffer, term_width),
            Key::Right => self.cursor.move_right(&self.buffer, term_width),
            Key::Up => self.cursor.move_up(&self.buffer, term_width),
            Key::Down => self.cursor.move_down(&self.buffer, term_width),
            Key::Ctrl('c') => return false,
            _ => match self.mode {
                Mode::Normal => self.handle_normal_mode(key, term_width),
                Mode::Insert => self.handle_insert_mode(key, term_width),
            },
        }
        true
    }

    /// Handles a key in Normal mode.
    pub fn handle_normal_mode(&mut self, key: Key, term_width: u16)
        requires
            old(self).wf(),
            term_width > GUTTER_WIDTH,
        ensures
            final(self).state() == normal_step(old(self).buffer@, old(self).cursor.row as nat, old(self).cursor.col as nat, old(self).mode, key),
            final(self).wf(),
            final(self).cursor.base_row == old(self).cursor.base_row,
            final(self).cursor.placed(final(self).buffer@, term_width as nat),
    {
        if let Key::Char(c) = key {
            if c == 'i' {
                self.mode = Mode::Insert;
            } else if c == 'h' {
                self.cursor.move_left(&self.buffer, term_width);
            } else if c == 'l' {
                self.cursor.move_right(&self.buffer, term_width);
            } else if c == 'k' {
                self.cursor.move_up(&self.buffer, term_width);
            } else if c == 'j' {
                self.cursor.move_down(&self.buffer, term_width);
            } else if c == '0' {
                self.cursor.move_to_start(&self.buffer, term_width);
            } else if c == '$' {
                self.cursor.move_to_end(&self.buffer, term_width);
            } else if c == 'x' {
                self.buffer.remove_char(self.cursor.row, self.cursor.col);
            } else if c == 'o' {
                let count = self.buffer.line_count();
                let below = self.cursor.row + 1;
                assert(below <= count);
                self.buffer.insert_line(below, String::new());
                self.cursor.row = below;
                self.cursor.col = 0;
                self.mode = Mode::Insert;
            } else if c == 'O' {
                self.buffer.insert_line(self.cursor.row, String::new());
                self.cursor.col = 0;
                self.mode = Mode::Insert;
            }
        }
        self.cursor.update_screen_position(&self.buffer, term_width);
    }

    /// Handles a key in Insert mode.
    pub fn handle_insert_mode(&mut self, key: Key, term_width: u16)
        requires
            old(self).wf(),
            term_width > GUTTER_WIDTH,
        ensures
            final(self).state() == insert_step(old(self).buffer@, old(self).cursor.row as nat, old(self).cursor.col as nat, old(self).mode, key),
            final(self).wf(),
            final(self).cursor.base_row == old(self).cursor.base_row,
            final(self).cursor.placed(final(self).buffer@, term_width as nat),
    {
        match key {
            Key::Esc => {
                self.mode = Mode::Normal;
            },
            Key::Char(c) => {
                let row = self.cursor.row;
                let col = self.cursor.col;
                if c == '\n' {
                    let count = self.buffer.line_count();
                    assert(row + 1 <= count);
                    self.split_line(row, col);
                    self.cursor.row = row + 1;
                    self.cursor.col = 0;
                } else {
                    self.buffer.insert_char(row, col, c);
                    self.cursor.col = col + 1;
                }
            },
            Key::Backspace => {
                if self.cursor.col > 0 {
                    self.cursor.col = self.cursor.col - 1;
                    self.buffer.remove_char(self.cursor.row, self.cursor.col);
                }
            },
            _ => {},
        }
        self.cursor.update_screen_position(&self.buffer, term_width);
    }

    /// Splits line `row` at column `col`, the text from `col` on going to a new line below.
    fn split_line(&mut self, row: usize, col: usize)
        requires
            row < old(self).buffer@.len(),
            col <= old(self).buffer@[row as int].len(),
        ensures
            final(self).buffer@ == line_split(old(self).buffer@, row as nat, col as nat),
            final(self).cursor == old(self).cursor,
            final(self).mode == old(self).mode,
    {
        let (head, tail) = match self.buffer.get_line(row) {
            Some(line) => (char_slice(line, 0, col), char_slice(line, col, char_count(line))),
            None => (String::new(), String::new()),
        };
        if let Some(line) = self.buffer.get_line_mut(row) {
            *line = head;
        }
        let count = self.buffer.line_count();
        assert(row + 1 <= count);
        self.buffer.insert_line(row + 1, tail);
    }
}

} // verus!
