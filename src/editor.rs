//! The editor's state machine: a buffer and a cursor, changed one key event
//! at a time. Each event yields an action for the surrounding loop to carry
//! out: nothing, a redraw, a save of a snapshot, or an exit.

use vstd::prelude::*;

use crate::buffer::{offset_view, Buffer};
use crate::text::{lemma_offset_round_trip, lemma_total_len, line_count, line_len, offset_of};

verus! {

/// A cursor position on screen: `row` indexes lines, `column` characters
/// within a line. It may point past the end of a line or past the last line.
#[derive(Clone, Copy, Debug, PartialEq, Eq, Structural)]
pub struct Cursor {
    pub column: usize,
    pub row: usize,
}

/// A one-step cursor movement.
#[derive(Clone, Copy, Debug, PartialEq, Eq, Structural)]
pub enum CursorMovement {
    Up,
    Down,
    Left,
    Right,
}

/// The key of a key event.
#[derive(Clone, Copy, Debug, PartialEq, Eq, Structural)]
pub enum KeyCode {
    Char(char),
    Backspace,
    Delete,
    Enter,
    Up,
    Down,
    Left,
    Right,
    Other,
}

/// The modifiers held during a key event.
#[derive(Clone, Copy, Debug, PartialEq, Eq, Structural)]
pub enum Modifiers {
    Plain,
    Shift,
    Control,
    Other,
}

/// An input event.
#[derive(Clone, Copy, Debug, PartialEq, Eq, Structural)]
pub enum Event {
    Key(KeyCode, Modifiers),
    Other,
}

/// What a key event asks of the editor.
#[derive(Clone, Copy, Debug, PartialEq, Eq, Structural)]
pub enum Command {
    Exit,
    Save,
    Move(CursorMovement),
    Backspace,
    Delete,
    Insert(char),
    Ignore,
}

/// What the loop around the editor does after an event.
#[derive(Debug)]
pub enum Action {
    /// Nothing changed.
    Ignore,
    /// The text or the cursor changed: draw them again.
    Redraw,
    /// Write this snapshot of the text to the file, in the background.
    Save(String),
    /// Restore the terminal and end the process.
    Exit,
}

/// The key bindings.
pub open spec fn command_for(code: KeyCode, modifiers: Modifiers) -> Command {
    match (code, modifiers) {
        (KeyCode::Char('c'), Modifiers::Control) => Command::Exit,
        (KeyCode::Char('s'), Modifiers::Control) => Command::Save,
        (KeyCode::Up, Modifiers::Plain) => Command::Move(CursorMovement::Up),
        (KeyCode::Down, Modifiers::Plain) => Command::Move(CursorMovement::Down),
        (KeyCode::Left, Modifiers::Plain) => Command::Move(CursorMovement::Left),
        (KeyCode::Right, Modifiers::Plain) => Command::Move(CursorMovement::Right),
        (KeyCode::Backspace, Modifiers::Plain) => Command::Backspace,
        (KeyCode::Delete, Modifiers::Plain) => Command::Delete,
        (KeyCode::Enter, Modifiers::Plain) => Command::Insert('\n'),
        (KeyCode::Char(c), Modifiers::Plain) => Command::Insert(c),
        (KeyCode::Char(c), Modifiers::Shift) => Command::Insert(c),
        _ => Command::Ignore,
    }
}

/// `column`, or `len` where it is past `len`.
pub open spec fn clamp(column: usize, len: nat) -> usize {
    if column > len {
        len as usize
    } else {
        column
    }
}

/// Where a movement takes the cursor over text `s`. Up and Down stay within
/// the lines and keep the column within the line reached; Left stops at the
/// first column and Right at the end of the line, neither wrapping.
pub open spec fn moved(s: Seq<char>, c: Cursor, m: CursorMovement) -> Cursor {
    match m {
        CursorMovement::Up => {
            if c.row == 0 {
                c
            } else {
                let row: nat = if c.row - 1 < line_count(s) - 1 {
                    (c.row - 1) as nat
                } else {
                    (line_count(s) - 1) as nat
                };
                Cursor { column: clamp(c.column, line_len(s, row)), row: row as usize }
            }
        },
        CursorMovement::Down => {
            if c.row + 1 < line_count(s) {
                let row = (c.row + 1) as nat;
                Cursor { column: clamp(c.column, line_len(s, row)), row: row as usize }
            } else {
                c
            }
        },
        CursorMovement::Left => {
            if c.column == 0 {
                c
            } else {
                Cursor { column: (c.column - 1) as usize, row: c.row }
            }
        },
        CursorMovement::Right => {
            if c.row < line_count(s) && c.column < line_len(s, c.row as nat) {
                Cursor { column: (c.column + 1) as usize, row: c.row }
            } else {
                c
            }
        },
    }
}

/// The text and cursor after `cmd`, from text `s` and cursor `c`. An edit at
/// a cursor with no offset is dropped. Backspace deletes before the cursor
/// and moves it left; Delete deletes under it; an insertion moves the cursor
/// down after a line feed and right after anything else.
pub open spec fn outcome(s: Seq<char>, c: Cursor, cmd: Command) -> (Seq<char>, Cursor) {
    match cmd {
        Command::Move(m) => (s, moved(s, c, m)),
        Command::Insert(ch) => match offset_of(s, c.column as nat, c.row as nat) {
            Some(o) => {
                let t = s.insert(o as int, ch);
                let m = if ch == '\n' {
                    CursorMovement::Down
                } else {
                    CursorMovement::Right
                };
                (t, moved(t, c, m))
            },
            None => (s, c),
        },
        Command::Backspace => match offset_of(s, c.column as nat, c.row as nat) {
            Some(o) => if o > 0 {
                let t = s.remove(o - 1);
                (t, moved(t, c, CursorMovement::Left))
            } else {
                (s, c)
            },
            None => (s, c),
        },
        Command::Delete => match offset_of(s, c.column as nat, c.row as nat) {
            Some(o) => if o < s.len() {
                (s.remove(o as int), c)
            } else {
                (s, c)
            },
            None => (s, c),
        },
        _ => (s, c),
    }
}

/// What the action after `cmd` owes: an exit, the snapshot `before.0`, or a
/// redraw exactly where the text or the cursor changed.
pub open spec fn action_fits(
    cmd: Command,
    before: (Seq<char>, Cursor),
    after: (Seq<char>, Cursor),
    r: Action,
) -> bool {
    match cmd {
        Command::Exit => r is Exit,
        Command::Save => r is Save && r->0@ == before.0,
        _ => (r is Redraw || r is Ignore) && (r is Redraw <==> after != before),
    }
}

/// The key bindings, executable.
pub fn command_of(code: KeyCode, modifiers: Modifiers) -> (r: Command)
    ensures
        r == command_for(code, modifiers),
{
    match (code, modifiers) {
        (KeyCode::Char('c'), Modifiers::Control) => Command::Exit,
        (KeyCode::Char('s'), Modifiers::Control) => Command::Save,
        (KeyCode::Up, Modifiers::Plain) => Command::Move(CursorMovement::Up),
        (KeyCode::Down, Modifiers::Plain) => Command::Move(CursorMovement::Down),
        (KeyCode::Left, Modifiers::Plain) => Command::Move(CursorMovement::Left),
        (KeyCode::Right, Modifiers::Plain) => Command::Move(CursorMovement::Right),
        (KeyCode::Backspace, Modifiers::Plain) => Command::Backspace,
        (KeyCode::Delete, Modifiers::Plain) => Command::Delete,
        (KeyCode::Enter, Modifiers::Plain) => Command::Insert('\n'),
        (KeyCode::Char(c), Modifiers::Plain | Modifiers::Shift) => Command::Insert(c),
        _ => Command::Ignore,
    }
}

/// The editor: the document's text and the cursor over it.
pub struct Editor {
    buffer: Buffer,
    cursor: Cursor,
}

impl View for Editor {
    type V = (Seq<char>, Cursor);

    closed spec fn view(&self) -> (Seq<char>, Cursor) {
        (self.buffer@, self.cursor)
    }
}

impl Editor {
    /// An editor over the characters of `text`, its cursor at the start.
    pub fn new(text: &str) -> (r: Editor)
        ensures
            r@ == (text@, (Cursor { column: 0, row: 0 })),
    {
        Editor { buffer: Buffer::new(text), cursor: Cursor { column: 0, row: 0 } }
    }

    /// The document's buffer.
    pub fn buffer(&self) -> (r: &Buffer)
        ensures
            r@ == self@.0,
    {
        &self.buffer
    }

    /// The cursor.
    pub fn cursor(&self) -> (r: Cursor)
        ensures
            r == self@.1,
    {
        self.cursor
    }

    /// The buffer offset under the cursor, or `None` where the cursor is
    /// past the last line or past the end of its line.
    pub fn current_buffer_index(&self) -> (r: Option<usize>)
        ensures
            offset_view(r) == offset_of(self@.0, self@.1.column as nat, self@.1.row as nat),
    {
        self.buffer.get_buffer_index((self.cursor.column, self.cursor.row))
    }

    /// Moves the cursor one step; the text is left as it is.
    pub fn move_cursor(&mut self, movement: CursorMovement)
        ensures
            final(self)@ == (old(self)@.0, moved(old(self)@.0, old(self)@.1, movement)),
    {
        proof {
            lemma_total_len(self.buffer@);
        }
        let count = self.buffer.line_count();
        let c = self.cursor;
        match movement {
            CursorMovement::Up => {
                if c.row > 0 {
                    let row = if c.row - 1 < count - 1 {
                        c.row - 1
                    } else {
                        count - 1
                    };
                    let len = self.buffer.line_length(row);
                    let column = if c.column > len {
                        len
                    } else {
                        c.column
                    };
                    self.cursor = Cursor { column, row };
                }
            },
            CursorMovement::Down => {
                if c.row < count - 1 {
                    let row = c.row + 1;
                    let len = self.buffer.line_length(row);
                    let column = if c.column > len {
                        len
                    } else {
                        c.column
                    };
                    self.cursor = Cursor { column, row };
                }
            },
            CursorMovement::Left => {
                if c.column > 0 {
                    self.cursor = Cursor { column: c.column - 1, row: c.row };
                }
            },
            CursorMovement::Right => {
                if c.row < count && c.column < self.buffer.line_length(c.row) {
                    self.cursor = Cursor { column: c.column + 1, row: c.row };
                }
            },
        }
    }

    /// Inserts `character` at the cursor's offset and moves the cursor down
    /// after a line feed, right after anything else. A cursor with no
    /// offset leaves everything as it is.
    fn insert_char(&mut self, character: char) -> (r: Action)
        ensures
            final(self)@ == outcome(old(self)@.0, old(self)@.1, Command::Insert(character)),
            action_fits(Command::Insert(character), old(self)@, final(self)@, r),
    {
        let index = match self.current_buffer_index() {
            Some(index) => index,
            None => return Action::Ignore,
        };
        proof {
            lemma_offset_round_trip(self@.0, self@.1.column as nat, self@.1.row as nat);
        }
        self.buffer.insert(index, character);
        let movement = if character == '\n' {
            CursorMovement::Down
        } else {
            CursorMovement::Right
        };
        self.move_cursor(movement);
        Action::Redraw
    }

    /// Deletes the character before the cursor's offset and moves the cursor
    /// left, or with `delete_mode` the character at it, the cursor staying.
    /// There is nothing to delete before the start or after the end, nor at
    /// a cursor with no offset.
    fn remove_char(&mut self, delete_mode: bool) -> (r: Action)
        ensures
            delete_mode ==> final(self)@ == outcome(old(self)@.0, old(self)@.1, Command::Delete),
            delete_mode ==> action_fits(Command::Delete, old(self)@, final(self)@, r),
            !delete_mode ==> final(self)@ == outcome(
                old(self)@.0,
                old(self)@.1,
                Command::Backspace,
            ),
            !delete_mode ==> action_fits(Command::Backspace, old(self)@, final(self)@, r),
    {
        let index = match self.current_buffer_index() {
            Some(index) => index,
            None => return Action::Ignore,
        };
        proof {
            lemma_offset_round_trip(self@.0, self@.1.column as nat, self@.1.row as nat);
        }
        if delete_mode {
            if index == self.buffer.size() {
                return Action::Ignore;
            }
            self.buffer.delete(index);
        } else {
            if index == 0 {
                return Action::Ignore;
            }
            self.buffer.delete(index - 1);
            self.move_cursor(CursorMovement::Left);
        }
        Action::Redraw
    }

    /// Carries out `cmd` and says what the loop has to do next.
    pub fn apply(&mut self, cmd: Command) -> (r: Action)
        ensures
            final(self)@ == outcome(old(self)@.0, old(self)@.1, cmd),
            action_fits(cmd, old(self)@, final(self)@, r),
    {
        match cmd {
            Command::Exit => Action::Exit,
            Command::Save => Action::Save(self.buffer.contents()),
            Command::Move(movement) => {
                let before = self.cursor;
                self.move_cursor(movement);
                if self.cursor == before {
                    Action::Ignore
                } else {
                    Action::Redraw
                }
            },
            Command::Backspace => self.remove_char(false),
            Command::Delete => self.remove_char(true),
            Command::Insert(character) => self.insert_char(character),
            Command::Ignore => Action::Ignore,
        }
    }

    /// Handles a key event through the key bindings.
    pub fn handle_key_event(&mut self, code: KeyCode, modifiers: Modifiers) -> (r: Action)
        ensures
            final(self)@ == outcome(old(self)@.0, old(self)@.1, command_for(code, modifiers)),
            action_fits(command_for(code, modifiers), old(self)@, final(self)@, r),
    {
        self.apply(command_of(code, modifiers))
    }

    /// Handles an input event; only key events do anything.
    pub fn handle_event(&mut self, event: Event) -> (r: Action)
        ensures
            event is Other ==> final(self)@ == old(self)@ && r is Ignore,
            event matches Event::Key(code, modifiers) ==> final(self)@ == outcome(
                old(self)@.0,
                old(self)@.1,
                command_for(code, modifiers),
            ) && action_fits(command_for(code, modifiers), old(self)@, final(self)@, r),
    {
        match event {
            Event::Key(code, modifiers) => self.handle_key_event(code, modifiers),
            Event::Other => Action::Ignore,
        }
    }
}

/// Moving left at the first column changes neither the text nor the cursor.
pub proof fn lemma_left_at_first_column(s: Seq<char>, c: Cursor)
    requires
        c.column == 0,
    ensures
        outcome(s, c, Command::Move(CursorMovement::Left)) == (s, c),
{
}

/// Backspace where the cursor's offset is the start of the text changes
/// neither the text nor the cursor.
pub proof fn lemma_backspace_at_start(s: Seq<char>, c: Cursor)
    requires
        offset_of(s, c.column as nat, c.row as nat) == Some(0nat),
    ensures
        outcome(s, c, Command::Backspace) == (s, c),
{
}

} // verus!
