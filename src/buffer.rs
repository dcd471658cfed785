//! The document buffer: a rope of characters addressed by flat offset or by
//! `(column, row)`.

use ropey::Rope;
use vstd::prelude::*;

use crate::text::{
    lemma_line_within, line_count, line_len, line_span, line_start, lines_of, offset_of, starts,
};

verus! {

#[verifier::external_type_specification]
#[verifier::external_body]
pub struct ExRope(ropey::Rope);

/// The characters that a rope holds, in order.
pub uninterp spec fn rope_chars(r: ropey::Rope) -> Seq<char>;

/// Relies on `Rope::from_str`: the rope holds the characters of `text`.
#[verifier::external_body]
fn rope_from_str(text: &str) -> (r: Rope)
    ensures
        rope_chars(r) == text@,
{
    Rope::from_str(text)
}

/// Relies on `Rope`'s `Display`: the rope's characters, in order.
#[verifier::external_body]
fn rope_to_string(rope: &Rope) -> (r: String)
    ensures
        r@ == rope_chars(*rope),
{
    rope.to_string()
}

/// Relies on `Rope::len_chars`: the number of characters.
#[verifier::external_body]
fn rope_len_chars(rope: &Rope) -> (r: usize)
    ensures
        r == rope_chars(*rope).len(),
{
    rope.len_chars()
}

/// Relies on `Rope::len_lines`: one more than the line breaks, and with
/// ropey's default features off a line feed is the only line break.
#[verifier::external_body]
fn rope_len_lines(rope: &Rope) -> (r: usize)
    ensures
        r == line_count(rope_chars(*rope)),
{
    rope.len_lines()
}

/// Relies on `Rope::line` and `RopeSlice::len_chars`: the characters of line
/// `line`, its line feed included. `Rope::line` panics past the last line.
#[verifier::external_body]
fn rope_line_len_chars(rope: &Rope, line: usize) -> (r: usize)
    requires
        line < line_count(rope_chars(*rope)),
    ensures
        r == line_span(rope_chars(*rope), line as nat),
{
    rope.line(line).len_chars()
}

/// Relies on `Rope::insert_char`: `ch` is placed before offset `index`.
/// It panics where `index` is past the end.
#[verifier::external_body]
fn rope_insert_char(rope: &mut Rope, index: usize, ch: char)
    requires
        index <= rope_chars(*old(rope)).len(),
    ensures
        rope_chars(*final(rope)) == rope_chars(*old(rope)).insert(index as int, ch),
{
    rope.insert_char(index, ch)
}

/// Relies on `Rope::remove`: the characters of the range `index..index + 1`
/// are taken out. It panics where the range ends past the end.
#[verifier::external_body]
fn rope_remove_char(rope: &mut Rope, index: usize)
    requires
        index < rope_chars(*old(rope)).len(),
    ensures
        rope_chars(*final(rope)) == rope_chars(*old(rope)).remove(index as int),
{
    rope.remove(index..index + 1)
}

/// The text of a document, held in a rope.
pub struct Buffer {
    rope: Rope,
}

impl View for Buffer {
    type V = Seq<char>;

    closed spec fn view(&self) -> Seq<char> {
        rope_chars(self.rope)
    }
}

/// `Some(o)` as a mathematical offset.
pub open spec fn offset_view(r: Option<usize>) -> Option<nat> {
    match r {
        Some(o) => Some(o as nat),
        None => None,
    }
}

impl Buffer {
    /// A buffer holding the characters of `text`.
    pub fn new(text: &str) -> (r: Buffer)
        ensures
            r@ == text@,
    {
        Buffer { rope: rope_from_str(text) }
    }

    /// An independent copy of the whole content, for writing out.
    pub fn contents(&self) -> (r: String)
        ensures
            r@ == self@,
    {
        rope_to_string(&self.rope)
    }

    /// Inserts `character` before offset `index`.
    pub fn insert(&mut self, index: usize, character: char)
        requires
            index <= old(self)@.len(),
        ensures
            final(self)@ == old(self)@.insert(index as int, character),
    {
        rope_insert_char(&mut self.rope, index, character);
    }

    /// Deletes the character at offset `index`.
    pub fn delete(&mut self, index: usize)
        requires
            index < old(self)@.len(),
        ensures
            final(self)@ == old(self)@.remove(index as int),
    {
        rope_remove_char(&mut self.rope, index);
    }

    /// The offset at which line `line` starts.
    fn line_start_index(&self, line: usize) -> (r: usize)
        requires
            line < line_count(self@),
        ensures
            r == line_start(self@, line as nat),
    {
        // The text's length fits in a `usize` and bounds every line start.
        let total = self.size();
        let mut index: usize = 0;
        let mut i: usize = 0;
        while i < line
            invariant
                i <= line,
                line < line_count(self@),
                total == self@.len(),
                index == starts(lines_of(self@), i as nat),
            decreases line - i,
        {
            proof {
                lemma_line_within(self@, (i + 1) as nat);
            }
            index = index + rope_line_len_chars(&self.rope, i);
            i = i + 1;
        }
        index
    }

    /// The offset of the cursor position `(column, row)`, or `None` where
    /// the row is past the last line or the column past the end of its line.
    pub fn get_buffer_index(&self, cursor: (usize, usize)) -> (r: Option<usize>)
        ensures
            offset_view(r) == offset_of(self@, cursor.0 as nat, cursor.1 as nat),
    {
        let (cursor_x, cursor_y) = cursor;
        // The row is checked first: a line length exists only for a row
        // that exists.
        if cursor_y >= self.line_count() {
            return None;
        }
        let line_length = self.line_length(cursor_y);
        if cursor_x > line_length {
            return None;
        }
        let line_start = self.line_start_index(cursor_y);
        let total = self.size();
        proof {
            lemma_line_within(self@, cursor_y as nat);
            assert(line_start + cursor_x <= total);
        }
        Some(line_start + cursor_x)
    }

    /// Number of characters of line `line`, its line feed excluded.
    pub fn line_length(&self, line: usize) -> (r: usize)
        requires
            line < line_count(self@),
        ensures
            r == line_len(self@, line as nat),
    {
        let span = rope_line_len_chars(&self.rope, line);
        // Every line but the last ends with a line feed.
        if line < self.line_count() - 1 {
            span - 1
        } else {
            span
        }
    }

    /// Number of lines; a last line with no line feed counts as one.
    pub fn line_count(&self) -> (r: usize)
        ensures
            r == line_count(self@),
    {
        rope_len_lines(&self.rope)
    }

    /// Number of characters.
    pub fn size(&self) -> (r: usize)
        ensures
            r == self@.len(),
    {
        rope_len_chars(&self.rope)
    }
}

/// Inserting a character at an offset and then deleting at that offset gives
/// back the original text.
pub proof fn lemma_insert_delete_round_trip(s: Seq<char>, k: nat, ch: char)
    requires
        k <= s.len(),
    ensures
        s.insert(k as int, ch).remove(k as int) == s,
{
    assert(s.insert(k as int, ch).remove(k as int) =~= s);
}

} // verus!
