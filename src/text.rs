//! The mathematical model of a document: a sequence of characters split into
//! lines at each line feed, and the mapping between `(column, row)` positions
//! and flat character offsets.

use vstd::prelude::*;

verus! {

/// The lines of `s`, line feeds removed. A text with `n` line feeds has
/// `n + 1` lines; the empty text is one empty line.
pub open spec fn lines_of(s: Seq<char>) -> Seq<Seq<char>>
    decreases s.len(),
{
    if s.len() == 0 {
        seq![Seq::<char>::empty()]
    } else {
        let prev = lines_of(s.drop_last());
        if s.last() == '\n' {
            prev.push(Seq::<char>::empty())
        } else {
            prev.update(prev.len() - 1, prev.last().push(s.last()))
        }
    }
}

/// Number of lines of `s`.
pub open spec fn line_count(s: Seq<char>) -> nat {
    lines_of(s).len()
}

/// Number of characters of line `row`, its line feed excluded.
pub open spec fn line_len(s: Seq<char>, row: nat) -> nat {
    lines_of(s)[row as int].len()
}

/// Number of characters of line `row`, its line feed included.
pub open spec fn line_span(s: Seq<char>, row: nat) -> nat {
    if row + 1 < line_count(s) {
        line_len(s, row) + 1
    } else {
        line_len(s, row)
    }
}

/// Offset at which line `row` of a text split into `lines` starts: the
/// lengths of the lines before it, one line feed each included.
pub open spec fn starts(lines: Seq<Seq<char>>, row: nat) -> nat
    decreases row,
{
    if row == 0 {
        0
    } else {
        starts(lines, (row - 1) as nat) + lines[row - 1].len() + 1
    }
}

/// Offset at which line `row` of `s` starts.
pub open spec fn line_start(s: Seq<char>, row: nat) -> nat {
    starts(lines_of(s), row)
}

/// The flat offset of position `(column, row)` in `s`, or `None` where the
/// row is past the last line or the column past the end of its line.
pub open spec fn offset_of(s: Seq<char>, column: nat, row: nat) -> Option<nat> {
    if row >= line_count(s) {
        None
    } else if column > line_len(s, row) {
        None
    } else {
        Some(line_start(s, row) + column)
    }
}

/// Number of line feeds in `t`.
pub open spec fn count_newlines(t: Seq<char>) -> nat
    decreases t.len(),
{
    if t.len() == 0 {
        0
    } else {
        count_newlines(t.drop_last()) + if t.last() == '\n' { 1nat } else { 0nat }
    }
}

/// Offset just after the last line feed of `t`, or 0 if it has none.
pub open spec fn after_last_newline(t: Seq<char>) -> nat
    decreases t.len(),
{
    if t.len() == 0 {
        0
    } else if t.last() == '\n' {
        t.len()
    } else {
        after_last_newline(t.drop_last())
    }
}

/// The row that offset `off` of `s` falls on: the line feeds before it.
pub open spec fn row_at(s: Seq<char>, off: nat) -> nat {
    count_newlines(s.take(off as int))
}

/// The column that offset `off` of `s` falls on: its distance from the
/// last line feed before it.
pub open spec fn column_at(s: Seq<char>, off: nat) -> nat {
    (off - after_last_newline(s.take(off as int))) as nat
}

/// The lines of a text are one more than its line feeds, and its last line
/// runs from its last line feed to its end.
pub proof fn lemma_lines_shape(s: Seq<char>)
    ensures
        lines_of(s).len() == count_newlines(s) + 1,
        after_last_newline(s) <= s.len(),
        lines_of(s).last().len() == s.len() - after_last_newline(s),
    decreases s.len(),
{
    if s.len() > 0 {
        lemma_lines_shape(s.drop_last());
    }
}

/// Line starts depend on the lengths of the lines before alone.
pub proof fn lemma_starts_agree(a: Seq<Seq<char>>, b: Seq<Seq<char>>, row: nat)
    requires
        row <= a.len(),
        row <= b.len(),
        forall|j: int| 0 <= j < row ==> #[trigger] a[j].len() == b[j].len(),
    ensures
        starts(a, row) == starts(b, row),
    decreases row,
{
    if row > 0 {
        lemma_starts_agree(a, b, (row - 1) as nat);
    }
}

/// A later line starts after the end of an earlier one and its line feed.
pub proof fn lemma_starts_increase(lines: Seq<Seq<char>>, i: nat, j: nat)
    requires
        i < j,
    ensures
        starts(lines, j) >= starts(lines, i) + lines[i as int].len() + 1,
    decreases j,
{
    if j > i + 1 {
        lemma_starts_increase(lines, i, (j - 1) as nat);
    }
}

/// A text ends where its last line ends.
pub proof fn lemma_total_len(s: Seq<char>)
    ensures
        lines_of(s).len() >= 1,
        s.len() == starts(lines_of(s), (lines_of(s).len() - 1) as nat) + lines_of(s).last().len(),
    decreases s.len(),
{
    if s.len() > 0 {
        let p = s.drop_last();
        lemma_total_len(p);
        let lp = lines_of(p);
        let ls = lines_of(s);
        if s.last() == '\n' {
            lemma_starts_agree(ls, lp, (lp.len() - 1) as nat);
        } else {
            assert forall|j: int| 0 <= j < lp.len() - 1 implies #[trigger] ls[j].len() == lp[j].len() by {}
            lemma_starts_agree(ls, lp, (lp.len() - 1) as nat);
        }
    }
}

/// Every line of a text lies within it.
pub proof fn lemma_line_within(s: Seq<char>, row: nat)
    requires
        row < line_count(s),
    ensures
        line_start(s, row) + line_len(s, row) <= s.len(),
        row + 1 < line_count(s) ==> line_start(s, row) + line_len(s, row) < s.len(),
{
    lemma_total_len(s);
    let l = lines_of(s);
    if row + 1 < l.len() {
        lemma_starts_increase(l, row, (l.len() - 1) as nat);
    }
}

/// The lines of a prefix of a text: all but the last have the lengths of the
/// text's own, and the last is no longer than the text's line at its row.
pub proof fn lemma_prefix_lines(s: Seq<char>, k: nat)
    requires
        k <= s.len(),
    ensures
        lines_of(s.take(k as int)).len() <= lines_of(s).len(),
        lines_of(s.take(k as int)).len() >= 1,
        forall|j: int|
            0 <= j < lines_of(s.take(k as int)).len() - 1 ==> #[trigger] lines_of(
                s.take(k as int),
            )[j].len() == lines_of(s)[j].len(),
        lines_of(s.take(k as int)).last().len() <= lines_of(s)[lines_of(s.take(k as int)).len()
            - 1].len(),
    decreases s.len(),
{
    lemma_total_len(s.take(k as int));
    if k == s.len() {
        assert(s.take(k as int) =~= s);
    } else {
        let p = s.drop_last();
        assert(s.take(k as int) =~= p.take(k as int));
        lemma_prefix_lines(p, k);
        lemma_total_len(p);
    }
}

/// Converting a valid position to an offset gives an offset within the text,
/// and counting line feeds before that offset gives back the same row and
/// column.
pub proof fn lemma_offset_round_trip(s: Seq<char>, column: nat, row: nat)
    requires
        row < line_count(s),
        column <= line_len(s, row),
    ensures
        offset_of(s, column, row) is Some,
        offset_of(s, column, row).unwrap() <= s.len(),
        row_at(s, offset_of(s, column, row).unwrap()) == row,
        column_at(s, offset_of(s, column, row).unwrap()) == column,
{
    let ls = lines_of(s);
    let off = line_start(s, row) + column;
    lemma_line_within(s, row);
    let t = s.take(off as int);
    let lt = lines_of(t);
    lemma_prefix_lines(s, off);
    lemma_total_len(t);
    lemma_lines_shape(t);
    let m = (lt.len() - 1) as nat;
    lemma_starts_agree(lt, ls, m);
    if m < row {
        lemma_starts_increase(ls, m, row);
    } else if m > row {
        lemma_starts_increase(ls, row, m);
    }
    assert(m == row);
}

/// A row past the last line has no offset, whatever the column.
pub proof fn lemma_offset_past_last_row(s: Seq<char>, column: nat, row: nat)
    requires
        row >= line_count(s),
    ensures
        offset_of(s, column, row) is None,
{
}

/// A column past the end of its line has no offset.
pub proof fn lemma_offset_past_line_end(s: Seq<char>, column: nat, row: nat)
    requires
        row < line_count(s),
        column > line_len(s, row),
    ensures
        offset_of(s, column, row) is None,
{
}

} // verus!
