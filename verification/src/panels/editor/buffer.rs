//! One file tab of the editor: its lines, cursor, scroll and edit history,
//! and the character-level edits on them.

use vstd::prelude::*;
use crate::text::{lines_view, push_char, owned, concat, str_lines, lines_of, first_newline, strip_cr};
use crate::path::{file_name_of, path_file_name};
use super::diff::{DiffTracker, changes_from, ghosts_from, diff_ops};
use super::selection::{Selection, Position, pos_le};
use super::undo::UndoStack;

verus! {

/// Smaller of two naturals.
pub open spec fn min_nat(a: nat, b: nat) -> nat {
    if a <= b { a } else { b }
}

/// Single file tab state.
pub struct FileTab {
    /// File path (if any).
    pub file_path: Option<String>,
    /// Text content as lines.
    pub lines: Vec<String>,
    /// Cursor position (line, column in characters).
    pub cursor: (usize, usize),
    /// Scroll offset (line, column).
    pub scroll: (usize, usize),
    /// File has unsaved changes.
    pub modified: bool,
    /// Diff tracker for LLM modifications.
    pub diff_tracker: DiffTracker,
    /// Whether the highlight cache is out of date.
    pub highlight_dirty: bool,
    /// Text selection state.
    pub selection: Selection,
    /// Undo history.
    pub undo_stack: UndoStack,
}

/// Everything but the text, the cursor and the flags is kept.
pub open spec fn keeps_meta(a: FileTab, b: FileTab) -> bool {
    &&& b.file_path == a.file_path
    &&& b.scroll == a.scroll
    &&& b.selection@ == a.selection@
    &&& b.undo_stack@ == a.undo_stack@
}

/// The diff display was refreshed against the new text.
pub open spec fn diff_refreshed(a: FileTab, b: FileTab) -> bool {
    let d = a.diff_tracker@;
    &&& b.diff_tracker@.original == d.original
    &&& b.diff_tracker@.tracking == d.tracking
    &&& d.tracking ==> b.diff_tracker@.changes == changes_from(diff_ops(d.original, b.text()), b.lines@.len())
    &&& d.tracking ==> b.diff_tracker@.ghosts == ghosts_from(diff_ops(d.original, b.text()), d.original)
    &&& !d.tracking ==> b.diff_tracker@ == d
}

/// Text after inserting `c` at column `col` of line `row`.
pub open spec fn text_insert_char(text: Seq<Seq<char>>, row: int, col: nat, c: char) -> Seq<Seq<char>> {
    text.update(row, text[row].take(col as int).push(c) + text[row].skip(col as int))
}

/// Text after splitting line `row` at column `col`.
pub open spec fn text_split_line(text: Seq<Seq<char>>, row: int, col: nat) -> Seq<Seq<char>> {
    text.take(row) + seq![text[row].take(col as int), text[row].skip(col as int)] + text.skip(row + 1)
}

/// Text after joining line `row` with the next one.
pub open spec fn text_join_next(text: Seq<Seq<char>>, row: int) -> Seq<Seq<char>> {
    text.take(row) + seq![text[row] + text[row + 1]] + text.skip(row + 2)
}

/// Text after removing the range from `start` to `end`.
pub open spec fn text_remove_range(text: Seq<Seq<char>>, start: Position, end: Position) -> Seq<Seq<char>> {
    let first = text[start.line as int];
    let last = text[end.line as int];
    let head = first.take(min_nat(start.column as nat, first.len()) as int);
    let tail = last.skip(min_nat(end.column as nat, last.len()) as int);
    text.take(start.line as int) + seq![head + tail] + text.skip(end.line + 1)
}

/// The pieces of a text between its newlines (one more than it has newlines).
pub open spec fn split_newlines(s: Seq<char>) -> Seq<Seq<char>>
    decreases s.len(),
{
    if s.len() == 0 {
        seq![Seq::<char>::empty()]
    } else {
        let p = split_newlines(s.drop_last());
        if s.last() == '\n' {
            p.push(Seq::<char>::empty())
        } else {
            p.update(p.len() - 1, p.last().push(s.last()))
        }
    }
}

pub proof fn lemma_split_newlines_nonempty(s: Seq<char>)
    ensures
        split_newlines(s).len() >= 1,
    decreases s.len(),
{
    if s.len() > 0 {
        lemma_split_newlines_nonempty(s.drop_last());
    }
}

/// Text after inserting `s` at column `col` of line `row`: the first piece
/// of `s` joins the head of the line, the last piece its tail.
pub open spec fn text_insert_text(text: Seq<Seq<char>>, row: int, col: nat, s: Seq<char>) -> Seq<Seq<char>> {
    let line = text[row];
    let pieces = split_newlines(s);
    let k = pieces.len() - 1;
    if k <= 0 {
        text.update(row, line.take(col as int) + s + line.skip(col as int))
    } else {
        text.take(row) + seq![line.take(col as int) + pieces[0]] + pieces.subrange(1, k)
            + seq![pieces[k] + line.skip(col as int)] + text.skip(row + 1)
    }
}

/// Cursor after inserting a non-empty `s` at `(row, col)`.
pub open spec fn cursor_after_insert(row: nat, col: nat, s: Seq<char>) -> (usize, usize) {
    let pieces = split_newlines(s);
    let k = pieces.len() - 1;
    if k <= 0 {
        (row as usize, (col + s.len()) as usize)
    } else {
        ((row + k) as usize, pieces[k].len() as usize)
    }
}

/// Where the cursor stands after inserting `s` at `(row, col)`.
pub open spec fn insert_point(row: nat, col: nat, s: Seq<char>) -> (nat, nat) {
    let pieces = split_newlines(s);
    let k = pieces.len() - 1;
    if k <= 0 {
        (row, col + s.len())
    } else {
        ((row + k) as nat, pieces[k].len())
    }
}

proof fn lemma_split_newlines_len(s: Seq<char>)
    ensures
        split_newlines(s).len() >= 1,
        forall|k: int| 0 <= k < split_newlines(s).len() ==> #[trigger] split_newlines(s)[k].len() <= s.len(),
        split_newlines(s).len() <= s.len() + 1,
        split_newlines(s).len() == 1 ==> split_newlines(s)[0] == s,
    decreases s.len(),
{
    if s.len() > 0 {
        lemma_split_newlines_len(s.drop_last());
        let p = split_newlines(s.drop_last());
        if s.last() != '\n' && p.len() == 1 {
            assert(p[0].push(s.last()) =~= s);
        }
    }
}

/// One more character of inserted text acts as a character insertion, or a
/// line split for a newline, at the current insertion point.
proof fn lemma_insert_step(t: Seq<Seq<char>>, row: nat, col: nat, p: Seq<char>, c: char)
    requires
        row < t.len(),
        col <= t[row as int].len(),
    ensures
        ({
            let cur = text_insert_text(t, row as int, col, p);
            let (r, cc) = insert_point(row, col, p);
            &&& r < cur.len()
            &&& cc <= cur[r as int].len()
            &&& cur.len() == t.len() + split_newlines(p).len() - 1
            &&& c == '\n' ==> text_insert_text(t, row as int, col, p.push(c)) == text_split_line(cur, r as int, cc)
            &&& c != '\n' ==> text_insert_text(t, row as int, col, p.push(c)) == text_insert_char(cur, r as int, cc, c)
            &&& insert_point(row, col, p.push(c)) == (if c == '\n' { ((r + 1) as nat, 0nat) } else { (r, cc + 1) })
        }),
{
    let line = t[row as int];
    let pieces = split_newlines(p);
    lemma_split_newlines_len(p);
    let k = pieces.len() - 1;
    let q = p.push(c);
    assert(q.drop_last() =~= p);
    let cur = text_insert_text(t, row as int, col, p);
    let np = split_newlines(q);
    if k <= 0 {
        assert(pieces[0] == p);
        assert(cur == t.update(row as int, line.take(col as int) + p + line.skip(col as int)));
        if c == '\n' {
            assert(np =~= seq![p, Seq::<char>::empty()]);
            assert(np.subrange(1, 1) =~= Seq::<Seq<char>>::empty());
            let cl = cur[row as int];
            assert(cl.take((col + p.len()) as int) =~= line.take(col as int) + p);
            assert(cl.skip((col + p.len()) as int) =~= line.skip(col as int));
            assert(Seq::<char>::empty() + line.skip(col as int) =~= line.skip(col as int));
            assert(text_insert_text(t, row as int, col, q) =~= text_split_line(cur, row as int, col + p.len()));
        } else {
            assert(np =~= seq![q]);
            let cl = cur[row as int];
            assert(cl.take((col + p.len()) as int).push(c) + cl.skip((col + p.len()) as int)
                =~= line.take(col as int) + q + line.skip(col as int));
            assert(text_insert_text(t, row as int, col, q) =~= text_insert_char(cur, row as int, col + p.len(), c));
        }
    } else {
        let r = row + k;
        let last = pieces[k];
        assert(cur.len() == t.len() + k);
        assert(cur[r] == last + line.skip(col as int));
        if c == '\n' {
            assert(np =~= pieces.push(Seq::<char>::empty()));
            let cl = cur[r];
            assert(cl.take(last.len() as int) =~= last);
            assert(cl.skip(last.len() as int) =~= line.skip(col as int));
            assert(np.subrange(1, k + 1) =~= pieces.subrange(1, k).push(last));
            assert(Seq::<char>::empty() + line.skip(col as int) =~= line.skip(col as int));
            assert(text_insert_text(t, row as int, col, q) =~= text_split_line(cur, r, last.len()));
        } else {
            assert(np =~= pieces.update(k, last.push(c)));
            let cl = cur[r];
            assert(cl.take(last.len() as int).push(c) + cl.skip(last.len() as int)
                =~= last.push(c) + line.skip(col as int));
            assert(np.subrange(1, k) =~= pieces.subrange(1, k));
            assert(text_insert_text(t, row as int, col, q) =~= text_insert_char(cur, r, last.len(), c));
        }
    }
}

/// Where a text inserted at `start` ends, measured with `str::lines`.
pub open spec fn end_position(start: Position, text: Seq<char>) -> Position {
    let ls = str_lines(text);
    if ls.len() == 0 {
        start
    } else if ls.len() == 1 {
        Position { line: start.line, column: (start.column + ls[0].len()) as usize }
    } else {
        Position { line: (start.line + ls.len() - 1) as usize, column: ls.last().len() as usize }
    }
}

/// Where a text inserted at `start` ends.
pub fn calculate_end_position(start: Position, text: &str) -> (end: Position)
    requires
        str_lines(text@).len() == 1 ==> start.column + str_lines(text@)[0].len() <= usize::MAX,
        str_lines(text@).len() > 1 ==> start.line + str_lines(text@).len() - 1 <= usize::MAX,
    ensures
        end == end_position(start, text@),
{
    let lines = lines_of(text);
    proof {
        assert(lines_view(lines@).len() == lines@.len());
    }
    if lines.len() == 0 {
        return start;
    }
    if lines.len() == 1 {
        assert(lines_view(lines@)[0] == lines@[0]@);
        Position::new(start.line, start.column + lines[0].as_str().unicode_len())
    } else {
        let last = lines.len() - 1;
        assert(lines_view(lines@)[last as int] == lines@[last as int]@);
        Position::new(start.line + (lines.len() - 1), lines[last].as_str().unicode_len())
    }
}

proof fn lemma_split_no_newline(a: Seq<char>)
    requires
        forall|k: int| 0 <= k < a.len() ==> a[k] != '\n',
    ensures
        split_newlines(a) == seq![a],
    decreases a.len(),
{
    if a.len() > 0 {
        assert forall|k: int| 0 <= k < a.drop_last().len() implies a.drop_last()[k] != '\n' by {
            assert(a.drop_last()[k] == a[k]);
        }
        lemma_split_no_newline(a.drop_last());
        assert(a[a.len() - 1] != '\n');
        assert(a.drop_last().push(a.last()) =~= a);
        assert(seq![a.drop_last()].update(0, a.drop_last().push(a.last())) =~= seq![a]);
    } else {
        assert(a =~= Seq::<char>::empty());
        assert(seq![Seq::<char>::empty()] =~= seq![a]);
    }
}

proof fn lemma_split_after_newline(a: Seq<char>, b: Seq<char>)
    requires
        forall|k: int| 0 <= k < a.len() ==> a[k] != '\n',
    ensures
        split_newlines(a + seq!['\n'] + b) == seq![a] + split_newlines(b),
    decreases b.len(),
{
    let s = a + seq!['\n'] + b;
    if b.len() == 0 {
        assert(s.drop_last() =~= a);
        lemma_split_no_newline(a);
        assert(s =~= a.push('\n'));
    } else {
        assert(s.drop_last() =~= a + seq!['\n'] + b.drop_last());
        lemma_split_after_newline(a, b.drop_last());
        lemma_split_newlines_len(b.drop_last());
        assert(s.last() == b.last());
        let q = split_newlines(b.drop_last());
        if b.last() == '\n' {
            assert((seq![a] + q).push(Seq::<char>::empty()) =~= seq![a] + q.push(Seq::<char>::empty()));
        } else {
            let pq = seq![a] + q;
            assert(pq.update(pq.len() - 1, pq.last().push(b.last()))
                =~= seq![a] + q.update(q.len() - 1, q.last().push(b.last())));
        }
    }
}

/// For a non-empty text without carriage returns that does not end with a
/// newline, `str::lines` and a split at newlines agree.
proof fn lemma_lines_are_pieces(s: Seq<char>)
    requires
        s.len() > 0,
        s.last() != '\n',
        forall|k: int| 0 <= k < s.len() ==> s[k] != '\r',
    ensures
        str_lines(s) == split_newlines(s),
    decreases s.len(),
{
    let k = first_newline(s);
    crate::text::lemma_first_newline_bounds(s);
    if k >= s.len() {
        lemma_split_no_newline(s);
    } else {
        let a = s.take(k as int);
        let rest = s.skip((k + 1) as int);
        assert(s =~= a + seq!['\n'] + rest);
        assert(rest.len() > 0);
        assert(rest.last() == s.last());
        assert forall|j: int| 0 <= j < rest.len() implies rest[j] != '\r' by {
            assert(rest[j] == s[k + 1 + j]);
        }
        lemma_lines_are_pieces(rest);
        assert(strip_cr(a) == a) by {
            if a.len() > 0 {
                assert(a.last() == s[k - 1]);
            }
        }
        lemma_split_after_newline(a, rest);
    }
}

/// Law: removing the range from the insertion point to the computed end
/// position undoes a text insertion, for texts without carriage returns that
/// do not end with a newline (for those, `str::lines` measures the end short).
pub proof fn law_remove_undoes_insert(t: Seq<Seq<char>>, row: nat, col: nat, s: Seq<char>)
    requires
        row < t.len(),
        col <= t[row as int].len(),
        row + s.len() <= usize::MAX,
        col + s.len() <= usize::MAX,
        s.len() > 0 ==> s.last() != '\n',
        forall|k: int| 0 <= k < s.len() ==> s[k] != '\r',
    ensures
        ({
            let start = Position { line: row as usize, column: col as usize };
            text_remove_range(text_insert_text(t, row as int, col, s), start, end_position(start, s)) == t
        }),
{
    let start = Position { line: row as usize, column: col as usize };
    let line = t[row as int];
    let cur = text_insert_text(t, row as int, col, s);
    lemma_split_newlines_len(s);
    let pieces = split_newlines(s);
    let k = pieces.len() - 1;
    if s.len() == 0 {
        assert(str_lines(s) =~= Seq::<Seq<char>>::empty());
        assert(line.take(col as int) + s + line.skip(col as int) =~= line);
        assert(cur =~= t);
        assert(line.take(col as int) + line.skip(col as int) =~= line);
        assert(text_remove_range(cur, start, start) =~= t);
    } else {
        lemma_lines_are_pieces(s);
        let end = end_position(start, s);
        if k == 0 {
            assert(pieces[0] == s);
            let cl = line.take(col as int) + s + line.skip(col as int);
            assert(cl.take(col as int) =~= line.take(col as int));
            assert(cl.skip((col + s.len()) as int) =~= line.skip(col as int));
            assert(line.take(col as int) + line.skip(col as int) =~= line);
            assert(text_remove_range(cur, start, end) =~= t);
        } else {
            let first = line.take(col as int) + pieces[0];
            let last = pieces[k] + line.skip(col as int);
            assert(cur[row as int] == first);
            assert(cur[row + k] == last);
            assert(first.take(col as int) =~= line.take(col as int));
            assert(last.skip(pieces[k].len() as int) =~= line.skip(col as int));
            assert(line.take(col as int) + line.skip(col as int) =~= line);
            assert(cur.skip(row + k + 1) =~= t.skip((row + 1) as int));
            assert(cur.take(row as int) =~= t.take(row as int));
            assert(text_remove_range(cur, start, end) =~= t);
        }
    }
}

/// Line `row` as a string slice-free copy of characters `[from, to)`.
fn substring(line: &String, from: usize, to: usize) -> (r: String)
    requires
        from <= to <= line@.len(),
    ensures
        r@ == line@.subrange(from as int, to as int),
{
    owned(line.as_str().substring_char(from, to))
}

pub open spec fn char_inserted(a: FileTab, b: FileTab, c: char) -> bool {
    &&& ({
        let row = a.cursor.0;
        let col = min_nat(a.cursor.1 as nat, a.text()[row as int].len());
        &&& b.text() == text_insert_char(a.text(), row as int, col, c)
        &&& b.cursor.0 == row
        &&& b.cursor.1 == col + 1
    })
    &&& b.lines@.len() == a.lines@.len()
    &&& b.modified
    &&& b.highlight_dirty
    &&& keeps_meta(a, b)
    &&& diff_refreshed(a, b)
}

pub open spec fn line_split(a: FileTab, b: FileTab) -> bool {
    &&& ({
        let row = a.cursor.0;
        let col = min_nat(a.cursor.1 as nat, a.text()[row as int].len());
        &&& b.text() == text_split_line(a.text(), row as int, col)
        &&& b.cursor.0 == row + 1
        &&& b.cursor.1 == 0
    })
    &&& b.lines@.len() == a.lines@.len() + 1
    &&& b.modified
    &&& b.highlight_dirty
    &&& keeps_meta(a, b)
    &&& diff_refreshed(a, b)
}

pub open spec fn backspaced(a: FileTab, b: FileTab) -> bool {
    &&& ({
        let t = a.text();
        let (row, col) = a.cursor;
        let c2 = min_nat(col as nat, t[row as int].len());
        if col > 0 {
            if c2 > 0 {
                &&& b.text() == t.update(row as int, t[row as int].remove(c2 - 1))
                &&& b.cursor == (row, (c2 - 1) as usize)
                &&& b.modified && b.highlight_dirty
            } else {
                &&& b.text() == t
                &&& b.cursor == a.cursor
                &&& b.modified == a.modified
                &&& b.highlight_dirty == a.highlight_dirty
            }
        } else if row > 0 {
            &&& b.text() == text_join_next(t, row - 1)
            &&& b.cursor == ((row - 1) as usize, t[row - 1].len() as usize)
            &&& b.modified && b.highlight_dirty
        } else {
            &&& b.text() == t
            &&& b.cursor == a.cursor
            &&& b.modified == a.modified
            &&& b.highlight_dirty == a.highlight_dirty
        }
    })
    &&& b.lines@.len() >= 1
    &&& b.cursor.0 < b.lines@.len()
    &&& keeps_meta(a, b)
    &&& diff_refreshed(a, b)
}

pub open spec fn deleted_forward(a: FileTab, b: FileTab) -> bool {
    &&& ({
        let t = a.text();
        let (row, col) = a.cursor;
        if (col as nat) < t[row as int].len() {
            &&& b.text() == t.update(row as int, t[row as int].remove(col as int))
            &&& b.modified && b.highlight_dirty
        } else if row + 1 < t.len() {
            &&& b.text() == text_join_next(t, row as int)
            &&& b.modified && b.highlight_dirty
        } else {
            &&& b.text() == t
            &&& b.modified == a.modified
            &&& b.highlight_dirty == a.highlight_dirty
        }
    })
    &&& b.cursor == a.cursor
    &&& b.lines@.len() >= 1
    &&& b.cursor.0 < b.lines@.len()
    &&& keeps_meta(a, b)
    &&& diff_refreshed(a, b)
}

pub open spec fn text_inserted(a: FileTab, b: FileTab, text: Seq<char>) -> bool {
    &&& ({
        let row = a.cursor.0;
        let col = min_nat(a.cursor.1 as nat, a.text()[row as int].len());
        let p = insert_point(row as nat, col, text);
        &&& b.text() == text_insert_text(a.text(), row as int, col, text)
        &&& text.len() > 0 ==> b.cursor.0 == p.0 && b.cursor.1 == p.1
    })
    &&& text.len() == 0 ==> b == a
    &&& text.len() > 0 ==> b.modified && b.highlight_dirty
    &&& text.len() > 0 ==> diff_refreshed(a, b)
    &&& b.cursor_ok()
    &&& keeps_meta(a, b)
}

pub open spec fn range_removed(a: FileTab, b: FileTab, start: Position, end: Position) -> bool {
    &&& b.text() == text_remove_range(a.text(), start, end)
    &&& b.lines@.len() == a.lines@.len() - (end.line - start.line)
    &&& b.cursor == a.cursor
    &&& b.modified
    &&& b.highlight_dirty
    &&& keeps_meta(a, b)
    &&& b.diff_tracker == a.diff_tracker
}

/// Direction of a cursor move.
#[derive(Debug, Clone, Copy, PartialEq, Eq, Structural)]
pub enum Direction {
    Up,
    Down,
    Left,
    Right,
}

/// The cursor after one move: up and down keep the column where the line
/// allows, left and right wrap across line ends.
pub open spec fn moved_cursor(t: Seq<Seq<char>>, cur: (usize, usize), dir: Direction) -> (usize, usize) {
    let (row, col) = cur;
    match dir {
        Direction::Up => if row > 0 {
            ((row - 1) as usize, min_nat(col as nat, t[row - 1].len()) as usize)
        } else {
            cur
        },
        Direction::Down => if row + 1 < t.len() {
            ((row + 1) as usize, min_nat(col as nat, t[row + 1].len()) as usize)
        } else {
            cur
        },
        Direction::Left => if col > 0 {
            (row, (col - 1) as usize)
        } else if row > 0 {
            ((row - 1) as usize, t[row - 1].len() as usize)
        } else {
            cur
        },
        Direction::Right => if (col as nat) < t[row as int].len() {
            (row, (col + 1) as usize)
        } else if row + 1 < t.len() {
            ((row + 1) as usize, 0usize)
        } else {
            cur
        },
    }
}

/// The first visible line after scrolling just enough to show `row`.
pub open spec fn visible_scroll(row: nat, top: nat, height: nat) -> nat {
    if row < top {
        row
    } else if row >= top + height {
        (row - height + 1) as nat
    } else {
        top
    }
}

/// Only the cursor and the scroll position differ.
pub open spec fn same_but_view(a: FileTab, b: FileTab) -> bool {
    &&& b.lines == a.lines
    &&& b.file_path == a.file_path
    &&& b.modified == a.modified
    &&& b.diff_tracker == a.diff_tracker
    &&& b.highlight_dirty == a.highlight_dirty
    &&& b.selection == a.selection
    &&& b.undo_stack == a.undo_stack
}

/// The last line index, or 0 for no lines.
pub open spec fn last_line(t: Seq<Seq<char>>) -> nat {
    if t.len() > 0 { (t.len() - 1) as nat } else { 0 }
}

/// The name shown for a tab: its file's name, or `[New]`.
pub open spec fn tab_name(t: FileTab) -> Seq<char> {
    match t.file_path {
        Some(p) => match path_file_name(p@) {
            Some(n) => n,
            None => "[New]"@,
        },
        None => "[New]"@,
    }
}

impl FileTab {
    /// Scroll so that the cursor line is visible.
    pub fn ensure_cursor_visible(&mut self, visible_height: usize)
        requires
            old(self).scroll.0 + visible_height <= usize::MAX,
            old(self).cursor.0 < usize::MAX,
        ensures
            final(self).scroll.0 == visible_scroll(old(self).cursor.0 as nat, old(self).scroll.0 as nat, visible_height as nat),
            final(self).scroll.1 == old(self).scroll.1,
            final(self).cursor == old(self).cursor,
            same_but_view(*old(self), *final(self)),
    {
        if self.cursor.0 < self.scroll.0 {
            self.scroll.0 = self.cursor.0;
        } else if self.cursor.0 >= self.scroll.0 + visible_height {
            self.scroll.0 = self.cursor.0 - visible_height + 1;
        }
    }

    /// Move the cursor one step, then keep it visible.
    pub fn move_cursor(&mut self, dir: Direction, visible_height: usize)
        requires
            old(self).cursor_ok(),
            old(self).cursor.1 < usize::MAX,
            old(self).scroll.0 + visible_height <= usize::MAX,
        ensures
            final(self).cursor == moved_cursor(old(self).text(), old(self).cursor, dir),
            final(self).scroll.0 == visible_scroll(final(self).cursor.0 as nat, old(self).scroll.0 as nat, visible_height as nat),
            final(self).scroll.1 == old(self).scroll.1,
            final(self).cursor_ok(),
            same_but_view(*old(self), *final(self)),
    {
        let n = self.lines.len();
        let row = self.cursor.0;
        let col = self.cursor.1;
        match dir {
            Direction::Up => {
                if row > 0 {
                    let len = self.lines[row - 1].as_str().unicode_len();
                    self.cursor = (row - 1, if col <= len { col } else { len });
                }
            },
            Direction::Down => {
                if row + 1 < n {
                    let len = self.lines[row + 1].as_str().unicode_len();
                    self.cursor = (row + 1, if col <= len { col } else { len });
                }
            },
            Direction::Left => {
                if col > 0 {
                    self.cursor.1 = col - 1;
                } else if row > 0 {
                    let len = self.lines[row - 1].as_str().unicode_len();
                    self.cursor = (row - 1, len);
                }
            },
            Direction::Right => {
                let len = self.current_line().unicode_len();
                if col < len {
                    self.cursor.1 = col + 1;
                } else if row + 1 < n {
                    self.cursor = (row + 1, 0);
                }
            },
        }
        self.ensure_cursor_visible(visible_height);
    }

    /// Scroll up by `n` lines (stopping at the top).
    pub fn scroll_up(&mut self, n: usize)
        ensures
            final(self).scroll.0 == (if old(self).scroll.0 >= n { old(self).scroll.0 - n } else { 0 }),
            final(self).scroll.1 == old(self).scroll.1,
            final(self).cursor == old(self).cursor,
            same_but_view(*old(self), *final(self)),
    {
        self.scroll.0 = if self.scroll.0 >= n { self.scroll.0 - n } else { 0 };
    }

    /// Scroll down by `n` lines (stopping at the last line).
    pub fn scroll_down(&mut self, n: usize)
        requires
            old(self).scroll.0 + n <= usize::MAX,
        ensures
            final(self).scroll.0 == (if old(self).scroll.0 + n <= last_line(old(self).text()) {
                old(self).scroll.0 + n
            } else {
                last_line(old(self).text()) as int
            }),
            final(self).scroll.1 == old(self).scroll.1,
            final(self).cursor == old(self).cursor,
            same_but_view(*old(self), *final(self)),
    {
        let len = self.lines.len();
        let max_scroll = if len > 0 { len - 1 } else { 0 };
        let target = self.scroll.0 + n;
        self.scroll.0 = if target <= max_scroll { target } else { max_scroll };
    }

    /// Go to the last line: it is the first visible one, and the cursor
    /// stands at its start.
    pub fn scroll_to_bottom(&mut self)
        ensures
            final(self).scroll.0 == last_line(old(self).text()),
            final(self).scroll.1 == old(self).scroll.1,
            final(self).cursor == (last_line(old(self).text()) as usize, 0usize),
            same_but_view(*old(self), *final(self)),
    {
        let len = self.lines.len();
        let last = if len > 0 { len - 1 } else { 0 };
        self.scroll.0 = last;
        self.cursor = (last, 0);
    }
}

impl FileTab {
    /// The text as character sequences.
    pub open spec fn text(&self) -> Seq<Seq<char>> {
        lines_view(self.lines@)
    }

    /// The cursor is on an existing line.
    pub open spec fn cursor_ok(&self) -> bool {
        self.lines@.len() >= 1 && self.cursor.0 < self.lines@.len()
    }

    /// An empty tab.
    pub fn new() -> (t: Self)
        ensures
            t.file_path is None,
            t.text() == seq![Seq::<char>::empty()],
            t.cursor == (0usize, 0usize),
            t.scroll == (0usize, 0usize),
            !t.modified,
            !t.diff_tracker@.tracking,
            t.highlight_dirty,
            t.selection@ is None,
            t.undo_stack@.undo.len() == 0,
            t.undo_stack@.redo.len() == 0,
    {
        let mut lines: Vec<String> = Vec::new();
        lines.push(String::new());
        let t = FileTab {
            file_path: None,
            lines,
            cursor: (0, 0),
            scroll: (0, 0),
            modified: false,
            diff_tracker: DiffTracker::new(),
            highlight_dirty: true,
            selection: Selection::new(),
            undo_stack: UndoStack::new(),
        };
        assert(t.text() =~= seq![Seq::<char>::empty()]);
        t
    }

    /// A tab for a new, not yet saved, file.
    pub fn new_file(path: String) -> (t: Self)
        ensures
            t.file_path == Some(path),
            t.text() == seq![Seq::<char>::empty()],
            t.cursor == (0usize, 0usize),
            t.scroll == (0usize, 0usize),
            t.modified,
            !t.diff_tracker@.tracking,
            t.highlight_dirty,
            t.selection@ is None,
            t.undo_stack@.undo.len() == 0,
            t.undo_stack@.redo.len() == 0,
    {
        let mut t = FileTab::new();
        t.file_path = Some(path);
        t.modified = true;
        t
    }

    /// Name shown on the tab: the file name, or `[New]`.
    pub fn display_name(&self) -> (s: String)
        ensures
            match self.file_path {
                Some(p) => match path_file_name(p@) {
                    Some(n) => s@ == n,
                    None => s@ == "[New]"@,
                },
                None => s@ == "[New]"@,
            },
    {
        match &self.file_path {
            Some(p) => match file_name_of(p.as_str()) {
                Some(n) => n,
                None => owned("[New]"),
            },
            None => owned("[New]"),
        }
    }

    /// The line under the cursor, or the empty string past the last line.
    pub fn current_line(&self) -> (s: &str)
        ensures
            self.cursor.0 < self.lines@.len() ==> s@ == self.text()[self.cursor.0 as int],
            self.cursor.0 >= self.lines@.len() ==> s@ == Seq::<char>::empty(),
    {
        if self.cursor.0 < self.lines.len() {
            self.lines[self.cursor.0].as_str()
        } else {
            proof { reveal_strlit(""); }
            ""
        }
    }

    /// Refresh the diff display after an edit.
    pub fn refresh_diff(&mut self)
        ensures
            final(self).lines == old(self).lines,
            final(self).cursor == old(self).cursor,
            final(self).modified == old(self).modified,
            final(self).highlight_dirty == old(self).highlight_dirty,
            keeps_meta(*old(self), *final(self)),
            diff_refreshed(*old(self), *final(self)),
    {
        if self.diff_tracker.is_tracking() {
            self.diff_tracker.update_diff(&self.lines);
        }
    }

    /// Insert a character at the cursor (the column is first cut to the
    /// line's length).
    pub fn insert_char(&mut self, c: char)
        requires
            old(self).cursor_ok(),
            old(self).cursor.1 < usize::MAX,
        ensures
            char_inserted(*old(self), *final(self), c),
    {
        let row = self.cursor.0;
        let len = self.lines[row].as_str().unicode_len();
        let col = if self.cursor.1 <= len { self.cursor.1 } else { len };
        let mut line = substring(&self.lines[row], 0, col);
        push_char(&mut line, c);
        let rest = substring(&self.lines[row], col, len);
        line.append(rest.as_str());
        let ghost before = old(self).text();
        self.lines.set(row, line);
        assert(self.text() =~= text_insert_char(before, row as int, col as nat, c));
        self.cursor.1 = col + 1;
        self.modified = true;
        self.highlight_dirty = true;
        self.refresh_diff();
    }

    /// Insert a line break at the cursor.
    pub fn newline(&mut self)
        requires
            old(self).cursor_ok(),
        ensures
            line_split(*old(self), *final(self)),
    {
        let row = self.cursor.0;
        let n = self.lines.len();
        let len = self.lines[row].as_str().unicode_len();
        let col = if self.cursor.1 <= len { self.cursor.1 } else { len };
        let head = substring(&self.lines[row], 0, col);
        let rest = substring(&self.lines[row], col, len);
        let ghost before = old(self).text();
        self.lines.set(row, head);
        self.lines.insert(row + 1, rest);
        assert(self.text() =~= text_split_line(before, row as int, col as nat));
        self.cursor.0 = row + 1;
        self.cursor.1 = 0;
        self.modified = true;
        self.highlight_dirty = true;
        self.refresh_diff();
    }

    /// Delete the character before the cursor; at a line start, join the
    /// line with the previous one.
    pub fn backspace(&mut self)
        requires
            old(self).cursor_ok(),
        ensures
            backspaced(*old(self), *final(self)),
    {
        let ghost t = old(self).text();
        let row = self.cursor.0;
        let col = self.cursor.1;
        if col > 0 {
            let len = self.lines[row].as_str().unicode_len();
            let c2 = if col <= len { col } else { len };
            if c2 > 0 {
                let mut line = substring(&self.lines[row], 0, c2 - 1);
                let rest = substring(&self.lines[row], c2, len);
                line.append(rest.as_str());
                self.lines.set(row, line);
                assert(self.text() =~= t.update(row as int, t[row as int].remove(c2 - 1)));
                self.cursor.1 = c2 - 1;
                self.modified = true;
                self.highlight_dirty = true;
            }
        } else if row > 0 {
            let current = self.lines.remove(row);
            let prev_len = self.lines[row - 1].as_str().unicode_len();
            let joined = concat(self.lines[row - 1].as_str(), current.as_str());
            self.lines.set(row - 1, joined);
            assert(self.text() =~= text_join_next(t, row - 1));
            self.cursor.0 = row - 1;
            self.cursor.1 = prev_len;
            self.modified = true;
            self.highlight_dirty = true;
        }
        self.refresh_diff();
    }

    /// Delete the character at the cursor; at or past a line end, join the
    /// next line to this one.
    pub fn delete(&mut self)
        requires
            old(self).cursor_ok(),
        ensures
            deleted_forward(*old(self), *final(self)),
    {
        let ghost t = old(self).text();
        let row = self.cursor.0;
        let col = self.cursor.1;
        let n = self.lines.len();
        let len = self.lines[row].as_str().unicode_len();
        if col < len {
            let mut line = substring(&self.lines[row], 0, col);
            let rest = substring(&self.lines[row], col + 1, len);
            line.append(rest.as_str());
            self.lines.set(row, line);
            assert(self.text() =~= t.update(row as int, t[row as int].remove(col as int)));
            self.modified = true;
            self.highlight_dirty = true;
        } else if row + 1 < n {
            let next = self.lines.remove(row + 1);
            let joined = concat(self.lines[row].as_str(), next.as_str());
            self.lines.set(row, joined);
            assert(self.text() =~= text_join_next(t, row as int));
            self.modified = true;
            self.highlight_dirty = true;
        }
        self.refresh_diff();
    }

    /// Insert a text at the cursor, character by character; a newline
    /// splits the line.
    pub fn insert_text(&mut self, text: &str)
        requires
            old(self).cursor_ok(),
            old(self).cursor.1 + text@.len() < usize::MAX,
        ensures
            text_inserted(*old(self), *final(self), text@),
    {
        let ghost t0 = old(self).text();
        let ghost row = old(self).cursor.0;
        let ghost col = min_nat(old(self).cursor.1 as nat, t0[row as int].len());
        let chars = crate::text::chars_of(text);
        let n = chars.len();
        let mut i: usize = 0;
        assert(text_insert_text(t0, row as int, col, text@.take(0)) =~= t0) by {
            assert(split_newlines(text@.take(0)) =~= seq![Seq::<char>::empty()]);
            assert(t0[row as int].take(col as int) + text@.take(0) + t0[row as int].skip(col as int) =~= t0[row as int]);
        }
        while i < n
            invariant
                chars@ == text@,
                n == text@.len(),
                i <= n,
                row == old(self).cursor.0,
                t0 == old(self).text(),
                col == min_nat(old(self).cursor.1 as nat, t0[row as int].len()),
                old(self).cursor_ok(),
                old(self).cursor.1 + n < usize::MAX,
                self.cursor_ok(),
                self.text() == text_insert_text(t0, row as int, col, text@.take(i as int)),
                i > 0 ==> self.cursor.0 == insert_point(row as nat, col, text@.take(i as int)).0,
                i > 0 ==> self.cursor.1 == insert_point(row as nat, col, text@.take(i as int)).1,
                i > 0 ==> self.cursor.1 <= old(self).cursor.1 + i,
                i > 0 ==> self.modified && self.highlight_dirty,
                i > 0 ==> diff_refreshed(*old(self), *self),
                i == 0 ==> *self == *old(self),
                keeps_meta(*old(self), *self),
            decreases n - i,
        {
            let c = chars[i];
            proof {
                lemma_insert_step(t0, row as nat, col, text@.take(i as int), c);
                assert(text@.take(i as int).push(c) =~= text@.take(i + 1));
                lemma_split_newlines_len(text@.take(i as int));
            }
            let ghost before = *self;
            if c == '\n' {
                self.newline();
            } else {
                self.insert_char(c);
            }
            i = i + 1;
        }
        assert(text@.take(n as int) =~= text@);
    }

    /// Remove the text from `start` to `end`.
    pub fn delete_range(&mut self, start: Position, end: Position)
        requires
            pos_le(start, end),
            end.line < old(self).lines@.len(),
        ensures
            range_removed(*old(self), *final(self), start, end),
    {
        let ghost t = old(self).text();
        let first_len = self.lines[start.line].as_str().unicode_len();
        let sc = if start.column <= first_len { start.column } else { first_len };
        let last_len = self.lines[end.line].as_str().unicode_len();
        let ec = if end.column <= last_len { end.column } else { last_len };
        if start.line == end.line {
            let mut line = substring(&self.lines[start.line], 0, sc);
            let rest = substring(&self.lines[start.line], ec, last_len);
            line.append(rest.as_str());
            self.lines.set(start.line, line);
            assert(self.text() =~= text_remove_range(t, start, end));
        } else {
            let first_part = substring(&self.lines[start.line], 0, sc);
            let last_part = substring(&self.lines[end.line], ec, last_len);
            let n = self.lines.len();
            let mut k = start.line + 1;
            while k <= end.line
                invariant
                    start.line < end.line,
                    end.line < t.len(),
                    t.len() == n,
                    self.cursor == old(self).cursor,
                    keeps_meta(*old(self), *self),
                    self.diff_tracker == old(self).diff_tracker,
                    start.line + 1 <= k <= end.line + 1,
                    self.lines@.len() == t.len() - (k - start.line - 1),
                    self.text() == t.take(start.line + 1) + t.skip(k as int),
                decreases end.line + 1 - k,
            {
                let ghost before = self.lines@;
                self.lines.remove(start.line + 1);
                assert(lines_view(self.lines@) =~= lines_view(before).remove(start.line + 1));
                k = k + 1;
                assert(self.text() =~= t.take(start.line + 1) + t.skip(k as int));
            }
            assert(k == end.line + 1);
            let ghost mid = self.lines@;
            assert(lines_view(mid) =~= t.take(start.line + 1) + t.skip(end.line + 1));
            let joined = concat(first_part.as_str(), last_part.as_str());
            let ghost first = t[start.line as int];
            let ghost last = t[end.line as int];
            assert(first_part@ =~= first.take(min_nat(start.column as nat, first.len()) as int));
            assert(last_part@ =~= last.skip(min_nat(end.column as nat, last.len()) as int));
            self.lines.set(start.line, joined);
            assert(lines_view(self.lines@) =~= lines_view(mid).update(start.line as int, joined@));
            assert(self.text() =~= text_remove_range(t, start, end));
        }
        self.modified = true;
        self.highlight_dirty = true;
    }
}

} // verus!
