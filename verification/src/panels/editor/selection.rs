//! Text selection for the editor: an anchor, and the range it spans with
//! the cursor.

use vstd::prelude::*;
use crate::text::{lines_view, push_char};

verus! {

/// A position in the document.
#[derive(Debug, Clone, Copy, PartialEq, Eq, PartialOrd, Ord, Structural)]
pub struct Position {
    pub line: usize,
    pub column: usize,
}

/// Document order: by line, then by column.
pub open spec fn pos_le(a: Position, b: Position) -> bool {
    a.line < b.line || (a.line == b.line && a.column <= b.column)
}

/// Strict document order.
pub open spec fn pos_lt(a: Position, b: Position) -> bool {
    a.line < b.line || (a.line == b.line && a.column < b.column)
}

impl Position {
    pub fn new(line: usize, column: usize) -> (p: Self)
        ensures
            p.line == line,
            p.column == column,
    {
        Position { line, column }
    }
}

/// `a <= b` in document order.
pub fn position_le(a: Position, b: Position) -> (r: bool)
    ensures
        r == pos_le(a, b),
{
    a.line < b.line || (a.line == b.line && a.column <= b.column)
}

/// Selection state for the editor.
#[derive(Debug, Clone)]
pub struct Selection {
    /// Anchor point (where the selection started).
    anchor: Option<Position>,
}

/// The normalized range of a selection anchored at `anchor` with the cursor
/// at `cursor`.
pub open spec fn range_of(anchor: Option<Position>, cursor: Position) -> Option<(Position, Position)> {
    match anchor {
        Some(a) => if pos_le(a, cursor) { Some((a, cursor)) } else { Some((cursor, a)) },
        None => None,
    }
}

/// Characters `[from, to)` of a line, with both ends cut to its length.
pub open spec fn clip(line: Seq<char>, from: nat, to: nat) -> Seq<char> {
    let f = if from <= line.len() { from } else { line.len() };
    let t = if to <= line.len() { to } else { line.len() };
    if f <= t { line.subrange(f as int, t as int) } else { seq![] }
}

/// The complete lines `from..to` (those that exist), each followed by a newline.
pub open spec fn middle_lines(lines: Seq<Seq<char>>, from: nat, to: nat) -> Seq<char>
    decreases to,
{
    if to <= from {
        seq![]
    } else {
        let prev = middle_lines(lines, from, (to - 1) as nat);
        if to - 1 < lines.len() { prev + lines[to - 1] + seq!['\n'] } else { prev }
    }
}

/// The text between two ordered positions.
pub open spec fn text_between(lines: Seq<Seq<char>>, start: Position, end: Position) -> Option<Seq<char>> {
    if start.line == end.line {
        if start.line < lines.len() {
            Some(clip(lines[start.line as int], start.column as nat, end.column as nat))
        } else {
            None
        }
    } else {
        let first = if start.line < lines.len() {
            clip(lines[start.line as int], start.column as nat, lines[start.line as int].len()) + seq!['\n']
        } else {
            seq![]
        };
        let last = if end.line < lines.len() {
            clip(lines[end.line as int], 0, end.column as nat)
        } else {
            seq![]
        };
        Some(first + middle_lines(lines, (start.line + 1) as nat, end.line as nat) + last)
    }
}

impl View for Selection {
    type V = Option<Position>;

    closed spec fn view(&self) -> Option<Position> {
        self.anchor
    }
}

/// Appends characters `[from, to)` of `line`, cut to its length.
fn push_clip(out: &mut String, line: &String, from: usize, to: usize)
    ensures
        final(out)@ == old(out)@ + clip(line@, from as nat, to as nat),
{
    let len = line.as_str().unicode_len();
    let f = if from <= len { from } else { len };
    let t = if to <= len { to } else { len };
    if f <= t {
        let part = line.as_str().substring_char(f, t);
        out.append(part);
    } else {
        assert(clip(line@, from as nat, to as nat) =~= Seq::<char>::empty());
        assert(old(out)@ + Seq::<char>::empty() =~= old(out)@);
    }
}

impl Selection {
    pub fn new() -> (s: Self)
        ensures
            s@ is None,
    {
        Selection { anchor: None }
    }

    /// Start a selection at a position.
    pub fn start(&mut self, pos: Position)
        ensures
            final(self)@ == Some(pos),
    {
        self.anchor = Some(pos);
    }

    /// Clear the selection.
    pub fn clear(&mut self)
        ensures
            final(self)@ is None,
    {
        self.anchor = None;
    }

    /// Whether a selection is active.
    pub fn is_active(&self) -> (b: bool)
        ensures
            b == self@ is Some,
    {
        self.anchor.is_some()
    }

    /// The selection range `(start, end)` with `start <= end`.
    pub fn range(&self, cursor: Position) -> (r: Option<(Position, Position)>)
        ensures
            r == range_of(self@, cursor),
    {
        match self.anchor {
            Some(anchor) => if position_le(anchor, cursor) {
                Some((anchor, cursor))
            } else {
                Some((cursor, anchor))
            },
            None => None,
        }
    }

    /// The selected text of `lines`; `None` without a selection, or when a
    /// one-line selection lies past the last line.
    pub fn get_text(&self, cursor: Position, lines: &[String]) -> (r: Option<String>)
        ensures
            match range_of(self@, cursor) {
                Some((start, end)) => match text_between(lines_view(lines@), start, end) {
                    Some(t) => r is Some && r->0@ == t,
                    None => r is None,
                },
                None => r is None,
            },
    {
        let ghost lv = lines_view(lines@);
        let (start, end) = match self.range(cursor) {
            Some(p) => p,
            None => return None,
        };
        if start.line == end.line {
            if start.line >= lines.len() {
                return None;
            }
            let mut out = String::new();
            push_clip(&mut out, &lines[start.line], start.column, end.column);
            assert(out@ =~= clip(lv[start.line as int], start.column as nat, end.column as nat));
            Some(out)
        } else {
            let mut result = String::new();
            if start.line < lines.len() {
                let line = &lines[start.line];
                push_clip(&mut result, line, start.column, line.as_str().unicode_len());
                push_char(&mut result, '\n');
            }
            let ghost first = result@;
            assert(first =~= (if start.line < lines@.len() {
                clip(lv[start.line as int], start.column as nat, lv[start.line as int].len()) + seq!['\n']
            } else {
                seq![]
            }));
            // start.line < end.line here, as the range is ordered
            let mut idx = start.line + 1;
            assert(middle_lines(lv, (start.line + 1) as nat, idx as nat) =~= Seq::<char>::empty());
            while idx < end.line
                invariant
                    lv == lines_view(lines@),
                    start.line < idx <= end.line,
                    result@ == first + middle_lines(lv, (start.line + 1) as nat, idx as nat),
                decreases end.line - idx,
            {
                if idx < lines.len() {
                    result.append(lines[idx].as_str());
                    push_char(&mut result, '\n');
                }
                idx = idx + 1;
                assert(result@ =~= first + middle_lines(lv, (start.line + 1) as nat, idx as nat));
            }
            if end.line < lines.len() {
                push_clip(&mut result, &lines[end.line], 0, end.column);
            }
            assert(result@ =~= (text_between(lv, start, end))->0);
            Some(result)
        }
    }

    /// Whether `pos` lies inside the selection (start included, end excluded).
    pub fn contains(&self, cursor: Position, pos: Position) -> (b: bool)
        ensures
            b == match range_of(self@, cursor) {
                Some((start, end)) => pos_le(start, pos) && pos_lt(pos, end),
                None => false,
            },
    {
        match self.range(cursor) {
            Some((start, end)) => position_le(start, pos)
                && (pos.line < end.line || (pos.line == end.line && pos.column < end.column)),
            None => false,
        }
    }

    /// The column range selected on one line, if the line is in the selection.
    pub fn line_range(&self, cursor: Position, line_idx: usize, line_len: usize) -> (r: Option<(usize, usize)>)
        ensures
            match range_of(self@, cursor) {
                Some((start, end)) => if line_idx < start.line || line_idx > end.line {
                    r is None
                } else {
                    r == Some((
                        if line_idx == start.line { start.column } else { 0usize },
                        if line_idx == end.line { end.column } else { line_len },
                    ))
                },
                None => r is None,
            },
    {
        let (start, end) = match self.range(cursor) {
            Some(p) => p,
            None => return None,
        };
        if line_idx < start.line || line_idx > end.line {
            return None;
        }
        let sel_start = if line_idx == start.line { start.column } else { 0 };
        let sel_end = if line_idx == end.line { end.column } else { line_len };
        Some((sel_start, sel_end))
    }
}

impl Default for Selection {
    fn default() -> (s: Self)
        ensures
            s@ is None,
    {
        Selection::new()
    }
}

/// Lines each followed by a newline, one after the other.
pub open spec fn lines_with_breaks(ls: Seq<Seq<char>>) -> Seq<char>
    decreases ls.len(),
{
    if ls.len() == 0 { seq![] } else { ls[0] + seq!['\n'] + lines_with_breaks(ls.drop_first()) }
}

proof fn lemma_lines_with_breaks_push(ls: Seq<Seq<char>>, l: Seq<char>)
    ensures
        lines_with_breaks(ls.push(l)) == lines_with_breaks(ls) + l + seq!['\n'],
    decreases ls.len(),
{
    if ls.len() == 0 {
        assert(ls.push(l).drop_first() =~= Seq::<Seq<char>>::empty());
        assert(lines_with_breaks(Seq::<Seq<char>>::empty()) =~= Seq::<char>::empty());
        assert(ls.push(l)[0] == l);
        assert(lines_with_breaks(ls.push(l)) =~= l + seq!['\n'] + Seq::<char>::empty());
        assert(lines_with_breaks(ls) =~= Seq::<char>::empty());
    } else {
        assert(ls.push(l).drop_first() =~= ls.drop_first().push(l));
        lemma_lines_with_breaks_push(ls.drop_first(), l);
        assert(lines_with_breaks(ls.push(l)) =~= lines_with_breaks(ls) + l + seq!['\n']);
    }
}

proof fn lemma_middle_lines(lines: Seq<Seq<char>>, from: nat, to: nat)
    requires
        from <= to <= lines.len(),
    ensures
        middle_lines(lines, from, to) == lines_with_breaks(lines.subrange(from as int, to as int)),
    decreases to,
{
    if to == from {
        assert(lines.subrange(from as int, to as int) =~= Seq::<Seq<char>>::empty());
    } else {
        lemma_middle_lines(lines, from, (to - 1) as nat);
        assert(lines.subrange(from as int, to as int)
            =~= lines.subrange(from as int, to - 1).push(lines[to - 1]));
        lemma_lines_with_breaks_push(lines.subrange(from as int, to - 1), lines[to - 1]);
    }
}

/// Law: the text of a selection is the text between its ends. Within one
/// line it is the characters between the two columns; over several lines
/// it is the rest of the first line and a newline, every line in between
/// whole with a newline after each, and the last line up to the end
/// column.
pub proof fn law_selected_text_spans_lines(lines: Seq<Seq<char>>, start: Position, end: Position)
    requires
        pos_le(start, end),
        end.line < lines.len(),
        start.column <= lines[start.line as int].len(),
        end.column <= lines[end.line as int].len(),
    ensures
        start.line == end.line ==> text_between(lines, start, end)
            == Some(lines[start.line as int].subrange(start.column as int, end.column as int)),
        start.line < end.line ==> text_between(lines, start, end) == Some(
            lines[start.line as int].skip(start.column as int) + seq!['\n']
                + lines_with_breaks(lines.subrange(start.line + 1, end.line as int))
                + lines[end.line as int].take(end.column as int)),
{
    if start.line < end.line {
        lemma_middle_lines(lines, (start.line + 1) as nat, end.line as nat);
        let l0 = lines[start.line as int];
        let l1 = lines[end.line as int];
        assert(clip(l0, start.column as nat, l0.len()) =~= l0.skip(start.column as int));
        assert(clip(l1, 0, end.column as nat) =~= l1.take(end.column as int));
    }
}

} // verus!
