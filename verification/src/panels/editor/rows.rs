//! The rows the editor shows: for each visible line its change marker, its
//! number and its text, the highlighted pieces split where the selection
//! begins and ends.

use vstd::prelude::*;
use super::buffer::{FileTab, tab_name};
use super::diff::{LineChange, line_change_of};
use super::highlight::{SpanStyle, pieces_view, piece_texts};
use super::selection::{Position, range_of};
use crate::text::{decimal, u64_to_string, chars_of, string_from_chars, owned, push_char};
use crate::ui::layout::Rect;
use crate::ui::markdown::{blen, byte_len};
use crate::ui::scroll::ScrollBar;

verus! {

/// A piece of a row's text: its text, its highlight style and whether it is
/// selected. Selected pieces are drawn on the selection's background, the
/// others on the background of the line's change.
#[derive(Debug, Clone)]
pub struct RowPiece {
    pub text: String,
    pub style: SpanStyle,
    pub selected: bool,
}

/// The text of a row: highlighted pieces, or the line as it is when it has
/// not been highlighted.
#[derive(Debug, Clone)]
pub enum RowText {
    Highlighted(Vec<RowPiece>),
    Plain(String),
}

/// One row of the editor.
#[derive(Debug, Clone)]
pub struct EditorRow {
    /// The index of the line shown.
    pub line: usize,
    /// The line's change since diff tracking started.
    pub change: LineChange,
    /// The change marker in the gutter.
    pub gutter: char,
    /// The line's number, right-aligned to the widest number, and a space.
    pub number: String,
    pub text: RowText,
}

/// A piece of a row as text, style and whether it is selected.
pub type PieceV = (Seq<char>, SpanStyle, bool);

/// The values of a row's pieces.
pub open spec fn row_pieces_view(v: Seq<RowPiece>) -> Seq<PieceV> {
    v.map_values(|p: RowPiece| (p.text@, p.style, p.selected))
}

/// `a - b`, or 0 when `b` is the larger.
pub open spec fn sat_diff(a: int, b: int) -> int {
    if a > b { a - b } else { 0 }
}

/// The smaller of `a` and `b`.
pub open spec fn smaller(a: int, b: int) -> int {
    if a <= b { a } else { b }
}

/// The parts of a span with text `t` and style `st` starting at column
/// `a`, split at the selected columns `sel` (start included, end
/// excluded): the part before the selection, the selected part and the
/// part after it, each where it is not empty; the whole span, unselected,
/// when it does not meet the selection.
pub open spec fn split_span(t: Seq<char>, st: SpanStyle, a: int, sel: Option<(usize, usize)>) -> Seq<PieceV> {
    let n = t.len() as int;
    match sel {
        Some((s, e)) => if a + n > s && a < e {
            let before: Seq<PieceV> = if a < s { seq![(t.take(smaller(s - a, n)), st, false)] } else { seq![] };
            let ls = sat_diff(s as int, a);
            let le = smaller(e - a, n);
            let mid: Seq<PieceV> = if ls < n && le > ls { seq![(t.subrange(ls, le), st, true)] } else { seq![] };
            let after: Seq<PieceV> = if a + n > e && sat_diff(e as int, a) < n {
                seq![(t.skip(sat_diff(e as int, a)), st, false)]
            } else {
                seq![]
            };
            before + mid + after
        } else {
            seq![(t, st, false)]
        },
        None => seq![(t, st, false)],
    }
}

/// The pieces of a highlighted line's spans, in order, each span split at
/// the selection; a span starts at the column where the ones before it end.
pub open spec fn split_spans(spans: Seq<(Seq<char>, SpanStyle)>, sel: Option<(usize, usize)>) -> Seq<PieceV>
    decreases spans.len(),
{
    if spans.len() == 0 {
        seq![]
    } else {
        let d = spans.drop_last();
        split_spans(d, sel) + split_span(spans.last().0, spans.last().1, piece_texts(d).len() as int, sel)
    }
}

/// The texts of pieces, one after the other.
pub open spec fn row_texts(p: Seq<PieceV>) -> Seq<char>
    decreases p.len(),
{
    if p.len() == 0 { seq![] } else { row_texts(p.drop_last()) + p.last().0 }
}

/// The selected columns of line `idx` of a tab: from the selection's start
/// (or the line's start) to its end (or the line's end), when the line is
/// in the selection.
pub open spec fn line_selection(tab: FileTab, idx: int) -> Option<(usize, usize)> {
    match range_of(tab.selection@, Position { line: tab.cursor.0, column: tab.cursor.1 }) {
        Some((start, end)) => if idx < start.line || idx > end.line {
            None
        } else {
            Some((
                if idx == start.line { start.column } else { 0usize },
                if idx == end.line { end.column } else { tab.lines@[idx]@.len() as usize },
            ))
        },
        None => None,
    }
}

/// `k` spaces.
pub open spec fn spaces(k: nat) -> Seq<char> {
    Seq::new(k, |i: int| ' ')
}

/// The number shown for line `idx` of `count` lines: `idx + 1`,
/// right-aligned to the width of `count`, and a space.
pub open spec fn number_text(idx: nat, count: nat) -> Seq<char> {
    let d = decimal(idx + 1);
    let w = decimal(count).len();
    (if d.len() < w { spaces((w - d.len()) as nat) } else { seq![] }) + d + seq![' ']
}

/// The gutter marker of a change.
pub open spec fn gutter_of(c: LineChange) -> char {
    match c {
        LineChange::Added => '+',
        LineChange::Removed => '-',
        LineChange::Modified => '~',
        LineChange::Unchanged => ' ',
    }
}

/// How many rows show lines from `top` on, `height` rows at most.
pub open spec fn row_count(len: nat, top: nat, height: nat) -> nat {
    if top >= len { 0 } else if len - top < height { (len - top) as nat } else { height }
}

/// Row `r` shows line `idx` of `tab`, the highlighted lines being `hl`.
pub open spec fn shows_line(r: EditorRow, tab: FileTab, hl: Seq<Vec<(String, SpanStyle)>>, idx: int) -> bool {
    &&& r.line == idx
    &&& r.change == line_change_of(tab.diff_tracker@, idx)
    &&& r.gutter == gutter_of(r.change)
    &&& r.number@ == number_text(idx as nat, tab.lines@.len())
    &&& match r.text {
        RowText::Highlighted(ps) => idx < hl.len()
            && row_pieces_view(ps@) == split_spans(pieces_view(hl[idx]@), line_selection(tab, idx)),
        RowText::Plain(s) => idx >= hl.len() && s@ == tab.lines@[idx]@,
    }
}

/// A line's highlighted pieces are few enough to count their columns.
pub open spec fn countable(hl: Seq<Vec<(String, SpanStyle)>>) -> bool {
    forall|i: int| 0 <= i < hl.len() ==> piece_texts(pieces_view(#[trigger] hl[i]@)).len() <= usize::MAX
}

/// The label of a tab on the tab bar: its name and `*` when it is modified,
/// between spaces.
pub open spec fn tab_label(t: FileTab) -> Seq<char> {
    " "@ + tab_name(t) + (if t.modified { "*"@ } else { ""@ }) + " "@
}

/// The values of labels.
pub open spec fn labels_view(v: Seq<String>) -> Seq<Seq<char>> {
    v.map_values(|s: String| s@)
}

/// The column where tab `i` starts on a tab bar starting at column `left`:
/// each tab before it takes its label's bytes and a column for the divider.
pub open spec fn tab_start(labels: Seq<Seq<char>>, left: int, i: int) -> int
    decreases i,
{
    if i <= 0 || i > labels.len() { left } else { tab_start(labels, left, i - 1) + blen(labels[i - 1]) + 1 }
}

/// Tab `i`'s cell holds column `x`.
pub open spec fn tab_covers(labels: Seq<Seq<char>>, left: int, x: int, i: int) -> bool {
    tab_start(labels, left, i) <= x < tab_start(labels, left, i) + blen(labels[i]) + 1
}

/// The first tab from `i` on whose cell holds column `x`.
pub open spec fn covering_tab(labels: Seq<Seq<char>>, left: int, x: int, i: int) -> Option<usize>
    decreases labels.len() - i,
{
    if i < 0 || i >= labels.len() {
        None
    } else if tab_covers(labels, left, x, i) {
        Some(i as usize)
    } else {
        covering_tab(labels, left, x, i + 1)
    }
}

/// Tabs start at or after the bar's start.
proof fn lemma_tab_start_from_left(labels: Seq<Seq<char>>, left: int, i: int)
    ensures
        tab_start(labels, left, i) >= left,
    decreases i,
{
    if i > 0 && i <= labels.len() {
        lemma_tab_start_from_left(labels, left, i - 1);
    }
}

/// No tab from `i` on holds a column before tab `i`'s start.
proof fn lemma_none_before(labels: Seq<Seq<char>>, left: int, x: int, i: int)
    requires
        0 <= i <= labels.len(),
        x < tab_start(labels, left, i),
    ensures
        covering_tab(labels, left, x, i) is None,
    decreases labels.len() - i,
{
    if i < labels.len() {
        lemma_none_before(labels, left, x, i + 1);
    }
}

/// The tab of the tab bar starting at column `left` whose cell holds column
/// `x`, if any.
pub fn tab_at_column(labels: &Vec<String>, left: u16, x: u16) -> (r: Option<usize>)
    ensures
        r == covering_tab(labels_view(labels@), left as int, x as int, 0),
{
    let ghost ls = labels_view(labels@);
    if x < left {
        proof { lemma_none_before(ls, left as int, x as int, 0); }
        return None;
    }
    let mut start: usize = left as usize;
    let mut i: usize = 0;
    while i < labels.len()
        invariant
            ls == labels_view(labels@),
            i <= labels@.len(),
            start == tab_start(ls, left as int, i as int),
            start <= x,
            covering_tab(ls, left as int, x as int, 0) == covering_tab(ls, left as int, x as int, i as int),
        decreases labels@.len() - i,
    {
        let w = byte_len(labels[i].as_str());
        assert(ls[i as int] == labels@[i as int]@);
        if (x as usize) - start <= w {
            return Some(i);
        }
        start = start + w + 1;
        i = i + 1;
    }
    None
}

/// What a left click on the editor does.
#[derive(Debug, Clone, Copy, PartialEq, Eq, Structural)]
pub enum EditorClick {
    /// On the scroll bar's arrow: scroll to the last line.
    ScrollToBottom,
    /// On the scroll bar's track above the thumb.
    PageUp,
    /// On the scroll bar's track below the thumb.
    PageDown,
    /// On a tab of the tab bar.
    Tab(usize),
    /// Elsewhere.
    Nothing,
}

/// The area fits on the screen and has a column.
pub open spec fn fits(area: Rect) -> bool {
    1 <= area.width && area.x + area.width <= u16::MAX && area.y + area.height <= u16::MAX
}

/// The areas a click at `(x, y)` is held against fit on the screen where
/// they are looked at: the text area when its scroll bar is shown, a row of
/// its bar's track at or below its top, the tab bar when the click is at or
/// after its start on its row.
pub open spec fn click_fits(bar: ScrollBar, x: u16, y: u16, content: Rect, tab_bar: Rect) -> bool {
    &&& bar.scrollable && content.height >= 3 ==> fits(content)
    &&& bar.scrollable && content.height >= 3 && x == content.x + content.width - 1
        && y < content.y + content.height - 1 ==> y >= content.y
    &&& y == tab_bar.y && x >= tab_bar.x ==> tab_bar.x + tab_bar.width <= u16::MAX
}

/// What a left click at `(x, y)` does: the scroll bar of the text area
/// `content` first (its arrow, then its track, the thumb covering rows
/// `thumb_pos` to `thumb_pos + thumb_size`), then the tab bar `tab_bar`
/// with the tabs labelled `labels`.
pub open spec fn click_of(bar: ScrollBar, x: u16, y: u16, content: Rect, tab_bar: Rect, labels: Seq<Seq<char>>,
    thumb_pos: usize, thumb_size: usize) -> EditorClick {
    let on_bar = bar.scrollable && content.height >= 3 && x == content.x + content.width - 1;
    if on_bar && y == content.y + content.height - 1 {
        EditorClick::ScrollToBottom
    } else if on_bar && y < content.y + content.height - 1 && ((y - content.y) as int) < thumb_pos {
        EditorClick::PageUp
    } else if on_bar && y < content.y + content.height - 1 && ((y - content.y) as int) >= thumb_pos + thumb_size {
        EditorClick::PageDown
    } else if y == tab_bar.y && tab_bar.x <= x < tab_bar.x + tab_bar.width {
        match covering_tab(labels, tab_bar.x as int, x as int, 0) {
            Some(i) => EditorClick::Tab(i),
            None => EditorClick::Nothing,
        }
    } else {
        EditorClick::Nothing
    }
}

/// What a left click at `(x, y)` on the editor does.
pub fn click_target(bar: ScrollBar, x: u16, y: u16, content: Rect, tab_bar: Rect, labels: &Vec<String>,
    thumb_pos: usize, thumb_size: usize) -> (c: EditorClick)
    requires
        click_fits(bar, x, y, content, tab_bar),
        thumb_pos + thumb_size <= usize::MAX,
    ensures
        c == click_of(bar, x, y, content, tab_bar, labels_view(labels@), thumb_pos, thumb_size),
{
    if bar.is_arrow_click(x, y, content) {
        return EditorClick::ScrollToBottom;
    }
    match bar.track_click(x, y, content, thumb_pos, thumb_size) {
        Some(true) => return EditorClick::PageUp,
        Some(false) => return EditorClick::PageDown,
        None => {}
    }
    if y == tab_bar.y && x >= tab_bar.x && x < tab_bar.x + tab_bar.width {
        match tab_at_column(labels, tab_bar.x, x) {
            Some(i) => EditorClick::Tab(i),
            None => EditorClick::Nothing,
        }
    } else {
        EditorClick::Nothing
    }
}

/// Append the parts of a span starting at column `a`, split at `sel`.
fn push_split_span(out: &mut Vec<RowPiece>, text: &String, style: SpanStyle, a: usize, sel: Option<(usize, usize)>)
    requires
        a + text@.len() <= usize::MAX,
    ensures
        row_pieces_view(final(out)@) == row_pieces_view(old(out)@) + split_span(text@, style, a as int, sel),
{
    let n = text.unicode_len();
    let b = a + n;
    let ghost t = text@;
    let ghost o = row_pieces_view(out@);
    let (s, e, meets) = match sel {
        Some((s, e)) => (s, e, b > s && a < e),
        None => (0, 0, false),
    };
    if meets {
        let chars = chars_of(text.as_str());
        let ghost mut added: Seq<PieceV> = seq![];
        if a < s {
            let k = if s - a < n { s - a } else { n };
            out.push(RowPiece { text: string_from_chars(&chars, 0, k), style, selected: false });
            proof { added = added.push((t.take(k as int), style, false)); }
        }
        let ls = if s > a { s - a } else { 0 };
        let le = if e - a < n { e - a } else { n };
        if ls < n && le > ls {
            out.push(RowPiece { text: string_from_chars(&chars, ls, le), style, selected: true });
            proof { added = added.push((t.subrange(ls as int, le as int), style, true)); }
        }
        if b > e {
            let st = if e > a { e - a } else { 0 };
            if st < n {
                out.push(RowPiece { text: string_from_chars(&chars, st, n), style, selected: false });
                proof {
                    assert(t.subrange(st as int, n as int) =~= t.skip(st as int));
                    added = added.push((t.skip(st as int), style, false));
                }
            }
        }
        assert(row_pieces_view(out@) =~= o + added);
        assert(added =~= split_span(t, style, a as int, sel));
    } else {
        out.push(RowPiece { text: owned(text.as_str()), style, selected: false });
        assert(row_pieces_view(out@) =~= o + seq![(t, style, false)]);
    }
}

/// The pieces of a highlighted line, split at the selected columns `sel`.
pub fn split_at_selection(spans: &Vec<(String, SpanStyle)>, sel: Option<(usize, usize)>) -> (r: Vec<RowPiece>)
    requires
        piece_texts(pieces_view(spans@)).len() <= usize::MAX,
    ensures
        row_pieces_view(r@) == split_spans(pieces_view(spans@), sel),
{
    let ghost sv = pieces_view(spans@);
    let mut r: Vec<RowPiece> = Vec::new();
    let mut pos: usize = 0;
    let mut i: usize = 0;
    while i < spans.len()
        invariant
            sv == pieces_view(spans@),
            piece_texts(sv).len() <= usize::MAX,
            i <= spans@.len(),
            pos == piece_texts(sv.take(i as int)).len(),
            row_pieces_view(r@) == split_spans(sv.take(i as int), sel),
        decreases spans@.len() - i,
    {
        let ghost pre = sv.take(i as int);
        let ghost next = sv.take(i + 1);
        assert(next.drop_last() =~= pre);
        proof { lemma_texts_prefix(sv, i + 1); }
        push_split_span(&mut r, &spans[i].0, spans[i].1, pos, sel);
        pos = pos + spans[i].0.unicode_len();
        i = i + 1;
    }
    assert(sv.take(spans@.len() as int) =~= sv);
    r
}

/// A prefix of the pieces has no more text than all of them.
proof fn lemma_texts_prefix(sv: Seq<(Seq<char>, SpanStyle)>, k: int)
    requires
        0 <= k <= sv.len(),
    ensures
        piece_texts(sv.take(k)).len() <= piece_texts(sv).len(),
    decreases sv.len() - k,
{
    if k < sv.len() {
        lemma_texts_prefix(sv, k + 1);
        assert(sv.take(k + 1).drop_last() =~= sv.take(k));
    } else {
        assert(sv.take(k) =~= sv);
    }
}

/// The width of the line numbers' column and the space around it: the
/// digits of `count`, and two.
pub fn gutter_width(count: usize) -> (w: usize)
    ensures
        w == decimal(count as nat).len() + 2,
{
    let d = u64_to_string(count as u64);
    proof { lemma_decimal_short(count as nat); }
    d.unicode_len() + 2
}

/// A number has few digits: at most half the number and one.
proof fn lemma_decimal_short(n: nat)
    ensures
        decimal(n).len() <= n / 2 + 1,
    decreases n,
{
    if n >= 10 {
        lemma_decimal_short(n / 10);
        assert((n / 10) / 2 + 2 <= n / 2 + 1) by (nonlinear_arith)
            requires n >= 10;
    }
}

/// The number shown for line `idx` of `count` lines.
pub(crate) fn number_of(idx: usize, count: usize) -> (r: String)
    requires
        idx < count,
    ensures
        r@ == number_text(idx as nat, count as nat),
{
    let d = u64_to_string((idx + 1) as u64);
    let w = u64_to_string(count as u64).unicode_len();
    let dl = d.unicode_len();
    let mut r = String::new();
    let mut k: usize = dl;
    while k < w
        invariant
            dl <= k <= w || (w < dl && k == dl),
            r@ == spaces((k - dl) as nat),
        decreases w - k,
    {
        push_char(&mut r, ' ');
        proof { assert(r@ =~= spaces((k + 1 - dl) as nat)); }
        k = k + 1;
    }
    let ghost pad = r@;
    proof {
        if !(dl < w) {
            assert(pad =~= Seq::<char>::empty());
        }
    }
    r.append(d.as_str());
    push_char(&mut r, ' ');
    r
}

/// The rows shown from line `top` (the tab's vertical scroll) on, `height`
/// rows at most: for each line its change and marker, its number, and its
/// highlighted pieces (from `hl`, split at the selection) or, when it has
/// none, its text.
pub fn editor_rows(tab: &FileTab, hl: &Vec<Vec<(String, SpanStyle)>>, height: usize) -> (rows: Vec<EditorRow>)
    requires
        countable(hl@),
    ensures
        rows@.len() == row_count(tab.lines@.len(), tab.scroll.0 as nat, height as nat),
        forall|k: int| 0 <= k < rows@.len() ==> shows_line(#[trigger] rows@[k], *tab, hl@, tab.scroll.0 + k),
{
    let top = tab.scroll.0;
    let count = tab.lines.len();
    let cursor = Position::new(tab.cursor.0, tab.cursor.1);
    let ghost n = row_count(count as nat, top as nat, height as nat);
    let mut rows: Vec<EditorRow> = Vec::new();
    let mut k: usize = 0;
    while k < height && top < count && k < count - top
        invariant
            top == tab.scroll.0,
            count == tab.lines@.len(),
            cursor == (Position { line: tab.cursor.0, column: tab.cursor.1 }),
            countable(hl@),
            n == row_count(count as nat, top as nat, height as nat),
            k <= n,
            rows@.len() == k,
            forall|j: int| 0 <= j < k ==> shows_line(#[trigger] rows@[j], *tab, hl@, top + j),
        decreases height - k,
    {
        let idx = top + k;
        let change = tab.diff_tracker.get_line_change(idx);
        let gutter = change.gutter_char();
        let number = number_of(idx, count);
        let line = &tab.lines[idx];
        let text = if idx < hl.len() {
            let sel = tab.selection.line_range(cursor, idx, line.unicode_len());
            assert(sel == line_selection(*tab, idx as int));
            assert(piece_texts(pieces_view(hl@[idx as int]@)).len() <= usize::MAX);
            RowText::Highlighted(split_at_selection(&hl[idx], sel))
        } else {
            RowText::Plain(owned(line.as_str()))
        };
        let row = EditorRow { line: idx, change, gutter, number, text };
        assert(shows_line(row, *tab, hl@, top + k));
        rows.push(row);
        k = k + 1;
    }
    rows
}

/// The pieces of a span keep its text when the selection does not end
/// before it starts: before, selected and after, one after the other, are
/// the span's text.
proof fn lemma_split_span_text(t: Seq<char>, st: SpanStyle, a: int, sel: Option<(usize, usize)>)
    requires
        a >= 0,
        sel matches Some((s, e)) ==> s <= e,
    ensures
        row_texts(split_span(t, st, a, sel)) == t,
{
    let p = split_span(t, st, a, sel);
    let n = t.len() as int;
    match sel {
        Some((s, e)) => if a + n > s && a < e {
            let s = s as int;
            let e = e as int;
            lemma_row_texts_three(p);
            if a < s {
                if e > s {
                    if a + n > e {
                        assert(p =~= seq![(t.take(s - a), st, false), (t.subrange(s - a, e - a), st, true), (t.skip(e - a), st, false)]);
                        assert(t.take(s - a) + t.subrange(s - a, e - a) + t.skip(e - a) =~= t);
                    } else {
                        assert(p =~= seq![(t.take(s - a), st, false), (t.subrange(s - a, n), st, true)]);
                        assert(t.take(s - a) + t.subrange(s - a, n) =~= t);
                    }
                } else {
                    assert(p =~= seq![(t.take(s - a), st, false), (t.skip(s - a), st, false)]);
                    assert(t.take(s - a) + t.skip(s - a) =~= t);
                }
            } else if n == 0 {
                assert(p =~= Seq::<PieceV>::empty());
                assert(t =~= Seq::<char>::empty());
            } else if a + n > e {
                assert(p =~= seq![(t.subrange(0, e - a), st, true), (t.skip(e - a), st, false)]);
                assert(t.subrange(0, e - a) + t.skip(e - a) =~= t);
            } else {
                assert(p =~= seq![(t.subrange(0, n), st, true)]);
                assert(t.subrange(0, n) =~= t);
            }
        } else {
            lemma_row_texts_one(t, st, false);
        },
        None => lemma_row_texts_one(t, st, false),
    }
}

/// The text of a single piece is its text.
proof fn lemma_row_texts_one(t: Seq<char>, st: SpanStyle, b: bool)
    ensures
        row_texts(seq![(t, st, b)]) == t,
{
    let p = seq![(t, st, b)];
    assert(p.drop_last() =~= Seq::<PieceV>::empty());
    assert(row_texts(p.drop_last()) == Seq::<char>::empty());
    assert(Seq::<char>::empty() + t =~= t);
}

/// The texts of pieces joined is the texts of two parts joined.
proof fn lemma_row_texts_append(p: Seq<PieceV>, q: Seq<PieceV>)
    ensures
        row_texts(p + q) == row_texts(p) + row_texts(q),
    decreases q.len(),
{
    if q.len() == 0 {
        assert(p + q =~= p);
        assert(row_texts(p) + Seq::<char>::empty() =~= row_texts(p));
    } else {
        lemma_row_texts_append(p, q.drop_last());
        assert((p + q).drop_last() =~= p + q.drop_last());
        assert(row_texts(p) + row_texts(q.drop_last()) + q.last().0 =~= row_texts(p) + (row_texts(q.drop_last()) + q.last().0));
    }
}

/// The texts of up to three single pieces.
proof fn lemma_row_texts_three(p: Seq<PieceV>)
    requires
        p.len() <= 3,
    ensures
        p.len() == 0 ==> row_texts(p) == Seq::<char>::empty(),
        p.len() == 1 ==> row_texts(p) == p[0].0,
        p.len() == 2 ==> row_texts(p) == p[0].0 + p[1].0,
        p.len() == 3 ==> row_texts(p) == p[0].0 + p[1].0 + p[2].0,
{
    if p.len() >= 1 {
        lemma_row_texts_one(p[0].0, p[0].1, p[0].2);
        assert(p.take(1) =~= seq![p[0]]);
    }
    if p.len() >= 2 {
        assert(p.take(2).drop_last() =~= p.take(1));
        assert(row_texts(p.take(2)) == p[0].0 + p[1].0);
        if p.len() == 2 { assert(p.take(2) =~= p); }
    }
    if p.len() == 3 {
        assert(p.take(3).drop_last() =~= p.take(2));
        assert(p.take(3) =~= p);
    }
    if p.len() == 1 { assert(p.take(1) =~= p); }
}

/// A row keeps the text of its line: the pieces of the highlighted spans,
/// split at a selection that does not end before it starts, make up the
/// spans' texts, one after the other.
pub proof fn law_split_keeps_text(spans: Seq<(Seq<char>, SpanStyle)>, sel: Option<(usize, usize)>)
    requires
        sel matches Some((s, e)) ==> s <= e,
    ensures
        row_texts(split_spans(spans, sel)) == piece_texts(spans),
    decreases spans.len(),
{
    if spans.len() > 0 {
        let d = spans.drop_last();
        law_split_keeps_text(d, sel);
        lemma_row_texts_append(split_spans(d, sel), split_span(spans.last().0, spans.last().1, piece_texts(d).len() as int, sel));
        lemma_split_span_text(spans.last().0, spans.last().1, piece_texts(d).len() as int, sel);
    }
}

} // verus!
