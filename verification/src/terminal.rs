//! Pseudo-terminal sizes and screens: the resizes a terminal takes, the
//! size a panel gives it, the colors of its cells and the text of its
//! screen. The terminal itself (the process, its input and output) is the
//! caller's.

use vstd::prelude::*;
use crate::text::{concat, owned, push_char, trailing_ws, trim_end};

verus! {

/// The narrowest terminal.
pub const MIN_COLS: u16 = 10;

/// The lowest terminal.
pub const MIN_ROWS: u16 = 3;

/// The size of a pseudo-terminal.
#[derive(Debug, Clone, Copy, PartialEq, Eq, Structural)]
pub struct TermSize {
    pub cols: u16,
    pub rows: u16,
}

impl TermSize {
    /// A terminal of `cols` by `rows`.
    pub fn new(cols: u16, rows: u16) -> (s: Self)
        ensures
            s == (TermSize { cols, rows }),
    {
        TermSize { cols, rows }
    }

    /// The size as `(cols, rows)`.
    pub fn size(&self) -> (r: (u16, u16))
        ensures
            r == (self.cols, self.rows),
    {
        (self.cols, self.rows)
    }

    /// Resize to `cols` by `rows`, at least `MIN_COLS` by `MIN_ROWS`;
    /// returns whether the terminal has to be resized (nothing changes
    /// when the size is the current one).
    pub fn resize(&mut self, cols: u16, rows: u16) -> (changed: bool)
        ensures
            changed == !(old(self).cols == cols && old(self).rows == rows),
            !changed ==> *final(self) == *old(self),
            changed ==> *final(self) == (TermSize {
                cols: if cols >= MIN_COLS { cols } else { MIN_COLS },
                rows: if rows >= MIN_ROWS { rows } else { MIN_ROWS },
            }),
    {
        if self.cols == cols && self.rows == rows {
            return false;
        }
        self.cols = if cols >= MIN_COLS { cols } else { MIN_COLS };
        self.rows = if rows >= MIN_ROWS { rows } else { MIN_ROWS };
        true
    }
}

/// The terminal size for a panel of `cols` by `rows`: inside its borders,
/// at least one cell each way.
pub fn panel_terminal_size(cols: u16, rows: u16) -> (s: (u16, u16))
    ensures
        s.0 == (if cols >= 3 { cols - 2 } else { 1 }),
        s.1 == (if rows >= 3 { rows - 2 } else { 1 }),
{
    let c: u16 = if cols >= 2 { cols - 2 } else { 0 };
    let r: u16 = if rows >= 2 { rows - 2 } else { 0 };
    (if c >= 1 { c } else { 1 }, if r >= 1 { r } else { 1 })
}

/// A terminal cell's color as the emulator reports it.
#[derive(Debug, Clone, Copy, PartialEq, Eq, Structural)]
pub enum TermColor {
    Default,
    Idx(u8),
    Rgb(u8, u8, u8),
}

/// A color to draw with.
#[derive(Debug, Clone, Copy, PartialEq, Eq, Structural)]
pub enum CellColor {
    Reset,
    Black,
    Red,
    Green,
    Yellow,
    Blue,
    Magenta,
    Cyan,
    Gray,
    DarkGray,
    LightRed,
    LightGreen,
    LightYellow,
    LightBlue,
    LightMagenta,
    LightCyan,
    White,
    Indexed(u8),
    Rgb(u8, u8, u8),
}

/// The color of a cell: the default as the reset color, the sixteen
/// basic indices as the named colors, other indices and RGB as they are.
pub open spec fn cell_color(c: TermColor) -> CellColor {
    match c {
        TermColor::Default => CellColor::Reset,
        TermColor::Idx(n) =>
            if n == 0 { CellColor::Black }
            else if n == 1 { CellColor::Red }
            else if n == 2 { CellColor::Green }
            else if n == 3 { CellColor::Yellow }
            else if n == 4 { CellColor::Blue }
            else if n == 5 { CellColor::Magenta }
            else if n == 6 { CellColor::Cyan }
            else if n == 7 { CellColor::Gray }
            else if n == 8 { CellColor::DarkGray }
            else if n == 9 { CellColor::LightRed }
            else if n == 10 { CellColor::LightGreen }
            else if n == 11 { CellColor::LightYellow }
            else if n == 12 { CellColor::LightBlue }
            else if n == 13 { CellColor::LightMagenta }
            else if n == 14 { CellColor::LightCyan }
            else if n == 15 { CellColor::White }
            else { CellColor::Indexed(n) },
        TermColor::Rgb(r, g, b) => CellColor::Rgb(r, g, b),
    }
}

/// The color to draw a cell's color with.
pub fn vt100_color_to_ratatui(color: TermColor) -> (c: CellColor)
    ensures
        c == cell_color(color),
{
    match color {
        TermColor::Default => CellColor::Reset,
        TermColor::Idx(n) => {
            if n == 0 { CellColor::Black }
            else if n == 1 { CellColor::Red }
            else if n == 2 { CellColor::Green }
            else if n == 3 { CellColor::Yellow }
            else if n == 4 { CellColor::Blue }
            else if n == 5 { CellColor::Magenta }
            else if n == 6 { CellColor::Cyan }
            else if n == 7 { CellColor::Gray }
            else if n == 8 { CellColor::DarkGray }
            else if n == 9 { CellColor::LightRed }
            else if n == 10 { CellColor::LightGreen }
            else if n == 11 { CellColor::LightYellow }
            else if n == 12 { CellColor::LightBlue }
            else if n == 13 { CellColor::LightMagenta }
            else if n == 14 { CellColor::LightCyan }
            else if n == 15 { CellColor::White }
            else { CellColor::Indexed(n) }
        }
        TermColor::Rgb(r, g, b) => CellColor::Rgb(r, g, b),
    }
}

/// A cell's text, a space for an empty cell.
pub open spec fn cell_text(c: Seq<char>) -> Seq<char> {
    if c.len() == 0 { seq![' '] } else { c }
}

/// A row of cells as text.
pub open spec fn row_text(cells: Seq<Seq<char>>) -> Seq<char>
    decreases cells.len(),
{
    if cells.len() == 0 { seq![] } else { row_text(cells.drop_last()) + cell_text(cells.last()) }
}

/// The rows of a screen, each followed by a newline.
pub open spec fn screen_rows_text(rows: Seq<Seq<Seq<char>>>) -> Seq<char>
    decreases rows.len(),
{
    if rows.len() == 0 { seq![] } else { screen_rows_text(rows.drop_last()) + row_text(rows.last()) + seq!['\n'] }
}

/// The values of a screen's cell texts.
pub open spec fn screen_view(rows: Seq<Vec<String>>) -> Seq<Seq<Seq<char>>> {
    rows.map_values(|r: Vec<String>| r@.map_values(|c: String| c@))
}

/// The text of a screen: its rows (cells that are empty as spaces), each
/// ended by a newline, without trailing whitespace.
pub fn screen_text(rows: &Vec<Vec<String>>) -> (t: String)
    ensures
        ({
            let all = screen_rows_text(screen_view(rows@));
            t@ == all.take(all.len() - trailing_ws(all))
        }),
{
    let mut out = String::new();
    let mut i: usize = 0;
    while i < rows.len()
        invariant
            i <= rows@.len(),
            out@ == screen_rows_text(screen_view(rows@.take(i as int))),
        decreases rows@.len() - i,
    {
        let row = &rows[i];
        let ghost before = out@;
        let mut j: usize = 0;
        while j < row.len()
            invariant
                j <= row@.len(),
                out@ == before + row_text(row@.take(j as int).map_values(|c: String| c@)),
            decreases row@.len() - j,
        {
            assert(row@.take(j + 1).map_values(|c: String| c@).drop_last() =~= row@.take(j as int).map_values(|c: String| c@));
            if row[j].as_str().as_bytes().len() == 0 {
                proof {
                    if row@[j as int]@.len() > 0 {
                        assert(vstd::utf8::encode_utf8(row@[j as int]@).len() > 0);
                    }
                }
                push_char(&mut out, ' ');
            } else {
                proof {
                    if row@[j as int]@.len() == 0 {
                        assert(vstd::utf8::encode_utf8(row@[j as int]@) =~= Seq::<u8>::empty());
                    }
                }
                out = concat(out.as_str(), row[j].as_str());
            }
            assert(out@ =~= before + row_text(row@.take(j + 1).map_values(|c: String| c@)));
            j = j + 1;
        }
        assert(row@.take(row@.len() as int) =~= row@);
        push_char(&mut out, '\n');
        proof {
            assert(screen_view(rows@.take(i + 1)).drop_last() =~= screen_view(rows@.take(i as int)));
            assert(screen_view(rows@.take(i + 1)).last() == row@.map_values(|c: String| c@));
        }
        i = i + 1;
    }
    assert(rows@.take(rows@.len() as int) =~= rows@);
    trim_end(out.as_str())
}

} // verus!
