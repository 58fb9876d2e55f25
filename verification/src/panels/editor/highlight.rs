//! Syntax highlighting of the editor's lines, by the syntax of the file's
//! extension and a color theme.

use vstd::prelude::*;
use syntect::easy::HighlightLines;
use syntect::highlighting::ThemeSet;
use syntect::parsing::SyntaxSet;
use crate::path::{extension_of, path_extension};
use crate::text::{concat, owned, push_char, lines_view};

verus! {

/// A piece of a highlighted line as the highlighter gives it: the
/// foreground color, the font style bits (1 bold, 2 underline, 4 italic)
/// and the text.
#[derive(Debug, Clone)]
pub struct RawPiece {
    pub r: u8,
    pub g: u8,
    pub b: u8,
    pub font: u8,
    pub text: String,
}

/// A color by its red, green and blue parts.
#[derive(Debug, Clone, Copy, PartialEq, Eq, Structural)]
pub struct Rgb {
    pub r: u8,
    pub g: u8,
    pub b: u8,
}

/// The style of a piece of text.
#[derive(Debug, Clone, Copy, PartialEq, Eq, Structural)]
pub struct SpanStyle {
    pub fg: Rgb,
    pub bold: bool,
    pub italic: bool,
    pub underline: bool,
}

/// The style the font bits and color of a piece give.
pub open spec fn style_of(p: RawPiece) -> SpanStyle {
    SpanStyle {
        fg: Rgb { r: p.r, g: p.g, b: p.b },
        bold: p.font % 2 == 1,
        italic: (p.font / 4) % 2 == 1,
        underline: (p.font / 2) % 2 == 1,
    }
}

/// `s` without the newlines at its end.
pub open spec fn without_newlines(s: Seq<char>) -> Seq<char>
    decreases s.len(),
{
    if s.len() > 0 && s.last() == '\n' { without_newlines(s.drop_last()) } else { s }
}

/// The styled pieces of a line: each piece's text without its trailing
/// newlines, with its style; pieces left empty are dropped.
pub open spec fn styled(raw: Seq<RawPiece>) -> Seq<(Seq<char>, SpanStyle)>
    decreases raw.len(),
{
    if raw.len() == 0 {
        seq![]
    } else {
        let rest = styled(raw.drop_last());
        let t = without_newlines(raw.last().text@);
        if t.len() == 0 { rest } else { rest.push((t, style_of(raw.last()))) }
    }
}

/// The texts of the pieces, one after the other.
pub open spec fn joined_texts(raw: Seq<RawPiece>) -> Seq<char>
    decreases raw.len(),
{
    if raw.len() == 0 { seq![] } else { joined_texts(raw.drop_last()) + raw.last().text@ }
}

/// The pieces are the styled pieces of a highlighting of `line`: pieces
/// whose texts make up `line`, or none (when the highlighter failed).
pub open spec fn styles_line(p: Seq<(Seq<char>, SpanStyle)>, line: Seq<char>) -> bool {
    exists|raw: Seq<RawPiece>| p == styled(raw) && (raw.len() == 0 || joined_texts(raw) == line)
}

/// No character of `s` is a newline.
pub open spec fn no_newline(s: Seq<char>) -> bool {
    forall|k: int| 0 <= k < s.len() ==> s[k] != '\n'
}

/// The texts of styled pieces, one after the other.
pub open spec fn piece_texts(p: Seq<(Seq<char>, SpanStyle)>) -> Seq<char>
    decreases p.len(),
{
    if p.len() == 0 { seq![] } else { piece_texts(p.drop_last()) + p.last().0 }
}

/// Pieces without newlines keep their texts whole.
proof fn lemma_styled_plain(raw: Seq<RawPiece>)
    requires
        no_newline(joined_texts(raw)),
    ensures
        piece_texts(styled(raw)) == joined_texts(raw),
    decreases raw.len(),
{
    if raw.len() > 0 {
        let d = raw.drop_last();
        let t = raw.last().text@;
        assert(no_newline(joined_texts(d))) by {
            assert forall|k: int| 0 <= k < joined_texts(d).len() implies joined_texts(d)[k] != '\n' by {
                assert(joined_texts(raw)[k] == joined_texts(d)[k]);
            }
        }
        lemma_styled_plain(d);
        if t.len() > 0 {
            assert(t.last() == joined_texts(raw)[joined_texts(raw).len() - 1]);
            assert(without_newlines(t) == t);
            let rest = styled(d);
            assert(rest.push((t, style_of(raw.last()))).drop_last() =~= rest);
        } else {
            assert(without_newlines(t) == t);
            assert(joined_texts(raw) =~= joined_texts(d));
        }
    }
}

/// The pieces of a highlighting of `line` and a newline make up `line`.
proof fn lemma_styled_line(raw: Seq<RawPiece>, line: Seq<char>)
    requires
        no_newline(line),
        joined_texts(raw) == line + seq!['\n'],
    ensures
        piece_texts(styled(raw)) == line,
    decreases raw.len(),
{
    let d = raw.drop_last();
    let t = raw.last().text@;
    let j = joined_texts(d);
    let whole = line + seq!['\n'];
    if t.len() == 0 {
        assert(joined_texts(raw) =~= j);
        assert(without_newlines(t) == t);
        lemma_styled_line(d, line);
    } else {
        assert(whole =~= j + t);
        assert(j.len() <= line.len());
        assert(j =~= line.take(j.len() as int)) by {
            assert forall|k: int| 0 <= k < j.len() implies j[k] == line.take(j.len() as int)[k] by {
                assert(whole[k] == j[k]);
            }
        }
        let y = line.skip(j.len() as int);
        assert(t =~= y + seq!['\n']) by {
            assert forall|k: int| 0 <= k < t.len() implies t[k] == (y + seq!['\n'])[k] by {
                assert(whole[j.len() + k] == t[k]);
            }
        }
        assert(no_newline(j)) by {
            assert forall|k: int| 0 <= k < j.len() implies j[k] != '\n' by {
                assert(line[k] == j[k]);
            }
        }
        lemma_styled_plain(d);
        assert(t.drop_last() =~= y);
        assert(y.len() == 0 || y.last() == line.last());
        assert(without_newlines(y) == y);
        assert(without_newlines(t) == y);
        if y.len() > 0 {
            let rest = styled(d);
            assert(rest.push((y, style_of(raw.last()))).drop_last() =~= rest);
        }
        assert(j + y =~= line);
    }
}

/// A line without a newline is highlighted whole: the texts of its styled
/// pieces, one after the other, are the line, unless the highlighter failed
/// and there are no pieces.
pub proof fn law_highlight_keeps_line(p: Seq<(Seq<char>, SpanStyle)>, line: Seq<char>)
    requires
        styles_line(p, line + "\n"@),
        no_newline(line),
    ensures
        p.len() == 0 || piece_texts(p) == line,
{
    let raw = choose|raw: Seq<RawPiece>| p == styled(raw) && (raw.len() == 0 || joined_texts(raw) == line + "\n"@);
    if raw.len() > 0 {
        reveal_strlit("\n");
        assert("\n"@ =~= seq!['\n']);
        lemma_styled_line(raw, line);
    }
}

/// The value of a list of styled pieces.
pub open spec fn pieces_view(v: Seq<(String, SpanStyle)>) -> Seq<(Seq<char>, SpanStyle)> {
    v.map_values(|p: (String, SpanStyle)| (p.0@, p.1))
}

/// `text` without the newlines at its end.
fn trim_newlines(text: &str) -> (r: String)
    ensures
        r@ == without_newlines(text@),
{
    let mut n: usize = text.unicode_len();
    proof {
        let s = text@;
        assert(s.take(n as int) =~= s);
    }
    while n > 0 && text.get_char(n - 1) == '\n'
        invariant
            n <= text@.len(),
            without_newlines(text@.take(n as int)) == without_newlines(text@),
        decreases n,
    {
        assert(text@.take(n - 1) =~= text@.take(n as int).drop_last());
        n = n - 1;
    }
    let mut out = String::new();
    let mut i: usize = 0;
    while i < n
        invariant
            n <= text@.len(),
            i <= n,
            out@ == text@.take(i as int),
        decreases n - i,
    {
        push_char(&mut out, text.get_char(i));
        assert(text@.take(i + 1) =~= text@.take(i as int).push(text@[i as int]));
        i = i + 1;
    }
    proof {
        assert(n == 0 || text@.take(n as int).last() != '\n');
        assert(without_newlines(text@.take(n as int)) == text@.take(n as int));
    }
    out
}

/// The styled pieces of one highlighted line.
pub fn styled_pieces(raw: &Vec<RawPiece>) -> (r: Vec<(String, SpanStyle)>)
    ensures
        pieces_view(r@) == styled(raw@),
{
    let mut r: Vec<(String, SpanStyle)> = Vec::new();
    let mut i: usize = 0;
    while i < raw.len()
        invariant
            i <= raw@.len(),
            pieces_view(r@) == styled(raw@.take(i as int)),
        decreases raw@.len() - i,
    {
        let p = &raw[i];
        assert(raw@.take(i + 1).drop_last() =~= raw@.take(i as int));
        let t = trim_newlines(p.text.as_str());
        if t.unicode_len() > 0 {
            let style = SpanStyle {
                fg: Rgb { r: p.r, g: p.g, b: p.b },
                bold: p.font % 2 == 1,
                italic: (p.font / 4) % 2 == 1,
                underline: (p.font / 2) % 2 == 1,
            };
            let ghost before = r@;
            r.push((t, style));
            assert(pieces_view(r@) =~= pieces_view(before).push((t@, style_of(raw@[i as int]))));
        }
        i = i + 1;
    }
    assert(raw@.take(raw@.len() as int) =~= raw@);
    r
}

/// The name of the syntax that syntect's bundled syntax set
/// (`SyntaxSet::load_defaults_newlines`) finds for files with extension
/// `ext` (`SyntaxSet::find_syntax_by_extension`), if it has one.
pub uninterp spec fn syntax_for_extension(ext: Seq<char>) -> Option<Seq<char>>;

/// The name of the syntax of the bundled set for extension `ext`, if any
/// (`SyntaxSet::find_syntax_by_extension` on
/// `SyntaxSet::load_defaults_newlines`, the syntax's `name` field). The set
/// is loaded here, so that the answer depends on `ext` alone.
#[verifier::external_body]
fn bundled_syntax_name(ext: &str) -> (r: Option<String>)
    ensures
        match r {
            Some(n) => syntax_for_extension(ext@) == Some(n@),
            None => syntax_for_extension(ext@) is None,
        },
{
    SyntaxSet::load_defaults_newlines().find_syntax_by_extension(ext).map(|s| s.name.clone())
}

/// The pieces syntect gives `lines`, highlighted one after the other from
/// the first, with the syntax called `syntax` of its bundled syntax set
/// (`SyntaxSet::load_defaults_newlines`, `find_syntax_by_name`) and the
/// theme called `theme` of its bundled themes (`ThemeSet::load_defaults`):
/// for each line its pieces as `highlight_next` takes them, none for a line
/// the highlighter fails on; nothing when the bundled sets have no such
/// syntax or theme. It depends on these three alone.
pub uninterp spec fn highlighted(syntax: Seq<char>, theme: Seq<char>, lines: Seq<Seq<char>>) -> Option<Seq<Seq<RawPiece>>>;

/// The values of rows of pieces.
pub open spec fn rows_view(rows: Seq<Vec<RawPiece>>) -> Seq<Seq<RawPiece>> {
    rows.map_values(|v: Vec<RawPiece>| v@)
}

/// Highlights `lines` one after the other (`HighlightLines::new` on the
/// bundled syntax called `syntax` and the bundled theme called `theme`,
/// then `HighlightLines::highlight_line` on each line, an error giving no
/// pieces), each piece with its foreground color, font bits and text.
/// Trusted: the rows are the named ones, one for each line; the texts of a
/// row's pieces make up the line (`highlight_line`'s documentation: their
/// concatenation makes the original string). Left unsaid: syntect compiles
/// each pattern of a syntax when first used and `expect`s it to compile
/// with fancy-regex; that every bundled pattern does is not shown here.
#[verifier::external_body]
fn highlight_bundled(syntax: &str, theme: &str, lines: &Vec<String>) -> (r: Option<Vec<Vec<RawPiece>>>)
    ensures
        match r {
            Some(rows) => highlighted(syntax@, theme@, lines_view(lines@)) == Some(rows_view(rows@))
                && rows@.len() == lines@.len()
                && forall|i: int| 0 <= i < rows@.len() ==> (#[trigger] rows@[i])@.len() == 0
                    || joined_texts(rows@[i]@) == lines@[i]@,
            None => highlighted(syntax@, theme@, lines_view(lines@)) is None,
        },
{
    let ss = SyntaxSet::load_defaults_newlines();
    let ts = ThemeSet::load_defaults();
    let mut h = HighlightLines::new(ss.find_syntax_by_name(syntax)?, ts.themes.get(theme)?);
    Some(lines.iter().map(|l| h.highlight_line(l, &ss).unwrap_or_default().into_iter()
        .map(|(s, t)| RawPiece { r: s.foreground.r, g: s.foreground.g, b: s.foreground.b, font: s.font_style.bits(), text: t.to_string() })
        .collect()).collect())
}

/// The syntax of a file: the one the bundled syntaxes have for its
/// extension, or `Plain Text` when there is no path, no extension or no
/// syntax for it.
pub open spec fn syntax_name_for(path: Option<Seq<char>>) -> Seq<char> {
    match path {
        Some(p) => match path_extension(p) {
            Some(e) => match syntax_for_extension(e) {
                Some(n) => n,
                None => "Plain Text"@,
            },
            None => "Plain Text"@,
        },
        None => "Plain Text"@,
    }
}

/// Each line with a newline after it.
pub open spec fn with_newlines(ls: Seq<Seq<char>>) -> Seq<Seq<char>> {
    ls.map_values(|l: Seq<char>| l + "\n"@)
}

/// White, with no emphasis.
pub open spec fn white() -> SpanStyle {
    SpanStyle { fg: Rgb { r: 255, g: 255, b: 255 }, bold: false, italic: false, underline: false }
}

/// A text as one white piece, without its trailing newlines; nothing when
/// that leaves it empty.
pub open spec fn white_row(t: Seq<char>) -> Seq<(Seq<char>, SpanStyle)> {
    let w = without_newlines(t);
    if w.len() == 0 { seq![] } else { seq![(w, white())] }
}

/// Syntax highlighter over the bundled syntaxes and themes.
pub struct Highlighter {
    theme_name: String,
}

impl Highlighter {
    /// The name of the theme used.
    pub closed spec fn theme(&self) -> Seq<char> {
        self.theme_name@
    }

    /// The name of the theme used.
    pub fn theme_name(&self) -> (r: &str)
        ensures
            r@ == self.theme(),
    {
        self.theme_name.as_str()
    }

    /// A highlighter with the `base16-ocean.dark` theme.
    pub fn new() -> (h: Self)
        ensures
            h.theme() == "base16-ocean.dark"@,
    {
        Highlighter { theme_name: owned("base16-ocean.dark") }
    }

    /// The name of the syntax of a file: the one the bundled syntaxes have
    /// for its extension, or `Plain Text` when there is no path, no
    /// extension or no syntax for it.
    pub fn detect_syntax(&self, path: Option<&str>) -> (r: String)
        ensures
            r@ == syntax_name_for(match path { Some(p) => Some(p@), None => None }),
    {
        if let Some(p) = path {
            if let Some(ext) = extension_of(p) {
                if let Some(n) = bundled_syntax_name(ext.as_str()) {
                    return n;
                }
            }
        }
        owned("Plain Text")
    }

    /// Highlight `lines` of the file at `path`, line after line, each with a
    /// newline after it, in the file's syntax and the theme: for each line,
    /// its styled pieces (text without trailing newlines, empty pieces
    /// dropped); a line the highlighter fails on has no pieces. When the
    /// bundled sets lack the syntax or the theme, each line is one white
    /// piece.
    pub fn highlight_all(&mut self, lines: &Vec<String>, path: Option<&str>) -> (r: Vec<Vec<(String, SpanStyle)>>)
        ensures
            r@.len() == lines@.len(),
            final(self).theme() == old(self).theme(),
            match highlighted(syntax_name_for(match path { Some(p) => Some(p@), None => None }), old(self).theme(),
                with_newlines(lines_view(lines@))) {
                Some(rows) => forall|i: int| 0 <= i < r@.len() ==> pieces_view(#[trigger] r@[i]@) == styled(rows[i]),
                None => forall|i: int| 0 <= i < r@.len() ==> pieces_view(#[trigger] r@[i]@)
                    == white_row(lines@[i]@ + "\n"@),
            },
            forall|i: int| 0 <= i < r@.len() ==> styles_line(pieces_view(#[trigger] r@[i]@), lines@[i]@ + "\n"@),
    {
        let syntax = self.detect_syntax(path);
        let mut nl: Vec<String> = Vec::new();
        let mut i: usize = 0;
        while i < lines.len()
            invariant
                i <= lines@.len(),
                lines_view(nl@) == with_newlines(lines_view(lines@)).take(i as int),
            decreases lines@.len() - i,
        {
            let ghost before = nl@;
            let l = concat(lines[i].as_str(), "\n");
            assert(l@ == with_newlines(lines_view(lines@))[i as int]);
            nl.push(l);
            assert(lines_view(nl@) =~= lines_view(before).push(l@));
            assert(lines_view(nl@) =~= with_newlines(lines_view(lines@)).take(i + 1));
            i = i + 1;
        }
        assert(with_newlines(lines_view(lines@)).take(lines@.len() as int) =~= with_newlines(lines_view(lines@)));
        let ghost name = syntax_name_for(match path { Some(p) => Some(p@), None => None });
        let mut r: Vec<Vec<(String, SpanStyle)>> = Vec::new();
        match highlight_bundled(syntax.as_str(), self.theme_name.as_str(), &nl) {
            Some(rows) => {
                let mut k: usize = 0;
                while k < rows.len()
                    invariant
                        k <= rows@.len(),
                        rows@.len() == lines@.len(),
                        nl@.len() == lines@.len(),
                        lines_view(nl@) == with_newlines(lines_view(lines@)),
                        forall|j: int| 0 <= j < rows@.len() ==> (#[trigger] rows@[j])@.len() == 0
                            || joined_texts(rows@[j]@) == nl@[j]@,
                        r@.len() == k,
                        forall|j: int| 0 <= j < k ==> pieces_view(#[trigger] r@[j]@) == styled(rows@[j]@),
                        forall|j: int| 0 <= j < k ==> styles_line(pieces_view(#[trigger] r@[j]@), lines@[j]@ + "\n"@),
                    decreases rows@.len() - k,
                {
                    let pieces = styled_pieces(&rows[k]);
                    proof {
                        assert(nl@[k as int]@ == lines_view(nl@)[k as int]);
                        assert(nl@[k as int]@ == lines@[k as int]@ + "\n"@);
                    }
                    r.push(pieces);
                    k = k + 1;
                }
            }
            None => {
                let mut k: usize = 0;
                while k < lines.len()
                    invariant
                        k <= lines@.len(),
                        r@.len() == k,
                        forall|j: int| 0 <= j < k ==> pieces_view(#[trigger] r@[j]@) == white_row(lines@[j]@ + "\n"@),
                        forall|j: int| 0 <= j < k ==> styles_line(pieces_view(#[trigger] r@[j]@), lines@[j]@ + "\n"@),
                    decreases lines@.len() - k,
                {
                    let text = concat(lines[k].as_str(), "\n");
                    let ghost t = text@;
                    let mut raw: Vec<RawPiece> = Vec::new();
                    raw.push(RawPiece { r: 255, g: 255, b: 255, font: 0, text });
                    let pieces = styled_pieces(&raw);
                    assert(joined_texts(raw@) =~= lines@[k as int]@ + "\n"@) by {
                        assert(raw@.drop_last() =~= Seq::<RawPiece>::empty());
                        assert(joined_texts(Seq::<RawPiece>::empty()) == Seq::<char>::empty());
                        assert(raw@.last().text@ == t);
                    }
                    assert(styled(raw@) =~= white_row(lines@[k as int]@ + "\n"@)) by {
                        assert(raw@.drop_last() =~= Seq::<RawPiece>::empty());
                        assert(styled(Seq::<RawPiece>::empty()) == Seq::<(Seq<char>, SpanStyle)>::empty());
                        assert(raw@.last().text@ == t);
                        assert(style_of(raw@.last()) == white());
                    }
                    r.push(pieces);
                    k = k + 1;
                }
            }
        }
        r
    }
}

} // verus!
