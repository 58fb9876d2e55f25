//! Markdown for the terminal: the text is read by a markdown parser into
//! events, and the events become styled lines (headings, lists, quotes,
//! boxed code blocks, inline code); the user's questions and the
//! assistant's answers, marked in agent output, become boxes.

use vstd::prelude::*;
use vstd::utf8::encode_utf8;
use pulldown_cmark::{CodeBlockKind, Event, Options, Parser, Tag, TagEnd};
use crate::text::{concat, lemma_encode_concat, owned, push_char, decimal, str_lines, lines_of, lines_view};

verus! {

#[verifier::external_type_specification]
#[verifier::external_body]
pub struct ExMarkdownTag<'a>(Tag<'a>);

#[verifier::external_type_specification]
#[verifier::external_body]
pub struct ExMarkdownTagEnd(TagEnd);

/// The colors of rendered markdown.
#[derive(Debug, Clone, Copy, PartialEq, Eq, Structural)]
pub enum MdColor {
    /// No color set (the terminal's).
    Unset,
    Cyan,
    Blue,
    Magenta,
    Gray,
    DarkGray,
    Yellow,
    Rgb(u8, u8, u8),
}

/// The style of a piece of rendered text.
#[derive(Debug, Clone, Copy, PartialEq, Eq, Structural)]
pub struct MdStyle {
    pub fg: MdColor,
    pub bg: MdColor,
    pub bold: bool,
    pub italic: bool,
    pub underline: bool,
    pub crossed: bool,
}

/// A piece of rendered text with its style.
#[derive(Debug, Clone)]
pub struct MdSpan {
    pub text: String,
    pub style: MdStyle,
}

/// A markdown tag that opens.
#[derive(Debug, Clone)]
pub enum MdTag {
    /// A heading of this level (1 to 6).
    Heading(u8),
    Paragraph,
    BlockQuote,
    /// A code block, fenced with this info string, or indented.
    CodeBlock(Option<String>),
    /// A list, numbered from this number when it is ordered.
    List(Option<u64>),
    Item,
    Emphasis,
    Strong,
    Strikethrough,
    Link,
    Other,
}

/// A markdown tag that closes.
#[derive(Debug, Clone, Copy, PartialEq, Eq, Structural)]
pub enum MdTagEnd {
    Heading,
    Paragraph,
    BlockQuote,
    CodeBlock,
    List,
    Item,
    Emphasis,
    Strong,
    Strikethrough,
    Link,
    Other,
}

/// What the parser reads from markdown text.
#[derive(Debug, Clone)]
pub enum MdEvent {
    Start(MdTag),
    End(MdTagEnd),
    Text(String),
    Code(String),
    SoftBreak,
    HardBreak,
    Rule,
    Other,
}

/// The events that `pulldown_cmark::Parser::new_ext` reads from `text`
/// with strikethrough and tables enabled, each taken as an `MdEvent`.
pub uninterp spec fn md_events(text: Seq<char>) -> Seq<MdEvent>;

/// The parser's events of `text` (`pulldown_cmark::Parser::new_ext`, with
/// strikethrough and tables enabled), each converted variant for variant.
/// The events depend on the text alone.
#[verifier::external_body]
fn parse_markdown(text: &str) -> (r: Vec<MdEvent>)
    ensures
        r@ == md_events(text@),
{
    let options = Options::ENABLE_STRIKETHROUGH | Options::ENABLE_TABLES;
    Parser::new_ext(text, options).map(|e| match e {
        Event::Start(t) => MdEvent::Start(tag_of(&t)),
        Event::End(t) => MdEvent::End(tag_end_of(&t)),
        Event::Text(t) => MdEvent::Text(t.to_string()),
        Event::Code(c) => MdEvent::Code(c.to_string()),
        Event::SoftBreak => MdEvent::SoftBreak,
        Event::HardBreak => MdEvent::HardBreak,
        Event::Rule => MdEvent::Rule,
        _ => MdEvent::Other,
    }).collect()
}

/// A parser tag that opens, converted for `parse_markdown`: its variant,
/// the heading level, the code block's info string, the list's first
/// number.
#[verifier::external_body]
fn tag_of(t: &Tag) -> MdTag {
    match t {
        Tag::Heading { level, .. } => MdTag::Heading(*level as u8),
        Tag::Paragraph => MdTag::Paragraph,
        Tag::BlockQuote(_) => MdTag::BlockQuote,
        Tag::CodeBlock(CodeBlockKind::Fenced(info)) => MdTag::CodeBlock(Some(info.to_string())),
        Tag::CodeBlock(CodeBlockKind::Indented) => MdTag::CodeBlock(None),
        Tag::List(start) => MdTag::List(*start),
        Tag::Item => MdTag::Item,
        Tag::Emphasis => MdTag::Emphasis,
        Tag::Strong => MdTag::Strong,
        Tag::Strikethrough => MdTag::Strikethrough,
        Tag::Link { .. } => MdTag::Link,
        _ => MdTag::Other,
    }
}

/// A parser tag that closes, converted for `parse_markdown`: its variant.
#[verifier::external_body]
fn tag_end_of(t: &TagEnd) -> MdTagEnd {
    match t {
        TagEnd::Heading(_) => MdTagEnd::Heading,
        TagEnd::Paragraph => MdTagEnd::Paragraph,
        TagEnd::BlockQuote(_) => MdTagEnd::BlockQuote,
        TagEnd::CodeBlock => MdTagEnd::CodeBlock,
        TagEnd::List(_) => MdTagEnd::List,
        TagEnd::Item => MdTagEnd::Item,
        TagEnd::Emphasis => MdTagEnd::Emphasis,
        TagEnd::Strong => MdTagEnd::Strong,
        TagEnd::Strikethrough => MdTagEnd::Strikethrough,
        TagEnd::Link => MdTagEnd::Link,
        _ => MdTagEnd::Other,
    }
}

/// The markdown events of `text`, as the parser reads them.
pub fn markdown_events(text: &str) -> (r: Vec<MdEvent>)
    ensures
        r@ == md_events(text@),
{
    parse_markdown(text)
}

/// A piece of rendered text, as text and style.
pub type SpanV = (Seq<char>, MdStyle);

/// The values of rendered pieces.
pub open spec fn spans_view(v: Seq<MdSpan>) -> Seq<SpanV> {
    v.map_values(|sp: MdSpan| (sp.text@, sp.style))
}

/// The values of rendered lines.
pub open spec fn md_lines_view(v: Seq<Vec<MdSpan>>) -> Seq<Seq<SpanV>> {
    v.map_values(|l: Vec<MdSpan>| spans_view(l@))
}

/// The length of a text in UTF-8 bytes (what `str::len` counts).
pub open spec fn blen(s: Seq<char>) -> nat {
    encode_utf8(s).len()
}

/// `n` copies of `s`, one after the other.
pub open spec fn repeat_seq(s: Seq<char>, n: nat) -> Seq<char>
    decreases n,
{
    if n == 0 { seq![] } else { repeat_seq(s, (n - 1) as nat) + s }
}

/// No color, no emphasis.
pub open spec fn plain() -> MdStyle {
    MdStyle { fg: MdColor::Unset, bg: MdColor::Unset, bold: false, italic: false, underline: false, crossed: false }
}

/// Only the foreground color `c`.
pub open spec fn fg_only(c: MdColor) -> MdStyle {
    MdStyle { fg: c, ..plain() }
}

/// The style of a heading's text.
pub open spec fn heading_style(level: u8) -> MdStyle {
    MdStyle {
        bold: true,
        ..fg_only(if level == 1 { MdColor::Cyan } else if level == 2 { MdColor::Blue } else { MdColor::Magenta })
    }
}

/// The marker written before a heading.
pub open spec fn heading_prefix(level: u8) -> Seq<char> {
    if level == 1 { "# "@ } else if level == 2 { "## "@ } else if level == 3 { "### "@ } else { "#### "@ }
}

/// The style of quoted text.
pub open spec fn quote_style() -> MdStyle {
    MdStyle { italic: true, ..fg_only(MdColor::Gray) }
}

/// The style of inline code.
pub open spec fn inline_code_style() -> MdStyle {
    MdStyle { bg: MdColor::Rgb(50, 50, 50), ..fg_only(MdColor::Rgb(230, 180, 80)) }
}

/// The style of a link.
pub open spec fn link_style() -> MdStyle {
    MdStyle { underline: true, ..fg_only(MdColor::Blue) }
}

/// The frame of a code block.
pub open spec fn code_border_style() -> MdStyle {
    MdStyle { bg: MdColor::Rgb(30, 34, 42), ..fg_only(MdColor::Rgb(80, 80, 90)) }
}

/// The language label of a code block.
pub open spec fn code_label_style() -> MdStyle {
    MdStyle { bg: MdColor::Rgb(30, 34, 42), bold: true, ..fg_only(MdColor::Rgb(180, 180, 80)) }
}

/// The code of a code block.
pub open spec fn code_text_style() -> MdStyle {
    MdStyle { bg: MdColor::Rgb(30, 34, 42), ..fg_only(MdColor::Rgb(212, 212, 212)) }
}

/// The state of the renderer: the lines done, the line being built, the
/// stack of styles, the code block being collected (and its language),
/// the list nesting and the next number of an ordered list.
#[verifier::ext_equal]
pub struct RenderState {
    pub base: MdStyle,
    pub lines: Seq<Seq<SpanV>>,
    pub cur: Seq<SpanV>,
    pub styles: Seq<MdStyle>,
    pub in_code: bool,
    pub lang: Option<Seq<char>>,
    pub code: Seq<char>,
    pub depth: usize,
    pub num: Option<u64>,
}

/// A renderer that has rendered nothing, with base style `base`.
pub open spec fn fresh(base: MdStyle) -> RenderState {
    RenderState {
        base,
        lines: seq![],
        cur: seq![],
        styles: seq![base],
        in_code: false,
        lang: None,
        code: seq![],
        depth: 0,
        num: None,
    }
}

/// The style of text now: the top of the style stack.
pub open spec fn cur_style(s: RenderState) -> MdStyle {
    if s.styles.len() > 0 { s.styles.last() } else { s.base }
}

/// The line being built ends (an empty line when nothing is on it).
pub open spec fn flushed(s: RenderState) -> RenderState {
    RenderState { lines: s.lines.push(s.cur), cur: seq![], ..s }
}

/// A piece added to the line being built.
pub open spec fn with_span(s: RenderState, t: Seq<char>, st: MdStyle) -> RenderState {
    RenderState { cur: s.cur.push((t, st)), ..s }
}

/// A whole line added.
pub open spec fn with_line(s: RenderState, l: Seq<SpanV>) -> RenderState {
    RenderState { lines: s.lines.push(l), ..s }
}

/// A style pushed on the stack.
pub open spec fn pushed_style(s: RenderState, st: MdStyle) -> RenderState {
    RenderState { styles: s.styles.push(st), ..s }
}

/// The top style popped, the bottom one staying.
pub open spec fn popped_style(s: RenderState) -> RenderState {
    if s.styles.len() > 1 { RenderState { styles: s.styles.drop_last(), ..s } } else { s }
}

/// A piece of text added when it is not empty.
pub open spec fn with_part(s: RenderState, part: Seq<char>, st: MdStyle) -> RenderState {
    if part.len() > 0 { with_span(s, part, st) } else { s }
}

/// Text added in style `st`: each newline ends the line; `part` is the
/// text of the current line read so far.
pub open spec fn text_step(s: RenderState, part: Seq<char>, rest: Seq<char>, st: MdStyle) -> RenderState
    decreases rest.len(),
{
    if rest.len() == 0 {
        with_part(s, part, st)
    } else if rest[0] == '\n' {
        text_step(flushed(with_part(s, part, st)), seq![], rest.drop_first(), st)
    } else {
        text_step(s, part.push(rest[0]), rest.drop_first(), st)
    }
}

/// Text: collected inside a code block, else added line by line in the
/// current style.
pub open spec fn after_text(s: RenderState, t: Seq<char>) -> RenderState {
    if s.in_code {
        RenderState { code: s.code + t, ..s }
    } else {
        text_step(s, seq![], t, cur_style(s))
    }
}

/// The longest UTF-8 length of the lines.
pub open spec fn max_blen(ls: Seq<Seq<char>>) -> nat
    decreases ls.len(),
{
    if ls.len() == 0 {
        0
    } else {
        let m = max_blen(ls.drop_last());
        if blen(ls.last()) > m { blen(ls.last()) } else { m }
    }
}

/// The inside width of a code block: its longest line, at least 40 and at
/// most 76.
pub open spec fn code_width(ls: Seq<Seq<char>>) -> nat {
    let m = max_blen(ls);
    if m < 40 { 40 } else if m > 76 { 76 } else { m }
}

/// `a - b`, or 0 when `b` is larger.
pub open spec fn sat_sub(a: nat, b: nat) -> nat {
    if a >= b { (a - b) as nat } else { 0 }
}

/// A line of code in its frame, padded to width `w`.
pub open spec fn code_row(line: Seq<char>, w: nat) -> Seq<SpanV> {
    seq![
        ("│ "@, code_border_style()),
        (line, code_text_style()),
        (repeat_seq(" "@, sat_sub(w, blen(line))), code_text_style()),
        (" │"@, code_border_style()),
    ]
}

/// The lines of a code block: a header with the language (or `code`), the
/// code padded to the block's width (one blank row when there is no code),
/// and a footer.
pub open spec fn code_block_lines(code: Seq<char>, lang: Option<Seq<char>>) -> Seq<Seq<SpanV>> {
    let ls = str_lines(code);
    let w = code_width(ls);
    let total = w + 2;
    let label = " "@ + (match lang { Some(l) => l, None => "code"@ }) + " "@;
    let dashes = sat_sub(total, blen(label));
    let left: nat = if dashes < 3 { dashes } else { 3 };
    let right = sat_sub(dashes, left);
    let header = seq![
        ("┌"@, code_border_style()),
        (repeat_seq("─"@, left), code_border_style()),
        (label, code_label_style()),
        (repeat_seq("─"@, right), code_border_style()),
        ("┐"@, code_border_style()),
    ];
    let rows = ls.map_values(|l: Seq<char>| code_row(l, w));
    let blank: Seq<Seq<SpanV>> = if ls.len() == 0 {
        seq![seq![
            ("│ "@, code_border_style()),
            (repeat_seq(" "@, w), code_text_style()),
            (" │"@, code_border_style()),
        ]]
    } else {
        seq![]
    };
    let footer = seq![
        ("└"@, code_border_style()),
        (repeat_seq("─"@, total), code_border_style()),
        ("┘"@, code_border_style()),
    ];
    seq![header] + rows + blank + seq![footer]
}

/// The state after an opening tag.
pub open spec fn after_start(s: RenderState, tag: MdTag) -> RenderState {
    match tag {
        MdTag::Heading(level) => with_span(
            pushed_style(flushed(s), heading_style(level)), heading_prefix(level), fg_only(MdColor::DarkGray)),
        MdTag::Paragraph => if s.lines.len() > 0 && s.cur.len() > 0 { flushed(s) } else { s },
        MdTag::BlockQuote => with_span(pushed_style(flushed(s), quote_style()), "│ "@, fg_only(MdColor::DarkGray)),
        MdTag::CodeBlock(info) => RenderState {
            in_code: true,
            code: seq![],
            lang: match info {
                Some(l) => if l@.len() > 0 { Some(l@) } else { None },
                None => None,
            },
            ..flushed(s)
        },
        MdTag::List(start) => RenderState {
            depth: if s.depth < usize::MAX { (s.depth + 1) as usize } else { s.depth },
            num: start,
            ..flushed(s)
        },
        MdTag::Item => {
            let f = flushed(s);
            let indent = repeat_seq("  "@, sat_sub(f.depth as nat, 1));
            match f.num {
                Some(n) => with_span(
                    RenderState { num: Some(if n < u64::MAX { (n + 1) as u64 } else { 0 }), ..f },
                    indent + decimal(n as nat) + ". "@, fg_only(MdColor::Yellow)),
                None => with_span(f, indent + "• "@, fg_only(MdColor::Yellow)),
            }
        },
        MdTag::Emphasis => pushed_style(s, MdStyle { italic: true, ..cur_style(s) }),
        MdTag::Strong => pushed_style(s, MdStyle { bold: true, ..cur_style(s) }),
        MdTag::Strikethrough => pushed_style(s, MdStyle { crossed: true, ..cur_style(s) }),
        MdTag::Link => pushed_style(s, link_style()),
        MdTag::Other => s,
    }
}

/// The state after a closing tag.
pub open spec fn after_end(s: RenderState, t: MdTagEnd) -> RenderState {
    match t {
        MdTagEnd::Heading => with_line(flushed(popped_style(s)), seq![]),
        MdTagEnd::Paragraph => flushed(s),
        MdTagEnd::BlockQuote => flushed(popped_style(s)),
        MdTagEnd::CodeBlock => RenderState {
            in_code: false,
            lines: s.lines + code_block_lines(s.code, s.lang),
            code: seq![],
            lang: None,
            ..s
        },
        MdTagEnd::List => {
            let d: usize = if s.depth > 0 { (s.depth - 1) as usize } else { 0 };
            RenderState { depth: d, num: if d == 0 { None } else { s.num }, ..s }
        },
        MdTagEnd::Item => flushed(s),
        MdTagEnd::Emphasis | MdTagEnd::Strong | MdTagEnd::Strikethrough | MdTagEnd::Link => popped_style(s),
        MdTagEnd::Other => s,
    }
}

/// The state after an event.
pub open spec fn after_event(s: RenderState, e: MdEvent) -> RenderState {
    match e {
        MdEvent::Start(t) => after_start(s, t),
        MdEvent::End(t) => after_end(s, t),
        MdEvent::Text(t) => after_text(s, t@),
        MdEvent::Code(c) => with_span(s, "`"@ + c@ + "`"@, inline_code_style()),
        MdEvent::SoftBreak => with_span(s, " "@, plain()),
        MdEvent::HardBreak => flushed(s),
        MdEvent::Rule => with_line(flushed(s), seq![(repeat_seq("─"@, 40), fg_only(MdColor::DarkGray))]),
        MdEvent::Other => s,
    }
}

/// The state after a list of events.
pub open spec fn after_events(s: RenderState, evs: Seq<MdEvent>) -> RenderState
    decreases evs.len(),
{
    if evs.len() == 0 { s } else { after_event(after_events(s, evs.drop_last()), evs.last()) }
}

/// The lines rendered, the line being built ending when it is not empty.
pub open spec fn finished(s: RenderState) -> Seq<Seq<SpanV>> {
    if s.cur.len() > 0 { s.lines.push(s.cur) } else { s.lines }
}

/// The value of an optional text.
pub open spec fn opt_text(o: Option<String>) -> Option<Seq<char>> {
    match o {
        Some(t) => Some(t@),
        None => None,
    }
}

fn plain_style() -> (r: MdStyle)
    ensures
        r == plain(),
{
    MdStyle { fg: MdColor::Unset, bg: MdColor::Unset, bold: false, italic: false, underline: false, crossed: false }
}

fn fg_style(c: MdColor) -> (r: MdStyle)
    ensures
        r == fg_only(c),
{
    MdStyle { fg: c, ..plain_style() }
}

fn rgb_style(fg: (u8, u8, u8), bg: (u8, u8, u8)) -> (r: MdStyle)
    ensures
        r == (MdStyle { bg: MdColor::Rgb(bg.0, bg.1, bg.2), ..fg_only(MdColor::Rgb(fg.0, fg.1, fg.2)) }),
{
    MdStyle { bg: MdColor::Rgb(bg.0, bg.1, bg.2), ..fg_style(MdColor::Rgb(fg.0, fg.1, fg.2)) }
}

/// The UTF-8 length of `s` (`str::len`).
pub(crate) fn byte_len(s: &str) -> (n: usize)
    ensures
        n == blen(s@),
{
    s.as_bytes().len()
}

/// `n` copies of `s`, one after the other.
pub fn repeat_text(s: &str, n: usize) -> (r: String)
    ensures
        r@ == repeat_seq(s@, n as nat),
{
    let mut r = String::new();
    let mut i: usize = 0;
    while i < n
        invariant
            i <= n,
            r@ == repeat_seq(s@, i as nat),
        decreases n - i,
    {
        r.append(s);
        i = i + 1;
    }
    r
}

/// The markdown renderer.
struct Renderer {
    base: MdStyle,
    lines: Vec<Vec<MdSpan>>,
    cur: Vec<MdSpan>,
    styles: Vec<MdStyle>,
    in_code: bool,
    lang: Option<String>,
    code: String,
    depth: usize,
    num: Option<u64>,
}

impl View for Renderer {
    type V = RenderState;

    closed spec fn view(&self) -> RenderState {
        RenderState {
            base: self.base,
            lines: md_lines_view(self.lines@),
            cur: spans_view(self.cur@),
            styles: self.styles@,
            in_code: self.in_code,
            lang: opt_text(self.lang),
            code: self.code@,
            depth: self.depth,
            num: self.num,
        }
    }
}

impl Renderer {
    fn new(base: MdStyle) -> (r: Self)
        ensures
            r@ == fresh(base),
    {
        let r = Renderer {
            base,
            lines: Vec::new(),
            cur: Vec::new(),
            styles: vec![base],
            in_code: false,
            lang: None,
            code: String::new(),
            depth: 0,
            num: None,
        };
        assert(r@ =~= fresh(base));
        r
    }

    fn current_style(&self) -> (st: MdStyle)
        ensures
            st == cur_style(self@),
    {
        if self.styles.len() > 0 { self.styles[self.styles.len() - 1] } else { self.base }
    }

    fn push_span(&mut self, text: String, style: MdStyle)
        ensures
            final(self)@ == with_span(old(self)@, text@, style),
    {
        let ghost t = text@;
        let ghost before = self.cur@;
        self.cur.push(MdSpan { text, style });
        assert(spans_view(self.cur@) =~= spans_view(before).push((t, style)));
        assert(self@ =~= with_span(old(self)@, t, style));
    }

    fn push_line(&mut self, line: Vec<MdSpan>)
        ensures
            final(self)@ == with_line(old(self)@, spans_view(line@)),
    {
        let ghost l = spans_view(line@);
        let ghost before = self.lines@;
        self.lines.push(line);
        assert(md_lines_view(self.lines@) =~= md_lines_view(before).push(l));
        assert(self@ =~= with_line(old(self)@, l));
    }

    fn flush_line(&mut self)
        ensures
            final(self)@ == flushed(old(self)@),
    {
        let mut line: Vec<MdSpan> = Vec::new();
        std::mem::swap(&mut line, &mut self.cur);
        self.push_line(line);
        assert(spans_view(self.cur@) =~= Seq::<SpanV>::empty());
        assert(self@ =~= flushed(old(self)@));
    }

    fn push_style(&mut self, st: MdStyle)
        ensures
            final(self)@ == pushed_style(old(self)@, st),
    {
        self.styles.push(st);
        assert(self@ =~= pushed_style(old(self)@, st));
    }

    fn pop_style(&mut self)
        ensures
            final(self)@ == popped_style(old(self)@),
    {
        if self.styles.len() > 1 {
            self.styles.pop();
            assert(self@ =~= popped_style(old(self)@));
        }
    }

    fn add_text(&mut self, text: &str)
        ensures
            final(self)@ == after_text(old(self)@, text@),
    {
        if self.in_code {
            self.code.append(text);
            assert(self@ =~= after_text(old(self)@, text@));
            return;
        }
        let st = self.current_style();
        let chars = crate::text::chars_of(text);
        let ghost t = text@;
        let mut part = String::new();
        let mut i: usize = 0;
        assert(t.skip(0) =~= t);
        while i < chars.len()
            invariant
                chars@ == t,
                i <= t.len(),
                text_step(old(self)@, seq![], t, st) == text_step(self@, part@, t.skip(i as int), st),
            decreases t.len() - i,
        {
            let c = chars[i];
            assert(t.skip(i as int).drop_first() =~= t.skip(i + 1));
            assert(t.skip(i as int)[0] == c);
            if c == '\n' {
                if part.as_str().unicode_len() > 0 {
                    self.push_span(part, st);
                }
                self.flush_line();
                part = String::new();
            } else {
                push_char(&mut part, c);
            }
            i = i + 1;
        }
        if part.as_str().unicode_len() > 0 {
            self.push_span(part, st);
        }
        assert(t.skip(t.len() as int) =~= Seq::<char>::empty());
    }

    /// The lines of a finished code block.
    fn render_code_block(&mut self)
        ensures
            final(self)@ == (RenderState {
                lines: old(self)@.lines + code_block_lines(old(self)@.code, old(self)@.lang),
                code: seq![],
                lang: None,
                ..old(self)@
            }),
    {
        let mut code = String::new();
        std::mem::swap(&mut code, &mut self.code);
        let mut lang: Option<String> = None;
        std::mem::swap(&mut lang, &mut self.lang);
        let ghost s0 = old(self)@;
        let ls = lines_of(code.as_str());
        let ghost lv = lines_view(ls@);
        let mut m: usize = 0;
        let mut i: usize = 0;
        while i < ls.len()
            invariant
                i <= ls@.len(),
                lv == lines_view(ls@),
                m == max_blen(lv.take(i as int)),
            decreases ls@.len() - i,
        {
            assert(lv.take(i + 1).drop_last() =~= lv.take(i as int));
            let b = byte_len(ls[i].as_str());
            if b > m {
                m = b;
            }
            i = i + 1;
        }
        assert(lv.take(ls@.len() as int) =~= lv);
        let w: usize = if m < 40 { 40 } else if m > 76 { 76 } else { m };
        let total: usize = w + 2;
        let name = match &lang {
            Some(l) => owned(l.as_str()),
            None => owned("code"),
        };
        let label = concat(" ", name.as_str());
        let label = concat(label.as_str(), " ");
        let lb = byte_len(label.as_str());
        let dashes: usize = if total >= lb { total - lb } else { 0 };
        let left: usize = if dashes < 3 { dashes } else { 3 };
        let right: usize = dashes - left;
        let border = rgb_style((80, 80, 90), (30, 34, 42));
        let text_style = rgb_style((212, 212, 212), (30, 34, 42));
        let label_style = MdStyle { bold: true, ..rgb_style((180, 180, 80), (30, 34, 42)) };
        let header = vec![
            MdSpan { text: owned("┌"), style: border },
            MdSpan { text: repeat_text("─", left), style: border },
            MdSpan { text: label, style: label_style },
            MdSpan { text: repeat_text("─", right), style: border },
            MdSpan { text: owned("┐"), style: border },
        ];
        let ghost all = code_block_lines(s0.code, s0.lang);
        proof {
            assert(lv == str_lines(s0.code));
            assert(spans_view(header@) =~= all[0]);
        }
        self.push_line(header);
        let mut k: usize = 0;
        while k < ls.len()
            invariant
                k <= ls@.len(),
                lv == lines_view(ls@),
                lv == str_lines(s0.code),
                w as nat == code_width(lv),
                border == code_border_style(),
                text_style == code_text_style(),
                self@ == (RenderState {
                    lines: s0.lines + seq![all[0]] + lv.take(k as int).map_values(|l: Seq<char>| code_row(l, w as nat)),
                    code: seq![],
                    lang: None,
                    ..s0
                }),
            decreases ls@.len() - k,
        {
            let l = ls[k].as_str();
            let b = byte_len(l);
            let pad: usize = if w >= b { w - b } else { 0 };
            let row = vec![
                MdSpan { text: owned("│ "), style: border },
                MdSpan { text: owned(l), style: text_style },
                MdSpan { text: repeat_text(" ", pad), style: text_style },
                MdSpan { text: owned(" │"), style: border },
            ];
            assert(spans_view(row@) =~= code_row(lv[k as int], w as nat));
            self.push_line(row);
            assert(lv.take(k + 1).map_values(|l: Seq<char>| code_row(l, w as nat))
                =~= lv.take(k as int).map_values(|l: Seq<char>| code_row(l, w as nat)).push(code_row(lv[k as int], w as nat)));
            k = k + 1;
        }
        assert(lv.take(ls@.len() as int) =~= lv);
        let ghost rows = lv.map_values(|l: Seq<char>| code_row(l, w as nat));
        let ghost blank_v: Seq<Seq<SpanV>> = if lv.len() == 0 {
            seq![seq![
                ("│ "@, code_border_style()),
                (repeat_seq(" "@, w as nat), code_text_style()),
                (" │"@, code_border_style()),
            ]]
        } else {
            seq![]
        };
        let ghost footer_v = seq![
            ("└"@, code_border_style()),
            (repeat_seq("─"@, total as nat), code_border_style()),
            ("┘"@, code_border_style()),
        ];
        assert(all =~= seq![all[0]] + rows + blank_v + seq![footer_v]);
        if ls.len() == 0 {
            let blank = vec![
                MdSpan { text: owned("│ "), style: border },
                MdSpan { text: repeat_text(" ", w), style: text_style },
                MdSpan { text: owned(" │"), style: border },
            ];
            assert(spans_view(blank@) =~= blank_v[0]);
            self.push_line(blank);
            assert(self@.lines =~= s0.lines + seq![all[0]] + rows + blank_v);
        } else {
            assert(self@.lines =~= s0.lines + seq![all[0]] + rows + blank_v);
        }
        let footer = vec![
            MdSpan { text: owned("└"), style: border },
            MdSpan { text: repeat_text("─", total), style: border },
            MdSpan { text: owned("┘"), style: border },
        ];
        assert(spans_view(footer@) =~= footer_v);
        self.push_line(footer);
        assert(self@.lines =~= s0.lines + all);
        assert(self@ =~= (RenderState { lines: s0.lines + all, code: seq![], lang: None, ..s0 }));
    }

    fn start(&mut self, tag: &MdTag)
        ensures
            final(self)@ == after_start(old(self)@, *tag),
    {
        match tag {
            MdTag::Heading(level) => {
                self.flush_line();
                let color = if *level == 1 { MdColor::Cyan } else if *level == 2 { MdColor::Blue } else { MdColor::Magenta };
                self.push_style(MdStyle { bold: true, ..fg_style(color) });
                let prefix = if *level == 1 { "# " } else if *level == 2 { "## " } else if *level == 3 { "### " } else { "#### " };
                proof {
                    reveal_strlit("# ");
                    reveal_strlit("## ");
                    reveal_strlit("### ");
                    reveal_strlit("#### ");
                }
                self.push_span(owned(prefix), fg_style(MdColor::DarkGray));
            }
            MdTag::Paragraph => {
                if self.lines.len() > 0 && self.cur.len() > 0 {
                    self.flush_line();
                }
            }
            MdTag::BlockQuote => {
                self.flush_line();
                self.push_style(MdStyle { italic: true, ..fg_style(MdColor::Gray) });
                self.push_span(owned("│ "), fg_style(MdColor::DarkGray));
            }
            MdTag::CodeBlock(info) => {
                self.flush_line();
                self.in_code = true;
                self.code = String::new();
                self.lang = match info {
                    Some(l) => if l.as_str().unicode_len() > 0 { Some(owned(l.as_str())) } else { None },
                    None => None,
                };
                assert(self@ =~= after_start(old(self)@, *tag));
            }
            MdTag::List(start) => {
                self.flush_line();
                if self.depth < usize::MAX {
                    self.depth = self.depth + 1;
                }
                self.num = *start;
                assert(self@ =~= after_start(old(self)@, *tag));
            }
            MdTag::Item => {
                self.flush_line();
                let d: usize = if self.depth >= 1 { self.depth - 1 } else { 0 };
                let indent = repeat_text("  ", d);
                match self.num {
                    Some(n) => {
                        self.num = Some(if n < u64::MAX { n + 1 } else { 0 });
                        let digits = crate::text::u64_to_string(n);
                        let t = concat(indent.as_str(), digits.as_str());
                        let t = concat(t.as_str(), ". ");
                        self.push_span(t, fg_style(MdColor::Yellow));
                    }
                    None => {
                        let t = concat(indent.as_str(), "• ");
                        self.push_span(t, fg_style(MdColor::Yellow));
                    }
                }
            }
            MdTag::Emphasis => {
                let st = self.current_style();
                self.push_style(MdStyle { italic: true, ..st });
            }
            MdTag::Strong => {
                let st = self.current_style();
                self.push_style(MdStyle { bold: true, ..st });
            }
            MdTag::Strikethrough => {
                let st = self.current_style();
                self.push_style(MdStyle { crossed: true, ..st });
            }
            MdTag::Link => {
                self.push_style(MdStyle { underline: true, ..fg_style(MdColor::Blue) });
            }
            MdTag::Other => {}
        }
    }

    fn end(&mut self, t: MdTagEnd)
        ensures
            final(self)@ == after_end(old(self)@, t),
    {
        match t {
            MdTagEnd::Heading => {
                self.pop_style();
                self.flush_line();
                let empty: Vec<MdSpan> = Vec::new();
                assert(spans_view(empty@) =~= Seq::<SpanV>::empty());
                self.push_line(empty);
            }
            MdTagEnd::Paragraph | MdTagEnd::Item => self.flush_line(),
            MdTagEnd::BlockQuote => {
                self.pop_style();
                self.flush_line();
            }
            MdTagEnd::CodeBlock => {
                self.in_code = false;
                self.render_code_block();
                assert(self@ =~= after_end(old(self)@, t));
            }
            MdTagEnd::List => {
                self.depth = if self.depth > 0 { self.depth - 1 } else { 0 };
                if self.depth == 0 {
                    self.num = None;
                }
                assert(self@ =~= after_end(old(self)@, t));
            }
            MdTagEnd::Emphasis | MdTagEnd::Strong | MdTagEnd::Strikethrough | MdTagEnd::Link => self.pop_style(),
            MdTagEnd::Other => {}
        }
    }

    fn event(&mut self, e: &MdEvent)
        ensures
            final(self)@ == after_event(old(self)@, *e),
    {
        match e {
            MdEvent::Start(t) => {
                self.start(t);
            }
            MdEvent::End(t) => self.end(*t),
            MdEvent::Text(t) => self.add_text(t.as_str()),
            MdEvent::Code(c) => {
                let t = concat("`", c.as_str());
                let t = concat(t.as_str(), "`");
                self.push_span(t, MdStyle { bg: MdColor::Rgb(50, 50, 50), ..fg_style(MdColor::Rgb(230, 180, 80)) });
            }
            MdEvent::SoftBreak => self.push_span(owned(" "), plain_style()),
            MdEvent::HardBreak => self.flush_line(),
            MdEvent::Rule => {
                self.flush_line();
                let rule = vec![MdSpan { text: repeat_text("─", 40), style: fg_style(MdColor::DarkGray) }];
                assert(spans_view(rule@) =~= seq![(repeat_seq("─"@, 40), fg_only(MdColor::DarkGray))]);
                self.push_line(rule);
            }
            MdEvent::Other => {}
        }
    }

    fn events(&mut self, evs: &Vec<MdEvent>)
        ensures
            final(self)@ == after_events(old(self)@, evs@),
    {
        let mut i: usize = 0;
        while i < evs.len()
            invariant
                i <= evs@.len(),
                self@ == after_events(old(self)@, evs@.take(i as int)),
            decreases evs@.len() - i,
        {
            assert(evs@.take(i + 1).drop_last() =~= evs@.take(i as int));
            self.event(&evs[i]);
            i = i + 1;
        }
        assert(evs@.take(evs@.len() as int) =~= evs@);
    }

    fn finish(self) -> (r: Vec<Vec<MdSpan>>)
        ensures
            md_lines_view(r@) == finished(self@),
    {
        let mut s = self;
        if s.cur.len() > 0 {
            s.flush_line();
        }
        s.lines
    }
}

/// The lines rendered from markdown events, in base style `base`.
pub fn render_events(events: &Vec<MdEvent>, base: MdStyle) -> (r: Vec<Vec<MdSpan>>)
    ensures
        md_lines_view(r@) == finished(after_events(fresh(base), events@)),
{
    let mut rd = Renderer::new(base);
    rd.events(events);
    rd.finish()
}

/// The lines rendered from markdown text, in base style `base`.
pub fn render_markdown_only(text: &str, base: MdStyle) -> (r: Vec<Vec<MdSpan>>)
    ensures
        md_lines_view(r@) == finished(after_events(fresh(base), md_events(text@))),
{
    let evs = markdown_events(text);
    render_events(&evs, base)
}

/// The first position, from `i` on, where `p` occurs in `t`.
pub open spec fn find_from(t: Seq<char>, p: Seq<char>, i: nat) -> Option<nat>
    decreases t.len() + 1 - i,
{
    if i + p.len() > t.len() {
        None
    } else if t.subrange(i as int, (i + p.len()) as int) == p {
        Some(i)
    } else {
        find_from(t, p, i + 1)
    }
}

/// What `find_from` finds is an occurrence of `p`, from `i` on.
pub proof fn lemma_find_from(t: Seq<char>, p: Seq<char>, i: nat)
    ensures
        find_from(t, p, i) matches Some(k) ==> i <= k && k + p.len() <= t.len()
            && t.subrange(k as int, (k + p.len()) as int) == p,
    decreases t.len() + 1 - i,
{
    if i + p.len() <= t.len() && t.subrange(i as int, (i + p.len()) as int) != p {
        lemma_find_from(t, p, i + 1);
    }
}

/// Whether `p` occurs in `t` at `i`.
fn matches_at(t: &Vec<char>, p: &Vec<char>, i: usize) -> (b: bool)
    requires
        i + p@.len() <= t@.len(),
    ensures
        b == (t@.subrange(i as int, (i + p@.len()) as int) == p@),
{
    let tl = t.len();
    let mut j: usize = 0;
    while j < p.len()
        invariant
            tl == t@.len(),
            i + p@.len() <= t@.len(),
            j <= p@.len(),
            forall|k: int| 0 <= k < j ==> t@[i + k] == p@[k],
        decreases p@.len() - j,
    {
        assert(i + j < t@.len());
        if t[i + j] != p[j] {
            proof {
                if t@.subrange(i as int, (i + p@.len()) as int) == p@ {
                    assert(t@.subrange(i as int, (i + p@.len()) as int)[j as int] == t@[i + j]);
                }
            }
            return false;
        }
        j = j + 1;
    }
    assert(t@.subrange(i as int, (i + p@.len()) as int) =~= p@);
    true
}

/// The first position of `p` in `t`.
fn find_seq(t: &Vec<char>, p: &Vec<char>) -> (r: Option<usize>)
    ensures
        match r {
            Some(k) => find_from(t@, p@, 0) == Some(k as nat),
            None => find_from(t@, p@, 0) is None,
        },
{
    if p.len() > t.len() {
        return None;
    }
    let last = t.len() - p.len();
    let mut i: usize = 0;
    while i < last
        invariant
            i <= last,
            last + p@.len() == t@.len(),
            find_from(t@, p@, 0) == find_from(t@, p@, i as nat),
        decreases last - i,
    {
        if matches_at(t, p, i) {
            return Some(i);
        }
        i = i + 1;
    }
    if matches_at(t, p, i) {
        return Some(i);
    }
    assert(find_from(t@, p@, (i + 1) as nat) is None);
    None
}

/// The frame of the user's question.
pub open spec fn question_border_style() -> MdStyle {
    MdStyle { bg: MdColor::Rgb(35, 45, 55), ..fg_only(MdColor::Rgb(100, 140, 180)) }
}

/// The text of the user's question.
pub open spec fn question_text_style() -> MdStyle {
    MdStyle { bg: MdColor::Rgb(35, 45, 55), ..fg_only(MdColor::Rgb(220, 230, 240)) }
}

/// The width of the question box: its longest line and 4, at most 50 and
/// at least 20.
pub open spec fn box_width(t: Seq<char>) -> nat {
    let tl = max_blen(str_lines(t));
    let a = if tl + 4 < 50 { tl + 4 } else { 50 };
    if a < 20 { 20 } else { a }
}

/// The longest prefix of `l` from `k` on whose UTF-8 length is at most `w`.
pub open spec fn fit_from(l: Seq<char>, w: nat, k: nat) -> nat
    decreases l.len() - k,
{
    if k < l.len() && blen(l.take((k + 1) as int)) <= w { fit_from(l, w, k + 1) } else { k }
}

/// The fitting prefix lies between its start and the whole line.
pub proof fn lemma_fit_from(l: Seq<char>, w: nat, k: nat)
    requires
        k <= l.len(),
    ensures
        k <= fit_from(l, w, k) <= l.len(),
    decreases l.len() - k,
{
    if k < l.len() && blen(l.take((k + 1) as int)) <= w {
        lemma_fit_from(l, w, k + 1);
    }
}

/// The characters of the next row of a question line: as many as fit in
/// `w` bytes (at least one).
pub open spec fn chunk_len(l: Seq<char>, w: nat) -> nat {
    let k = fit_from(l, w, 0);
    if k == 0 { 1 } else { k }
}

/// A row of the question box.
pub open spec fn question_row(c: Seq<char>, w: nat, pad: Seq<char>) -> Seq<SpanV> {
    seq![
        (pad, plain()),
        ("│ "@, question_border_style()),
        (c, question_text_style()),
        (repeat_seq(" "@, sat_sub(w, blen(c))), question_text_style()),
        (" │"@, question_border_style()),
    ]
}

/// The rows of a question line, cut into pieces of at most `w` bytes.
pub open spec fn chunk_rows(l: Seq<char>, w: nat, pad: Seq<char>) -> Seq<Seq<SpanV>>
    decreases l.len(),
{
    if l.len() == 0 {
        seq![]
    } else {
        let k = chunk_len(l, w);
        proof { lemma_fit_from(l, w, 0); }
        seq![question_row(l.take(k as int), w, pad)] + chunk_rows(l.skip(k as int), w, pad)
    }
}

/// The rows of all the lines of a question.
pub open spec fn question_rows(ls: Seq<Seq<char>>, w: nat, pad: Seq<char>) -> Seq<Seq<SpanV>>
    decreases ls.len(),
{
    if ls.len() == 0 { seq![] } else { question_rows(ls.drop_last(), w, pad) + chunk_rows(ls.last(), w, pad) }
}

/// The box of the user's question, right-aligned in 78 columns, and an
/// empty line.
pub open spec fn question_box(t: Seq<char>) -> Seq<Seq<SpanV>> {
    let bw = box_width(t);
    let inner = sat_sub(bw, 4);
    let pad = repeat_seq(" "@, sat_sub(78, bw));
    let b = question_border_style();
    let top = seq![(pad, plain()), ("┌"@, b), (repeat_seq("─"@, sat_sub(bw, 2)), b), ("┐"@, b)];
    let rows = question_rows(str_lines(t), inner, pad);
    let blank: Seq<Seq<SpanV>> = if t.len() == 0 {
        seq![seq![(pad, plain()), ("│ "@, b), (repeat_seq(" "@, inner), question_text_style()), (" │"@, b)]]
    } else {
        seq![]
    };
    let bottom = seq![(pad, plain()), ("└"@, b), (repeat_seq("─"@, sat_sub(bw, 2)), b), ("┘"@, b)];
    seq![top] + rows + blank + seq![bottom] + seq![seq![]]
}

/// The texts of rows, one after the other.
pub open spec fn row_texts(rows: Seq<Seq<SpanV>>) -> Seq<char>
    decreases rows.len(),
{
    if rows.len() == 0 { seq![] } else { rows[0][2].0 + row_texts(rows.drop_first()) }
}

/// Cutting a line of a question into rows loses and adds no character:
/// the rows' texts, one after the other, are the line.
pub proof fn law_question_rows_keep_text(l: Seq<char>, w: nat, pad: Seq<char>)
    ensures
        row_texts(chunk_rows(l, w, pad)) == l,
    decreases l.len(),
{
    if l.len() > 0 {
        let k = chunk_len(l, w);
        lemma_fit_from(l, w, 0);
        law_question_rows_keep_text(l.skip(k as int), w, pad);
        let rows = chunk_rows(l, w, pad);
        assert(rows.drop_first() =~= chunk_rows(l.skip(k as int), w, pad));
        assert(rows[0][2].0 == l.take(k as int));
        assert(l.take(k as int) + l.skip(k as int) =~= l);
    }
}

/// The header of the assistant's answer.
pub open spec fn answer_header_style() -> MdStyle {
    MdStyle { bold: true, ..fg_only(MdColor::Rgb(80, 200, 180)) }
}

/// The frame of the assistant's answer.
pub open spec fn answer_border_style() -> MdStyle {
    fg_only(MdColor::Rgb(60, 80, 70))
}

/// The base style of the assistant's answer.
pub open spec fn answer_text_style() -> MdStyle {
    fg_only(MdColor::Rgb(220, 220, 220))
}

/// The assistant's answer: a header, the answer's rendered lines (`inner`)
/// each behind a bar, when the answer is not empty, and an empty line.
pub open spec fn answer_box(t: Seq<char>, inner: Seq<Seq<SpanV>>) -> Seq<Seq<SpanV>> {
    let h = answer_header_style();
    let body = if t.len() > 0 {
        inner.map_values(|l: Seq<SpanV>| seq![("│ "@, answer_border_style())] + l)
    } else {
        seq![]
    };
    seq![seq![("◆ "@, h), ("Axiom"@, h)]] + body + seq![seq![]]
}

/// UTF-8 length of one character.
fn char_bytes(c: char) -> (n: usize)
    ensures
        n == blen(seq![c]),
        1 <= n <= 4,
{
    let mut s = String::new();
    push_char(&mut s, c);
    assert(s@ =~= seq![c]);
    proof {
        assert(encode_utf8(seq![c]) == vstd::utf8::encode_scalar(c as u32) + encode_utf8(seq![c].drop_first()));
        assert(seq![c].drop_first() =~= Seq::<char>::empty());
    }
    byte_len(s.as_str())
}

/// The longest UTF-8 length of the lines.
fn max_line_bytes(ls: &Vec<String>) -> (m: usize)
    ensures
        m == max_blen(lines_view(ls@)),
{
    let ghost lv = lines_view(ls@);
    let mut m: usize = 0;
    let mut i: usize = 0;
    while i < ls.len()
        invariant
            i <= ls@.len(),
            lv == lines_view(ls@),
            m == max_blen(lv.take(i as int)),
        decreases ls@.len() - i,
    {
        assert(lv.take(i + 1).drop_last() =~= lv.take(i as int));
        let b = byte_len(ls[i].as_str());
        if b > m {
            m = b;
        }
        i = i + 1;
    }
    assert(lv.take(ls@.len() as int) =~= lv);
    m
}

/// How many characters of `l` fit in `w` bytes.
fn fit(l: &Vec<char>, w: usize) -> (k: usize)
    ensures
        k == fit_from(l@, w as nat, 0),
{
    let mut k: usize = 0;
    let mut b: usize = 0;
    let mut full = false;
    assert(l@.take(0) =~= Seq::<char>::empty());
    while k < l.len() && !full
        invariant
            k <= l@.len(),
            b == blen(l@.take(k as int)),
            b <= w,
            full ==> (k < l@.len() && blen(l@.take(k + 1)) > w),
            fit_from(l@, w as nat, 0) == fit_from(l@, w as nat, k as nat),
        decreases l@.len() - k + (if full { 0int } else { 1int }),
    {
        let cb = char_bytes(l[k]);
        proof {
            assert(l@.take(k + 1) =~= l@.take(k as int) + seq![l@[k as int]]);
            lemma_encode_concat(l@.take(k as int), seq![l@[k as int]]);
        }
        if cb <= w - b {
            b = b + cb;
            k = k + 1;
        } else {
            full = true;
        }
    }
    k
}

impl Renderer {
    /// Add the rows of one question line.
    fn push_question_line(&mut self, line: &str, w: usize, pad: &str)
        requires
            w <= 46,
        ensures
            final(self)@ == (RenderState { lines: old(self)@.lines + chunk_rows(line@, w as nat, pad@), ..old(self)@ }),
    {
        let mut rest = crate::text::chars_of(line);
        let b = question_border_style_exec();
        let ts = question_text_style_exec();
        let ghost done: Seq<Seq<SpanV>> = seq![];
        while rest.len() > 0
            invariant
                w <= 46,
                b == question_border_style(),
                ts == question_text_style(),
                chunk_rows(line@, w as nat, pad@) == done + chunk_rows(rest@, w as nat, pad@),
                self@ == (RenderState { lines: old(self)@.lines + done, ..old(self)@ }),
            decreases rest@.len(),
        {
            let f = fit(&rest, w);
            let k: usize = if f == 0 { 1 } else { f };
            proof { lemma_fit_from(rest@, w as nat, 0); }
            let chunk = crate::text::string_from_chars(&rest, 0, k);
            let cb = byte_len(chunk.as_str());
            let padding: usize = if w >= cb { w - cb } else { 0 };
            let ghost cv = chunk@;
            let row = vec![
                MdSpan { text: owned(pad), style: plain_style() },
                MdSpan { text: owned("│ "), style: b },
                MdSpan { text: chunk, style: ts },
                MdSpan { text: repeat_text(" ", padding), style: ts },
                MdSpan { text: owned(" │"), style: b },
            ];
            proof {
                assert(cv =~= rest@.take(k as int));
                assert(spans_view(row@) =~= question_row(rest@.take(k as int), w as nat, pad@));
            }
            self.push_line(row);
            let tail = crate::text::string_from_chars(&rest, k, rest.len());
            let ghost old_rest = rest@;
            rest = crate::text::chars_of(tail.as_str());
            proof {
                assert(rest@ =~= old_rest.skip(k as int));
                assert(chunk_rows(old_rest, w as nat, pad@)
                    == seq![question_row(old_rest.take(k as int), w as nat, pad@)] + chunk_rows(rest@, w as nat, pad@));
                let nd = done.push(question_row(old_rest.take(k as int), w as nat, pad@));
                assert(nd + chunk_rows(rest@, w as nat, pad@) =~= done + chunk_rows(old_rest, w as nat, pad@));
                assert(self@.lines =~= old(self)@.lines + nd);
                done = nd;
            }
        }
        assert(done + chunk_rows(rest@, w as nat, pad@) =~= done);
    }

    /// Add the box of the user's question.
    fn push_question_box(&mut self, text: &str)
        ensures
            final(self)@ == (RenderState { lines: old(self)@.lines + question_box(text@), ..old(self)@ }),
    {
        let ls = lines_of(text);
        let ghost lv = lines_view(ls@);
        let tl = max_line_bytes(&ls);
        let a: usize = if tl < 46 { tl + 4 } else { 50 };
        let bw: usize = if a < 20 { 20 } else { a };
        let inner: usize = bw - 4;
        let pad = repeat_text(" ", 78 - bw);
        let b = question_border_style_exec();
        let ts = question_text_style_exec();
        let ghost whole = question_box(text@);
        let top = vec![
            MdSpan { text: owned(pad.as_str()), style: plain_style() },
            MdSpan { text: owned("┌"), style: b },
            MdSpan { text: repeat_text("─", bw - 2), style: b },
            MdSpan { text: owned("┐"), style: b },
        ];
        assert(spans_view(top@) =~= whole[0]);
        self.push_line(top);
        let mut i: usize = 0;
        while i < ls.len()
            invariant
                i <= ls@.len(),
                lv == lines_view(ls@),
                lv == str_lines(text@),
                inner <= 46,
                inner as nat == sat_sub(box_width(text@), 4),
                pad@ == repeat_seq(" "@, sat_sub(78, box_width(text@))),
                self@ == (RenderState {
                    lines: old(self)@.lines + seq![whole[0]] + question_rows(lv.take(i as int), inner as nat, pad@),
                    ..old(self)@
                }),
            decreases ls@.len() - i,
        {
            assert(lv.take(i + 1).drop_last() =~= lv.take(i as int));
            self.push_question_line(ls[i].as_str(), inner, pad.as_str());
            assert(self@.lines =~= old(self)@.lines + seq![whole[0]] + question_rows(lv.take(i + 1), inner as nat, pad@));
            i = i + 1;
        }
        assert(lv.take(ls@.len() as int) =~= lv);
        let ghost rows = question_rows(lv, inner as nat, pad@);
        let ghost blank_v: Seq<Seq<SpanV>> = if text@.len() == 0 {
            seq![seq![(pad@, plain()), ("│ "@, question_border_style()), (repeat_seq(" "@, inner as nat), question_text_style()),
                (" │"@, question_border_style())]]
        } else {
            seq![]
        };
        let ghost bottom_v = seq![(pad@, plain()), ("└"@, question_border_style()),
            (repeat_seq("─"@, sat_sub(box_width(text@), 2)), question_border_style()), ("┘"@, question_border_style())];
        assert(whole =~= seq![whole[0]] + rows + blank_v + seq![bottom_v] + seq![Seq::<SpanV>::empty()]);
        proof {
            if text@.len() == 0 {
                assert(encode_utf8(text@) =~= Seq::<u8>::empty());
            } else {
                assert(encode_utf8(text@).len() > 0);
            }
        }
        if text.as_bytes().len() == 0 {
            let blank = vec![
                MdSpan { text: owned(pad.as_str()), style: plain_style() },
                MdSpan { text: owned("│ "), style: b },
                MdSpan { text: repeat_text(" ", inner), style: ts },
                MdSpan { text: owned(" │"), style: b },
            ];
            assert(spans_view(blank@) =~= blank_v[0]);
            self.push_line(blank);
        }
        assert(self@.lines =~= old(self)@.lines + seq![whole[0]] + rows + blank_v);
        let bottom = vec![
            MdSpan { text: owned(pad.as_str()), style: plain_style() },
            MdSpan { text: owned("└"), style: b },
            MdSpan { text: repeat_text("─", bw - 2), style: b },
            MdSpan { text: owned("┘"), style: b },
        ];
        assert(spans_view(bottom@) =~= bottom_v);
        self.push_line(bottom);
        let empty: Vec<MdSpan> = Vec::new();
        assert(spans_view(empty@) =~= Seq::<SpanV>::empty());
        self.push_line(empty);
        assert(self@.lines =~= old(self)@.lines + whole);
        assert(self@ =~= (RenderState { lines: old(self)@.lines + whole, ..old(self)@ }));
    }

    /// Add the box of the assistant's answer, `inner` being the answer's
    /// rendered lines.
    fn push_answer_box(&mut self, text: &str, inner: Vec<Vec<MdSpan>>)
        ensures
            final(self)@ == (RenderState {
                lines: old(self)@.lines + answer_box(text@, md_lines_view(inner@)),
                ..old(self)@
            }),
    {
        let h = MdStyle { bold: true, ..fg_style(MdColor::Rgb(80, 200, 180)) };
        let border = fg_style(MdColor::Rgb(60, 80, 70));
        let ghost whole = answer_box(text@, md_lines_view(inner@));
        let head = vec![MdSpan { text: owned("◆ "), style: h }, MdSpan { text: owned("Axiom"), style: h }];
        assert(spans_view(head@) =~= whole[0]);
        self.push_line(head);
        let ghost iv = md_lines_view(inner@);
        let nonempty = text.unicode_len() > 0;
        if nonempty {
            let mut i: usize = 0;
            while i < inner.len()
                invariant
                    i <= inner@.len(),
                    iv == md_lines_view(inner@),
                    border == answer_border_style(),
                    self@ == (RenderState {
                        lines: old(self)@.lines + seq![whole[0]]
                            + iv.take(i as int).map_values(|l: Seq<SpanV>| seq![("│ "@, answer_border_style())] + l),
                        ..old(self)@
                    }),
                decreases inner@.len() - i,
            {
                let mut line: Vec<MdSpan> = vec![MdSpan { text: owned("│ "), style: border }];
                let src = &inner[i];
                let mut j: usize = 0;
                while j < src.len()
                    invariant
                        j <= src@.len(),
                        spans_view(line@) == seq![("│ "@, answer_border_style())] + spans_view(src@).take(j as int),
                    decreases src@.len() - j,
                {
                    let ghost before = line@;
                    line.push(MdSpan { text: owned(src[j].text.as_str()), style: src[j].style });
                    assert(spans_view(line@) =~= spans_view(before).push((src@[j as int].text@, src@[j as int].style)));
                    assert(spans_view(src@).take(j + 1) =~= spans_view(src@).take(j as int).push((src@[j as int].text@, src@[j as int].style)));
                    j = j + 1;
                }
                assert(spans_view(src@).take(src@.len() as int) =~= spans_view(src@));
                assert(iv[i as int] == spans_view(src@));
                self.push_line(line);
                assert(iv.take(i + 1).map_values(|l: Seq<SpanV>| seq![("│ "@, answer_border_style())] + l)
                    =~= iv.take(i as int).map_values(|l: Seq<SpanV>| seq![("│ "@, answer_border_style())] + l)
                        .push(seq![("│ "@, answer_border_style())] + iv[i as int]));
                i = i + 1;
            }
            assert(iv.take(inner@.len() as int) =~= iv);
        }
        let empty: Vec<MdSpan> = Vec::new();
        assert(spans_view(empty@) =~= Seq::<SpanV>::empty());
        self.push_line(empty);
        assert(self@.lines =~= old(self)@.lines + whole);
        assert(self@ =~= (RenderState { lines: old(self)@.lines + whole, ..old(self)@ }));
    }
}

fn question_border_style_exec() -> (r: MdStyle)
    ensures
        r == question_border_style(),
{
    rgb_style((100, 140, 180), (35, 45, 55))
}

fn question_text_style_exec() -> (r: MdStyle)
    ensures
        r == question_text_style(),
{
    rgb_style((220, 230, 240), (35, 45, 55))
}

/// A part of agent output: markdown, a question of the user (marked
/// `>>>user` ... `<<<`) or an answer of the assistant (marked `>>>axiom`
/// ... `<<<`).
pub enum MdPiece {
    Markdown(Seq<char>),
    Question(Seq<char>),
    Answer(Seq<char>),
}

/// The mark that opens a question.
pub open spec fn question_marker() -> Seq<char> {
    seq!['>', '>', '>', 'u', 's', 'e', 'r', '\n']
}

/// The mark that opens an answer.
pub open spec fn answer_marker() -> Seq<char> {
    seq!['>', '>', '>', 'a', 'x', 'i', 'o', 'm', '\n']
}

/// The mark that closes a question or an answer.
pub open spec fn close_marker() -> Seq<char> {
    seq!['\n', '<', '<', '<']
}

/// The first of two found positions is `x`.
pub open spec fn first_of(x: Option<nat>, y: Option<nat>) -> bool {
    match x {
        Some(i) => match y {
            Some(j) => i < j,
            None => true,
        },
        None => false,
    }
}

/// The parts of agent output, in order: the text before the first mark is
/// markdown; a question runs to its closing mark (with none, the rest from
/// the mark on is markdown); an answer runs to its closing mark (with none,
/// to the end).
#[verifier::opaque]
pub open spec fn pieces(t: Seq<char>) -> Seq<MdPiece>
    decreases t.len(),
{
    if t.len() == 0 {
        seq![]
    } else {
        let u = find_from(t, question_marker(), 0);
        let a = find_from(t, answer_marker(), 0);
        proof {
            lemma_find_from(t, question_marker(), 0);
            lemma_find_from(t, answer_marker(), 0);
        }
        if first_of(u, a) {
            let x = u.unwrap();
            let pre: Seq<MdPiece> = if x > 0 { seq![MdPiece::Markdown(t.take(x as int))] } else { seq![] };
            let body = t.skip((x + 8) as int);
            proof { lemma_find_from(body, close_marker(), 0); }
            match find_from(body, close_marker(), 0) {
                Some(k) => pre + seq![MdPiece::Question(body.take(k as int))] + pieces(body.skip((k + 4) as int)),
                None => pre + seq![MdPiece::Markdown(t.skip(x as int))],
            }
        } else if first_of(a, u) {
            let x = a.unwrap();
            let pre: Seq<MdPiece> = if x > 0 { seq![MdPiece::Markdown(t.take(x as int))] } else { seq![] };
            let body = t.skip((x + 9) as int);
            proof { lemma_find_from(body, close_marker(), 0); }
            match find_from(body, close_marker(), 0) {
                Some(k) => pre + seq![MdPiece::Answer(body.take(k as int))] + pieces(body.skip((k + 4) as int)),
                None => pre + seq![MdPiece::Answer(body)],
            }
        } else {
            seq![MdPiece::Markdown(t)]
        }
    }
}

/// The state after a part: its markdown rendered from the parser's events,
/// the question's box, or the answer's box around its rendering (a
/// renderer of its own, in the answer's style).
pub open spec fn piece_step(s: RenderState, p: MdPiece) -> RenderState {
    match p {
        MdPiece::Markdown(t) => after_events(s, md_events(t)),
        MdPiece::Question(t) => RenderState { lines: s.lines + question_box(t), ..s },
        MdPiece::Answer(t) => RenderState {
            lines: s.lines + answer_box(t, finished(after_events(fresh(answer_text_style()), md_events(t)))),
            ..s
        },
    }
}

/// The state after the parts, in order.
#[verifier::opaque]
pub open spec fn render_pieces(s: RenderState, ps: Seq<MdPiece>) -> RenderState
    decreases ps.len(),
{
    if ps.len() == 0 {
        s
    } else {
        piece_step(render_pieces(s, ps.drop_last()), ps.last())
    }
}

/// One more part is one more step.
pub proof fn lemma_render_push(s: RenderState, ps: Seq<MdPiece>, p: MdPiece)
    ensures
        render_pieces(s, ps.push(p)) == piece_step(render_pieces(s, ps), p),
{
    reveal(render_pieces);
    assert(ps.push(p).drop_last() =~= ps);
}

fn answer_text_style_exec() -> (r: MdStyle)
    ensures
        r == answer_text_style(),
{
    fg_style(MdColor::Rgb(220, 220, 220))
}

/// The characters of `v` from `from` to `to`.
fn sub_chars(v: &Vec<char>, from: usize, to: usize) -> (r: Vec<char>)
    requires
        from <= to <= v@.len(),
    ensures
        r@ == v@.subrange(from as int, to as int),
{
    let s = crate::text::string_from_chars(v, from, to);
    crate::text::chars_of(s.as_str())
}

/// Render a markdown part.
fn markdown_piece(rd: &mut Renderer, seg: &str, Ghost(base): Ghost<MdStyle>, Ghost(done): Ghost<Seq<MdPiece>>)
    requires
        old(rd)@ == render_pieces(fresh(base), done),
    ensures
        final(rd)@ == render_pieces(fresh(base), done.push(MdPiece::Markdown(seg@))),
{
    let ev = markdown_events(seg);
    rd.events(&ev);
    proof { lemma_render_push(fresh(base), done, MdPiece::Markdown(seg@)); }
}

/// Render a question part.
fn question_piece(rd: &mut Renderer, block: &str, Ghost(base): Ghost<MdStyle>, Ghost(done): Ghost<Seq<MdPiece>>)
    requires
        old(rd)@ == render_pieces(fresh(base), done),
    ensures
        final(rd)@ == render_pieces(fresh(base), done.push(MdPiece::Question(block@))),
{
    rd.push_question_box(block);
    proof { lemma_render_push(fresh(base), done, MdPiece::Question(block@)); }
}

/// Render an answer part; an empty answer's box has no rendered lines.
fn answer_piece(rd: &mut Renderer, block: &str, Ghost(base): Ghost<MdStyle>, Ghost(done): Ghost<Seq<MdPiece>>)
    requires
        old(rd)@ == render_pieces(fresh(base), done),
    ensures
        final(rd)@ == render_pieces(fresh(base), done.push(MdPiece::Answer(block@))),
{
    if block.unicode_len() > 0 {
        let ev = markdown_events(block);
        let inner = render_events(&ev, answer_text_style_exec());
        rd.push_answer_box(block, inner);
    } else {
        let no_lines: Vec<Vec<MdSpan>> = Vec::new();
        proof {
            assert(answer_box(block@, md_lines_view(no_lines@))
                =~= answer_box(block@, finished(after_events(fresh(answer_text_style()), md_events(block@)))));
        }
        rd.push_answer_box(block, no_lines);
    }
    proof { lemma_render_push(fresh(base), done, MdPiece::Answer(block@)); }
}

/// The lines of agent output: questions and answers in boxes, the rest as
/// markdown, in base style `base`. The markdown of each part is rendered
/// from the events the parser reads from it.
pub fn render_markdown(text: &str, base: MdStyle) -> (r: Vec<Vec<MdSpan>>)
    ensures
        md_lines_view(r@) == finished(render_pieces(fresh(base), pieces(text@))),
{
    let q = crate::text::chars_of(">>>user\n");
    let a = crate::text::chars_of(">>>axiom\n");
    let c = crate::text::chars_of("\n<<<");
    proof {
        reveal_strlit(">>>user\n");
        reveal_strlit(">>>axiom\n");
        reveal_strlit("\n<<<");
        assert(q@ =~= question_marker());
        assert(a@ =~= answer_marker());
        assert(c@ =~= close_marker());
    }
    let mut rest = crate::text::chars_of(text);
    let mut rd = Renderer::new(base);
    let ghost mut done: Seq<MdPiece> = seq![];
    assert(rd@ == render_pieces(fresh(base), done)) by { reveal(render_pieces); }
    while rest.len() > 0
        invariant
            q@ == question_marker(),
            a@ == answer_marker(),
            c@ == close_marker(),
            pieces(text@) == done + pieces(rest@),
            rd@ == render_pieces(fresh(base), done),
        decreases rest@.len(),
    {
        let ghost t = rest@;
        let ghost done0 = done;
        let u = find_seq(&rest, &q);
        let av = find_seq(&rest, &a);
        let ghost us = find_from(t, question_marker(), 0);
        let ghost avs = find_from(t, answer_marker(), 0);
        proof {
            lemma_find_from(t, question_marker(), 0);
            lemma_find_from(t, answer_marker(), 0);
        }
        let take_q = match u { Some(x) => match av { Some(y) => x < y, None => true }, None => false };
        let take_a = match av { Some(y) => match u { Some(x) => y < x, None => true }, None => false };
        assert(take_q == first_of(us, avs));
        assert(take_a == first_of(avs, us));
        if take_q || take_a {
            let x: usize = if take_q { match u { Some(v) => v, None => 0 } } else { match av { Some(v) => v, None => 0 } };
            let mlen: usize = if take_q { 8 } else { 9 };
            let ghost pre: Seq<MdPiece> = if x > 0 { seq![MdPiece::Markdown(t.take(x as int))] } else { seq![] };
            if x > 0 {
                let seg = crate::text::string_from_chars(&rest, 0, x);
                assert(seg@ =~= t.take(x as int));
                markdown_piece(&mut rd, seg.as_str(), Ghost(base), Ghost(done));
                proof {
                    done = done.push(MdPiece::Markdown(seg@));
                }
            }
            assert(done =~= done0 + pre);
            let body = sub_chars(&rest, x + mlen, rest.len());
            assert(body@ =~= t.skip(x + mlen));
            let found = find_seq(&body, &c);
            proof { lemma_find_from(body@, close_marker(), 0); }
            match found {
                Some(k) => {
                    let block = crate::text::string_from_chars(&body, 0, k);
                    assert(block@ =~= body@.take(k as int));
                    let ghost piece = if take_q { MdPiece::Question(block@) } else { MdPiece::Answer(block@) };
                    if take_q {
                        question_piece(&mut rd, block.as_str(), Ghost(base), Ghost(done));
                    } else {
                        answer_piece(&mut rd, block.as_str(), Ghost(base), Ghost(done));
                    }
                    let next = sub_chars(&body, k + 4, body.len());
                    proof {
                        assert(next@ =~= body@.skip(k + 4));
                        assert(pieces(t) == pre + seq![piece] + pieces(next@)) by { reveal(pieces); }
                        assert(done0 + pieces(t) =~= done.push(piece) + pieces(next@));
                        done = done.push(piece);
                    }
                    rest = next;
                }
                None => {
                    let ghost piece;
                    if take_q {
                        let seg = sub_chars(&rest, x, rest.len());
                        let segs = crate::text::string_of_chars(&seg);
                        assert(segs@ =~= t.skip(x as int));
                        markdown_piece(&mut rd, segs.as_str(), Ghost(base), Ghost(done));
                        proof {
                            piece = MdPiece::Markdown(segs@);
                        }
                    } else {
                        let whole = crate::text::string_of_chars(&body);
                        answer_piece(&mut rd, whole.as_str(), Ghost(base), Ghost(done));
                        proof {
                            piece = MdPiece::Answer(whole@);
                        }
                    }
                    proof {
                        assert(pieces(t) == pre + seq![piece]) by { reveal(pieces); }
                        assert(pieces(Seq::<char>::empty()) == Seq::<MdPiece>::empty()) by { reveal(pieces); }
                        assert(done0 + pieces(t) =~= done.push(piece) + pieces(Seq::<char>::empty()));
                        done = done.push(piece);
                    }
                    rest = Vec::new();
                }
            }
        } else {
            let whole = crate::text::string_of_chars(&rest);
            markdown_piece(&mut rd, whole.as_str(), Ghost(base), Ghost(done));
            proof {
                let piece = MdPiece::Markdown(t);
                assert(pieces(t) == seq![piece]) by { reveal(pieces); }
                assert(pieces(Seq::<char>::empty()) == Seq::<MdPiece>::empty()) by { reveal(pieces); }
                assert(done0 + pieces(t) =~= done.push(piece) + pieces(Seq::<char>::empty()));
                done = done.push(piece);
            }
            rest = Vec::new();
        }
    }
    let r = rd.finish();
    assert(pieces(rest@) == Seq::<MdPiece>::empty()) by { reveal(pieces); }
    assert(done + pieces(rest@) =~= done);
    r
}

/// Text with no line break goes on the line being built as one piece.
proof fn lemma_text_one_line(s: RenderState, part: Seq<char>, rest: Seq<char>, st: MdStyle)
    requires
        !rest.contains('\n'),
    ensures
        text_step(s, part, rest, st) == with_part(s, part + rest, st),
    decreases rest.len(),
{
    if rest.len() == 0 {
        assert(part + rest =~= part);
    } else {
        assert(rest[0] != '\n') by {
            if rest[0] == '\n' {
                assert(rest.contains('\n'));
            }
        }
        let r1 = rest.drop_first();
        assert(!r1.contains('\n')) by {
            if r1.contains('\n') {
                let i = choose|i: int| 0 <= i < r1.len() && r1[i] == '\n';
                assert(rest[i + 1] == '\n');
            }
        }
        lemma_text_one_line(s, part.push(rest[0]), r1, st);
        assert(part.push(rest[0]) + r1 =~= part + rest);
    }
}

proof fn lemma_wrapped(s: RenderState, tag: MdTag, t: String, end: MdTagEnd, st: MdStyle)
    requires
        !s.in_code,
        s.styles.len() >= 1,
        t@.len() > 0,
        !t@.contains('\n'),
        after_start(s, tag) == pushed_style(s, st),
        forall|x: RenderState| #[trigger] after_end(x, end) == popped_style(x),
    ensures
        ({
            let r = after_events(s, wrapped(tag, t, end));
            &&& r.cur == s.cur.push((t@, st))
            &&& r.styles == s.styles
            &&& r.lines == s.lines
        }),
{
    let evs = wrapped(tag, t, end);
    assert(evs.drop_last() =~= seq![MdEvent::Start(tag), MdEvent::Text(t)]);
    assert(evs.drop_last().drop_last() =~= seq![MdEvent::Start(tag)]);
    assert(evs.drop_last().drop_last().drop_last() =~= Seq::<MdEvent>::empty());
    let s1 = pushed_style(s, st);
    let one = evs.drop_last().drop_last();
    assert(after_events(s, one.drop_last()) == s);
    assert(one.last() == MdEvent::Start(tag));
    assert(after_event(s, MdEvent::Start(tag)) == s1);
    assert(after_events(s, one) == s1);
    assert(cur_style(s1) == st);
    lemma_text_one_line(s1, seq![], t@, st);
    assert(Seq::<char>::empty() + t@ =~= t@);
    let s2 = with_span(s1, t@, st);
    assert(after_events(s, evs.drop_last()) == s2);
    assert(after_events(s, evs) == after_end(s2, end));
    assert(s2.styles.drop_last() =~= s.styles);
}

/// A piece of text between an opening and a closing inline tag.
pub open spec fn wrapped(tag: MdTag, t: String, end: MdTagEnd) -> Seq<MdEvent> {
    seq![MdEvent::Start(tag), MdEvent::Text(t), MdEvent::End(end)]
}

/// Law: emphasis, strong emphasis and strikethrough style their text. Text
/// of one line between the opening and the closing tag goes on the line
/// being built as one piece, in the style around it with italics, bold or
/// crossing-out added; afterwards the style around it is back.
pub proof fn law_inline_tags_style_their_text(s: RenderState, t: String)
    requires
        !s.in_code,
        s.styles.len() >= 1,
        t@.len() > 0,
        !t@.contains('\n'),
    ensures
        ({
            let r = after_events(s, wrapped(MdTag::Emphasis, t, MdTagEnd::Emphasis));
            &&& r.cur == s.cur.push((t@, MdStyle { italic: true, ..cur_style(s) }))
            &&& r.styles == s.styles
            &&& r.lines == s.lines
        }),
        ({
            let r = after_events(s, wrapped(MdTag::Strong, t, MdTagEnd::Strong));
            &&& r.cur == s.cur.push((t@, MdStyle { bold: true, ..cur_style(s) }))
            &&& r.styles == s.styles
            &&& r.lines == s.lines
        }),
        ({
            let r = after_events(s, wrapped(MdTag::Strikethrough, t, MdTagEnd::Strikethrough));
            &&& r.cur == s.cur.push((t@, MdStyle { crossed: true, ..cur_style(s) }))
            &&& r.styles == s.styles
            &&& r.lines == s.lines
        }),
{
    lemma_wrapped(s, MdTag::Emphasis, t, MdTagEnd::Emphasis, MdStyle { italic: true, ..cur_style(s) });
    lemma_wrapped(s, MdTag::Strong, t, MdTagEnd::Strong, MdStyle { bold: true, ..cur_style(s) });
    lemma_wrapped(s, MdTag::Strikethrough, t, MdTagEnd::Strikethrough, MdStyle { crossed: true, ..cur_style(s) });
}

} // verus!
