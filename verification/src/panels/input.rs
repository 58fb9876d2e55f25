//! The input panel: a one-line editor with selection and history, and how
//! a submitted line is routed (plain text to the conductor, `!` or `:` to
//! the shell).

use vstd::prelude::*;
use crate::keys::{KeyCode, KeyEvent};
use crate::text::{
    chars_of, lines_view, splice_chars, string_of_chars, string_from_chars, trim, trim_view, leading_ws,
    is_whitespace, unicode_whitespace,
};

verus! {

/// Parsed input command.
#[derive(Debug, Clone)]
pub enum InputCommand {
    /// Chat message to the conductor.
    Chat(String),
    /// Shell command (prefixed with `!` or `:`).
    Shell(String),
    /// Empty input.
    Empty,
}

/// The command a line is: empty when only whitespace, a shell command
/// (without its prefix) when it starts with `!` or `:` after trimming,
/// otherwise a chat message (trimmed).
pub open spec fn command_of(input: Seq<char>) -> (nat, Seq<char>) {
    let t = trim_view(input);
    if t.len() == 0 {
        (0, Seq::empty())
    } else if t[0] == '!' || t[0] == ':' {
        (1, t.skip(1))
    } else {
        (2, t)
    }
}

/// The plain view of a command: its kind (0 empty, 1 shell, 2 chat) and
/// text.
pub open spec fn command_view(c: InputCommand) -> (nat, Seq<char>) {
    match c {
        InputCommand::Empty => (0, Seq::empty()),
        InputCommand::Shell(s) => (1, s@),
        InputCommand::Chat(s) => (2, s@),
    }
}

impl InputCommand {
    /// Parse input text into a command.
    pub fn parse(input: &str) -> (c: Self)
        ensures
            command_view(c) == command_of(input@),
    {
        let t = trim(input);
        let v = chars_of(t.as_str());
        if v.len() == 0 {
            return InputCommand::Empty;
        }
        if v[0] == '!' || v[0] == ':' {
            InputCommand::Shell(string_from_chars(&v, 1, v.len()))
        } else {
            assert(v@.subrange(0, v@.len() as int) =~= v@);
            InputCommand::Chat(string_from_chars(&v, 0, v.len()))
        }
    }
}

/// The mathematical value of the input panel.
pub struct InputView {
    /// The text being typed.
    pub text: Seq<char>,
    /// Cursor position (in characters).
    pub cursor: nat,
    /// Where the selection started, if one is active.
    pub anchor: Option<nat>,
    /// Submitted lines, oldest first.
    pub history: Seq<Seq<char>>,
    /// The history entry being shown, if browsing.
    pub history_index: Option<nat>,
    /// The text typed before browsing the history.
    pub saved: Seq<char>,
    /// A request is being processed.
    pub processing: bool,
}

/// Most lines kept in the history.
pub const MAX_INPUT_HISTORY: usize = 100;

/// The selected range, ordered.
pub open spec fn sel_span(v: InputView) -> Option<(nat, nat)> {
    match v.anchor {
        Some(a) => Some(if a <= v.cursor { (a, v.cursor) } else { (v.cursor, a) }),
        None => None,
    }
}

/// The selected text.
pub open spec fn selected(v: InputView) -> Option<Seq<char>> {
    match sel_span(v) {
        Some((s, e)) => Some(v.text.subrange(s as int, e as int)),
        None => None,
    }
}

/// The selection deleted (nothing when none is active).
pub open spec fn without_selection(v: InputView) -> InputView {
    match sel_span(v) {
        Some((s, e)) => InputView { text: v.text.take(s as int) + v.text.skip(e as int), cursor: s, anchor: None, ..v },
        None => v,
    }
}

/// The anchor after a move: kept (or set at the cursor) when extending,
/// cleared otherwise.
pub open spec fn moved_anchor(v: InputView, extend: bool) -> Option<nat> {
    if extend {
        match v.anchor {
            Some(a) => Some(a),
            None => Some(v.cursor),
        }
    } else {
        None
    }
}

/// `s` inserted at the cursor, over the selection if any.
pub open spec fn inserted(v: InputView, s: Seq<char>) -> InputView {
    let w = without_selection(v);
    InputView { text: w.text.take(w.cursor as int) + s + w.text.skip(w.cursor as int), cursor: w.cursor + s.len(), ..w }
}

/// Backspace: the selection deleted, or the character before the cursor.
pub open spec fn backspaced(v: InputView) -> InputView {
    if v.anchor is Some {
        without_selection(v)
    } else if v.cursor > 0 {
        InputView { text: v.text.take(v.cursor - 1) + v.text.skip(v.cursor as int), cursor: (v.cursor - 1) as nat, ..v }
    } else {
        v
    }
}

/// Delete: the selection deleted, or the character at the cursor.
pub open spec fn deleted(v: InputView) -> InputView {
    if v.anchor is Some {
        without_selection(v)
    } else if v.cursor < v.text.len() {
        InputView { text: v.text.take(v.cursor as int) + v.text.skip((v.cursor + 1) as int), ..v }
    } else {
        v
    }
}

/// Up: the previous history entry (the newest one at first, saving what
/// was typed), the cursor at its end.
pub open spec fn history_back(v: InputView) -> InputView {
    if v.history.len() == 0 {
        v
    } else {
        let w = match v.history_index {
            None => InputView {
                saved: v.text,
                history_index: Some((v.history.len() - 1) as nat),
                text: v.history.last(),
                ..v
            },
            Some(i) => if i > 0 {
                InputView { history_index: Some((i - 1) as nat), text: v.history[i - 1], ..v }
            } else {
                v
            },
        };
        InputView { cursor: w.text.len(), anchor: None, ..w }
    }
}

/// Down: the next history entry, or back to what was typed after the
/// newest one; the cursor at its end.
pub open spec fn history_forward(v: InputView) -> InputView {
    let w = match v.history_index {
        Some(i) => if i + 1 < v.history.len() {
            InputView { history_index: Some(i + 1), text: v.history[(i + 1) as int], ..v }
        } else {
            InputView { history_index: None, text: v.saved, ..v }
        },
        None => v,
    };
    InputView { cursor: w.text.len(), anchor: None, ..w }
}

/// The history after submitting `line`: appended, the oldest dropped past
/// the limit.
pub open spec fn history_after(h: Seq<Seq<char>>, line: Seq<char>) -> Seq<Seq<char>> {
    let g = h.push(line);
    if g.len() > MAX_INPUT_HISTORY { g.skip(1) } else { g }
}

/// Submitting: nothing while processing or for a blank line; otherwise the
/// line is added to the history and the input cleared.
pub open spec fn submitted(v: InputView) -> InputView {
    if trim_view(v.text).len() == 0 || v.processing {
        v
    } else {
        InputView {
            text: Seq::empty(),
            cursor: 0,
            anchor: None,
            history: history_after(v.history, v.text),
            history_index: None,
            ..v
        }
    }
}

/// Text from the clipboard as the input takes it: newlines become spaces,
/// carriage returns are dropped.
pub open spec fn cleaned(s: Seq<char>) -> Seq<char>
    decreases s.len(),
{
    if s.len() == 0 {
        seq![]
    } else {
        let rest = cleaned(s.drop_last());
        if s.last() == '\n' { rest.push(' ') } else if s.last() == '\r' { rest } else { rest.push(s.last()) }
    }
}

/// What a key asks of the application besides changing the input.
#[derive(Debug, Clone)]
pub enum InputRequest {
    /// Nothing.
    Nothing,
    /// Send this command (chat to the conductor, or a shell command).
    Submit(InputCommand),
    /// Put this text on the clipboard.
    Copy(String),
    /// Read the clipboard and hand its text to `paste_text`.
    Paste,
}

/// The outcome of a key.
#[derive(Debug, Clone)]
pub struct InputKeyOutcome {
    /// The key was the panel's.
    pub handled: bool,
    /// What the application should do.
    pub request: InputRequest,
}

/// Input panel state.
pub struct InputPanel {
    input: Vec<char>,
    cursor: usize,
    selection_anchor: Option<usize>,
    history: Vec<String>,
    history_index: Option<usize>,
    saved_input: Vec<char>,
    is_processing: bool,
}

impl View for InputPanel {
    type V = InputView;

    closed spec fn view(&self) -> InputView {
        InputView {
            text: self.input@,
            cursor: self.cursor as nat,
            anchor: match self.selection_anchor { Some(a) => Some(a as nat), None => None },
            history: lines_view(self.history@),
            history_index: match self.history_index { Some(i) => Some(i as nat), None => None },
            saved: self.saved_input@,
            processing: self.is_processing,
        }
    }
}

/// The cursor and anchor lie within the text, the history index within
/// the history, and the history within its limit.
pub open spec fn input_wf(v: InputView) -> bool {
    &&& v.cursor <= v.text.len()
    &&& v.anchor matches Some(a) ==> a <= v.text.len()
    &&& v.history_index matches Some(i) ==> i < v.history.len()
    &&& v.history.len() <= MAX_INPUT_HISTORY
}

/// The input after a key: Enter submits (Shift+Enter breaks the line),
/// arrows, Home and End move (selecting with Shift), Up and Down browse the
/// history, Backspace and Delete delete, Ctrl+X cuts, Ctrl+A selects all,
/// Ctrl+U clears, characters are typed (not with Ctrl), Esc drops the
/// selection.
pub open spec fn after_key(v: InputView, key: KeyEvent) -> InputView {
    let shift = key.modifiers.shift;
    let ctrl = key.modifiers.control;
    match key.code {
        KeyCode::Enter => if !shift { submitted(v) } else { inserted(v, seq!['\n']) },
        KeyCode::Left => InputView {
            anchor: moved_anchor(v, shift),
            cursor: if v.cursor > 0 { (v.cursor - 1) as nat } else { 0 },
            ..v
        },
        KeyCode::Right => InputView {
            anchor: moved_anchor(v, shift),
            cursor: if v.cursor < v.text.len() { v.cursor + 1 } else { v.cursor },
            ..v
        },
        KeyCode::Home => InputView { anchor: moved_anchor(v, shift), cursor: 0, ..v },
        KeyCode::End => InputView { anchor: moved_anchor(v, shift), cursor: v.text.len(), ..v },
        KeyCode::Up => history_back(v),
        KeyCode::Down => history_forward(v),
        KeyCode::Backspace => backspaced(v),
        KeyCode::Delete => deleted(v),
        KeyCode::Char(c) =>
            if ctrl && c == 'x' {
                if v.anchor is Some { without_selection(v) } else { v }
            } else if ctrl && c == 'a' {
                InputView { anchor: Some(0), cursor: v.text.len(), ..v }
            } else if ctrl && c == 'u' {
                InputView { text: Seq::empty(), cursor: 0, anchor: None, ..v }
            } else if ctrl {
                v
            } else {
                inserted(v, seq![c])
            },
        KeyCode::Esc => InputView { anchor: None, ..v },
        _ => v,
    }
}

/// Whether a key is the input panel's: all of the above but Esc without a
/// selection.
pub open spec fn key_taken(v: InputView, key: KeyEvent) -> bool {
    match key.code {
        KeyCode::Enter | KeyCode::Left | KeyCode::Right | KeyCode::Home | KeyCode::End | KeyCode::Up
        | KeyCode::Down | KeyCode::Backspace | KeyCode::Delete | KeyCode::Char(_) => true,
        KeyCode::Esc => v.anchor is Some,
        _ => false,
    }
}

/// Room to type `n` more characters.
pub open spec fn room_for(v: InputView, n: nat) -> bool {
    v.text.len() + n <= usize::MAX
}

impl InputPanel {
    /// The cursor, anchor and history index lie in range.
    pub open spec fn wf(&self) -> bool {
        input_wf(self@)
    }

    /// An empty input.
    pub fn new() -> (p: Self)
        ensures
            p.wf(),
            p@.text == Seq::<char>::empty(),
            p@.cursor == 0,
            p@.anchor is None,
            p@.history == Seq::<Seq<char>>::empty(),
            p@.history_index is None,
            p@.saved == Seq::<char>::empty(),
            !p@.processing,
    {
        let p = InputPanel {
            input: Vec::new(),
            cursor: 0,
            selection_anchor: None,
            history: Vec::new(),
            history_index: None,
            saved_input: Vec::new(),
            is_processing: false,
        };
        assert(lines_view(p.history@) =~= Seq::<Seq<char>>::empty());
        p
    }

    /// Mark a request as being processed (or done).
    pub fn set_processing(&mut self, processing: bool)
        ensures
            final(self)@ == (InputView { processing: processing, ..old(self)@ }),
    {
        self.is_processing = processing;
    }

    /// Whether a request is being processed.
    pub fn is_processing(&self) -> (b: bool)
        ensures
            b == self@.processing,
    {
        self.is_processing
    }

    /// The text being typed.
    pub fn text(&self) -> (s: String)
        ensures
            s@ == self@.text,
    {
        string_of_chars(&self.input)
    }

    /// The cursor position.
    pub fn cursor(&self) -> (c: usize)
        ensures
            c == self@.cursor,
    {
        self.cursor
    }

    /// The selected range, ordered.
    pub fn selection_range(&self) -> (r: Option<(usize, usize)>)
        ensures
            match r {
                Some((s, e)) => sel_span(self@) == Some((s as nat, e as nat)),
                None => sel_span(self@) is None,
            },
    {
        match self.selection_anchor {
            Some(a) => Some(if a <= self.cursor { (a, self.cursor) } else { (self.cursor, a) }),
            None => None,
        }
    }

    /// The selected text.
    pub fn selected_text(&self) -> (r: Option<String>)
        requires
            self.wf(),
        ensures
            match r {
                Some(t) => selected(self@) == Some(t@),
                None => selected(self@) is None,
            },
    {
        match self.selection_range() {
            Some((s, e)) => Some(string_from_chars(&self.input, s, e)),
            None => None,
        }
    }

    fn delete_selection(&mut self)
        requires
            old(self).wf(),
        ensures
            final(self).wf(),
            final(self)@ == without_selection(old(self)@),
    {
        if let Some((s, e)) = self.selection_range() {
            let empty: Vec<char> = Vec::new();
            self.input = splice_chars(&self.input, s, e, &empty);
            self.cursor = s;
            self.selection_anchor = None;
            assert(self@.text =~= old(self)@.text.take(s as int) + old(self)@.text.skip(e as int));
        }
    }

    fn insert_chars(&mut self, ins: &Vec<char>)
        requires
            old(self).wf(),
            room_for(old(self)@, ins@.len()),
        ensures
            final(self).wf(),
            final(self)@ == inserted(old(self)@, ins@),
    {
        if self.selection_anchor.is_some() {
            self.delete_selection();
        }
        let c = self.cursor;
        self.input = splice_chars(&self.input, c, c, ins);
        self.cursor = c + ins.len();
        assert(self@.text =~= without_selection(old(self)@).text.take(c as int) + ins@
            + without_selection(old(self)@).text.skip(c as int));
    }

    fn move_anchor(&mut self, extend: bool)
        ensures
            final(self)@ == (InputView { anchor: moved_anchor(old(self)@, extend), ..old(self)@ }),
    {
        if extend && self.selection_anchor.is_none() {
            self.selection_anchor = Some(self.cursor);
        } else if !extend {
            self.selection_anchor = None;
        }
    }

    fn history_prev(&mut self)
        requires
            old(self).wf(),
        ensures
            final(self).wf(),
            final(self)@ == history_back(old(self)@),
    {
        let n = self.history.len();
        if n == 0 {
            return;
        }
        match self.history_index {
            None => {
                self.saved_input = self.input.clone();
                self.history_index = Some(n - 1);
                self.input = chars_of(self.history[n - 1].as_str());
            },
            Some(i) => {
                if i > 0 {
                    self.history_index = Some(i - 1);
                    self.input = chars_of(self.history[i - 1].as_str());
                }
            },
        }
        self.cursor = self.input.len();
        self.selection_anchor = None;
    }

    fn history_next(&mut self)
        requires
            old(self).wf(),
        ensures
            final(self).wf(),
            final(self)@ == history_forward(old(self)@),
    {
        match self.history_index {
            Some(i) => {
                if i + 1 < self.history.len() {
                    self.history_index = Some(i + 1);
                    self.input = chars_of(self.history[i + 1].as_str());
                } else {
                    self.history_index = None;
                    self.input = self.saved_input.clone();
                }
            },
            None => {},
        }
        self.cursor = self.input.len();
        self.selection_anchor = None;
    }

    fn submit(&mut self) -> (c: Option<InputCommand>)
        requires
            old(self).wf(),
        ensures
            final(self).wf(),
            final(self)@ == submitted(old(self)@),
            c is Some <==> !(trim_view(old(self)@.text).len() == 0 || old(self)@.processing),
            c matches Some(cmd) ==> command_view(cmd) == command_of(old(self)@.text),
    {
        let line = string_of_chars(&self.input);
        let t = trim(line.as_str());
        if t.as_str().is_empty() || self.is_processing {
            return None;
        }
        let command = InputCommand::parse(line.as_str());
        let ghost h = self.history@;
        let ghost text = self.input@;
        self.history.push(line);
        assert(lines_view(self.history@) =~= lines_view(h).push(text));
        if self.history.len() > MAX_INPUT_HISTORY {
            let ghost g = self.history@;
            self.history.remove(0);
            assert(lines_view(self.history@) =~= lines_view(g).skip(1));
        }
        self.input = Vec::new();
        self.cursor = 0;
        self.history_index = None;
        self.selection_anchor = None;
        Some(command)
    }

    /// Handle a key; returns whether it was the panel's and what the
    /// application should do (send a command, copy text, read the
    /// clipboard).
    pub fn handle_key(&mut self, key: &KeyEvent) -> (out: InputKeyOutcome)
        requires
            old(self).wf(),
            room_for(old(self)@, 1),
        ensures
            final(self).wf(),
            final(self)@ == after_key(old(self)@, *key),
            out.handled == key_taken(old(self)@, *key),
            match out.request {
                InputRequest::Submit(cmd) => key.code == KeyCode::Enter && !key.modifiers.shift
                    && command_view(cmd) == command_of(old(self)@.text),
                InputRequest::Copy(t) => key.modifiers.control
                    && (key.code == KeyCode::Char('c') || key.code == KeyCode::Char('x'))
                    && selected(old(self)@) == Some(t@),
                InputRequest::Paste => key.modifiers.control && key.code == KeyCode::Char('v'),
                InputRequest::Nothing => true,
            },
            key.code == KeyCode::Enter && !key.modifiers.shift
                && !(trim_view(old(self)@.text).len() == 0 || old(self)@.processing) ==> out.request is Submit,
            key.modifiers.control && (key.code == KeyCode::Char('c') || key.code == KeyCode::Char('x'))
                && old(self)@.anchor is Some ==> out.request is Copy,
            key.modifiers.control && key.code == KeyCode::Char('v') ==> out.request is Paste,
    {
        let shift = key.modifiers.shift;
        let ctrl = key.modifiers.control;
        let mut request = InputRequest::Nothing;
        let handled = match key.code {
            KeyCode::Enter => {
                if !shift {
                    if let Some(cmd) = self.submit() {
                        request = InputRequest::Submit(cmd);
                    }
                } else {
                    let nl = vec!['\n'];
                    assert(nl@ =~= seq!['\n']);
                    self.insert_chars(&nl);
                }
                true
            },
            KeyCode::Left => {
                self.move_anchor(shift);
                if self.cursor > 0 {
                    self.cursor = self.cursor - 1;
                }
                true
            },
            KeyCode::Right => {
                self.move_anchor(shift);
                if self.cursor < self.input.len() {
                    self.cursor = self.cursor + 1;
                }
                true
            },
            KeyCode::Home => {
                self.move_anchor(shift);
                self.cursor = 0;
                true
            },
            KeyCode::End => {
                self.move_anchor(shift);
                self.cursor = self.input.len();
                true
            },
            KeyCode::Up => {
                self.history_prev();
                true
            },
            KeyCode::Down => {
                self.history_next();
                true
            },
            KeyCode::Backspace => {
                if self.selection_anchor.is_some() {
                    self.delete_selection();
                } else if self.cursor > 0 {
                    let c = self.cursor;
                    let empty: Vec<char> = Vec::new();
                    self.input = splice_chars(&self.input, c - 1, c, &empty);
                    self.cursor = c - 1;
                    assert(self@.text =~= old(self)@.text.take(c - 1) + old(self)@.text.skip(c as int));
                }
                true
            },
            KeyCode::Delete => {
                if self.selection_anchor.is_some() {
                    self.delete_selection();
                } else if self.cursor < self.input.len() {
                    let c = self.cursor;
                    let empty: Vec<char> = Vec::new();
                    self.input = splice_chars(&self.input, c, c + 1, &empty);
                    assert(self@.text =~= old(self)@.text.take(c as int) + old(self)@.text.skip(c + 1));
                }
                true
            },
            KeyCode::Char(c) => {
                if ctrl && c == 'c' {
                    if let Some(t) = self.selected_text() {
                        request = InputRequest::Copy(t);
                    }
                } else if ctrl && c == 'x' {
                    if let Some(t) = self.selected_text() {
                        request = InputRequest::Copy(t);
                        self.delete_selection();
                    }
                } else if ctrl && c == 'v' {
                    request = InputRequest::Paste;
                } else if ctrl && c == 'a' {
                    self.selection_anchor = Some(0);
                    self.cursor = self.input.len();
                } else if ctrl && c == 'u' {
                    self.input = Vec::new();
                    self.cursor = 0;
                    self.selection_anchor = None;
                    assert(self@.text =~= Seq::<char>::empty());
                } else if !ctrl {
                    let one = vec![c];
                    assert(one@ =~= seq![c]);
                    self.insert_chars(&one);
                }
                true
            },
            KeyCode::Esc => {
                if self.selection_anchor.is_some() {
                    self.selection_anchor = None;
                    true
                } else {
                    false
                }
            },
            _ => false,
        };
        InputKeyOutcome { handled, request }
    }

    /// Insert clipboard text at the cursor (over the selection), with
    /// newlines turned into spaces and carriage returns dropped.
    pub fn paste_text(&mut self, text: &str)
        requires
            old(self).wf(),
            room_for(old(self)@, cleaned(text@).len()),
        ensures
            final(self).wf(),
            final(self)@ == inserted(old(self)@, cleaned(text@)),
    {
        let v = chars_of(text);
        let mut clean: Vec<char> = Vec::new();
        let mut i: usize = 0;
        while i < v.len()
            invariant
                v@ == text@,
                i <= v@.len(),
                clean@ == cleaned(v@.take(i as int)),
            decreases v@.len() - i,
        {
            assert(v@.take(i + 1).drop_last() =~= v@.take(i as int));
            if v[i] == '\n' {
                clean.push(' ');
            } else if v[i] != '\r' {
                clean.push(v[i]);
            }
            i = i + 1;
        }
        assert(v@.take(v@.len() as int) =~= v@);
        self.insert_chars(&clean);
    }

    /// A click at column `col` of the input area: past the two-character
    /// prompt it puts the cursor there (at most at the end) and drops the
    /// selection.
    pub fn click_at(&mut self, col: usize)
        requires
            old(self).wf(),
        ensures
            final(self).wf(),
            col > 2 ==> final(self)@ == (InputView {
                cursor: if col - 2 <= old(self)@.text.len() { (col - 2) as nat } else { old(self)@.text.len() },
                anchor: None,
                ..old(self)@
            }),
            col <= 2 ==> final(self)@ == old(self)@,
    {
        if col > 2 {
            let pos = col - 2;
            self.cursor = if pos <= self.input.len() { pos } else { self.input.len() };
            self.selection_anchor = None;
        }
    }

    /// The prompt: `$ ` for a shell command (the text starts with `!` or
    /// `:` after leading whitespace), `> ` otherwise.
    pub fn prompt(&self) -> (p: &'static str)
        ensures
            ({
                let t = self@.text.skip(leading_ws(self@.text) as int);
                p@ == if t.len() > 0 && (t[0] == '!' || t[0] == ':') { "$ "@ } else { "> "@ }
            }),
    {
        let n = self.input.len();
        let mut i: usize = 0;
        while i < n && is_whitespace(self.input[i])
            invariant
                n == self.input@.len(),
                i <= n,
                forall|k: int| 0 <= k < i ==> unicode_whitespace(self.input@[k]),
            decreases n - i,
        {
            i = i + 1;
        }
        proof { crate::text::lemma_leading_ws_is(self@.text, i as nat); }
        if i < n && (self.input[i] == '!' || self.input[i] == ':') {
            "$ "
        } else {
            "> "
        }
    }
}


/// Going back in the history and forward again returns to what was being
/// typed, with the history no longer browsed.
pub proof fn law_history_round_trip(v: InputView)
    requires
        v.history.len() > 0,
        v.history_index is None,
    ensures
        history_forward(history_back(v)).text == v.text,
        history_forward(history_back(v)).history_index is None,
        history_forward(history_back(v)).history == v.history,
{
}

/// The history never holds more than `MAX_INPUT_HISTORY` lines, and the
/// line submitted last is its newest.
pub proof fn law_history_bounded(h: Seq<Seq<char>>, line: Seq<char>)
    requires
        h.len() <= MAX_INPUT_HISTORY,
    ensures
        history_after(h, line).len() <= MAX_INPUT_HISTORY,
        history_after(h, line).last() == line,
{
}

/// Law: typing text replaces the selection. With a selection between the
/// anchor and the cursor, the text before its start, the typed text and
/// the text after its end make the new text, the cursor follows the typed
/// text and no selection is left; without one, the text goes in at the
/// cursor.
pub proof fn law_typing_replaces_selection(v: InputView, s: Seq<char>)
    requires
        input_wf(v),
    ensures
        v.anchor matches Some(a) ==> {
            let lo = if a <= v.cursor { a } else { v.cursor };
            let hi = if a <= v.cursor { v.cursor } else { a };
            &&& inserted(v, s).text == v.text.take(lo as int) + s + v.text.skip(hi as int)
            &&& inserted(v, s).cursor == lo + s.len()
            &&& inserted(v, s).anchor is None
        },
        v.anchor is None ==> {
            &&& inserted(v, s).text == v.text.take(v.cursor as int) + s + v.text.skip(v.cursor as int)
            &&& inserted(v, s).cursor == v.cursor + s.len()
            &&& inserted(v, s).anchor is None
        },
{
    if let Some(a) = v.anchor {
        let lo = if a <= v.cursor { a } else { v.cursor };
        let hi = if a <= v.cursor { v.cursor } else { a };
        let w = without_selection(v);
        assert(w.text =~= v.text.take(lo as int) + v.text.skip(hi as int));
        assert(w.text.take(lo as int) =~= v.text.take(lo as int));
        assert(w.text.skip(lo as int) =~= v.text.skip(hi as int));
    }
}

} // verus!
