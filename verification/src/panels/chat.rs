//! The chat panel: a conversation with the local model and a multi-line
//! input edited at a byte cursor. Sending hands the conversation (without
//! system messages) to the caller, which streams the reply back through
//! `append_chunk`, `complete_response` and `push_error`.

use vstd::prelude::*;
use vstd::utf8::{encode_utf8, decode_utf8, is_char_boundary};
use crate::keys::{KeyCode, KeyEvent};
use crate::llm::message::{ChatMessage as LlmMessage, Role as LlmRole, MessageContent};
use crate::llm::ollama::OllamaProvider;
use crate::text::{
    owned, concat, trim, trim_view, char_width, insert_char_at, remove_char_at, back_to_boundary,
    boundary_at_or_before, forward_to_boundary, boundary_at_or_after, rfind_byte, find_byte_from,
    last_byte_index, first_byte_index,
};

verus! {

/// Who wrote a chat message.
#[derive(Debug, Clone, Copy, PartialEq, Eq, Structural)]
pub enum Role {
    User,
    Assistant,
    System,
}

/// A chat message.
#[derive(Debug, Clone)]
pub struct ChatMessage {
    pub role: Role,
    pub content: String,
}

/// The mathematical value of the chat panel.
#[verifier::ext_equal]
pub struct ChatView {
    pub messages: Seq<(Role, Seq<char>)>,
    pub input: Seq<char>,
    /// Byte offset into the input.
    pub cursor: nat,
    pub generating: bool,
    pub buffer: Seq<char>,
    pub model: Seq<char>,
}

/// Chat panel state.
pub struct ChatPanel {
    messages: Vec<ChatMessage>,
    input: String,
    cursor: usize,
    is_generating: bool,
    streaming_buffer: String,
    llm: OllamaProvider,
}

/// The values of chat messages.
pub open spec fn message_views(ms: Seq<ChatMessage>) -> Seq<(Role, Seq<char>)> {
    ms.map_values(|m: ChatMessage| (m.role, m.content@))
}

impl View for ChatPanel {
    type V = ChatView;

    closed spec fn view(&self) -> ChatView {
        ChatView {
            messages: message_views(self.messages@),
            input: self.input@,
            cursor: self.cursor as nat,
            generating: self.is_generating,
            buffer: self.streaming_buffer@,
            model: self.llm.model_name(),
        }
    }
}

/// The cursor lies within the input.
pub open spec fn chat_wf(v: ChatView) -> bool {
    v.cursor <= encode_utf8(v.input).len()
}


/// The input can take a character at the cursor: the cursor lies on a
/// character boundary and the length stays within `usize`.
pub open spec fn chat_typable(v: ChatView) -> bool {
    &&& is_char_boundary(encode_utf8(v.input), v.cursor as int)
    &&& encode_utf8(v.input).len() + 4 <= usize::MAX
}

/// The panel after typing `c` at the cursor.
pub open spec fn chat_insert(v: ChatView, c: char) -> ChatView {
    let b = encode_utf8(v.input);
    ChatView {
        input: decode_utf8(b.take(v.cursor as int)) + seq![c] + decode_utf8(b.skip(v.cursor as int)),
        cursor: v.cursor + encode_utf8(seq![c]).len(),
        ..v
    }
}

/// The panel after Backspace.
pub open spec fn chat_backspace(v: ChatView) -> ChatView {
    if v.cursor > 0 {
        let b = encode_utf8(v.input);
        let p = boundary_at_or_before(b, v.cursor - 1);
        ChatView { input: decode_utf8(b.take(p)) + decode_utf8(b.skip(p)).drop_first(), cursor: p as nat, ..v }
    } else {
        v
    }
}

/// The panel after Left.
pub open spec fn chat_left(v: ChatView) -> ChatView {
    if v.cursor > 0 {
        ChatView { cursor: boundary_at_or_before(encode_utf8(v.input), v.cursor - 1) as nat, ..v }
    } else {
        v
    }
}

/// The panel after Right.
pub open spec fn chat_right(v: ChatView) -> ChatView {
    if v.cursor < encode_utf8(v.input).len() {
        ChatView { cursor: boundary_at_or_after(encode_utf8(v.input), v.cursor + 1 as int) as nat, ..v }
    } else {
        v
    }
}

/// The panel after Home: the cursor after the last newline before it.
pub open spec fn chat_home(v: ChatView) -> ChatView {
    ChatView {
        cursor: match last_byte_index(encode_utf8(v.input).take(v.cursor as int), 10u8) {
            Some(p) => p + 1,
            None => 0,
        },
        ..v
    }
}

/// The panel after End: the cursor at the next newline, or the end.
pub open spec fn chat_end(v: ChatView) -> ChatView {
    ChatView {
        cursor: match first_byte_index(encode_utf8(v.input).skip(v.cursor as int), 10u8) {
            Some(p) => v.cursor + p,
            None => encode_utf8(v.input).len(),
        },
        ..v
    }
}

/// The panel after moving `delta` lines.
pub open spec fn chat_vertical(v: ChatView, delta: int) -> ChatView {
    ChatView { cursor: moved_vertically(encode_utf8(v.input), v.cursor, delta), ..v }
}

/// Whether the input is sent: it is not blank and no reply is being
/// generated.
pub open spec fn chat_sends(v: ChatView) -> bool {
    trim_view(v.input).len() > 0 && !v.generating
}

/// The panel after sending: the input as a user message, the input empty,
/// generation started with an empty reply.
pub open spec fn chat_sent(v: ChatView) -> ChatView {
    ChatView {
        messages: v.messages.push((Role::User, v.input)),
        input: seq![],
        cursor: 0,
        generating: true,
        buffer: seq![],
        ..v
    }
}

/// The panel after a key (see `ChatPanel::handle_key`).
pub open spec fn chat_after_key(v: ChatView, code: KeyCode, control: bool, shift_or_alt: bool) -> ChatView {
    match code {
        KeyCode::Char(c) => if !control && chat_typable(v) { chat_insert(v, c) } else { v },
        KeyCode::Backspace => chat_backspace(v),
        KeyCode::Enter => if shift_or_alt {
            if chat_typable(v) { chat_insert(v, '\n') } else { v }
        } else if chat_sends(v) {
            chat_sent(v)
        } else {
            v
        },
        KeyCode::Left => chat_left(v),
        KeyCode::Right => chat_right(v),
        KeyCode::Up => chat_vertical(v, -1),
        KeyCode::Down => chat_vertical(v, 1),
        KeyCode::Home => if is_char_boundary(encode_utf8(v.input), v.cursor as int) { chat_home(v) } else { v },
        KeyCode::End => if is_char_boundary(encode_utf8(v.input), v.cursor as int) { chat_end(v) } else { v },
        _ => v,
    }
}

/// The conversation sent to the model: the messages that are not system
/// messages, in order, as roles and texts.
pub open spec fn sent_history(ms: Seq<(Role, Seq<char>)>) -> Seq<(LlmRole, Seq<char>)>
    decreases ms.len(),
{
    if ms.len() == 0 {
        seq![]
    } else {
        let rest = sent_history(ms.drop_last());
        match ms.last().0 {
            Role::User => rest.push((LlmRole::User, ms.last().1)),
            Role::Assistant => rest.push((LlmRole::Assistant, ms.last().1)),
            Role::System => rest,
        }
    }
}

/// The role and text of a model message with text content.
pub open spec fn llm_message_view(m: LlmMessage) -> (LlmRole, Seq<char>) {
    (m.role, match m.content { MessageContent::Text(s) => s@, MessageContent::Parts(_) => seq![] })
}

/// The byte lengths of the lines of `b` (split at newline bytes).
pub open spec fn line_lengths(b: Seq<u8>) -> Seq<nat>
    decreases b.len(),
{
    if b.len() == 0 {
        seq![0]
    } else {
        let r = line_lengths(b.drop_last());
        if b.last() == 10u8 { r.push(0) } else { r.update(r.len() - 1, r.last() + 1) }
    }
}

/// The byte offset at which line `k` starts.
pub open spec fn line_offset(lens: Seq<nat>, k: nat) -> nat
    decreases k,
{
    if k == 0 { 0 } else { line_offset(lens, (k - 1) as nat) + lens[k - 1] + 1 }
}

/// The line and column of byte offset `cursor`, searching from line `i`:
/// the first line that ends at or after it (line 0, column 0 if none).
pub open spec fn locate(lens: Seq<nat>, cursor: nat, i: nat) -> (nat, nat)
    decreases lens.len() - i,
{
    if i >= lens.len() {
        (0, 0)
    } else if line_offset(lens, i) + lens[i as int] >= cursor {
        (i, (cursor - line_offset(lens, i)) as nat)
    } else {
        locate(lens, cursor, i + 1)
    }
}

/// `x` held within the lines `0 .. n`.
pub open spec fn clamp_line(x: int, n: nat) -> nat {
    if x < 0 { 0 } else if x > n - 1 { (n - 1) as nat } else { x as nat }
}

/// The cursor after moving `delta` lines: the same column on the target
/// line (or its end), unchanged when the line stays the same.
pub open spec fn moved_vertically(b: Seq<u8>, cursor: nat, delta: int) -> nat {
    let lens = line_lengths(b);
    let (cur, col) = locate(lens, cursor, 0);
    let target = clamp_line(cur + delta, lens.len());
    if target == cur {
        cursor
    } else {
        let c = line_offset(lens, target) + if col < lens[target as int] { col } else { lens[target as int] };
        if c < b.len() { c } else { b.len() }
    }
}

proof fn lemma_offset_prefix(a: Seq<nat>, b: Seq<nat>, k: nat)
    requires
        k <= a.len(),
        k <= b.len(),
        forall|j: int| 0 <= j < k ==> a[j] == b[j],
    ensures
        line_offset(a, k) == line_offset(b, k),
    decreases k,
{
    if k > 0 {
        lemma_offset_prefix(a, b, (k - 1) as nat);
    }
}

proof fn lemma_offset_mono(lens: Seq<nat>, k: nat, m: nat)
    requires
        k <= m,
    ensures
        line_offset(lens, k) <= line_offset(lens, m),
    decreases m,
{
    if k < m {
        lemma_offset_mono(lens, k, (m - 1) as nat);
    }
}

proof fn lemma_line_lengths(b: Seq<u8>)
    ensures
        line_lengths(b).len() >= 1,
        line_offset(line_lengths(b), line_lengths(b).len()) == b.len() + 1,
    decreases b.len(),
{
    if b.len() == 0 {
        let l = line_lengths(b);
        assert(l =~= seq![0nat]);
        assert(line_offset(l, 1) == line_offset(l, 0) + l[0] + 1);
    } else {
        let r = line_lengths(b.drop_last());
        lemma_line_lengths(b.drop_last());
        let l = line_lengths(b);
        if b.last() == 10u8 {
            lemma_offset_prefix(l, r, r.len());
            assert(line_offset(l, l.len()) == line_offset(l, r.len()) + l[r.len() as int] + 1);
        } else {
            let n = r.len();
            lemma_offset_prefix(l, r, (n - 1) as nat);
            assert(line_offset(l, n) == line_offset(l, (n - 1) as nat) + l[n - 1] + 1);
            assert(line_offset(r, n) == line_offset(r, (n - 1) as nat) + r[n - 1] + 1);
        }
    }
}

/// The byte lengths of the lines of `b`.
fn line_lengths_of(b: &[u8]) -> (v: Vec<usize>)
    ensures
        v@.len() == line_lengths(b@).len(),
        forall|k: int| 0 <= k < v@.len() ==> v@[k] as nat == #[trigger] line_lengths(b@)[k],
{
    let mut v: Vec<usize> = Vec::new();
    v.push(0);
    let mut i: usize = 0;
    assert(b@.take(0) =~= Seq::<u8>::empty());
    while i < b.len()
        invariant
            i <= b@.len(),
            v@.len() == line_lengths(b@.take(i as int)).len(),
            v@.len() >= 1,
            forall|k: int| 0 <= k < v@.len() ==> v@[k] as nat == #[trigger] line_lengths(b@.take(i as int))[k],
            forall|k: int| 0 <= k < v@.len() ==> v@[k] <= i,
        decreases b@.len() - i,
    {
        assert(b@.take(i + 1).drop_last() =~= b@.take(i as int));
        if b[i] == 10u8 {
            v.push(0);
        } else {
            let last = v.len() - 1;
            let x = v[last];
            v.set(last, x + 1);
        }
        i = i + 1;
    }
    assert(b@.take(b@.len() as int) =~= b@);
    v
}

impl ChatPanel {
    /// A panel with the welcome message, an empty input, and the local
    /// model.
    pub fn new() -> (p: Self)
        ensures
            p@.messages == seq![(Role::System, "Welcome to Axiom! Type a message and press Enter to chat."@)],
            p@.input == Seq::<char>::empty(),
            p@.cursor == 0,
            !p@.generating,
            p@.buffer == Seq::<char>::empty(),
            p@.model == "gemma3:4b"@,
            chat_wf(p@),
    {
        let mut messages: Vec<ChatMessage> = Vec::new();
        messages.push(ChatMessage {
            role: Role::System,
            content: owned("Welcome to Axiom! Type a message and press Enter to chat."),
        });
        let p = ChatPanel {
            messages,
            input: String::new(),
            cursor: 0,
            is_generating: false,
            streaming_buffer: String::new(),
            llm: OllamaProvider::default(),
        };
        assert(message_views(p.messages@) =~= seq![(Role::System, "Welcome to Axiom! Type a message and press Enter to chat."@)]);
        p
    }

    /// The messages.
    pub fn messages(&self) -> (r: &Vec<ChatMessage>)
        ensures
            message_views(r@) == self@.messages,
    {
        &self.messages
    }

    /// The text being typed.
    pub fn input(&self) -> (r: &str)
        ensures
            r@ == self@.input,
    {
        self.input.as_str()
    }

    /// The cursor's byte offset in the input.
    pub fn cursor(&self) -> (r: usize)
        ensures
            r == self@.cursor,
    {
        self.cursor
    }

    /// Whether a reply is being generated.
    pub fn is_generating(&self) -> (r: bool)
        ensures
            r == self@.generating,
    {
        self.is_generating
    }

    /// The reply received so far.
    pub fn streaming_buffer(&self) -> (r: &str)
        ensures
            r@ == self@.buffer,
    {
        self.streaming_buffer.as_str()
    }

    /// Send the input: unless it is blank or a reply is being generated,
    /// it becomes a user message, the input empties and generation starts;
    /// the conversation for the model is returned.
    pub fn send_message(&mut self) -> (r: Option<Vec<LlmMessage>>)
        ensures
            !chat_sends(old(self)@) ==> r is None && final(self)@ == old(self)@,
            chat_sends(old(self)@) ==> final(self)@ == chat_sent(old(self)@)
                && (r matches Some(h) && h@.map_values(|m: LlmMessage| llm_message_view(m)) == sent_history(final(self)@.messages)),
    {
        let t = trim(self.input.as_str());
        if t.as_str().as_bytes().len() == 0 || self.is_generating {
            proof {
                if t@.len() > 0 {
                    assert(encode_utf8(t@).len() > 0);
                }
            }
            return None;
        }
        proof {
            if t@.len() == 0 {
                assert(encode_utf8(t@) =~= Seq::<u8>::empty());
            }
        }
        let content = owned(self.input.as_str());
        self.input = String::new();
        self.cursor = 0;
        let ghost before = self.messages@;
        self.messages.push(ChatMessage { role: Role::User, content });
        assert(message_views(self.messages@) =~= message_views(before).push((Role::User, content@)));
        self.is_generating = true;
        self.streaming_buffer = String::new();
        let mut out: Vec<LlmMessage> = Vec::new();
        let mut i: usize = 0;
        while i < self.messages.len()
            invariant
                i <= self.messages@.len(),
                out@.map_values(|m: LlmMessage| llm_message_view(m)) == sent_history(message_views(self.messages@.take(i as int))),
            decreases self.messages@.len() - i,
        {
            let ghost prev = out@;
            assert(message_views(self.messages@.take(i + 1)).drop_last() =~= message_views(self.messages@.take(i as int)));
            let m = &self.messages[i];
            match m.role {
                Role::User => out.push(LlmMessage::user(m.content.as_str())),
                Role::Assistant => out.push(LlmMessage::assistant(m.content.as_str())),
                Role::System => {}
            }
            proof {
                assert(message_views(self.messages@.take(i + 1)).last() == (m.role, m.content@));
                if !(m.role is System) {
                    assert(out@.map_values(|m: LlmMessage| llm_message_view(m))
                        =~= prev.map_values(|m: LlmMessage| llm_message_view(m)).push(llm_message_view(out@.last())));
                }
            }
            i = i + 1;
        }
        assert(self.messages@.take(self.messages@.len() as int) =~= self.messages@);
        Some(out)
    }

    /// Append a streamed piece of the reply.
    pub fn append_chunk(&mut self, chunk: &str)
        ensures
            final(self)@ == (ChatView { buffer: old(self)@.buffer + chunk@, ..old(self)@ }),
    {
        self.streaming_buffer = concat(self.streaming_buffer.as_str(), chunk);
    }

    /// The reply is complete: a non-empty reply becomes an assistant
    /// message; generation stops.
    pub fn complete_response(&mut self)
        ensures
            old(self)@.buffer.len() > 0 ==> final(self)@ == (ChatView {
                messages: old(self)@.messages.push((Role::Assistant, old(self)@.buffer)),
                buffer: seq![],
                generating: false,
                ..old(self)@
            }),
            old(self)@.buffer.len() == 0 ==> final(self)@ == (ChatView { generating: false, ..old(self)@ }),
    {
        if self.streaming_buffer.as_str().as_bytes().len() > 0 {
            let reply = owned(self.streaming_buffer.as_str());
            self.streaming_buffer = String::new();
            let ghost before = self.messages@;
            self.messages.push(ChatMessage { role: Role::Assistant, content: reply });
            assert(message_views(self.messages@) =~= message_views(before).push((Role::Assistant, reply@)));
        } else {
            proof {
                if self.streaming_buffer@.len() > 0 {
                    assert(encode_utf8(self.streaming_buffer@).len() > 0);
                }
            }
        }
        self.is_generating = false;
    }

    /// The reply failed: a system message `Error: <err>`; generation stops.
    pub fn push_error(&mut self, err: &str)
        ensures
            final(self)@ == (ChatView {
                messages: old(self)@.messages.push((Role::System, "Error: "@ + err@)),
                generating: false,
                ..old(self)@
            }),
    {
        let text = concat("Error: ", err);
        let ghost before = self.messages@;
        self.messages.push(ChatMessage { role: Role::System, content: text });
        assert(message_views(self.messages@) =~= message_views(before).push((Role::System, text@)));
        self.is_generating = false;
    }

    /// Whether the cursor lies on a character boundary of the input.
    pub fn cursor_on_boundary(&self) -> (b: bool)
        ensures
            b == is_char_boundary(encode_utf8(self@.input), self@.cursor as int),
    {
        self.input.as_str().is_char_boundary(self.cursor)
    }

    /// Insert `c` at the cursor, which moves past it.
    pub fn insert_char(&mut self, c: char)
        requires
            chat_wf(old(self)@),
            is_char_boundary(encode_utf8(old(self)@.input), old(self)@.cursor as int),
            encode_utf8(old(self)@.input).len() + 4 <= usize::MAX,
        ensures
            chat_wf(final(self)@),
            final(self)@ == chat_insert(old(self)@, c),
    {
        let w = char_width(c);
        self.input = insert_char_at(self.input.as_str(), self.cursor, c);
        self.cursor = self.cursor + w;
    }

    /// Remove the character before the cursor (the one the cursor lies in,
    /// when inside one).
    pub fn backspace(&mut self)
        requires
            chat_wf(old(self)@),
        ensures
            chat_wf(final(self)@),
            final(self)@ == chat_backspace(old(self)@),
    {
        if self.cursor > 0 {
            let p = back_to_boundary(self.input.as_str(), self.cursor - 1);
            self.input = remove_char_at(self.input.as_str(), p);
            self.cursor = p;
        }
    }

    /// One character left.
    pub fn move_left(&mut self)
        requires
            chat_wf(old(self)@),
        ensures
            chat_wf(final(self)@),
            final(self)@ == chat_left(old(self)@),
    {
        if self.cursor > 0 {
            self.cursor = back_to_boundary(self.input.as_str(), self.cursor - 1);
        }
    }

    /// One character right.
    pub fn move_right(&mut self)
        requires
            chat_wf(old(self)@),
        ensures
            chat_wf(final(self)@),
            final(self)@ == chat_right(old(self)@),
    {
        let n = self.input.as_str().as_bytes().len();
        if self.cursor < n {
            self.cursor = forward_to_boundary(self.input.as_str(), self.cursor + 1);
            proof { lemma_after_bounded(encode_utf8(self.input@), (old(self).cursor + 1) as int); }
        }
    }

    /// The start of the cursor's line.
    pub fn line_start(&mut self)
        requires
            chat_wf(old(self)@),
        ensures
            chat_wf(final(self)@),
            final(self)@ == chat_home(old(self)@),
    {
        let b = self.input.as_str().as_bytes();
        self.cursor = match rfind_byte(b, self.cursor, 10u8) {
            Some(p) => {
                proof { lemma_last_index_bound(b@.take(old(self).cursor as int), 10u8); }
                p + 1
            }
            None => 0,
        };
    }

    /// The end of the cursor's line.
    pub fn line_end(&mut self)
        requires
            chat_wf(old(self)@),
        ensures
            chat_wf(final(self)@),
            final(self)@ == chat_end(old(self)@),
    {
        let b = self.input.as_str().as_bytes();
        let n = b.len();
        let c = self.cursor;
        assert(c <= n);
        self.cursor = match find_byte_from(b, c, 10u8) {
            Some(p) => {
                proof { lemma_first_index_bound(b@.skip(c as int), 10u8); }
                assert(p < n - c);
                c + p
            }
            None => n,
        };
    }

    /// Move the cursor `delta` lines, keeping its byte column where the
    /// target line allows.
    pub fn move_cursor_vertically(&mut self, delta: i32)
        requires
            chat_wf(old(self)@),
        ensures
            chat_wf(final(self)@),
            final(self)@ == chat_vertical(old(self)@, delta as int),
    {
        let b = self.input.as_str().as_bytes();
        let ghost bs = b@;
        let lens = line_lengths_of(b);
        proof { lemma_line_lengths(bs); }
        let ghost ls = line_lengths(bs);
        let cursor = self.cursor;
        // Find the cursor's line and column.
        assert(bs.len() == b.len());
        let mut cur: usize = 0;
        let mut col: usize = 0;
        let mut pos: u128 = 0;
        let mut i: usize = 0;
        let mut found = false;
        while i < lens.len() && !found
            invariant
                i <= lens@.len() == ls.len(),
                forall|k: int| 0 <= k < lens@.len() ==> lens@[k] as nat == #[trigger] ls[k],
                pos == line_offset(ls, i as nat),
                pos <= cursor,
                line_offset(ls, ls.len()) == bs.len() + 1,
                bs.len() <= usize::MAX,
                cursor <= bs.len(),
                found ==> locate(ls, cursor as nat, 0) == (cur as nat, col as nat),
                ls.len() >= 1,
                cur < ls.len(),
                !found ==> locate(ls, cursor as nat, 0) == locate(ls, cursor as nat, i as nat) && cur == 0 && col == 0,
            decreases lens@.len() - i, if found { 0int } else { 1int },
        {
            proof { lemma_offset_mono(ls, (i + 1) as nat, ls.len()); }
            if pos + (lens[i] as u128) >= cursor as u128 {
                cur = i;
                col = (cursor as u128 - pos) as usize;
                found = true;
            } else {
                pos = pos + (lens[i] as u128) + 1;
                i = i + 1;
            }
        }
        assert(locate(ls, cursor as nat, 0) == (cur as nat, col as nat));
        let n = lens.len();
        let target: usize = if delta < 0 {
            let d: u64 = (0i64 - delta as i64) as u64;
            if (cur as u64) < d { 0 } else { cur - d as usize }
        } else {
            let d: u64 = delta as u64;
            if (cur as u128) + (d as u128) > (n - 1) as u128 { n - 1 } else { cur + d as usize }
        };
        assert(target == clamp_line(cur + delta, ls.len()));
        if target == cur {
            return;
        }
        let mut off: u128 = 0;
        let mut j: usize = 0;
        while j < target
            invariant
                j <= target < lens@.len() == ls.len(),
                forall|k: int| 0 <= k < lens@.len() ==> lens@[k] as nat == #[trigger] ls[k],
                off == line_offset(ls, j as nat),
                line_offset(ls, ls.len()) == bs.len() + 1,
                bs.len() <= usize::MAX,
            decreases target - j,
        {
            proof { lemma_offset_mono(ls, (j + 1) as nat, ls.len()); }
            off = off + (lens[j] as u128) + 1;
            j = j + 1;
        }
        proof {
            lemma_offset_mono(ls, (target + 1) as nat, ls.len());
            assert(line_offset(ls, (target + 1) as nat) == line_offset(ls, target as nat) + ls[target as int] + 1);
        }
        let within: u128 = if (col as u128) < (lens[target] as u128) { col as u128 } else { lens[target] as u128 };
        let c: u128 = off + within;
        let len = b.len();
        self.cursor = if c < len as u128 { c as usize } else { len };
    }

    /// How many rows the input takes in a box `width` wide: the wrapped
    /// lines of the text plus the borders, between 3 and 10.
    pub fn input_height(&self, width: u16) -> (h: u16)
        ensures
            h == input_rows(encode_utf8(self@.input), width),
    {
        if width == 0 {
            return 3;
        }
        let inner: usize = if width >= 2 { (width - 2) as usize } else { 0 };
        if inner == 0 {
            return 3;
        }
        let b = self.input.as_str().as_bytes();
        let lens = line_lengths_of(b);
        let ghost ls = line_lengths(b@);
        proof { lemma_line_lengths(b@); }
        assert(b@.len() == b.len());
        let mut count: u128 = 0;
        let mut i: usize = 0;
        while i < lens.len()
            invariant
                i <= lens@.len() == ls.len(),
                forall|k: int| 0 <= k < lens@.len() ==> lens@[k] as nat == #[trigger] ls[k],
                inner >= 1,
                count == wrapped_rows(ls, inner as nat, i as nat),
                count <= line_offset(ls, i as nat),
                line_offset(ls, ls.len()) == b@.len() + 1,
                b@.len() <= usize::MAX,
            decreases lens@.len() - i,
        {
            proof { lemma_offset_mono(ls, (i + 1) as nat, ls.len()); }
            let li = lens[i];
            assert((li as int) / (inner as int) <= li as int) by (nonlinear_arith)
                requires inner >= 1, li >= 0;
            count = count + (li / inner) as u128 + 1;
            i = i + 1;
        }
        let total = count + 2;
        if total < 3 { 3 } else if total > 10 { 10 } else { total as u16 }
    }

    /// The model in use.
    pub fn current_model(&self) -> (m: String)
        ensures
            m@ == self@.model,
    {
        self.llm.model()
    }

    /// Use another model.
    pub fn set_model(&mut self, model: &str)
        ensures
            final(self)@ == (ChatView { model: model@, ..old(self)@ }),
    {
        self.llm.set_model(model);
    }

    /// Handle a key: characters (without Ctrl) are typed, Shift+Enter and
    /// Alt+Enter type a newline, Enter sends, Backspace deletes, the
    /// arrows, Home and End move. Typing or Home and End with the cursor
    /// inside a character (possible after Up and Down) do nothing.
    pub fn handle_key(&mut self, key: &KeyEvent) -> (o: ChatKeyOutcome)
        requires
            chat_wf(old(self)@),
        ensures
            chat_wf(final(self)@),
            o.handled == !(match key.code {
                KeyCode::Char(_) => key.modifiers.control,
                KeyCode::Backspace | KeyCode::Enter | KeyCode::Left | KeyCode::Right | KeyCode::Up
                    | KeyCode::Down | KeyCode::Home | KeyCode::End => false,
                _ => true,
            }),
            final(self)@ == chat_after_key(old(self)@, key.code, key.modifiers.control, key.modifiers.shift || key.modifiers.alt),
            key.code == KeyCode::Enter && !(key.modifiers.shift || key.modifiers.alt) && chat_sends(old(self)@)
                ==> (o.request matches Some(h) && h@.map_values(|m: LlmMessage| llm_message_view(m)) == sent_history(final(self)@.messages)),
            !(key.code == KeyCode::Enter && !(key.modifiers.shift || key.modifiers.alt) && chat_sends(old(self)@)) ==> o.request is None,
    {
        let typable = self.cursor_on_boundary() && self.input.as_str().as_bytes().len() <= usize::MAX - 4;
        match key.code {
            KeyCode::Char(c) => {
                if key.modifiers.control {
                    return ChatKeyOutcome { handled: false, request: None };
                }
                if typable {
                    self.insert_char(c);
                }
            }
            KeyCode::Backspace => self.backspace(),
            KeyCode::Enter => {
                if key.modifiers.shift || key.modifiers.alt {
                    if typable {
                        self.insert_char('\n');
                    }
                } else {
                    let r = self.send_message();
                    return ChatKeyOutcome { handled: true, request: r };
                }
            }
            KeyCode::Left => self.move_left(),
            KeyCode::Right => self.move_right(),
            KeyCode::Up => self.move_cursor_vertically(-1),
            KeyCode::Down => self.move_cursor_vertically(1),
            KeyCode::Home => {
                if self.cursor_on_boundary() {
                    self.line_start();
                }
            }
            KeyCode::End => {
                if self.cursor_on_boundary() {
                    self.line_end();
                }
            }
            _ => {
                return ChatKeyOutcome { handled: false, request: None };
            }
        }
        ChatKeyOutcome { handled: true, request: None }
    }
}

/// What a key did: whether the panel used it, and the conversation to
/// send when Enter sent a message.
pub struct ChatKeyOutcome {
    pub handled: bool,
    pub request: Option<Vec<LlmMessage>>,
}

/// The rows the lines before line `i` take when wrapped at `inner` bytes:
/// one per started `inner` bytes of each line, at least one per line.
pub open spec fn wrapped_rows(lens: Seq<nat>, inner: nat, i: nat) -> nat
    decreases i,
{
    if i == 0 { 0 } else { wrapped_rows(lens, inner, (i - 1) as nat) + lens[i - 1] / inner + 1 }
}

/// The height of the input box for text `b` in a box `width` wide.
pub open spec fn input_rows(b: Seq<u8>, width: u16) -> u16 {
    if width <= 2 {
        3
    } else {
        let total = wrapped_rows(line_lengths(b), (width - 2) as nat, line_lengths(b).len()) + 2;
        if total < 3 { 3 } else if total > 10 { 10 } else { total as u16 }
    }
}

proof fn lemma_after_bounded(b: Seq<u8>, i: int)
    ensures
        i <= b.len() ==> boundary_at_or_after(b, i) <= b.len(),
    decreases b.len() - i,
{
    if i < b.len() && !is_char_boundary(b, i) {
        lemma_after_bounded(b, i + 1);
    }
}

proof fn lemma_last_index_bound(b: Seq<u8>, x: u8)
    ensures
        last_byte_index(b, x) matches Some(p) ==> p < b.len(),
    decreases b.len(),
{
    if b.len() > 0 && b.last() != x {
        lemma_last_index_bound(b.drop_last(), x);
    }
}

proof fn lemma_first_index_bound(b: Seq<u8>, x: u8)
    ensures
        first_byte_index(b, x) matches Some(p) ==> p < b.len(),
    decreases b.len(),
{
    if b.len() > 0 && b[0] != x {
        lemma_first_index_bound(b.drop_first(), x);
    }
}

} // verus!
