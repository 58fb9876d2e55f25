//! Chat messages, with file attachments, and the prompt text built from
//! them.

use vstd::prelude::*;
use crate::text::{concat, decimal, u64_to_string, owned};

verus! {

/// Role in the conversation.
#[derive(Debug, Clone, PartialEq, Eq, Structural)]
pub enum Role {
    System,
    User,
    Assistant,
}

/// The wire name of a role.
pub open spec fn role_name(r: Role) -> Seq<char> {
    match r {
        Role::System => "system"@,
        Role::User => "user"@,
        Role::Assistant => "assistant"@,
    }
}

impl Role {
    /// The wire name of the role.
    pub fn as_str(&self) -> (s: &str)
        ensures
            s@ == role_name(*self),
    {
        match self {
            Role::System => "system",
            Role::User => "user",
            Role::Assistant => "assistant",
        }
    }
}

/// Content part of a multipart message.
#[derive(Debug, Clone)]
pub enum ContentPart {
    /// Text content.
    Text { text: String },
    /// A file attached for context.
    File { path: String, content: String, line_range: Option<(usize, usize)> },
}

/// Chat message for an LLM.
#[derive(Debug, Clone)]
pub struct ChatMessage {
    /// Role of the sender.
    pub role: Role,
    /// Content: text or parts.
    pub content: MessageContent,
}

/// Message content: simple text, or parts (text and files).
#[derive(Debug, Clone)]
pub enum MessageContent {
    /// Simple text.
    Text(String),
    /// Text and file parts.
    Parts(Vec<ContentPart>),
}

/// The texts of the text parts, in order.
pub open spec fn part_texts(parts: Seq<ContentPart>) -> Seq<Seq<char>>
    decreases parts.len(),
{
    if parts.len() == 0 {
        seq![]
    } else {
        let rest = part_texts(parts.drop_last());
        match parts.last() {
            ContentPart::Text { text } => rest.push(text@),
            _ => rest,
        }
    }
}

/// The file parts, in order.
pub open spec fn file_parts(parts: Seq<ContentPart>) -> Seq<ContentPart>
    decreases parts.len(),
{
    if parts.len() == 0 {
        seq![]
    } else {
        let rest = file_parts(parts.drop_last());
        if parts.last() is File { rest.push(parts.last()) } else { rest }
    }
}

/// Pieces joined with a newline between each two.
pub open spec fn join_newline(pieces: Seq<Seq<char>>) -> Seq<char>
    decreases pieces.len(),
{
    if pieces.len() == 0 {
        seq![]
    } else if pieces.len() == 1 {
        pieces[0]
    } else {
        join_newline(pieces.drop_last()) + "\n"@ + pieces.last()
    }
}

/// The text of message content: the text itself, or the text parts joined
/// by newlines.
pub open spec fn content_text(c: MessageContent) -> Seq<char> {
    match c {
        MessageContent::Text(s) => s@,
        MessageContent::Parts(parts) => join_newline(part_texts(parts@)),
    }
}

impl MessageContent {
    /// The text content: the text itself, or the text parts joined by
    /// newlines (file parts left out).
    pub fn as_text(&self) -> (s: String)
        ensures
            s@ == content_text(*self),
    {
        match self {
            MessageContent::Text(s) => s.clone(),
            MessageContent::Parts(parts) => {
                let ghost ps = parts@;
                let mut out = String::new();
                let mut count: usize = 0;
                let mut i: usize = 0;
                while i < parts.len()
                    invariant
                        ps == parts@,
                        i <= ps.len(),
                        count == part_texts(ps.take(i as int)).len(),
                        count <= i,
                        out@ == join_newline(part_texts(ps.take(i as int))),
                    decreases ps.len() - i,
                {
                    assert(ps.take(i + 1).drop_last() =~= ps.take(i as int));
                    match &parts[i] {
                        ContentPart::Text { text } => {
                            if count > 0 {
                                out.append("\n");
                            }
                            out.append(text.as_str());
                            count = count + 1;
                            proof {
                                let p = part_texts(ps.take(i + 1));
                                assert(p == part_texts(ps.take(i as int)).push(text@));
                                assert(p.drop_last() =~= part_texts(ps.take(i as int)));
                                if count == 1 {
                                    assert(out@ =~= p[0]);
                                } else {
                                    assert(out@ =~= join_newline(p.drop_last()) + "\n"@ + p.last());
                                }
                            }
                        },
                        ContentPart::File { .. } => {},
                    }
                    i = i + 1;
                }
                assert(ps.take(ps.len() as int) =~= ps);
                out
            },
        }
    }

    /// Whether this is simple text.
    pub fn is_text(&self) -> (b: bool)
        ensures
            b == (self is Text),
    {
        matches!(self, MessageContent::Text(_))
    }

    /// The file attachments, in order.
    pub fn files(&self) -> (r: Vec<&ContentPart>)
        ensures
            match *self {
                MessageContent::Text(_) => r@.len() == 0,
                MessageContent::Parts(parts) =>
                    r@.len() == file_parts(parts@).len()
                    && forall|k: int| 0 <= k < r@.len() ==> *r@[k] == file_parts(parts@)[k],
            },
    {
        match self {
            MessageContent::Text(_) => Vec::new(),
            MessageContent::Parts(parts) => {
                let ghost ps = parts@;
                let mut r: Vec<&ContentPart> = Vec::new();
                let mut i: usize = 0;
                while i < parts.len()
                    invariant
                        ps == parts@,
                        i <= ps.len(),
                        r@.len() == file_parts(ps.take(i as int)).len(),
                        forall|k: int| 0 <= k < r@.len() ==> *r@[k] == file_parts(ps.take(i as int))[k],
                    decreases ps.len() - i,
                {
                    assert(ps.take(i + 1).drop_last() =~= ps.take(i as int));
                    if let ContentPart::File { .. } = &parts[i] {
                        r.push(&parts[i]);
                    }
                    i = i + 1;
                }
                assert(ps.take(ps.len() as int) =~= ps);
                r
            },
        }
    }
}

impl ChatMessage {
    /// A user message with text content.
    pub fn user(content: &str) -> (m: Self)
        ensures
            m.role == Role::User,
            m.content matches MessageContent::Text(s) && s@ == content@,
    {
        ChatMessage { role: Role::User, content: MessageContent::Text(owned(content)) }
    }

    /// An assistant message with text content.
    pub fn assistant(content: &str) -> (m: Self)
        ensures
            m.role == Role::Assistant,
            m.content matches MessageContent::Text(s) && s@ == content@,
    {
        ChatMessage { role: Role::Assistant, content: MessageContent::Text(owned(content)) }
    }

    /// A system message with text content.
    pub fn system(content: &str) -> (m: Self)
        ensures
            m.role == Role::System,
            m.content matches MessageContent::Text(s) && s@ == content@,
    {
        ChatMessage { role: Role::System, content: MessageContent::Text(owned(content)) }
    }

    /// A user message with file attachments: the text part first, then one
    /// file part (without a line range) for each (path, content) pair.
    pub fn user_with_files(text: &str, files: Vec<(String, String)>) -> (m: Self)
        ensures
            m.role == Role::User,
            m.content matches MessageContent::Parts(parts) && {
                &&& parts@.len() == files@.len() + 1
                &&& parts@[0] matches ContentPart::Text { text: t } && t@ == text@
                &&& forall|k: int| 0 <= k < files@.len() ==> (#[trigger] parts@[k + 1]) == (ContentPart::File {
                    path: files@[k].0,
                    content: files@[k].1,
                    line_range: None,
                })
            },
    {
        let mut parts: Vec<ContentPart> = Vec::new();
        parts.push(ContentPart::Text { text: owned(text) });
        let ghost fs = files@;
        let n = files.len();
        let mut rest = files;
        let mut i: usize = 0;
        while rest.len() > 0
            invariant
                fs.len() == n,
                i <= fs.len(),
                rest@ == fs.skip(i as int),
                parts@.len() == i + 1,
                parts@[0] matches ContentPart::Text { text: t } && t@ == text@,
                forall|k: int| 0 <= k < i ==> (#[trigger] parts@[k + 1]) == (ContentPart::File {
                    path: fs[k].0,
                    content: fs[k].1,
                    line_range: None,
                }),
            decreases rest@.len(),
        {
            let (path, content) = rest.remove(0);
            assert(rest@ =~= fs.skip(i + 1));
            parts.push(ContentPart::File { path, content, line_range: None });
            i = i + 1;
        }
        ChatMessage { role: Role::User, content: MessageContent::Parts(parts) }
    }

    /// The text content of the message.
    pub fn text(&self) -> (s: String)
        ensures
            s@ == content_text(self.content),
    {
        self.content.as_text()
    }

    /// The role's wire name.
    pub fn role_str(&self) -> (s: &str)
        ensures
            s@ == role_name(self.role),
    {
        self.role.as_str()
    }
}

/// The context block for one file: its path, the line range when given, and
/// its content in a fenced block.
pub open spec fn file_context_text(path: Seq<char>, content: Seq<char>, line_range: Option<(usize, usize)>) -> Seq<char> {
    let range = match line_range {
        Some((start, end)) => " (lines "@ + decimal(start as nat) + "-"@ + decimal(end as nat) + ")"@,
        None => Seq::empty(),
    };
    "<file_context>\nFile: "@ + path + range + "\n```\n"@ + content + "\n```\n</file_context>"@
}

/// The context blocks of the files, each followed by a newline.
pub open spec fn file_blocks(files: Seq<(String, String, Option<(usize, usize)>)>) -> Seq<char>
    decreases files.len(),
{
    if files.len() == 0 {
        seq![]
    } else {
        file_blocks(files.drop_last())
            + file_context_text(files.last().0@, files.last().1@, files.last().2) + "\n"@
    }
}

/// Wrap file content in the structured block that the prompt uses.
pub fn format_file_context(path: &str, content: &str, line_range: Option<(usize, usize)>) -> (s: String)
    ensures
        s@ == file_context_text(path@, content@, line_range),
{
    let mut s = concat("<file_context>\nFile: ", path);
    match line_range {
        Some((start, end)) => {
            let a = u64_to_string(start as u64);
            let b = u64_to_string(end as u64);
            s.append(" (lines ");
            s.append(a.as_str());
            s.append("-");
            s.append(b.as_str());
            s.append(")");
        },
        None => {},
    }
    s.append("\n```\n");
    s.append(content);
    s.append("\n```\n</file_context>");
    assert(s@ =~= file_context_text(path@, content@, line_range));
    s
}

/// The prompt for a request with attachments: the user's text alone when
/// there are none; otherwise each file's context block and a newline, then
/// a newline and the user's text.
pub fn build_prompt_with_context(user_text: &str, files: &[(String, String, Option<(usize, usize)>)]) -> (s: String)
    ensures
        s@ == if files@.len() == 0 { user_text@ } else { file_blocks(files@) + "\n"@ + user_text@ },
{
    if files.len() == 0 {
        return owned(user_text);
    }
    let ghost fs = files@;
    let mut prompt = String::new();
    let mut i: usize = 0;
    while i < files.len()
        invariant
            fs == files@,
            i <= fs.len(),
            prompt@ == file_blocks(fs.take(i as int)),
        decreases fs.len() - i,
    {
        assert(fs.take(i + 1).drop_last() =~= fs.take(i as int));
        let block = format_file_context(files[i].0.as_str(), files[i].1.as_str(), files[i].2);
        prompt.append(block.as_str());
        prompt.append("\n");
        i = i + 1;
    }
    assert(fs.take(fs.len() as int) =~= fs);
    prompt.append("\n");
    prompt.append(user_text);
    prompt
}

} // verus!
