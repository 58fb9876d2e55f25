//! The conductor: the conversation it keeps, and how the agents it asks
//! for are read out of a model's answer.

use vstd::prelude::*;
use vstd::utf8::{encode_utf8, decode_utf8, is_char_boundary, encode_utf8_decode_utf8};
use crate::agents::AgentSpawnRequest;
use crate::agents::types::AgentType;
use crate::llm::message::{ChatMessage, MessageContent, Role};
use crate::state::context::AgentId;
use crate::text::{
    owned, concat, chars_of, chars_from, starts_with, trim, trim_view, lines_of, str_lines, lines_view,
    string_from_chars, first_index_of, find_char,
};

verus! {

/// `n - 3`, or 0 below 3.
pub open spec fn less_three(n: nat) -> nat {
    if n >= 3 { (n - 3) as nat } else { 0 }
}

/// `s` cut to at most `max` bytes: unchanged when it fits, otherwise its
/// first `max - 3` bytes followed by `...`.
pub open spec fn truncated(s: Seq<char>, max: nat) -> Seq<char> {
    if encode_utf8(s).len() <= max {
        s
    } else {
        decode_utf8(encode_utf8(s).subrange(0, less_three(max) as int)) + "..."@
    }
}

/// Cutting `s` to `max` bytes falls on a character boundary (or needs no
/// cut).
pub open spec fn truncation_safe(s: Seq<char>, max: nat) -> bool {
    encode_utf8(s).len() <= max || is_char_boundary(encode_utf8(s), less_three(max) as int)
}

/// Truncate `s` to at most `max_len` bytes, marking a cut with `...`.
pub fn truncate(s: &str, max_len: usize) -> (r: String)
    requires
        truncation_safe(s@, max_len as nat),
    ensures
        r@ == truncated(s@, max_len as nat),
{
    let n = s.as_bytes().len();
    if n <= max_len {
        owned(s)
    } else {
        let k = if max_len >= 3 { max_len - 3 } else { 0 };
        let (head, _tail) = s.split_at(k);
        proof {
            encode_utf8_decode_utf8(head@);
        }
        concat(head, "...")
    }
}

/// Whether `truncate` can cut `s` to `max_len` bytes.
pub fn can_truncate(s: &str, max_len: usize) -> (b: bool)
    ensures
        b == truncation_safe(s@, max_len as nat),
{
    let n = s.as_bytes().len();
    if n <= max_len {
        true
    } else {
        let k = if max_len >= 3 { max_len - 3 } else { 0 };
        s.is_char_boundary(k)
    }
}

// ---------------------------------------------------------------------
// The commands of an answer.

/// What a spawn request carries, as plain values: the agent type, name,
/// description and parameters.
pub type RequestView = (AgentType, Seq<char>, Seq<char>, Seq<char>);

/// The plain view of a request.
pub open spec fn request_view(r: AgentSpawnRequest) -> RequestView {
    (r.agent_type, r.name@, r.description@, match r.parameters { Some(p) => p@, None => Seq::empty() })
}

/// The line opens a code fence.
pub open spec fn is_fence(l: Seq<char>) -> bool {
    "```"@.is_prefix_of(trim_view(l))
}

/// The line closes a code fence.
pub open spec fn is_close(l: Seq<char>) -> bool {
    trim_view(l) == "```"@
}

/// The line begins (after whitespace) with `@`.
pub open spec fn is_directive(l: Seq<char>) -> bool {
    trim_view(l).len() > 0 && trim_view(l)[0] == '@'
}

/// First line at or after `j` that opens a fence or holds a directive
/// (or the number of lines).
pub open spec fn next_stop(lines: Seq<Seq<char>>, j: nat) -> nat
    decreases lines.len() - j,
{
    if j >= lines.len() {
        lines.len()
    } else if is_fence(lines[j as int]) || is_directive(lines[j as int]) {
        j
    } else {
        next_stop(lines, j + 1)
    }
}

/// First line at or after `j` that closes a fence (or the number of
/// lines).
pub open spec fn next_close(lines: Seq<Seq<char>>, j: nat) -> nat
    decreases lines.len() - j,
{
    if j >= lines.len() {
        lines.len()
    } else if is_close(lines[j as int]) {
        j
    } else {
        next_close(lines, j + 1)
    }
}

/// The lines `a..b`, each followed by a newline.
pub open spec fn code_text(lines: Seq<Seq<char>>, a: nat, b: nat) -> Seq<char>
    decreases b - a,
{
    if b <= a {
        seq![]
    } else {
        code_text(lines, a, (b - 1) as nat) + lines[b - 1] + "\n"@
    }
}

/// The number of backquotes that open `s`.
pub open spec fn leading_ticks(s: Seq<char>) -> nat
    decreases s.len(),
{
    if s.len() > 0 && s[0] == '`' { 1 + leading_ticks(s.skip(1)) } else { 0 }
}

/// The header of a fence line: the trimmed line without its backquotes.
pub open spec fn fence_header(l: Seq<char>) -> Seq<char> {
    trim_view(l).skip(leading_ticks(trim_view(l)) as int)
}

/// The path a fence header names: the field after its first `:` (up to a
/// second one), or the whole header when it has no `:` but a `/`.
pub open spec fn header_path(h: Seq<char>) -> Seq<char> {
    match first_index_of(h, ':') {
        Some(c) => {
            let rest = h.skip((c + 1) as int);
            match first_index_of(rest, ':') {
                Some(d) => rest.take(d as int),
                None => rest,
            }
        },
        None => if h.contains('/') { h } else { Seq::empty() },
    }
}

/// What follows a `@coder` line at `i`: the line to resume at, the path of
/// the code block and its code. Lines are skipped up to a fence or a
/// directive; at a directive (or the end) there is no block; at a fence the
/// block runs up to its closing line (or the end).
pub open spec fn coder_block(lines: Seq<Seq<char>>, i: nat) -> (nat, Seq<char>, Seq<char>) {
    let k = next_stop(lines, i + 1);
    if k >= lines.len() || !is_fence(lines[k as int]) {
        (k, Seq::empty(), Seq::empty())
    } else {
        let m = next_close(lines, k + 1);
        (if m < lines.len() { m + 1 } else { m }, header_path(fence_header(lines[k as int])), code_text(lines, k + 1, m))
    }
}

/// The request a `@coder` directive with this description makes.
pub open spec fn coder_request(desc: Seq<char>, path: Seq<char>, code: Seq<char>) -> RequestView {
    (AgentType::Coder, "Coder"@, truncated(desc, 50),
        if path.len() > 0 { path + "|"@ + code } else { desc })
}

/// The requests of the lines from `i` on: `@shell`, `@search` and
/// `@fileops` lines ask for one agent each, and a `@coder` line for a coder
/// with the code block that follows it.
pub open spec fn requests_from(lines: Seq<Seq<char>>, i: nat) -> Seq<RequestView>
    decreases lines.len() - i, 1nat,
{
    if i >= lines.len() {
        seq![]
    } else {
        let t = trim_view(lines[i as int]);
        if "@shell "@.is_prefix_of(t) {
            let cmd = t.skip(7);
            seq![(AgentType::Shell, "Shell"@, truncated(cmd, 50), cmd)] + requests_from(lines, i + 1)
        } else if "@search "@.is_prefix_of(t) {
            let q = t.skip(8);
            seq![(AgentType::Search, "Search"@, "Searching: "@ + truncated(q, 40), q)] + requests_from(lines, i + 1)
        } else if "@fileops "@.is_prefix_of(t) {
            let op = t.skip(9);
            seq![(AgentType::FileOps, "FileOps"@, truncated(op, 50), op)] + requests_from(lines, i + 1)
        } else if "@coder "@.is_prefix_of(t) {
            let b = coder_block(lines, i);
            seq![coder_request(t.skip(7), b.1, b.2)] + requests_from_after(lines, i, b.0)
        } else {
            requests_from(lines, i + 1)
        }
    }
}

/// The requests from line `r` on, where `r` comes after line `i`.
pub open spec fn requests_from_after(lines: Seq<Seq<char>>, i: nat, r: nat) -> Seq<RequestView>
    decreases lines.len() - i, 0nat,
{
    if i < r <= lines.len() { requests_from(lines, r) } else { seq![] }
}

/// Every description cut on the lines from `i` on falls on a character
/// boundary.
pub open spec fn cuts_safe_from(lines: Seq<Seq<char>>, i: nat) -> bool
    decreases lines.len() - i, 1nat,
{
    if i >= lines.len() {
        true
    } else {
        let t = trim_view(lines[i as int]);
        if "@shell "@.is_prefix_of(t) {
            truncation_safe(t.skip(7), 50) && cuts_safe_from(lines, i + 1)
        } else if "@search "@.is_prefix_of(t) {
            truncation_safe(t.skip(8), 40) && cuts_safe_from(lines, i + 1)
        } else if "@fileops "@.is_prefix_of(t) {
            truncation_safe(t.skip(9), 50) && cuts_safe_from(lines, i + 1)
        } else if "@coder "@.is_prefix_of(t) {
            truncation_safe(t.skip(7), 50) && cuts_safe_after(lines, i, coder_block(lines, i).0)
        } else {
            cuts_safe_from(lines, i + 1)
        }
    }
}

/// `cuts_safe_from(lines, r)`, where `r` comes after line `i`.
pub open spec fn cuts_safe_after(lines: Seq<Seq<char>>, i: nat, r: nat) -> bool
    decreases lines.len() - i, 0nat,
{
    if i < r <= lines.len() { cuts_safe_from(lines, r) } else { true }
}

proof fn lemma_leading_ticks_is(s: Seq<char>, n: nat)
    requires
        n <= s.len(),
        forall|k: int| 0 <= k < n ==> s[k] == '`',
        n < s.len() ==> s[n as int] != '`',
    ensures
        leading_ticks(s) == n,
    decreases s.len(),
{
    if n > 0 {
        assert forall|k: int| 0 <= k < n - 1 implies s.skip(1)[k] == '`' by {
            assert(s.skip(1)[k] == s[k + 1]);
        }
        lemma_leading_ticks_is(s.skip(1), (n - 1) as nat);
    }
}

/// Whether a line opens a fence, and whether it holds a directive.
fn line_kind(line: &str) -> (r: (bool, bool))
    ensures
        r.0 == is_fence(line@),
        r.1 == is_directive(line@),
{
    let t = trim(line);
    proof {
        reveal_strlit("```");
        reveal_strlit("@");
    }
    let fence = starts_with(t.as_str(), "```");
    let directive = starts_with(t.as_str(), "@");
    proof {
        if t@.len() > 0 && t@[0] == '@' {
            assert(t@.subrange(0, 1) =~= "@"@);
        }
        if directive {
            assert(t@.subrange(0, 1)[0] == t@[0]);
        }
    }
    (fence, directive)
}

/// Whether a line closes a fence.
fn closes_fence(line: &str) -> (b: bool)
    ensures
        b == is_close(line@),
{
    let t = trim(line);
    crate::text::same_text(t.as_str(), "```")
}

/// The path named by the header of a fence line.
fn fence_path(line: &str) -> (p: String)
    ensures
        p@ == header_path(fence_header(line@)),
{
    let t = trim(line);
    let v = chars_of(t.as_str());
    let mut k: usize = 0;
    while k < v.len() && v[k] == '`'
        invariant
            v@ == t@,
            k <= v@.len(),
            forall|j: int| 0 <= j < k ==> v@[j] == '`',
        decreases v@.len() - k,
    {
        k = k + 1;
    }
    proof { lemma_leading_ticks_is(t@, k as nat); }
    let ghost h = t@.skip(k as int);
    assert(h == fence_header(line@));
    let hv = chars_from(t.as_str(), k);
    let hc = chars_of(hv.as_str());
    assert(hc@ == h);
    assert(hc@.skip(0) =~= h);
    match find_char(&hc, 0, ':') {
        Some(c) => {
            proof { crate::text::lemma_first_index_of(h, ':'); }
            let start = c + 1;
            assert(hc@.skip(start as int) =~= h.skip(start as int));
            match find_char(&hc, start, ':') {
                Some(d) => {
                    proof { crate::text::lemma_first_index_of(h.skip(start as int), ':'); }
                    let r = string_from_chars(&hc, start, start + d);
                    assert(r@ =~= h.skip(start as int).take(d as int));
                    r
                },
                None => {
                    let r = string_from_chars(&hc, start, hc.len());
                    assert(r@ =~= h.skip(start as int));
                    r
                },
            }
        },
        None => {
            proof { crate::text::lemma_first_index_of(h, ':'); }
            match find_char(&hc, 0, '/') {
                Some(j) => {
                    proof {
                        crate::text::lemma_first_index_of(h, '/');
                        assert(h[j as int] == '/');
                        assert(h.contains('/'));
                    }
                    hv
                },
                None => {
                    proof {
                        crate::text::lemma_first_index_of(h, '/');
                        assert(!h.contains('/'));
                    }
                    String::new()
                },
            }
        },
    }
}

/// The views of a list of lines.
pub open spec fn views_of(lines: Seq<String>) -> Seq<Seq<char>> {
    lines_view(lines)
}

/// Scan the code block after the `@coder` line at `i`.
fn scan_coder_block(lines: &Vec<String>, i: usize) -> (r: (usize, String, String))
    requires
        i < lines@.len(),
    ensures
        (r.0 as nat, r.1@, r.2@) == coder_block(lines_view(lines@), i as nat),
        i < r.0 <= lines@.len(),
{
    let ghost ls = lines_view(lines@);
    let n = lines.len();
    let mut k = i + 1;
    let mut fence = false;
    let mut stop = false;
    while k < n && !stop
        invariant
            ls == lines_view(lines@),
            n == lines@.len(),
            i < k <= n,
            next_stop(ls, (i + 1) as nat) == next_stop(ls, k as nat),
            stop ==> k < n && fence == is_fence(ls[k as int]) && (is_fence(ls[k as int]) || is_directive(ls[k as int])),
            !stop ==> !fence,
        decreases n - k, if stop { 0int } else { 1int },
    {
        let (f, d) = line_kind(lines[k].as_str());
        if f || d {
            fence = f;
            stop = true;
        } else {
            k = k + 1;
        }
    }
    assert(k == next_stop(ls, (i + 1) as nat));
    if k >= n || !fence {
        return (k, String::new(), String::new());
    }
    let path = fence_path(lines[k].as_str());
    let mut code = String::new();
    let mut m = k + 1;
    while m < n && !closes_fence(lines[m].as_str())
        invariant
            ls == lines_view(lines@),
            n == lines@.len(),
            k < m <= n,
            next_close(ls, (k + 1) as nat) == next_close(ls, m as nat),
            code@ == code_text(ls, (k + 1) as nat, m as nat),
        decreases n - m,
    {
        code.append(lines[m].as_str());
        code.append("\n");
        assert(code@ =~= code_text(ls, (k + 1) as nat, (m + 1) as nat));
        m = m + 1;
    }
    assert(m == next_close(ls, (k + 1) as nat));
    let resume = if m < n { m + 1 } else { m };
    (resume, path, code)
}

/// The requests of a model's answer.
pub open spec fn answer_requests(response: Seq<char>) -> Seq<RequestView> {
    requests_from(str_lines(response), 0)
}

/// Every description cut in the answer falls on a character boundary.
pub open spec fn answer_cuts_safe(response: Seq<char>) -> bool {
    cuts_safe_from(str_lines(response), 0)
}

/// The spawn requests that a model's answer makes, in order, each with
/// `parent_id` as its parent: `@shell <command>`, `@search <query>` and
/// `@fileops <operation>` lines ask for one agent each; a `@coder
/// <description>` line asks for a coder, with the code block that follows
/// it (its path taken from the fence header) as parameters.
pub fn parse_agent_requests(response: &str, parent_id: AgentId) -> (r: Vec<AgentSpawnRequest>)
    requires
        answer_cuts_safe(response@),
    ensures
        r@.len() == answer_requests(response@).len(),
        forall|k: int| 0 <= k < r@.len() ==> {
            &&& request_view(#[trigger] r@[k]) == answer_requests(response@)[k]
            &&& r@[k].parameters is Some
            &&& r@[k].parent_id == Some(parent_id)
        },
{
    let lines = lines_of(response);
    let ghost ls = lines_view(lines@);
    let n = lines.len();
    let mut out: Vec<AgentSpawnRequest> = Vec::new();
    let ghost mut done: Seq<RequestView> = seq![];
    let mut i: usize = 0;
    proof {
        reveal_strlit("@shell ");
        reveal_strlit("@search ");
        reveal_strlit("@fileops ");
        reveal_strlit("@coder ");
    }
    while i < n
        invariant
            ls == lines_view(lines@),
            ls == str_lines(response@),
            n == lines@.len(),
            i <= n,
            cuts_safe_from(ls, i as nat),
            done + requests_from(ls, i as nat) == requests_from(ls, 0),
            out@.len() == done.len(),
            forall|k: int| 0 <= k < out@.len() ==> {
                &&& request_view(#[trigger] out@[k]) == done[k]
                &&& out@[k].parameters is Some
                &&& out@[k].parent_id == Some(parent_id)
            },
        decreases n - i,
    {
        proof {
            reveal_strlit("@shell ");
            reveal_strlit("@search ");
            reveal_strlit("@fileops ");
            reveal_strlit("@coder ");
        }
        let t = trim(lines[i].as_str());
        assert(t@ == trim_view(ls[i as int]));
        let ghost before = done;
        let ghost old_out = out@;
        if starts_with(t.as_str(), "@shell ") {
            let cmd = chars_from(t.as_str(), 7);
            let desc = truncate(cmd.as_str(), 50);
            let ghost v: RequestView = (AgentType::Shell, "Shell"@, truncated(cmd@, 50), cmd@);
            out.push(AgentSpawnRequest {
                agent_type: AgentType::Shell,
                name: owned("Shell"),
                description: desc,
                parameters: Some(cmd),
                parent_id: Some(parent_id),
            });
            proof {
                done = before.push(v);
                assert(requests_from(ls, i as nat) == seq![v] + requests_from(ls, (i + 1) as nat));
                assert(done + requests_from(ls, (i + 1) as nat) =~= before + requests_from(ls, i as nat));
            }
            i = i + 1;
        } else if starts_with(t.as_str(), "@search ") {
            let q = chars_from(t.as_str(), 8);
            let cut = truncate(q.as_str(), 40);
            let desc = concat("Searching: ", cut.as_str());
            let ghost v: RequestView = (AgentType::Search, "Search"@, "Searching: "@ + truncated(q@, 40), q@);
            out.push(AgentSpawnRequest {
                agent_type: AgentType::Search,
                name: owned("Search"),
                description: desc,
                parameters: Some(q),
                parent_id: Some(parent_id),
            });
            proof {
                done = before.push(v);
                assert(requests_from(ls, i as nat) == seq![v] + requests_from(ls, (i + 1) as nat));
                assert(done + requests_from(ls, (i + 1) as nat) =~= before + requests_from(ls, i as nat));
            }
            i = i + 1;
        } else if starts_with(t.as_str(), "@fileops ") {
            let op = chars_from(t.as_str(), 9);
            let desc = truncate(op.as_str(), 50);
            let ghost v: RequestView = (AgentType::FileOps, "FileOps"@, truncated(op@, 50), op@);
            out.push(AgentSpawnRequest {
                agent_type: AgentType::FileOps,
                name: owned("FileOps"),
                description: desc,
                parameters: Some(op),
                parent_id: Some(parent_id),
            });
            proof {
                done = before.push(v);
                assert(requests_from(ls, i as nat) == seq![v] + requests_from(ls, (i + 1) as nat));
                assert(done + requests_from(ls, (i + 1) as nat) =~= before + requests_from(ls, i as nat));
            }
            i = i + 1;
        } else if starts_with(t.as_str(), "@coder ") {
            let d = chars_from(t.as_str(), 7);
            let (resume, path, code) = scan_coder_block(&lines, i);
            let desc = truncate(d.as_str(), 50);
            let params = if path.as_str().is_empty() {
                d.clone()
            } else {
                let p = concat(path.as_str(), "|");
                concat(p.as_str(), code.as_str())
            };
            let ghost v: RequestView = coder_request(d@, path@, code@);
            assert(params@ == v.3);
            out.push(AgentSpawnRequest {
                agent_type: AgentType::Coder,
                name: owned("Coder"),
                description: desc,
                parameters: Some(params),
                parent_id: Some(parent_id),
            });
            proof {
                done = before.push(v);
                assert(requests_from_after(ls, i as nat, resume as nat) == requests_from(ls, resume as nat));
                assert(cuts_safe_after(ls, i as nat, resume as nat) == cuts_safe_from(ls, resume as nat));
                assert(requests_from(ls, i as nat) == seq![v] + requests_from(ls, resume as nat));
                assert(done + requests_from(ls, resume as nat) =~= before + requests_from(ls, i as nat));
            }
            i = resume;
        } else {
            i = i + 1;
        }
        proof {
            assert forall|k: int| 0 <= k < out@.len() implies {
                &&& request_view(#[trigger] out@[k]) == done[k]
                &&& out@[k].parameters is Some
                &&& out@[k].parent_id == Some(parent_id)
            } by {
                if k < old_out.len() {
                    assert(out@[k] == old_out[k]);
                }
            }
        }
    }
    assert(done =~= requests_from(ls, 0));
    out
}

/// The spawn requests of an answer, or `None` when one of its descriptions
/// would be cut inside a character.
pub fn try_parse_agent_requests(response: &str, parent_id: AgentId) -> (r: Option<Vec<AgentSpawnRequest>>)
    ensures
        r is Some <==> answer_cuts_safe(response@),
        r matches Some(v) ==> v@.len() == answer_requests(response@).len()
            && forall|k: int| 0 <= k < v@.len() ==> {
                &&& request_view(#[trigger] v@[k]) == answer_requests(response@)[k]
                &&& v@[k].parameters is Some
                &&& v@[k].parent_id == Some(parent_id)
            },
{
    if answer_cuts_checked(response) {
        Some(parse_agent_requests(response, parent_id))
    } else {
        None
    }
}

/// Whether every description cut in the answer falls on a character
/// boundary.
pub fn answer_cuts_checked(response: &str) -> (b: bool)
    ensures
        b == answer_cuts_safe(response@),
{
    let lines = lines_of(response);
    let ghost ls = lines_view(lines@);
    let n = lines.len();
    let mut i: usize = 0;
    proof {
        reveal_strlit("@shell ");
        reveal_strlit("@search ");
        reveal_strlit("@fileops ");
        reveal_strlit("@coder ");
    }
    while i < n
        invariant
            ls == lines_view(lines@),
            ls == str_lines(response@),
            n == lines@.len(),
            i <= n,
            cuts_safe_from(ls, 0) == cuts_safe_from(ls, i as nat),
        decreases n - i,
    {
        proof {
            reveal_strlit("@shell ");
            reveal_strlit("@search ");
            reveal_strlit("@fileops ");
            reveal_strlit("@coder ");
        }
        let t = trim(lines[i].as_str());
        assert(t@ == trim_view(ls[i as int]));
        if starts_with(t.as_str(), "@shell ") {
            let cmd = chars_from(t.as_str(), 7);
            if !can_truncate(cmd.as_str(), 50) {
                return false;
            }
            i = i + 1;
        } else if starts_with(t.as_str(), "@search ") {
            let q = chars_from(t.as_str(), 8);
            if !can_truncate(q.as_str(), 40) {
                return false;
            }
            i = i + 1;
        } else if starts_with(t.as_str(), "@fileops ") {
            let op = chars_from(t.as_str(), 9);
            if !can_truncate(op.as_str(), 50) {
                return false;
            }
            i = i + 1;
        } else if starts_with(t.as_str(), "@coder ") {
            let d = chars_from(t.as_str(), 7);
            if !can_truncate(d.as_str(), 50) {
                return false;
            }
            let (resume, _path, _code) = scan_coder_block(&lines, i);
            assert(cuts_safe_after(ls, i as nat, resume as nat) == cuts_safe_from(ls, resume as nat));
            i = resume;
        } else {
            i = i + 1;
        }
    }
    true
}

// ---------------------------------------------------------------------
// The conversation.

/// The system prompt that tells the model which agents it can ask for.
pub open spec fn system_prompt() -> Seq<char> {
    r#"You are an AI assistant integrated into Axiom, a terminal-based IDE. You help users with code, shell commands, and file operations.

When you need to perform actions, you can spawn specialized agents:

1. **Shell Agent**: Execute shell commands
   Format: `@shell <command>`
   Example: `@shell ls -la`

2. **Coder Agent**: Modify or create code files
   Format: `@coder <description>` followed by code blocks
   Example:
   @coder Update the main function
   ```rust:src/main.rs
   fn main() {
       println!("Hello!");
   }
   ```

3. **Search Agent**: Search files or content
   Format: `@search <query>`
   Example: `@search TODO`

4. **FileOps Agent**: Read, write, or manage files
   Format: `@fileops <operation> <path>`
   Example: `@fileops read src/main.rs`

You can spawn multiple agents in a single response. Always explain what you're doing before spawning agents.

If the user's request doesn't require any agent actions, just respond conversationally."#@
}

/// The system prompt for the conductor.
pub fn build_system_prompt() -> (s: String)
    ensures
        s@ == system_prompt(),
{
    owned(r#"You are an AI assistant integrated into Axiom, a terminal-based IDE. You help users with code, shell commands, and file operations.

When you need to perform actions, you can spawn specialized agents:

1. **Shell Agent**: Execute shell commands
   Format: `@shell <command>`
   Example: `@shell ls -la`

2. **Coder Agent**: Modify or create code files
   Format: `@coder <description>` followed by code blocks
   Example:
   @coder Update the main function
   ```rust:src/main.rs
   fn main() {
       println!("Hello!");
   }
   ```

3. **Search Agent**: Search files or content
   Format: `@search <query>`
   Example: `@search TODO`

4. **FileOps Agent**: Read, write, or manage files
   Format: `@fileops <operation> <path>`
   Example: `@fileops read src/main.rs`

You can spawn multiple agents in a single response. Always explain what you're doing before spawning agents.

If the user's request doesn't require any agent actions, just respond conversationally."#)
}

/// The text echoed to the conductor's output before it answers: the
/// user's question in a `>>>user` box.
pub fn user_echo(task: &str) -> (s: String)
    ensures
        s@ == ">>>user\n"@ + task@ + "\n<<<\n\n"@,
{
    let s = concat(">>>user\n", task);
    concat(s.as_str(), "\n<<<\n\n")
}

/// The messages sent to the model: the system prompt, then the history.
pub fn conductor_messages(history: Vec<ChatMessage>) -> (m: Vec<ChatMessage>)
    ensures
        m@.len() == history@.len() + 1,
        m@[0].role == Role::System,
        m@[0].content matches MessageContent::Text(t) && t@ == system_prompt(),
        m@.skip(1) == history@,
{
    let mut m: Vec<ChatMessage> = Vec::new();
    m.push(ChatMessage { role: Role::System, content: MessageContent::Text(build_system_prompt()) });
    let mut rest = history;
    m.append(&mut rest);
    assert(m@.skip(1) =~= history@);
    m
}

/// The history kept after adding a message: the last `max` messages.
pub open spec fn kept_history(h: Seq<ChatMessage>, max: nat) -> Seq<ChatMessage> {
    if h.len() > max { h.skip(h.len() - max) } else { h }
}

/// What the application does after the conductor took an input.
#[derive(Debug)]
pub enum ConductorStep {
    /// Wake the conductor agent with this id and run it on the input.
    Wake(AgentId),
    /// Spawn the conductor agent with this request.
    Spawn(AgentSpawnRequest),
}

/// The conductor: keeps the conversation and the id of its agent.
pub struct Conductor {
    /// Conversation history for context.
    history: Vec<ChatMessage>,
    /// Maximum number of messages kept.
    max_history: usize,
    /// The conductor's own agent, once spawned.
    agent_id: Option<AgentId>,
}

impl Conductor {
    /// The conversation.
    pub closed spec fn messages(&self) -> Seq<ChatMessage> {
        self.history@
    }

    /// The number of messages kept.
    pub closed spec fn limit(&self) -> nat {
        self.max_history as nat
    }

    /// The conductor's agent.
    pub closed spec fn agent(&self) -> Option<AgentId> {
        self.agent_id
    }

    /// A conductor with no history, keeping 20 messages, without an agent.
    pub fn new() -> (c: Self)
        ensures
            c.messages() == Seq::<ChatMessage>::empty(),
            c.limit() == 20,
            c.agent() is None,
    {
        Conductor { history: Vec::new(), max_history: 20, agent_id: None }
    }

    /// Set the conductor's agent.
    pub fn set_agent_id(&mut self, id: AgentId)
        ensures
            final(self).agent() == Some(id),
            final(self).messages() == old(self).messages(),
            final(self).limit() == old(self).limit(),
    {
        self.agent_id = Some(id);
    }

    /// The conductor's agent.
    pub fn agent_id(&self) -> (r: Option<AgentId>)
        ensures
            r == self.agent(),
    {
        self.agent_id
    }

    /// Append a message and drop the oldest beyond the limit.
    fn remember(&mut self, msg: ChatMessage)
        ensures
            final(self).messages() == kept_history(old(self).messages().push(msg), old(self).limit()),
            final(self).limit() == old(self).limit(),
            final(self).agent() == old(self).agent(),
    {
        let ghost h = self.history@.push(msg);
        self.history.push(msg);
        while self.history.len() > self.max_history
            invariant
                self.max_history == old(self).max_history,
                self.agent_id == old(self).agent_id,
                h == old(self).history@.push(msg),
                self.history@.len() < h.len() ==> self.history@.len() >= self.max_history,
                kept_history(h, self.max_history as nat) == kept_history(self.history@, self.max_history as nat),
                self.history@.len() <= h.len(),
                self.history@ == h.skip(h.len() - self.history@.len()),
            decreases self.history@.len(),
        {
            let ghost before = self.history@;
            self.history.remove(0);
            assert(self.history@ =~= h.skip(h.len() - self.history@.len()));
            assert(kept_history(before, self.max_history as nat) =~= kept_history(self.history@, self.max_history as nat));
        }
        assert(kept_history(self.history@, self.max_history as nat) == self.history@);
    }

    /// Take a user's input: remember it, then wake the conductor's agent
    /// when there is one, or ask for it to be spawned with the input as its
    /// parameters.
    pub fn process(&mut self, input: String) -> (step: ConductorStep)
        ensures
            final(self).messages() == kept_history(
                old(self).messages().push(ChatMessage { role: Role::User, content: MessageContent::Text(input) }),
                old(self).limit()),
            final(self).limit() == old(self).limit(),
            final(self).agent() == old(self).agent(),
            match old(self).agent() {
                Some(id) => step == ConductorStep::Wake(id),
                None => step matches ConductorStep::Spawn(r) && {
                    &&& r.agent_type == AgentType::Conductor
                    &&& r.name@ == "Conductor"@
                    &&& r.description@ == "AI Assistant"@
                    &&& r.parameters matches Some(p) && p@ == input@
                    &&& r.parent_id is None
                },
            },
    {
        let param = input.clone();
        self.remember(ChatMessage { role: Role::User, content: MessageContent::Text(input) });
        match self.agent_id {
            Some(id) => ConductorStep::Wake(id),
            None => ConductorStep::Spawn(AgentSpawnRequest {
                agent_type: AgentType::Conductor,
                name: owned("Conductor"),
                description: owned("AI Assistant"),
                parameters: Some(param),
                parent_id: None,
            }),
        }
    }

    /// The conversation history.
    pub fn history(&self) -> (h: &[ChatMessage])
        ensures
            h@ == self.messages(),
    {
        self.history.as_slice()
    }

    /// Forget the conversation.
    pub fn clear_history(&mut self)
        ensures
            final(self).messages() == Seq::<ChatMessage>::empty(),
            final(self).limit() == old(self).limit(),
            final(self).agent() == old(self).agent(),
    {
        self.history.clear();
    }

    /// Remember the model's answer, dropping the oldest messages beyond the
    /// limit.
    pub fn add_response(&mut self, response: String)
        ensures
            final(self).messages() == kept_history(
                old(self).messages().push(ChatMessage { role: Role::Assistant, content: MessageContent::Text(response) }),
                old(self).limit()),
            final(self).limit() == old(self).limit(),
            final(self).agent() == old(self).agent(),
    {
        self.remember(ChatMessage { role: Role::Assistant, content: MessageContent::Text(response) });
    }
}

/// The answer being streamed from the model.
pub struct ReplyCollector {
    text: String,
}

impl ReplyCollector {
    /// The answer so far.
    pub closed spec fn so_far(&self) -> Seq<char> {
        self.text@
    }

    /// Nothing received yet.
    pub fn new() -> (c: Self)
        ensures
            c.so_far() == Seq::<char>::empty(),
    {
        ReplyCollector { text: String::new() }
    }

    /// Take a chunk of the answer.
    pub fn on_chunk(&mut self, chunk: &str)
        ensures
            final(self).so_far() == old(self).so_far() + chunk@,
    {
        self.text.append(chunk);
    }

    /// The whole answer.
    pub fn text(&self) -> (s: &str)
        ensures
            s@ == self.so_far(),
    {
        self.text.as_str()
    }

    /// The agents the complete answer asks for, with the conductor's agent
    /// as their parent (`None` when a description would be cut inside a
    /// character).
    pub fn requests(&self, parent_id: AgentId) -> (r: Option<Vec<AgentSpawnRequest>>)
        ensures
            r is Some <==> answer_cuts_safe(self.so_far()),
            r matches Some(v) ==> v@.len() == answer_requests(self.so_far()).len()
                && forall|k: int| 0 <= k < v@.len() ==> {
                    &&& request_view(#[trigger] v@[k]) == answer_requests(self.so_far())[k]
                    &&& v@[k].parent_id == Some(parent_id)
                },
    {
        try_parse_agent_requests(self.text.as_str(), parent_id)
    }
}

/// The chunk shown when the model fails.
pub fn error_chunk(message: &str) -> (s: String)
    ensures
        s@ == "\nError: "@ + message@,
{
    concat("\nError: ", message)
}

} // verus!
