//! What the file tree shows of a file, and which file changes the watcher
//! reports.

use vstd::prelude::*;
use crate::path::{file_name_of, path_file_name, last_dot};
use crate::text::{chars_of, chars_from, lowercase, to_lowercase, same_text, starts_with};

verus! {

/// The theme color a file's icon is drawn in.
#[derive(Debug, Clone, Copy, PartialEq, Eq, Structural)]
pub enum IconColor {
    StatusError,
    StatusSuccess,
    StatusInfo,
    AccentPrimary,
    AccentSecondary,
    AccentHighlight,
    TextPrimary,
    TextSecondary,
    FileTreeFile,
}

/// What follows the last `.` of a name (the whole name when it has none).
pub open spec fn last_segment(name: Seq<char>) -> Seq<char> {
    match last_dot(name) {
        Some(i) => name.skip(i + 1 as int),
        None => name,
    }
}

/// The icon and color for a lowercase extension.
pub open spec fn icon_for(e: Seq<char>) -> (Seq<char>, IconColor) {
    if e == "rs"@ {
        ("🦀 "@, IconColor::StatusError)
    } else if e == "js"@ {
        ("📜 "@, IconColor::AccentHighlight)
    } else if e == "ts"@ {
        ("📘 "@, IconColor::AccentPrimary)
    } else if e == "jsx"@ || e == "tsx"@ {
        ("⚛️  "@, IconColor::AccentPrimary)
    } else if e == "py"@ {
        ("🐍 "@, IconColor::StatusSuccess)
    } else if e == "html"@ || e == "htm"@ {
        ("🌐 "@, IconColor::StatusError)
    } else if e == "css"@ || e == "scss"@ || e == "sass"@ {
        ("🎨 "@, IconColor::AccentSecondary)
    } else if e == "json"@ {
        ("📋 "@, IconColor::AccentHighlight)
    } else if e == "yaml"@ || e == "yml"@ {
        ("📋 "@, IconColor::StatusError)
    } else if e == "toml"@ {
        ("⚙️  "@, IconColor::TextSecondary)
    } else if e == "xml"@ {
        ("📄 "@, IconColor::AccentHighlight)
    } else if e == "md"@ || e == "markdown"@ {
        ("📝 "@, IconColor::StatusInfo)
    } else if e == "txt"@ {
        ("📄 "@, IconColor::TextPrimary)
    } else if e == "sh"@ || e == "bash"@ || e == "zsh"@ {
        ("💻 "@, IconColor::StatusSuccess)
    } else if e == "gitignore"@ {
        ("🚫 "@, IconColor::TextSecondary)
    } else if e == "png"@ || e == "jpg"@ || e == "jpeg"@ || e == "gif"@ || e == "svg"@ || e == "ico"@ {
        ("🖼️  "@, IconColor::AccentSecondary)
    } else if e == "lock"@ {
        ("🔒 "@, IconColor::TextSecondary)
    } else if e == "go"@ {
        ("🔵 "@, IconColor::AccentPrimary)
    } else if e == "c"@ || e == "h"@ {
        ("🔧 "@, IconColor::StatusInfo)
    } else if e == "cpp"@ || e == "cc"@ || e == "hpp"@ {
        ("🔧 "@, IconColor::StatusInfo)
    } else if e == "java"@ {
        ("☕ "@, IconColor::StatusError)
    } else {
        ("📄 "@, IconColor::FileTreeFile)
    }
}

fn icon_for_exec(e: &str) -> (r: (&'static str, IconColor))
    ensures
        (r.0@, r.1) == icon_for(e@),
{
    if same_text(e, "rs") {
        ("🦀 ", IconColor::StatusError)
    } else if same_text(e, "js") {
        ("📜 ", IconColor::AccentHighlight)
    } else if same_text(e, "ts") {
        ("📘 ", IconColor::AccentPrimary)
    } else if same_text(e, "jsx") || same_text(e, "tsx") {
        ("⚛️  ", IconColor::AccentPrimary)
    } else if same_text(e, "py") {
        ("🐍 ", IconColor::StatusSuccess)
    } else if same_text(e, "html") || same_text(e, "htm") {
        ("🌐 ", IconColor::StatusError)
    } else if same_text(e, "css") || same_text(e, "scss") || same_text(e, "sass") {
        ("🎨 ", IconColor::AccentSecondary)
    } else if same_text(e, "json") {
        ("📋 ", IconColor::AccentHighlight)
    } else if same_text(e, "yaml") || same_text(e, "yml") {
        ("📋 ", IconColor::StatusError)
    } else if same_text(e, "toml") {
        ("⚙️  ", IconColor::TextSecondary)
    } else if same_text(e, "xml") {
        ("📄 ", IconColor::AccentHighlight)
    } else if same_text(e, "md") || same_text(e, "markdown") {
        ("📝 ", IconColor::StatusInfo)
    } else if same_text(e, "txt") {
        ("📄 ", IconColor::TextPrimary)
    } else if same_text(e, "sh") || same_text(e, "bash") || same_text(e, "zsh") {
        ("💻 ", IconColor::StatusSuccess)
    } else if same_text(e, "gitignore") {
        ("🚫 ", IconColor::TextSecondary)
    } else if same_text(e, "png") || same_text(e, "jpg") || same_text(e, "jpeg") || same_text(e, "gif") || same_text(e, "svg") || same_text(e, "ico") {
        ("🖼️  ", IconColor::AccentSecondary)
    } else if same_text(e, "lock") {
        ("🔒 ", IconColor::TextSecondary)
    } else if same_text(e, "go") {
        ("🔵 ", IconColor::AccentPrimary)
    } else if same_text(e, "c") || same_text(e, "h") {
        ("🔧 ", IconColor::StatusInfo)
    } else if same_text(e, "cpp") || same_text(e, "cc") || same_text(e, "hpp") {
        ("🔧 ", IconColor::StatusInfo)
    } else if same_text(e, "java") {
        ("☕ ", IconColor::StatusError)
    } else {
        ("📄 ", IconColor::FileTreeFile)
    }
}

/// The text after the last `.` of `name` (all of it without a `.`).
fn last_segment_of(name: &str) -> (r: String)
    ensures
        r@ == last_segment(name@),
{
    let v = chars_of(name);
    let mut i = v.len();
    assert(name@.take(v@.len() as int) =~= name@);
    while i > 0 && v[i - 1] != '.'
        invariant
            v@ == name@,
            i <= v@.len(),
            last_dot(name@) == last_dot(name@.take(i as int)),
        decreases i,
    {
        assert(name@.take(i as int).drop_last() =~= name@.take(i - 1));
        i = i - 1;
    }
    if i == 0 {
        assert(name@.take(0) =~= Seq::<char>::empty());
        chars_from(name, 0)
    } else {
        assert(name@.take(i as int).last() == '.');
        chars_from(name, i)
    }
}

/// The icon of a file in the tree, and the color to draw it in, by the
/// file's extension (compared without case).
pub fn get_file_icon_and_color(name: &str) -> (r: (&'static str, IconColor))
    ensures
        (r.0@, r.1) == icon_for(lowercase(last_segment(name@))),
{
    let ext = last_segment_of(name);
    let lower = to_lowercase(ext.as_str());
    icon_for_exec(lower.as_str())
}

/// `p` occurs in `s`.
pub open spec fn occurs_in(p: Seq<char>, s: Seq<char>) -> bool {
    exists|i: int| 0 <= i && i + p.len() <= s.len() && #[trigger] s.subrange(i, i + p.len()) == p
}

/// Whether `p` occurs in `s`.
pub fn contains_text(s: &str, p: &str) -> (b: bool)
    ensures
        b == occurs_in(p@, s@),
{
    let x = chars_of(s);
    let y = chars_of(p);
    if y.len() > x.len() {
        return false;
    }
    let mut i: usize = 0;
    while i <= x.len() - y.len()
        invariant
            x@ == s@,
            y@ == p@,
            y@.len() <= x@.len(),
            i <= x@.len() - y@.len() + 1,
            forall|k: int| 0 <= k < i ==> #[trigger] s@.subrange(k, k + p@.len()) != p@,
        decreases x@.len() - i,
    {
        let mut j: usize = 0;
        while j < y.len() && x[i + j] == y[j]
            invariant
                x@ == s@,
                y@ == p@,
                i + y@.len() <= x@.len(),
                x@.len() == x.len(),
                j <= y@.len(),
                forall|m: int| 0 <= m < j ==> x@[i + m] == y@[m],
            decreases y@.len() - j,
        {
            j = j + 1;
        }
        if j == y.len() {
            assert(s@.subrange(i as int, i + p@.len()) =~= p@);
            return true;
        }
        assert(s@.subrange(i as int, i + p@.len())[j as int] != p@[j as int]);
        i = i + 1;
    }
    proof {
        assert forall|k: int| 0 <= k && k + p@.len() <= s@.len() implies #[trigger] s@.subrange(k, k + p@.len()) != p@ by {
            assert(k < i);
        }
    }
    false
}

/// The watcher ignores `path`: its file name is hidden, or it holds one
/// of the build, dependency, cache, binary, lock, log and editor-backup
/// patterns.
pub open spec fn ignored_path(s: Seq<char>) -> bool {
    ||| (path_file_name(s) matches Some(n) && n.len() > 0 && n[0] == '.')
    ||| occurs_in("/target/"@, s) || occurs_in("/node_modules/"@, s) || occurs_in("/.git/"@, s) || occurs_in("/__pycache__/"@, s)
        || occurs_in("/.venv/"@, s) || occurs_in("/venv/"@, s) || occurs_in("/dist/"@, s) || occurs_in("/build/"@, s)
        || occurs_in(".pyc"@, s) || occurs_in(".pyo"@, s) || occurs_in(".class"@, s) || occurs_in(".o"@, s)
        || occurs_in(".a"@, s) || occurs_in(".so"@, s) || occurs_in(".dylib"@, s) || occurs_in(".lock"@, s)
        || occurs_in(".log"@, s) || occurs_in(".tmp"@, s) || occurs_in(".swp"@, s) || occurs_in(".swo"@, s)
        || occurs_in("~"@, s)
}

/// Whether the watcher ignores a change of `path`.
pub fn should_ignore(path: &str) -> (b: bool)
    ensures
        b == ignored_path(path@),
{
    if let Some(name) = file_name_of(path) {
        proof { reveal_strlit("."); }
        let hidden = starts_with(name.as_str(), ".");
        proof {
            assert(hidden == (name@.len() > 0 && name@[0] == '.')) by {
                if name@.len() > 0 {
                    assert(name@.subrange(0, 1)[0] == name@[0]);
                    if name@[0] == '.' {
                        assert(name@.subrange(0, 1) =~= "."@);
                    }
                }
            }
        }
        if hidden {
            return true;
        }
    }
    let s = path;
    contains_text(s, "/target/") || contains_text(s, "/node_modules/") || contains_text(s, "/.git/") || contains_text(s, "/__pycache__/")
        || contains_text(s, "/.venv/") || contains_text(s, "/venv/") || contains_text(s, "/dist/") || contains_text(s, "/build/")
        || contains_text(s, ".pyc") || contains_text(s, ".pyo") || contains_text(s, ".class") || contains_text(s, ".o")
        || contains_text(s, ".a") || contains_text(s, ".so") || contains_text(s, ".dylib") || contains_text(s, ".lock")
        || contains_text(s, ".log") || contains_text(s, ".tmp") || contains_text(s, ".swp") || contains_text(s, ".swo")
        || contains_text(s, "~")
}

} // verus!
