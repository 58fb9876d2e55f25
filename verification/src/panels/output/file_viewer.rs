//! Read-only view of a file: its lines and a scroll position. The caller
//! reads the file and hands over its text (or the read error).

use vstd::prelude::*;
use crate::text::{lines_view, str_lines, lines_of, owned, concat, same_text};
use crate::panels::editor::rows::{number_of, number_text, row_count};

verus! {

/// The mathematical value of the file viewer.
#[verifier::ext_equal]
pub struct FileView {
    pub lines: Seq<Seq<char>>,
    pub scroll_offset: nat,
    pub visible_height: nat,
    pub path: Option<Seq<char>>,
}

/// Read-only file viewer.
pub struct FileViewer {
    lines: Vec<String>,
    scroll_offset: usize,
    visible_height: usize,
    current_path: Option<String>,
}

impl View for FileViewer {
    type V = FileView;

    closed spec fn view(&self) -> FileView {
        FileView {
            lines: lines_view(self.lines@),
            scroll_offset: self.scroll_offset as nat,
            visible_height: self.visible_height as nat,
            path: match self.current_path { Some(p) => Some(p@), None => None },
        }
    }
}

/// The largest scroll offset: the lines beyond one screen.
pub open spec fn file_max_scroll(v: FileView) -> nat {
    if v.lines.len() >= v.visible_height { (v.lines.len() - v.visible_height) as nat } else { 0 }
}

/// The lines shown for a read: the file's lines (one empty line for an
/// empty file), or the error.
pub open spec fn loaded_lines(read: Result<Seq<char>, Seq<char>>) -> Seq<Seq<char>> {
    match read {
        Ok(text) => if str_lines(text).len() == 0 { seq![seq![]] } else { str_lines(text) },
        Err(e) => seq!["Error reading file: "@ + e],
    }
}

/// The value of a read.
pub open spec fn read_view(r: Result<String, String>) -> Result<Seq<char>, Seq<char>> {
    match r {
        Ok(t) => Ok(t@),
        Err(e) => Err(e@),
    }
}

/// The viewer after loading `path`, unless it is the file shown.
pub open spec fn file_loaded(v: FileView, path: Seq<char>, read: Result<Seq<char>, Seq<char>>) -> FileView {
    if v.path == Some(path) {
        v
    } else {
        FileView { lines: loaded_lines(read), scroll_offset: 0, path: Some(path), ..v }
    }
}

/// The viewer after scrolling up `n` lines.
pub open spec fn file_scrolled_up(v: FileView, n: nat) -> FileView {
    FileView { scroll_offset: if v.scroll_offset >= n { (v.scroll_offset - n) as nat } else { 0 }, ..v }
}

/// The viewer after scrolling down `n` lines.
pub open spec fn file_scrolled_down(v: FileView, n: nat) -> FileView {
    let next = v.scroll_offset + n;
    FileView { scroll_offset: if next <= file_max_scroll(v) { next } else { file_max_scroll(v) }, ..v }
}

/// The viewer with the scroll offset set to `offset`, within the end.
pub open spec fn file_scrolled_to(v: FileView, offset: nat) -> FileView {
    FileView { scroll_offset: if offset <= file_max_scroll(v) { offset } else { file_max_scroll(v) }, ..v }
}

impl FileViewer {
    /// An empty viewer, 20 lines high, showing no file.
    pub fn new() -> (f: Self)
        ensures
            f@ == (FileView { lines: seq![], scroll_offset: 0, visible_height: 20, path: None }),
    {
        let f = FileViewer { lines: Vec::new(), scroll_offset: 0, visible_height: 20, current_path: None };
        assert(lines_view(f.lines@) =~= Seq::<Seq<char>>::empty());
        f
    }

    /// Whether `path` is not the file shown (it has to be read).
    pub fn needs_load(&self, path: &str) -> (b: bool)
        ensures
            b == (self@.path != Some(path@)),
    {
        match &self.current_path {
            Some(p) => !same_text(p.as_str(), path),
            None => true,
        }
    }

    /// Show `path`, read as `read`, from the top; nothing changes when it
    /// is the file shown.
    pub fn load_file(&mut self, path: &str, read: Result<String, String>)
        ensures
            final(self)@ == file_loaded(old(self)@, path@, read_view(read)),
    {
        if !self.needs_load(path) {
            return;
        }
        self.current_path = Some(owned(path));
        self.scroll_offset = 0;
        match read {
            Ok(text) => {
                let mut lines = lines_of(text.as_str());
                if lines.len() == 0 {
                    lines.push(String::new());
                    assert(lines_view(lines@) =~= seq![Seq::<char>::empty()]);
                }
                self.lines = lines;
            }
            Err(e) => {
                let mut lines: Vec<String> = Vec::new();
                lines.push(concat("Error reading file: ", e.as_str()));
                assert(lines_view(lines@) =~= seq!["Error reading file: "@ + e@]);
                self.lines = lines;
            }
        }
    }

    /// Forget which file is shown and return it, so that the caller reads
    /// it again and loads it anew.
    pub fn reload(&mut self) -> (p: Option<String>)
        ensures
            final(self)@ == (FileView { path: None, ..old(self)@ }),
            match p { Some(s) => old(self)@.path == Some(s@), None => old(self)@.path is None },
    {
        let p = self.current_path.take();
        p
    }

    /// The scroll offset.
    pub fn scroll_offset(&self) -> (o: usize)
        ensures
            o == self@.scroll_offset,
    {
        self.scroll_offset
    }

    /// The lines shown.
    pub fn lines(&self) -> (l: &[String])
        ensures
            lines_view(l@) == self@.lines,
    {
        self.lines.as_slice()
    }

    /// The rows shown from the scroll offset on, `height` at most: each
    /// line's number, right-aligned to the widest number, with a space
    /// after it, and the line.
    pub fn rows(&self, height: usize) -> (r: Vec<(String, String)>)
        ensures
            r@.len() == row_count(self@.lines.len(), self@.scroll_offset, height as nat),
            forall|k: int| 0 <= k < r@.len() ==> (#[trigger] r@[k]).0@
                == number_text((self@.scroll_offset + k) as nat, self@.lines.len())
                && r@[k].1@ == self@.lines[self@.scroll_offset + k],
    {
        let top = self.scroll_offset;
        let count = self.lines.len();
        let ghost n = row_count(count as nat, top as nat, height as nat);
        let mut r: Vec<(String, String)> = Vec::new();
        let mut k: usize = 0;
        while k < height && top < count && k < count - top
            invariant
                top == self@.scroll_offset,
                count == self@.lines.len(),
                count == self.lines@.len(),
                self@.lines == lines_view(self.lines@),
                n == row_count(count as nat, top as nat, height as nat),
                k <= n,
                r@.len() == k,
                forall|j: int| 0 <= j < k ==> (#[trigger] r@[j]).0@ == number_text((top + j) as nat, count as nat)
                    && r@[j].1@ == self@.lines[top + j],
            decreases height - k,
        {
            let idx = top + k;
            let number = number_of(idx, count);
            r.push((number, owned(self.lines[idx].as_str())));
            k = k + 1;
        }
        r
    }

    fn max_scroll(&self) -> (m: usize)
        ensures
            m == file_max_scroll(self@),
    {
        if self.lines.len() >= self.visible_height { self.lines.len() - self.visible_height } else { 0 }
    }

    /// Set the scroll offset, no further than the end allows.
    pub fn set_scroll_offset(&mut self, offset: usize)
        ensures
            final(self)@ == file_scrolled_to(old(self)@, offset as nat),
    {
        let max = self.max_scroll();
        self.scroll_offset = if offset <= max { offset } else { max };
    }

    /// Set the number of visible lines.
    pub fn set_visible_height(&mut self, height: usize)
        ensures
            final(self)@ == (FileView { visible_height: height as nat, ..old(self)@ }),
    {
        self.visible_height = height;
    }

    /// Scroll up by `lines`.
    pub fn scroll_up(&mut self, lines: usize)
        ensures
            final(self)@ == file_scrolled_up(old(self)@, lines as nat),
    {
        self.scroll_offset = if self.scroll_offset >= lines { self.scroll_offset - lines } else { 0 };
    }

    /// Scroll down by `lines`, no further than the end allows.
    pub fn scroll_down(&mut self, lines: usize)
        ensures
            final(self)@ == file_scrolled_down(old(self)@, lines as nat),
    {
        let max = self.max_scroll();
        let next = self.scroll_offset as u128 + lines as u128;
        self.scroll_offset = if next <= max as u128 { next as usize } else { max };
    }

    /// The number of lines.
    pub fn line_count(&self) -> (n: usize)
        ensures
            n == self@.lines.len(),
    {
        self.lines.len()
    }
}

impl Default for FileViewer {
    fn default() -> (f: Self)
        ensures
            f@ == (FileView { lines: seq![], scroll_offset: 0, visible_height: 20, path: None }),
    {
        Self::new()
    }
}

} // verus!
