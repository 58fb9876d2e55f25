//! The file tree: directory listings as the tree shows them (hidden names
//! left out, directories first, then by name), expanding and collapsing
//! directories, and moving the selection.

use vstd::prelude::*;
use vstd::seq_lib::group_to_multiset_ensures;
use crate::keys::{KeyCode, KeyEvent};
use crate::text::{chars_of, concat};
use crate::ui::layout::Rect;

verus! {

broadcast use group_to_multiset_ensures;

/// File or directory entry in the tree.
#[derive(Debug, Clone)]
pub struct FileEntry {
    pub path: String,
    pub name: String,
    pub is_dir: bool,
    pub expanded: bool,
    pub depth: usize,
}

/// One item of a directory listing, as read from the file system.
#[derive(Debug, Clone)]
pub struct DirItem {
    pub path: String,
    pub name: String,
    pub is_dir: bool,
}

/// Lexicographic order on names, character by character.
pub open spec fn name_le(a: Seq<char>, b: Seq<char>) -> bool
    decreases a.len(),
{
    if a.len() == 0 {
        true
    } else if b.len() == 0 {
        false
    } else if (a[0] as u32) != (b[0] as u32) {
        (a[0] as u32) < (b[0] as u32)
    } else {
        name_le(a.skip(1), b.skip(1))
    }
}

/// The tree's order: directories before files, then by name.
pub open spec fn entry_le(a: FileEntry, b: FileEntry) -> bool {
    if a.is_dir != b.is_dir { a.is_dir } else { name_le(a.name@, b.name@) }
}

/// The entries are in the tree's order.
pub open spec fn sorted_entries(s: Seq<FileEntry>) -> bool {
    forall|i: int, j: int| 0 <= i < j < s.len() ==> entry_le(s[i], s[j])
}

/// A listing item as a collapsed entry at `depth`.
pub open spec fn as_entry(item: DirItem, depth: usize) -> FileEntry {
    FileEntry { path: item.path, name: item.name, is_dir: item.is_dir, expanded: false, depth: depth }
}

/// The name is hidden (starts with `.`).
pub open spec fn is_hidden(name: Seq<char>) -> bool {
    name.len() > 0 && name[0] == '.'
}

/// The entries a listing shows: the items not hidden, as entries at
/// `depth`, in listing order.
pub open spec fn shown(items: Seq<DirItem>, depth: usize) -> Seq<FileEntry>
    decreases items.len(),
{
    if items.len() == 0 {
        seq![]
    } else {
        let rest = shown(items.drop_last(), depth);
        if is_hidden(items.last().name@) { rest } else { rest.push(as_entry(items.last(), depth)) }
    }
}

proof fn lemma_name_le_total(a: Seq<char>, b: Seq<char>)
    ensures
        name_le(a, b) || name_le(b, a),
    decreases a.len(),
{
    if a.len() > 0 && b.len() > 0 && (a[0] as u32) == (b[0] as u32) {
        lemma_name_le_total(a.skip(1), b.skip(1));
    }
}

proof fn lemma_name_le_trans(a: Seq<char>, b: Seq<char>, c: Seq<char>)
    requires
        name_le(a, b),
        name_le(b, c),
    ensures
        name_le(a, c),
    decreases a.len(),
{
    if a.len() > 0 && b.len() > 0 && c.len() > 0 && (a[0] as u32) == (b[0] as u32) && (b[0] as u32) == (c[0] as u32) {
        lemma_name_le_trans(a.skip(1), b.skip(1), c.skip(1));
    }
}

proof fn lemma_entry_le_total(a: FileEntry, b: FileEntry)
    ensures
        entry_le(a, b) || entry_le(b, a),
{
    lemma_name_le_total(a.name@, b.name@);
}

proof fn lemma_entry_le_trans(a: FileEntry, b: FileEntry, c: FileEntry)
    requires
        entry_le(a, b),
        entry_le(b, c),
    ensures
        entry_le(a, c),
{
    if a.is_dir == b.is_dir && b.is_dir == c.is_dir {
        lemma_name_le_trans(a.name@, b.name@, c.name@);
    }
}

/// Whether `a` comes no later than `b` in name order.
pub(crate) fn names_in_order(a: &str, b: &str) -> (r: bool)
    ensures
        r == name_le(a@, b@),
{
    let x = chars_of(a);
    let y = chars_of(b);
    let mut i: usize = 0;
    assert(x@.skip(0) =~= x@);
    assert(y@.skip(0) =~= y@);
    while i < x.len() && i < y.len() && (x[i] as u32) == (y[i] as u32)
        invariant
            x@ == a@,
            y@ == b@,
            i <= x@.len(),
            i <= y@.len(),
            name_le(a@, b@) == name_le(x@.skip(i as int), y@.skip(i as int)),
        decreases x@.len() - i,
    {
        proof {
            assert(x@.skip(i as int).skip(1) =~= x@.skip(i + 1));
            assert(y@.skip(i as int).skip(1) =~= y@.skip(i + 1));
        }
        i = i + 1;
    }
    if i == x.len() {
        true
    } else if i == y.len() {
        false
    } else {
        (x[i] as u32) < (y[i] as u32)
    }
}

/// Whether entry `a` comes no later than `b` in the tree's order.
fn entries_in_order(a: &FileEntry, b: &FileEntry) -> (r: bool)
    ensures
        r == entry_le(*a, *b),
{
    if a.is_dir != b.is_dir {
        a.is_dir
    } else {
        names_in_order(a.name.as_str(), b.name.as_str())
    }
}

/// Insert `e` into sorted `v`, after the entries that come no later.
fn insert_sorted(v: &mut Vec<FileEntry>, e: FileEntry)
    requires
        sorted_entries(old(v)@),
    ensures
        sorted_entries(final(v)@),
        final(v)@.to_multiset() == old(v)@.to_multiset().insert(e),
{
    let mut k: usize = 0;
    while k < v.len() && entries_in_order(&v[k], &e)
        invariant
            k <= v@.len(),
            forall|i: int| 0 <= i < k ==> entry_le(v@[i], e),
        decreases v@.len() - k,
    {
        k = k + 1;
    }
    let ghost before = v@;
    proof {
        if k < before.len() {
            lemma_entry_le_total(before[k as int], e);
            assert forall|j: int| k <= j < before.len() implies entry_le(e, before[j]) by {
                if j > k {
                    lemma_entry_le_trans(e, before[k as int], before[j]);
                }
            }
        }
    }
    v.insert(k, e);
    proof {
        assert forall|i: int, j: int| 0 <= i < j < v@.len() implies entry_le(v@[i], v@[j]) by {
            if j < k {
                assert(v@[i] == before[i] && v@[j] == before[j]);
            } else if j == k {
                assert(v@[i] == before[i]);
            } else if i == k {
                assert(v@[j] == before[j - 1]);
            } else if i < k {
                assert(v@[i] == before[i] && v@[j] == before[j - 1]);
                lemma_entry_le_trans(before[i], e, before[j - 1]);
            } else {
                assert(v@[i] == before[i - 1] && v@[j] == before[j - 1]);
            }
        }
    }
}

/// The entries a directory listing shows at `depth`: hidden names left
/// out, directories first, then by name.
pub fn listing_entries(items: Vec<DirItem>, depth: usize) -> (r: Vec<FileEntry>)
    ensures
        sorted_entries(r@),
        r@.to_multiset() == shown(items@, depth).to_multiset(),
{
    let ghost all = items@;
    let mut out: Vec<FileEntry> = Vec::new();
    let mut rest = items;
    let mut i: usize = 0;
    let n = rest.len();
    while rest.len() > 0
        invariant
            all.len() == n,
            i <= n,
            rest@ == all.skip(i as int),
            sorted_entries(out@),
            out@.to_multiset() == shown(all.take(i as int), depth).to_multiset(),
        decreases rest@.len(),
    {
        let item = rest.remove(0);
        assert(item == all[i as int]);
        assert(rest@ =~= all.skip(i + 1));
        assert(all.take(i + 1).drop_last() =~= all.take(i as int));
        let v = chars_of(item.name.as_str());
        let hidden = v.len() > 0 && v[0] == '.';
        if !hidden {
            let e = FileEntry { path: item.path, name: item.name, is_dir: item.is_dir, expanded: false, depth };
            insert_sorted(&mut out, e);
        }
        i = i + 1;
    }
    assert(all.take(n as int) =~= all);
    out
}

/// The number of entries from `from` on that lie deeper than `depth`
/// (the shown contents of an expanded directory).
pub open spec fn deeper_run(s: Seq<FileEntry>, from: nat, depth: usize) -> nat
    decreases s.len() - from,
{
    if from >= s.len() || s[from as int].depth <= depth {
        0
    } else {
        1 + deeper_run(s, from + 1, depth)
    }
}

/// The mathematical value of the tree.
pub struct TreeView {
    pub root: Seq<char>,
    pub entries: Seq<FileEntry>,
    pub selected: nat,
    pub scroll: nat,
    pub pending: Option<Seq<char>>,
}

/// What the tree asks of the application.
#[derive(Debug, Clone)]
pub enum TreeRequest {
    /// Nothing.
    Nothing,
    /// List this directory and hand the listing to `expand_selected`.
    ListDir(String),
    /// List the root again and hand the listing to `refresh_with`.
    Refresh,
    /// Put this path on the clipboard.
    CopyPath(String),
}

/// The outcome of a key.
#[derive(Debug, Clone)]
pub struct TreeKeyOutcome {
    pub handled: bool,
    pub request: TreeRequest,
}

/// The tree after the up arrow: the entry above selected (a file
/// becoming the one to open), at the top nothing.
pub open spec fn up_step(v: TreeView) -> TreeView {
    if v.selected > 0 {
        TreeView { selected: (v.selected - 1) as nat, pending: pending_after_select(v, (v.selected - 1) as nat), ..v }
    } else {
        v
    }
}

/// The tree after the down arrow: the entry below selected (a file
/// becoming the one to open), at the bottom nothing.
pub open spec fn down_step(v: TreeView) -> TreeView {
    if v.selected + 1 < v.entries.len() {
        TreeView { selected: v.selected + 1, pending: pending_after_select(v, v.selected + 1), ..v }
    } else {
        v
    }
}

/// The tree after `n` presses of the up or down arrow.
pub open spec fn paged(v: TreeView, up: bool, n: nat) -> TreeView
    decreases n,
{
    if n == 0 {
        v
    } else if up {
        up_step(paged(v, up, (n - 1) as nat))
    } else {
        down_step(paged(v, up, (n - 1) as nat))
    }
}

/// File tree panel.
pub struct FileTreePanel {
    root: String,
    entries: Vec<FileEntry>,
    selected: usize,
    scroll: usize,
    /// File to open, set when a file is chosen.
    pub pending_open: Option<String>,
}

/// `e` with its expanded flag set to `x`.
pub open spec fn with_expanded(e: FileEntry, x: bool) -> FileEntry {
    FileEntry { expanded: x, ..e }
}

impl View for FileTreePanel {
    type V = TreeView;

    closed spec fn view(&self) -> TreeView {
        TreeView {
            root: self.root@,
            entries: self.entries@,
            selected: self.selected as nat,
            scroll: self.scroll as nat,
            pending: match self.pending_open { Some(p) => Some(p@), None => None },
        }
    }
}

/// The tree with the selected directory collapsed, if it is an expanded
/// one: its shown contents (the deeper entries after it) removed.
pub open spec fn collapsed(v: TreeView) -> TreeView {
    match selected_entry(v) {
        Some(e) => if e.is_dir && e.expanded {
            let i = v.selected;
            let k = deeper_run(v.entries, i + 1, e.depth);
            TreeView {
                entries: v.entries.take(i as int).push(with_expanded(e, false)) + v.entries.skip((i + 1 + k) as int),
                ..v
            }
        } else {
            v
        },
        None => v,
    }
}

/// The selected entry, if the selection is on one.
pub open spec fn selected_entry(v: TreeView) -> Option<FileEntry> {
    if v.selected < v.entries.len() { Some(v.entries[v.selected as int]) } else { None }
}

/// After selecting index `i`: a file becomes the one to open.
pub open spec fn pending_after_select(v: TreeView, i: nat) -> Option<Seq<char>> {
    if i < v.entries.len() && !v.entries[i as int].is_dir { Some(v.entries[i as int].path@) } else { v.pending }
}

/// The tree after the selection moves up a row: the row above selected (a
/// file there becomes the one to open); unchanged at the first row.
pub open spec fn moved_up(v: TreeView) -> TreeView {
    if v.selected > 0 {
        TreeView { selected: (v.selected - 1) as nat, pending: pending_after_select(v, (v.selected - 1) as nat), ..v }
    } else {
        v
    }
}

/// The tree after the selection moves down a row: the row below selected
/// (a file there becomes the one to open); unchanged at the last row.
pub open spec fn moved_down(v: TreeView) -> TreeView {
    if v.selected + 1 < v.entries.len() {
        TreeView { selected: v.selected + 1, pending: pending_after_select(v, v.selected + 1), ..v }
    } else {
        v
    }
}

impl FileTreePanel {
    /// A tree at `root`, with nothing listed yet.
    pub fn new(root: &str) -> (p: Self)
        ensures
            p@.root == root@,
            p@.entries.len() == 0,
            p@.selected == 0,
            p@.scroll == 0,
            p@.pending is None,
    {
        FileTreePanel {
            root: crate::text::owned(root),
            entries: Vec::new(),
            selected: 0,
            scroll: 0,
            pending_open: None,
        }
    }

    /// The entries shown, in order.
    pub fn entries(&self) -> (e: &[FileEntry])
        ensures
            e@ == self@.entries,
    {
        self.entries.as_slice()
    }

    /// The selected index.
    pub fn selected_index(&self) -> (i: usize)
        ensures
            i == self@.selected,
    {
        self.selected
    }

    /// Take the file to open (and clear it).
    pub fn take_pending_open(&mut self) -> (r: Option<String>)
        ensures
            match r {
                Some(p) => old(self)@.pending == Some(p@),
                None => old(self)@.pending is None,
            },
            final(self)@ == (TreeView { pending: None, ..old(self)@ }),
    {
        self.pending_open.take()
    }

    /// Show the root's listing again (the selection is kept).
    pub fn refresh_with(&mut self, listing: Vec<DirItem>)
        ensures
            sorted_entries(final(self)@.entries),
            final(self)@.entries.to_multiset() == shown(listing@, 0).to_multiset(),
            final(self)@.root == old(self)@.root,
            final(self)@.selected == old(self)@.selected,
            final(self)@.scroll == old(self)@.scroll,
            final(self)@.pending == old(self)@.pending,
    {
        self.entries = listing_entries(listing, 0);
    }

    /// Switch to a new root with its listing; selection, scroll and the
    /// file to open are reset.
    pub fn set_root(&mut self, new_root: &str, listing: Vec<DirItem>)
        ensures
            final(self)@.root == new_root@,
            sorted_entries(final(self)@.entries),
            final(self)@.entries.to_multiset() == shown(listing@, 0).to_multiset(),
            final(self)@.selected == 0,
            final(self)@.scroll == 0,
            final(self)@.pending is None,
    {
        self.root = crate::text::owned(new_root);
        self.selected = 0;
        self.scroll = 0;
        self.pending_open = None;
        self.entries = listing_entries(listing, 0);
    }

    /// The root path.
    pub fn root(&self) -> (r: &str)
        ensures
            r@ == self@.root,
    {
        self.root.as_str()
    }

    /// The selected file's path (none for a directory).
    pub fn selected_file(&self) -> (r: Option<&String>)
        ensures
            match selected_entry(self@) {
                Some(e) => if e.is_dir { r is None } else { r == Some(&e.path) },
                None => r is None,
            },
    {
        if self.selected < self.entries.len() {
            let e = &self.entries[self.selected];
            if e.is_dir { None } else { Some(&e.path) }
        } else {
            None
        }
    }

    fn auto_open(&mut self)
        ensures
            final(self)@ == (TreeView { pending: pending_after_select(old(self)@, old(self)@.selected), ..old(self)@ }),
    {
        if self.selected < self.entries.len() {
            if !self.entries[self.selected].is_dir {
                self.pending_open = Some(self.entries[self.selected].path.clone());
            }
        }
    }

    /// Move the selection up; a file selected becomes the one to open.
    pub fn move_up(&mut self)
        ensures
            old(self)@.selected > 0 ==> final(self)@ == (TreeView {
                selected: (old(self)@.selected - 1) as nat,
                pending: pending_after_select(old(self)@, (old(self)@.selected - 1) as nat),
                ..old(self)@
            }),
            old(self)@.selected == 0 ==> final(self)@ == old(self)@,
    {
        if self.selected > 0 {
            self.selected = self.selected - 1;
            self.auto_open();
        }
    }

    /// Move the selection down; a file selected becomes the one to open.
    pub fn move_down(&mut self)
        ensures
            old(self)@.selected + 1 < old(self)@.entries.len() ==> final(self)@ == (TreeView {
                selected: old(self)@.selected + 1,
                pending: pending_after_select(old(self)@, old(self)@.selected + 1),
                ..old(self)@
            }),
            old(self)@.selected + 1 >= old(self)@.entries.len() ==> final(self)@ == old(self)@,
    {
        if self.selected < self.entries.len() && self.selected + 1 < self.entries.len() {
            self.selected = self.selected + 1;
            self.auto_open();
        }
    }

    /// Move the selection `n` rows up or down, a row at a time, as that
    /// many presses of the arrow would (a page, on a click of the scroll
    /// bar's track).
    pub fn page(&mut self, up: bool, n: usize)
        ensures
            final(self)@ == paged(old(self)@, up, n as nat),
    {
        let mut i: usize = 0;
        while i < n
            invariant
                i <= n,
                self@ == paged(old(self)@, up, i as nat),
            decreases n - i,
        {
            if up {
                self.move_up();
            } else {
                self.move_down();
            }
            i = i + 1;
        }
    }

    /// Select the last entry; a file becomes the one to open.
    pub fn scroll_to_bottom(&mut self)
        ensures
            old(self)@.entries.len() > 0 ==> final(self)@ == (TreeView {
                selected: (old(self)@.entries.len() - 1) as nat,
                pending: pending_after_select(old(self)@, (old(self)@.entries.len() - 1) as nat),
                ..old(self)@
            }),
            old(self)@.entries.len() == 0 ==> final(self)@ == old(self)@,
    {
        if self.entries.len() > 0 {
            self.selected = self.entries.len() - 1;
            self.auto_open();
        }
    }

    /// Collapse the selected directory, if it is an expanded one: its
    /// shown contents (the deeper entries after it) are removed.
    pub fn collapse_selected(&mut self)
        ensures
            final(self)@ == collapsed(old(self)@),
    {
        if self.selected >= self.entries.len() {
            return;
        }
        let i = self.selected;
        if !(self.entries[i].is_dir && self.entries[i].expanded) {
            return;
        }
        let d = self.entries[i].depth;
        let ghost s = self.entries@;
        let mut j = i + 1;
        while j < self.entries.len() && self.entries[j].depth > d
            invariant
                s == self.entries@,
                i < j <= s.len(),
                deeper_run(s, (i + 1) as nat, d) == (j - i - 1) + deeper_run(s, j as nat, d),
            decreases s.len() - j,
        {
            j = j + 1;
        }
        let mut kept: Vec<FileEntry> = Vec::new();
        let mut old_entries: Vec<FileEntry> = Vec::new();
        std::mem::swap(&mut old_entries, &mut self.entries);
        let n = old_entries.len();
        let mut k: usize = 0;
        while old_entries.len() > 0
            invariant
                s.len() == n,
                k <= n,
                i < j <= n,
                old_entries@ == s.skip(k as int),
                kept@ == (if k <= i { s.take(k as int) } else if k <= j {
                    s.take(i as int).push(with_expanded(s[i as int], false))
                } else {
                    s.take(i as int).push(with_expanded(s[i as int], false)) + s.subrange(j as int, k as int)
                }),
            decreases old_entries@.len(),
        {
            let mut e = old_entries.remove(0);
            assert(e == s[k as int]);
            assert(old_entries@ =~= s.skip(k + 1));
            let ghost before = kept@;
            if k < i {
                kept.push(e);
                assert(kept@ =~= s.take(k + 1));
            } else if k == i {
                e.expanded = false;
                kept.push(e);
                assert(kept@ =~= s.take(i as int).push(with_expanded(s[i as int], false)));
            } else if k >= j {
                kept.push(e);
                assert(kept@ =~= s.take(i as int).push(with_expanded(s[i as int], false)) + s.subrange(j as int, k + 1));
            }
            k = k + 1;
        }
        assert(s.subrange(j as int, n as int) =~= s.skip(j as int));
        self.entries = kept;
    }

    /// Expand the selected directory, if it is a collapsed one, showing the
    /// listing of its contents (one level deeper, hidden names left out,
    /// sorted) right after it.
    pub fn expand_selected(&mut self, children: Vec<DirItem>)
        ensures
            match selected_entry(old(self)@) {
                Some(e) => if e.is_dir && !e.expanded && e.depth < usize::MAX {
                    let i = old(self)@.selected;
                    exists|kids: Seq<FileEntry>| {
                        &&& sorted_entries(kids)
                        &&& kids.to_multiset() == shown(children@, (e.depth + 1) as usize).to_multiset()
                        &&& final(self)@ == (TreeView {
                            entries: old(self)@.entries.take(i as int).push(with_expanded(e, true)) + kids
                                + old(self)@.entries.skip((i + 1) as int),
                            ..old(self)@
                        })
                    }
                } else {
                    final(self)@ == old(self)@
                },
                None => final(self)@ == old(self)@,
            },
    {
        if self.selected >= self.entries.len() {
            return;
        }
        let i = self.selected;
        if !(self.entries[i].is_dir && !self.entries[i].expanded) || self.entries[i].depth == usize::MAX {
            return;
        }
        let d = self.entries[i].depth + 1;
        let kids = listing_entries(children, d);
        let ghost s = self.entries@;
        let ghost kv = kids@;
        let mut out: Vec<FileEntry> = Vec::new();
        let mut old_entries: Vec<FileEntry> = Vec::new();
        std::mem::swap(&mut old_entries, &mut self.entries);
        let n = old_entries.len();
        let mut k: usize = 0;
        let mut kids = kids;
        while old_entries.len() > 0
            invariant
                s.len() == n,
                k <= n,
                i < n,
                old_entries@ == s.skip(k as int),
                kids@ == (if k <= i { kv } else { Seq::<FileEntry>::empty() }),
                out@ == (if k <= i { s.take(k as int) } else {
                    s.take(i as int).push(with_expanded(s[i as int], true)) + kv + s.subrange(i + 1, k as int)
                }),
            decreases old_entries@.len(),
        {
            let mut e = old_entries.remove(0);
            assert(e == s[k as int]);
            assert(old_entries@ =~= s.skip(k + 1));
            if k < i {
                out.push(e);
                assert(out@ =~= s.take(k + 1));
            } else if k == i {
                e.expanded = true;
                out.push(e);
                out.append(&mut kids);
                assert(out@ =~= s.take(i as int).push(with_expanded(s[i as int], true)) + kv + s.subrange(i + 1, k + 1));
            } else {
                out.push(e);
                assert(out@ =~= s.take(i as int).push(with_expanded(s[i as int], true)) + kv + s.subrange(i + 1, k + 1));
            }
            k = k + 1;
        }
        assert(s.subrange(i + 1, n as int) =~= s.skip(i + 1));
        self.entries = out;
    }

    /// Choose the selected entry (Enter, or a click): a file becomes the
    /// one to open; an expanded directory collapses; a collapsed one asks
    /// for its listing.
    fn activate(&mut self) -> (r: TreeRequest)
        ensures
            match selected_entry(old(self)@) {
                Some(e) => if !e.is_dir {
                    final(self)@ == (TreeView { pending: Some(e.path@), ..old(self)@ }) && r is Nothing
                } else if e.expanded {
                    r is Nothing && final(self)@ == collapsed(old(self)@)
                } else {
                    final(self)@ == old(self)@ && (r matches TreeRequest::ListDir(p) && p@ == e.path@)
                },
                None => final(self)@ == old(self)@ && r is Nothing,
            },
    {
        if self.selected >= self.entries.len() {
            return TreeRequest::Nothing;
        }
        let i = self.selected;
        if !self.entries[i].is_dir {
            self.pending_open = Some(self.entries[i].path.clone());
            TreeRequest::Nothing
        } else if self.entries[i].expanded {
            self.collapse_selected();
            TreeRequest::Nothing
        } else {
            TreeRequest::ListDir(self.entries[i].path.clone())
        }
    }

    /// The entry under a click at `(x, y)` on the list area `inner`
    /// scrolled to `top`: the row under it, counted from `top`, when the
    /// click falls on the list's rows and left of its scroll bar column.
    pub fn entry_under(x: u16, y: u16, inner: Rect, top: usize) -> (r: Option<usize>)
        ensures
            r == (if inner.x <= x && x < inner.x + (if inner.width >= 1 { inner.width - 1 } else { 0 })
                && inner.y <= y && y < inner.y + inner.height && top + (y - inner.y) <= usize::MAX {
                Some((top + (y - inner.y)) as usize)
            } else {
                None::<usize>
            }),
    {
        let bar_x: u32 = inner.x as u32 + if inner.width >= 1 { inner.width as u32 - 1 } else { 0 };
        let bottom: u32 = inner.y as u32 + inner.height as u32;
        if inner.x <= x && (x as u32) < bar_x && inner.y <= y && (y as u32) < bottom {
            let row = (y - inner.y) as usize;
            if top <= usize::MAX - row {
                return Some(top + row);
            }
        }
        None
    }

    /// A click on entry `idx`: it is selected and chosen as by Enter.
    /// Returns whether the click fell on an entry, and what to do.
    pub fn click_entry(&mut self, idx: usize) -> (r: (bool, TreeRequest))
        ensures
            r.0 == (idx < old(self)@.entries.len()),
            !r.0 ==> final(self)@ == old(self)@,
            r.0 && !old(self)@.entries[idx as int].is_dir ==> final(self)@ == (TreeView {
                selected: idx as nat,
                pending: Some(old(self)@.entries[idx as int].path@),
                ..old(self)@
            }),
            r.0 && old(self)@.entries[idx as int].is_dir && !old(self)@.entries[idx as int].expanded ==>
                final(self)@ == (TreeView { selected: idx as nat, ..old(self)@ })
                && (r.1 matches TreeRequest::ListDir(p) && p@ == old(self)@.entries[idx as int].path@),
    {
        if idx < self.entries.len() {
            self.selected = idx;
            let req = self.activate();
            (true, req)
        } else {
            (false, TreeRequest::Nothing)
        }
    }

    /// Handle a key: Up/`k` and Down/`j` move, Enter chooses, Right/`l`
    /// expands, Left/`h` collapses, Ctrl+R asks for a refresh, Ctrl+C for
    /// copying the selected path.
    pub fn handle_key(&mut self, key: &KeyEvent) -> (out: TreeKeyOutcome)
        ensures
            out.handled == match key.code {
                KeyCode::Up | KeyCode::Down | KeyCode::Enter | KeyCode::Left | KeyCode::Right => true,
                KeyCode::Char(c) => c == 'k' || c == 'j' || c == 'l' || c == 'h'
                    || (key.modifiers.control && (c == 'r' || c == 'c')),
                _ => false,
            },
            (key.code == KeyCode::Up || key.code == KeyCode::Char('k')) ==>
                out.request is Nothing && final(self)@ == moved_up(old(self)@),
            (key.code == KeyCode::Down || key.code == KeyCode::Char('j')) ==>
                out.request is Nothing && final(self)@ == moved_down(old(self)@),
            !out.handled ==> out.request is Nothing && final(self)@ == old(self)@,
            key.code == KeyCode::Char('r') && key.modifiers.control ==> out.request is Refresh && final(self)@ == old(self)@,
            key.code == KeyCode::Char('c') && key.modifiers.control ==> final(self)@ == old(self)@ && match selected_entry(old(self)@) {
                Some(e) => out.request matches TreeRequest::CopyPath(p) && p@ == e.path@,
                None => out.request is Nothing,
            },
            (key.code == KeyCode::Right || key.code == KeyCode::Char('l')) ==> final(self)@ == old(self)@ && match selected_entry(old(self)@) {
                Some(e) => if e.is_dir && !e.expanded { out.request matches TreeRequest::ListDir(p) && p@ == e.path@ } else { out.request is Nothing },
                None => out.request is Nothing,
            },
            (key.code == KeyCode::Left || key.code == KeyCode::Char('h')) ==> out.request is Nothing
                && final(self)@ == collapsed(old(self)@),
            key.code == KeyCode::Enter ==> match selected_entry(old(self)@) {
                Some(e) => if !e.is_dir {
                    final(self)@ == (TreeView { pending: Some(e.path@), ..old(self)@ }) && out.request is Nothing
                } else if e.expanded {
                    out.request is Nothing && final(self)@ == collapsed(old(self)@)
                } else {
                    final(self)@ == old(self)@ && (out.request matches TreeRequest::ListDir(p) && p@ == e.path@)
                },
                None => final(self)@ == old(self)@ && out.request is Nothing,
            },
    {
        let ctrl = key.modifiers.control;
        match key.code {
            KeyCode::Up => {
                self.move_up();
                TreeKeyOutcome { handled: true, request: TreeRequest::Nothing }
            },
            KeyCode::Down => {
                self.move_down();
                TreeKeyOutcome { handled: true, request: TreeRequest::Nothing }
            },
            KeyCode::Enter => {
                let r = self.activate();
                TreeKeyOutcome { handled: true, request: r }
            },
            KeyCode::Right => TreeKeyOutcome { handled: true, request: self.expand_request() },
            KeyCode::Left => {
                self.collapse_selected();
                TreeKeyOutcome { handled: true, request: TreeRequest::Nothing }
            },
            KeyCode::Char(c) => {
                if c == 'k' {
                    self.move_up();
                    TreeKeyOutcome { handled: true, request: TreeRequest::Nothing }
                } else if c == 'j' {
                    self.move_down();
                    TreeKeyOutcome { handled: true, request: TreeRequest::Nothing }
                } else if c == 'l' {
                    TreeKeyOutcome { handled: true, request: self.expand_request() }
                } else if c == 'h' {
                    self.collapse_selected();
                    TreeKeyOutcome { handled: true, request: TreeRequest::Nothing }
                } else if c == 'r' && ctrl {
                    TreeKeyOutcome { handled: true, request: TreeRequest::Refresh }
                } else if c == 'c' && ctrl {
                    let r = if self.selected < self.entries.len() {
                        TreeRequest::CopyPath(self.entries[self.selected].path.clone())
                    } else {
                        TreeRequest::Nothing
                    };
                    TreeKeyOutcome { handled: true, request: r }
                } else {
                    TreeKeyOutcome { handled: false, request: TreeRequest::Nothing }
                }
            },
            _ => TreeKeyOutcome { handled: false, request: TreeRequest::Nothing },
        }
    }

    /// The listing to ask for when expanding the selection: its path, when
    /// it is a collapsed directory.
    fn expand_request(&self) -> (r: TreeRequest)
        ensures
            match selected_entry(self@) {
                Some(e) => if e.is_dir && !e.expanded { r matches TreeRequest::ListDir(p) && p@ == e.path@ } else { r is Nothing },
                None => r is Nothing,
            },
    {
        if self.selected < self.entries.len() && self.entries[self.selected].is_dir && !self.entries[self.selected].expanded {
            TreeRequest::ListDir(self.entries[self.selected].path.clone())
        } else {
            TreeRequest::Nothing
        }
    }

    /// The first visible row when `visible_height` rows show: the stored
    /// offset, moved just enough to show the selection.
    pub fn scroll_for_view(&self, visible_height: usize) -> (s: usize)
        requires
            self@.selected < usize::MAX,
        ensures
            s == (if self@.selected < self@.scroll {
                self@.selected
            } else if self@.selected >= self@.scroll + visible_height {
                (self@.selected - visible_height + 1) as nat
            } else {
                self@.scroll
            }),
    {
        if self.selected < self.scroll {
            self.selected
        } else if self.selected as u128 >= self.scroll as u128 + visible_height as u128 {
            self.selected - visible_height + 1
        } else {
            self.scroll
        }
    }
}


proof fn lemma_deeper_run_is(s: Seq<FileEntry>, from: nat, depth: usize, m: nat)
    requires
        from + m <= s.len(),
        forall|k: int| from <= k < from + m ==> #[trigger] s[k].depth > depth,
        from + m < s.len() ==> s[(from + m) as int].depth <= depth,
    ensures
        deeper_run(s, from, depth) == m,
    decreases m,
{
    if m > 0 {
        lemma_deeper_run_is(s, from + 1, depth, (m - 1) as nat);
    }
}

/// Collapsing a directory that was just expanded restores the tree: its
/// listed contents (all deeper than it) go again, up to the first entry
/// that is not deeper.
pub proof fn law_collapse_undoes_expand(v: TreeView, kids: Seq<FileEntry>)
    requires
        selected_entry(v) matches Some(e) && e.is_dir && !e.expanded,
        forall|k: int| 0 <= k < kids.len() ==> #[trigger] kids[k].depth > v.entries[v.selected as int].depth,
        v.selected + 1 < v.entries.len() ==> v.entries[v.selected + 1 as int].depth <= v.entries[v.selected as int].depth,
    ensures
        ({
            let i = v.selected;
            let e = v.entries[i as int];
            collapsed(TreeView {
                entries: v.entries.take(i as int).push(with_expanded(e, true)) + kids + v.entries.skip(i + 1 as int),
                ..v
            }) == v
        }),
{
    let i = v.selected;
    let e = v.entries[i as int];
    let s = v.entries.take(i as int).push(with_expanded(e, true)) + kids + v.entries.skip(i + 1 as int);
    let w = TreeView { entries: s, ..v };
    assert(s[i as int] == with_expanded(e, true));
    assert forall|k: int| i + 1 <= k < i + 1 + kids.len() implies #[trigger] s[k].depth > e.depth by {
        assert(s[k] == kids[k - i - 1]);
    }
    if i + 1 + kids.len() < s.len() {
        assert(s[i + 1 + kids.len() as int] == v.entries[i + 1 as int]);
    }
    lemma_deeper_run_is(s, i + 1, e.depth, kids.len());
    assert(with_expanded(with_expanded(e, true), false) == e);
    assert(s.take(i as int).push(with_expanded(e, false)) + s.skip(i + 1 + kids.len() as int) =~= v.entries);
}

/// Law: names are ordered as whole words, character by character. A name
/// comes no later than another exactly when it is a prefix of it, or when,
/// at the first position where they differ, its character is the smaller.
pub proof fn law_names_ordered_lexicographically(a: Seq<char>, b: Seq<char>)
    ensures
        name_le(a, b) <==> (
            (a.len() <= b.len() && a == b.take(a.len() as int))
            || exists|k: int| 0 <= k < a.len() && k < b.len() && a.take(k) == b.take(k)
                && (#[trigger] a[k] as u32) < (b[k] as u32)
        ),
    decreases a.len(),
{
    let prefix = a.len() <= b.len() && a == b.take(a.len() as int);
    if a.len() == 0 {
        assert(a =~= b.take(0));
    } else if b.len() == 0 {
    } else if (a[0] as u32) != (b[0] as u32) {
        if prefix {
            assert(a[0] == b.take(a.len() as int)[0]);
        }
        if (a[0] as u32) < (b[0] as u32) {
            assert(a.take(0) =~= b.take(0));
        } else {
            assert forall|k: int| 0 <= k < a.len() && k < b.len() && a.take(k) == b.take(k)
                implies !((#[trigger] a[k] as u32) < (b[k] as u32)) by {
                if k > 0 {
                    assert(a.take(k)[0] == b.take(k)[0]);
                }
            }
        }
    } else {
        let a1 = a.skip(1);
        let b1 = b.skip(1);
        law_names_ordered_lexicographically(a1, b1);
        vstd::utf8::char_u32_cast(a[0], a[0] as u32);
        vstd::utf8::char_u32_cast(b[0], b[0] as u32);
        assert(a[0] == b[0]);
        let prefix1 = a1.len() <= b1.len() && a1 == b1.take(a1.len() as int);
        if prefix1 {
            assert forall|i: int| 0 <= i < a.len() implies a[i] == b.take(a.len() as int)[i] by {
                if i > 0 {
                    assert(a[i] == a1[i - 1]);
                    assert(a1[i - 1] == b1.take(a1.len() as int)[i - 1]);
                }
            }
            assert(a =~= b.take(a.len() as int));
        }
        if prefix {
            assert(a1 =~= b1.take(a1.len() as int));
        }
        if exists|k: int| 0 <= k < a1.len() && k < b1.len() && a1.take(k) == b1.take(k)
            && (#[trigger] a1[k] as u32) < (b1[k] as u32) {
            let k = choose|k: int| 0 <= k < a1.len() && k < b1.len() && a1.take(k) == b1.take(k)
                && (#[trigger] a1[k] as u32) < (b1[k] as u32);
            assert(a.take(k + 1) =~= seq![a[0]] + a1.take(k));
            assert(b.take(k + 1) =~= seq![b[0]] + b1.take(k));
            assert(a[k + 1] == a1[k]);
            assert(b[k + 1] == b1[k]);
        }
        if exists|k: int| 0 <= k < a.len() && k < b.len() && a.take(k) == b.take(k)
            && (#[trigger] a[k] as u32) < (b[k] as u32) {
            let k = choose|k: int| 0 <= k < a.len() && k < b.len() && a.take(k) == b.take(k)
                && (#[trigger] a[k] as u32) < (b[k] as u32);
            assert(k > 0);
            assert(a1.take(k - 1) =~= a.take(k).skip(1));
            assert(b1.take(k - 1) =~= b.take(k).skip(1));
            assert(a1[k - 1] == a[k]);
            assert(b1[k - 1] == b[k]);
        }
    }
}

} // verus!
