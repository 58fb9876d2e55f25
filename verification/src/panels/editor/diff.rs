//! Diff tracking for LLM code modifications.
//!
//! Compares the original content with the current one by a longest common
//! subsequence of lines and reports, for each current line, whether it was
//! added or modified, and which original lines were removed (ghost lines).

use vstd::prelude::*;
use crate::text::{lines_view, clone_lines};

verus! {

/// Type of change for a line.
#[derive(Debug, Clone, Copy, PartialEq, Eq, Structural)]
pub enum LineChange {
    /// Line was added.
    Added,
    /// Line was removed (shown as a ghost line).
    Removed,
    /// Line was modified.
    Modified,
    /// No change.
    Unchanged,
}

impl LineChange {
    /// The gutter indicator character.
    pub fn gutter_char(&self) -> (c: char)
        ensures
            c == (match *self {
                LineChange::Added => '+',
                LineChange::Removed => '-',
                LineChange::Modified => '~',
                LineChange::Unchanged => ' ',
            }),
    {
        match self {
            LineChange::Added => '+',
            LineChange::Removed => '-',
            LineChange::Modified => '~',
            LineChange::Unchanged => ' ',
        }
    }
}

/// A line that was removed (ghost line).
#[derive(Debug, Clone)]
pub struct GhostLine {
    /// Original line number (0-indexed).
    pub original_line: usize,
    /// Content of the removed line.
    pub content: String,
    /// Current line after which it is displayed.
    pub display_after: usize,
}

/// The mathematical value of a ghost line.
pub struct GhostView {
    pub original_line: nat,
    pub content: Seq<char>,
    pub display_after: nat,
}

impl GhostLine {
    pub open spec fn view(&self) -> GhostView {
        GhostView {
            original_line: self.original_line as nat,
            content: self.content@,
            display_after: self.display_after as nat,
        }
    }
}

/// One step of a line diff.
#[derive(Debug, Clone, Copy, PartialEq, Eq, Structural)]
pub enum DiffOp {
    /// Lines are equal (old index, new index).
    Equal(usize, usize),
    /// Line inserted at the new index.
    Insert(usize),
    /// Line deleted from the old index, displayed after a new index.
    Delete(usize, usize),
    /// Line replaced (old index, new index).
    Replace(usize, usize),
}

pub open spec fn max_nat(a: nat, b: nat) -> nat {
    if a >= b { a } else { b }
}

/// Length of a longest common subsequence of `old[..i]` and `new[..j]`.
pub open spec fn lcs(old: Seq<Seq<char>>, new: Seq<Seq<char>>, i: nat, j: nat) -> nat
    decreases i + j,
{
    if i == 0 || j == 0 {
        0
    } else if old[i - 1] == new[j - 1] {
        lcs(old, new, (i - 1) as nat, (j - 1) as nat) + 1
    } else {
        max_nat(lcs(old, new, (i - 1) as nat, j), lcs(old, new, i, (j - 1) as nat))
    }
}

/// The edit script of `old[..i]` into `new[..j]` read off the LCS table:
/// a match is taken when the last lines agree, an insertion when that keeps
/// the longest common subsequence, a deletion otherwise.
pub open spec fn backtrack(old: Seq<Seq<char>>, new: Seq<Seq<char>>, i: nat, j: nat) -> Seq<DiffOp>
    decreases i + j,
{
    if i == 0 && j == 0 {
        seq![]
    } else if i > 0 && j > 0 && old[i - 1] == new[j - 1] {
        backtrack(old, new, (i - 1) as nat, (j - 1) as nat).push(
            DiffOp::Equal((i - 1) as usize, (j - 1) as usize),
        )
    } else if j > 0 && (i == 0 || lcs(old, new, i, (j - 1) as nat) >= lcs(old, new, (i - 1) as nat, j)) {
        backtrack(old, new, i, (j - 1) as nat).push(DiffOp::Insert((j - 1) as usize))
    } else {
        backtrack(old, new, (i - 1) as nat, j).push(
            DiffOp::Delete((i - 1) as usize, if j > 0 { (j - 1) as usize } else { 0usize }),
        )
    }
}

/// A deletion directly followed by an insertion becomes a replacement.
pub open spec fn merge_ops(ops: Seq<DiffOp>) -> Seq<DiffOp>
    decreases ops.len(),
{
    if ops.len() == 0 {
        seq![]
    } else if ops.len() >= 2 && ops[0] is Delete && ops[1] is Insert {
        seq![DiffOp::Replace(ops[0]->Delete_0, ops[1]->Insert_0)] + merge_ops(ops.skip(2))
    } else {
        seq![ops[0]] + merge_ops(ops.skip(1))
    }
}

/// The line diff of `old` into `new`.
pub open spec fn diff_ops(old: Seq<Seq<char>>, new: Seq<Seq<char>>) -> Seq<DiffOp> {
    merge_ops(backtrack(old, new, old.len(), new.len()))
}

/// Change of each of `n` current lines after applying `ops` in order.
pub open spec fn changes_from(ops: Seq<DiffOp>, n: nat) -> Seq<LineChange>
    decreases ops.len(),
{
    if ops.len() == 0 {
        Seq::new(n, |k: int| LineChange::Unchanged)
    } else {
        let prev = changes_from(ops.drop_last(), n);
        let op = ops.last();
        if op is Insert && (op->Insert_0 as int) < prev.len() {
            prev.update(op->Insert_0 as int, LineChange::Added)
        } else if op is Replace && (op->Replace_1 as int) < prev.len() {
            prev.update(op->Replace_1 as int, LineChange::Modified)
        } else {
            prev
        }
    }
}

/// Ghost lines of the deletions in `ops`, in order.
pub open spec fn ghosts_from(ops: Seq<DiffOp>, original: Seq<Seq<char>>) -> Seq<GhostView>
    decreases ops.len(),
{
    if ops.len() == 0 {
        seq![]
    } else {
        let prev = ghosts_from(ops.drop_last(), original);
        let op = ops.last();
        if op is Delete {
            prev.push(GhostView {
                original_line: op->Delete_0 as nat,
                content: original[op->Delete_0 as int],
                display_after: op->Delete_1 as nat,
            })
        } else {
            prev
        }
    }
}

/// The ghost lines among `ghosts` that are displayed after `line`.
pub open spec fn ghosts_after(ghosts: Seq<GhostView>, line: nat) -> Seq<GhostView>
    decreases ghosts.len(),
{
    if ghosts.len() == 0 {
        seq![]
    } else {
        let prev = ghosts_after(ghosts.drop_last(), line);
        if ghosts.last().display_after == line {
            prev.push(ghosts.last())
        } else {
            prev
        }
    }
}

/// Every index that an op names is in range.
pub open spec fn ops_in_bounds(ops: Seq<DiffOp>, m: nat, n: nat) -> bool {
    forall|k: int| 0 <= k < ops.len() ==> #[trigger] op_in_bounds(ops[k], m, n)
}

pub open spec fn op_in_bounds(op: DiffOp, m: nat, n: nat) -> bool {
    match op {
        DiffOp::Equal(a, b) => a < m && b < n,
        DiffOp::Insert(b) => b < n,
        DiffOp::Delete(a, _) => a < m,
        DiffOp::Replace(a, b) => a < m && b < n,
    }
}

proof fn lemma_lcs_bounded(old: Seq<Seq<char>>, new: Seq<Seq<char>>, i: nat, j: nat)
    ensures
        lcs(old, new, i, j) <= i,
        lcs(old, new, i, j) <= j,
    decreases i + j,
{
    if i == 0 || j == 0 {
    } else if old[i - 1] == new[j - 1] {
        lemma_lcs_bounded(old, new, (i - 1) as nat, (j - 1) as nat);
    } else {
        lemma_lcs_bounded(old, new, (i - 1) as nat, j);
        lemma_lcs_bounded(old, new, i, (j - 1) as nat);
    }
}

proof fn lemma_backtrack_bounds(old: Seq<Seq<char>>, new: Seq<Seq<char>>, i: nat, j: nat, m: nat, n: nat)
    requires
        i <= m,
        j <= n,
        m <= usize::MAX,
        n <= usize::MAX,
    ensures
        ops_in_bounds(backtrack(old, new, i, j), i, j),
    decreases i + j,
{
    let ops = backtrack(old, new, i, j);
    if i == 0 && j == 0 {
    } else if i > 0 && j > 0 && old[i - 1] == new[j - 1] {
        lemma_backtrack_bounds(old, new, (i - 1) as nat, (j - 1) as nat, m, n);
        assert forall|k: int| 0 <= k < ops.len() implies #[trigger] op_in_bounds(ops[k], i, j) by {
            if k < ops.len() - 1 {
                assert(op_in_bounds(backtrack(old, new, (i - 1) as nat, (j - 1) as nat)[k], (i - 1) as nat, (j - 1) as nat));
            }
        }
    } else if j > 0 && (i == 0 || lcs(old, new, i, (j - 1) as nat) >= lcs(old, new, (i - 1) as nat, j)) {
        lemma_backtrack_bounds(old, new, i, (j - 1) as nat, m, n);
        assert forall|k: int| 0 <= k < ops.len() implies #[trigger] op_in_bounds(ops[k], i, j) by {
            if k < ops.len() - 1 {
                assert(op_in_bounds(backtrack(old, new, i, (j - 1) as nat)[k], i, (j - 1) as nat));
            }
        }
    } else {
        lemma_backtrack_bounds(old, new, (i - 1) as nat, j, m, n);
        assert forall|k: int| 0 <= k < ops.len() implies #[trigger] op_in_bounds(ops[k], i, j) by {
            if k < ops.len() - 1 {
                assert(op_in_bounds(backtrack(old, new, (i - 1) as nat, j)[k], (i - 1) as nat, j));
            }
        }
    }
}

proof fn lemma_merge_bounds(ops: Seq<DiffOp>, m: nat, n: nat)
    requires
        ops_in_bounds(ops, m, n),
    ensures
        ops_in_bounds(merge_ops(ops), m, n),
    decreases ops.len(),
{
    if ops.len() == 0 {
    } else if ops.len() >= 2 && ops[0] is Delete && ops[1] is Insert {
        let rest = ops.skip(2);
        assert forall|k: int| 0 <= k < rest.len() implies #[trigger] op_in_bounds(rest[k], m, n) by {
            assert(op_in_bounds(ops[k + 2], m, n));
        }
        lemma_merge_bounds(rest, m, n);
        assert(op_in_bounds(ops[0], m, n));
        assert(op_in_bounds(ops[1], m, n));
        let r = merge_ops(ops);
        assert forall|k: int| 0 <= k < r.len() implies #[trigger] op_in_bounds(r[k], m, n) by {
            if k > 0 {
                assert(op_in_bounds(merge_ops(rest)[k - 1], m, n));
            }
        }
    } else {
        let rest = ops.skip(1);
        assert forall|k: int| 0 <= k < rest.len() implies #[trigger] op_in_bounds(rest[k], m, n) by {
            assert(op_in_bounds(ops[k + 1], m, n));
        }
        lemma_merge_bounds(rest, m, n);
        assert(op_in_bounds(ops[0], m, n));
        let r = merge_ops(ops);
        assert forall|k: int| 0 <= k < r.len() implies #[trigger] op_in_bounds(r[k], m, n) by {
            if k > 0 {
                assert(op_in_bounds(merge_ops(rest)[k - 1], m, n));
            }
        }
    }
}

/// The line diff of `old` into `new`, computed with an LCS table.
fn compute_diff(old: &Vec<String>, new: &Vec<String>) -> (result: Vec<DiffOp>)
    ensures
        result@ == diff_ops(lines_view(old@), lines_view(new@)),
{
    let ghost o = lines_view(old@);
    let ghost w = lines_view(new@);
    let m = old.len();
    let n = new.len();

    // LCS table: table[a][b] is the LCS length of old[..a] and new[..b].
    let mut table: Vec<Vec<usize>> = Vec::new();
    let mut row0: Vec<usize> = Vec::new();
    row0.push(0);
    let mut j: usize = 0;
    while j < n
        invariant
            j <= n,
            row0@.len() == j + 1,
            forall|b: int| 0 <= b < row0@.len() ==> #[trigger] row0@[b] == 0,
        decreases n - j,
    {
        row0.push(0);
        j = j + 1;
    }
    table.push(row0);

    let mut i: usize = 0;
    while i < m
        invariant
            m == old@.len(),
            n == new@.len(),
            o == lines_view(old@),
            w == lines_view(new@),
            i <= m,
            table@.len() == i + 1,
            forall|a: int| 0 <= a <= i ==> #[trigger] table@[a]@.len() == n + 1,
            forall|a: int, b: int|
                0 <= a <= i && 0 <= b <= n ==> #[trigger] table@[a]@[b] == lcs(o, w, a as nat, b as nat),
        decreases m - i,
    {
        let mut row: Vec<usize> = Vec::new();
        row.push(0);
        let mut j: usize = 0;
        while j < n
            invariant
                m == old@.len(),
                n == new@.len(),
                o == lines_view(old@),
                w == lines_view(new@),
                i < m,
                j <= n,
                table@.len() == i + 1,
                forall|a: int| 0 <= a <= i ==> #[trigger] table@[a]@.len() == n + 1,
                forall|a: int, b: int|
                    0 <= a <= i && 0 <= b <= n ==> #[trigger] table@[a]@[b] == lcs(o, w, a as nat, b as nat),
                row@.len() == j + 1,
                forall|b: int| 0 <= b <= j ==> #[trigger] row@[b] == lcs(o, w, (i + 1) as nat, b as nat),
            decreases n - j,
        {
            let prev = &table[i];
            assert(prev@[j as int] == lcs(o, w, i as nat, j as nat));
            assert(prev@[j + 1] == lcs(o, w, i as nat, (j + 1) as nat));
            assert(o[i as int] == old@[i as int]@);
            assert(w[j as int] == new@[j as int]@);
            let v: usize = if old[i] == new[j] {
                proof { lemma_lcs_bounded(o, w, i as nat, j as nat); }
                prev[j] + 1
            } else {
                let up = prev[j + 1];
                let left = row[j];
                if up >= left { up } else { left }
            };
            row.push(v);
            j = j + 1;
        }
        table.push(row);
        i = i + 1;
    }

    // Walk back through the table; `rev` holds the script in reverse.
    let mut rev: Vec<DiffOp> = Vec::new();
    let mut i: usize = m;
    let mut j: usize = n;
    while i > 0 || j > 0
        invariant
            m == old@.len(),
            n == new@.len(),
            o == lines_view(old@),
            w == lines_view(new@),
            i <= m,
            j <= n,
            table@.len() == m + 1,
            forall|a: int| 0 <= a <= m ==> #[trigger] table@[a]@.len() == n + 1,
            forall|a: int, b: int|
                0 <= a <= m && 0 <= b <= n ==> #[trigger] table@[a]@[b] == lcs(o, w, a as nat, b as nat),
            backtrack(o, w, m as nat, n as nat) == backtrack(o, w, i as nat, j as nat) + rev@.reverse(),
        decreases i + j,
    {
        let ghost prev_rev = rev@;
        let ghost step: DiffOp;
        if i > 0 && j > 0 && old[i - 1] == new[j - 1] {
            assert(o[i - 1] == w[j - 1]);
            rev.push(DiffOp::Equal(i - 1, j - 1));
            i = i - 1;
            j = j - 1;
        } else if j > 0 && (i == 0 || table[i][j - 1] >= table[i - 1][j]) {
            proof {
                if i > 0 {
                    assert(o[i - 1] != w[j - 1]);
                }
            }
            rev.push(DiffOp::Insert(j - 1));
            j = j - 1;
        } else {
            proof {
                if j > 0 {
                    assert(o[i - 1] != w[j - 1]);
                }
            }
            let display_after = if j > 0 { j - 1 } else { 0 };
            rev.push(DiffOp::Delete(i - 1, display_after));
            i = i - 1;
        }
        assert(rev@.reverse() =~= seq![rev@.last()] + prev_rev.reverse());
        assert(backtrack(o, w, m as nat, n as nat) =~= backtrack(o, w, i as nat, j as nat) + rev@.reverse());
    }
    assert(backtrack(o, w, 0, 0) =~= Seq::<DiffOp>::empty());
    assert(backtrack(o, w, m as nat, n as nat) =~= rev@.reverse());

    // Put the script in order.
    let mut changes: Vec<DiffOp> = Vec::new();
    let mut k: usize = rev.len();
    while k > 0
        invariant
            k <= rev@.len(),
            changes@ == rev@.reverse().take((rev@.len() - k) as int),
        decreases k,
    {
        k = k - 1;
        changes.push(rev[k]);
        assert(changes@ =~= rev@.reverse().take((rev@.len() - k) as int));
    }
    assert(changes@ =~= rev@.reverse());

    // Merge a deletion followed by an insertion into a replacement.
    let ghost ops = changes@;
    let mut merged: Vec<DiffOp> = Vec::new();
    let mut idx: usize = 0;
    while idx < changes.len()
        invariant
            ops == changes@,
            idx <= ops.len(),
            merge_ops(ops) == merged@ + merge_ops(ops.skip(idx as int)),
        decreases ops.len() - idx,
    {
        let ghost rest = ops.skip(idx as int);
        let op = changes[idx];
        let mut took_two = false;
        if let DiffOp::Delete(old_idx, _) = op {
            if idx + 1 < changes.len() {
                if let DiffOp::Insert(new_idx) = changes[idx + 1] {
                    assert(rest[0] == op && rest[1] == changes@[idx + 1]);
                    assert(rest.skip(2) =~= ops.skip(idx + 2));
                    merged.push(DiffOp::Replace(old_idx, new_idx));
                    idx = idx + 2;
                    took_two = true;
                }
            }
        }
        if !took_two {
            assert(rest[0] == op);
            assert(rest.skip(1) =~= ops.skip(idx + 1));
            merged.push(op);
            idx = idx + 1;
        }
    }
    assert(ops.skip(ops.len() as int) =~= Seq::<DiffOp>::empty());
    assert(merged@ =~= merge_ops(ops));
    merged
}


/// Number of matched (equal) lines in a diff.
pub open spec fn count_equal(ops: Seq<DiffOp>) -> nat
    decreases ops.len(),
{
    if ops.len() == 0 {
        0
    } else {
        count_equal(ops.drop_last()) + if ops.last() is Equal { 1nat } else { 0nat }
    }
}

/// Every op is a match.
pub open spec fn all_equal(ops: Seq<DiffOp>) -> bool {
    forall|k: int| 0 <= k < ops.len() ==> #[trigger] ops[k] is Equal
}

/// Every match pairs equal lines.
pub open spec fn matches_agree(ops: Seq<DiffOp>, old: Seq<Seq<char>>, new: Seq<Seq<char>>) -> bool {
    forall|k: int|
        0 <= k < ops.len() && #[trigger] ops[k] is Equal ==> old[ops[k]->Equal_0 as int]
            == new[ops[k]->Equal_1 as int]
}

proof fn lemma_count_equal_append(a: Seq<DiffOp>, b: Seq<DiffOp>)
    ensures
        count_equal(a + b) == count_equal(a) + count_equal(b),
    decreases b.len(),
{
    if b.len() == 0 {
        assert(a + b =~= a);
    } else {
        assert((a + b).drop_last() =~= a + b.drop_last());
        lemma_count_equal_append(a, b.drop_last());
    }
}

proof fn lemma_count_equal_single(op: DiffOp)
    ensures
        count_equal(seq![op]) == if op is Equal { 1nat } else { 0nat },
{
    assert(seq![op].drop_last() =~= Seq::<DiffOp>::empty());
    assert(count_equal(Seq::<DiffOp>::empty()) == 0);
    assert(seq![op].last() == op);
}

proof fn lemma_backtrack_identical(l: Seq<Seq<char>>, i: nat)
    requires
        i <= l.len(),
        l.len() <= usize::MAX,
    ensures
        all_equal(backtrack(l, l, i, i)),
    decreases i,
{
    if i > 0 {
        lemma_backtrack_identical(l, (i - 1) as nat);
        let prev = backtrack(l, l, (i - 1) as nat, (i - 1) as nat);
        let ops = backtrack(l, l, i, i);
        assert forall|k: int| 0 <= k < ops.len() implies #[trigger] ops[k] is Equal by {
            if k < prev.len() {
                assert(prev[k] is Equal);
            }
        }
    }
}

proof fn lemma_merge_all_equal(ops: Seq<DiffOp>)
    requires
        all_equal(ops),
    ensures
        merge_ops(ops) == ops,
    decreases ops.len(),
{
    if ops.len() > 0 {
        let rest = ops.skip(1);
        assert(ops[0] is Equal);
        assert forall|k: int| 0 <= k < rest.len() implies #[trigger] rest[k] is Equal by {
            assert(ops[k + 1] is Equal);
        }
        lemma_merge_all_equal(rest);
        assert(seq![ops[0]] + rest =~= ops);
    }
}

proof fn lemma_effects_all_equal(ops: Seq<DiffOp>, n: nat, original: Seq<Seq<char>>)
    requires
        all_equal(ops),
    ensures
        changes_from(ops, n) == Seq::new(n, |k: int| LineChange::Unchanged),
        ghosts_from(ops, original) == Seq::<GhostView>::empty(),
    decreases ops.len(),
{
    if ops.len() > 0 {
        let prev = ops.drop_last();
        assert forall|k: int| 0 <= k < prev.len() implies #[trigger] prev[k] is Equal by {
            assert(ops[k] is Equal);
        }
        assert(ops[ops.len() - 1] is Equal);
        lemma_effects_all_equal(prev, n, original);
    }
}

/// Law: a diff of content against itself reports every line unchanged and
/// no removed lines.
pub proof fn law_diff_of_identical_is_unchanged(lines: Seq<Seq<char>>)
    requires
        lines.len() <= usize::MAX,
    ensures
        forall|k: int| 0 <= k < lines.len() ==> #[trigger] changes_from(diff_ops(lines, lines), lines.len())[k]
            == LineChange::Unchanged,
        changes_from(diff_ops(lines, lines), lines.len()).len() == lines.len(),
        ghosts_from(diff_ops(lines, lines), lines) == Seq::<GhostView>::empty(),
{
    lemma_backtrack_identical(lines, lines.len());
    lemma_merge_all_equal(backtrack(lines, lines, lines.len(), lines.len()));
    lemma_effects_all_equal(diff_ops(lines, lines), lines.len(), lines);
}

proof fn lemma_backtrack_matches(old: Seq<Seq<char>>, new: Seq<Seq<char>>, i: nat, j: nat)
    requires
        i <= old.len(),
        j <= new.len(),
        old.len() <= usize::MAX,
        new.len() <= usize::MAX,
    ensures
        matches_agree(backtrack(old, new, i, j), old, new),
        count_equal(backtrack(old, new, i, j)) == lcs(old, new, i, j),
    decreases i + j,
{
    let ops = backtrack(old, new, i, j);
    if i == 0 && j == 0 {
    } else {
        let (pi, pj) = if i > 0 && j > 0 && old[i - 1] == new[j - 1] {
            ((i - 1) as nat, (j - 1) as nat)
        } else if j > 0 && (i == 0 || lcs(old, new, i, (j - 1) as nat) >= lcs(old, new, (i - 1) as nat, j)) {
            (i, (j - 1) as nat)
        } else {
            ((i - 1) as nat, j)
        };
        lemma_backtrack_matches(old, new, pi, pj);
        let prev = backtrack(old, new, pi, pj);
        assert(ops.drop_last() =~= prev);
        assert forall|k: int|
            0 <= k < ops.len() && #[trigger] ops[k] is Equal implies old[ops[k]->Equal_0 as int]
                == new[ops[k]->Equal_1 as int] by {
            if k < prev.len() {
                assert(ops[k] == prev[k]);
            }
        }
    }
}

proof fn lemma_merge_keeps_matches(ops: Seq<DiffOp>, old: Seq<Seq<char>>, new: Seq<Seq<char>>)
    requires
        matches_agree(ops, old, new),
    ensures
        matches_agree(merge_ops(ops), old, new),
        count_equal(merge_ops(ops)) == count_equal(ops),
    decreases ops.len(),
{
    if ops.len() == 0 {
    } else {
        let two = ops.len() >= 2 && ops[0] is Delete && ops[1] is Insert;
        let skip: int = if two { 2 } else { 1 };
        let rest = ops.skip(skip);
        assert forall|k: int|
            0 <= k < rest.len() && #[trigger] rest[k] is Equal implies old[rest[k]->Equal_0 as int]
                == new[rest[k]->Equal_1 as int] by {
            assert(rest[k] == ops[k + skip]);
        }
        lemma_merge_keeps_matches(rest, old, new);
        let head: Seq<DiffOp> = if two {
            seq![DiffOp::Replace(ops[0]->Delete_0, ops[1]->Insert_0)]
        } else {
            seq![ops[0]]
        };
        let r = merge_ops(ops);
        assert(r == head + merge_ops(rest));
        lemma_count_equal_append(head, merge_ops(rest));
        assert(ops =~= ops.take(skip) + rest);
        lemma_count_equal_append(ops.take(skip), rest);
        if two {
            assert(ops.take(2) =~= seq![ops[0]].push(ops[1]));
            assert(seq![ops[0]].push(ops[1]).drop_last() =~= seq![ops[0]]);
            lemma_count_equal_single(ops[0]);
            lemma_count_equal_single(DiffOp::Replace(ops[0]->Delete_0, ops[1]->Insert_0));
        } else {
            assert(ops.take(1) =~= seq![ops[0]]);
            lemma_count_equal_single(ops[0]);
        }
        assert forall|k: int|
            0 <= k < r.len() && #[trigger] r[k] is Equal implies old[r[k]->Equal_0 as int]
                == new[r[k]->Equal_1 as int] by {
            if k >= 1 {
                assert(r[k] == merge_ops(rest)[k - 1]);
            }
        }
    }
}

/// Law: the diff keeps a longest common subsequence of lines. Every line it
/// reports as kept is equal in the original and the current content, and it
/// keeps as many lines as a longest common subsequence has.
pub proof fn law_diff_keeps_longest_common_lines(old: Seq<Seq<char>>, new: Seq<Seq<char>>)
    requires
        old.len() <= usize::MAX,
        new.len() <= usize::MAX,
    ensures
        matches_agree(diff_ops(old, new), old, new),
        count_equal(diff_ops(old, new)) == lcs(old, new, old.len(), new.len()),
{
    lemma_backtrack_matches(old, new, old.len(), new.len());
    lemma_merge_keeps_matches(backtrack(old, new, old.len(), new.len()), old, new);
}

/// `m` pairs lines of `old[..i]` with equal lines of `new[..j]`, both
/// indices strictly increasing: a common subsequence of the two.
pub open spec fn is_common_lines(m: Seq<(nat, nat)>, old: Seq<Seq<char>>, new: Seq<Seq<char>>, i: nat, j: nat) -> bool {
    &&& forall|k: int| 0 <= k < m.len() ==> (#[trigger] m[k]).0 < i && m[k].1 < j
        && old[m[k].0 as int] == new[m[k].1 as int]
    &&& forall|k1: int, k2: int| 0 <= k1 < k2 < m.len() ==> (#[trigger] m[k1]).0 < (#[trigger] m[k2]).0
        && m[k1].1 < m[k2].1
}

/// One more line on either side adds at most one to the longest common
/// subsequence, and takes nothing from it.
proof fn lemma_lcs_steps(old: Seq<Seq<char>>, new: Seq<Seq<char>>, i: nat, j: nat)
    ensures
        i > 0 ==> lcs(old, new, (i - 1) as nat, j) <= lcs(old, new, i, j) <= lcs(old, new, (i - 1) as nat, j) + 1,
        j > 0 ==> lcs(old, new, i, (j - 1) as nat) <= lcs(old, new, i, j) <= lcs(old, new, i, (j - 1) as nat) + 1,
    decreases i + j,
{
    if i > 0 && j > 0 {
        lemma_lcs_steps(old, new, (i - 1) as nat, j);
        lemma_lcs_steps(old, new, i, (j - 1) as nat);
    }
}

/// A common subsequence of `old[..i]` and `new[..j]` is no longer than the
/// longest one.
proof fn lemma_common_bound(m: Seq<(nat, nat)>, old: Seq<Seq<char>>, new: Seq<Seq<char>>, i: nat, j: nat)
    requires
        is_common_lines(m, old, new, i, j),
    ensures
        m.len() <= lcs(old, new, i, j),
    decreases i + j,
{
    if m.len() > 0 {
        let last = m[m.len() - 1];
        assert(last.0 < i && last.1 < j);
        lemma_lcs_steps(old, new, i, j);
        if last.0 == i - 1 && last.1 == j - 1 {
            let d = m.drop_last();
            assert forall|k: int| 0 <= k < d.len() implies (#[trigger] d[k]).0 < (i - 1) as nat && d[k].1 < (j - 1) as nat
                && old[d[k].0 as int] == new[d[k].1 as int] by {
                assert(d[k] == m[k]);
                assert(m[k].0 < m[m.len() - 1].0);
            }
            assert forall|k1: int, k2: int| 0 <= k1 < k2 < d.len() implies (#[trigger] d[k1]).0 < (#[trigger] d[k2]).0
                && d[k1].1 < d[k2].1 by {
                assert(d[k1] == m[k1] && d[k2] == m[k2]);
            }
            lemma_common_bound(d, old, new, (i - 1) as nat, (j - 1) as nat);
            assert(old[i - 1] == new[j - 1]);
        } else if last.0 < i - 1 {
            assert forall|k: int| 0 <= k < m.len() implies (#[trigger] m[k]).0 < (i - 1) as nat && m[k].1 < j
                && old[m[k].0 as int] == new[m[k].1 as int] by {
                if k < m.len() - 1 {
                    assert(m[k].0 < m[m.len() - 1].0);
                }
            }
            lemma_common_bound(m, old, new, (i - 1) as nat, j);
        } else {
            assert forall|k: int| 0 <= k < m.len() implies (#[trigger] m[k]).0 < i && m[k].1 < (j - 1) as nat
                && old[m[k].0 as int] == new[m[k].1 as int] by {
                if k < m.len() - 1 {
                    assert(m[k].1 < m[m.len() - 1].1);
                }
            }
            lemma_common_bound(m, old, new, i, (j - 1) as nat);
        }
    }
}

/// Law: no common subsequence of lines is longer than the one the diff
/// keeps: whatever lines of the original are paired, in order, with equal
/// lines of the current content, there are at most as many pairs as lines
/// the diff reports as kept.
pub proof fn law_diff_keeps_no_fewer_lines(m: Seq<(nat, nat)>, old: Seq<Seq<char>>, new: Seq<Seq<char>>)
    requires
        old.len() <= usize::MAX,
        new.len() <= usize::MAX,
        is_common_lines(m, old, new, old.len(), new.len()),
    ensures
        m.len() <= count_equal(diff_ops(old, new)),
{
    law_diff_keeps_longest_common_lines(old, new);
    lemma_common_bound(m, old, new, old.len(), new.len());
}

/// The line of the new text that an op is about, if any (a deletion is
/// about an old line only).
pub open spec fn new_index(op: DiffOp) -> Option<nat> {
    match op {
        DiffOp::Equal(_, b) => Some(b as nat),
        DiffOp::Insert(b) => Some(b as nat),
        DiffOp::Replace(_, b) => Some(b as nat),
        DiffOp::Delete(_, _) => None,
    }
}

/// The new lines that the ops are about, in order.
pub open spec fn new_indices(ops: Seq<DiffOp>) -> Seq<nat>
    decreases ops.len(),
{
    if ops.len() == 0 {
        seq![]
    } else {
        let p = new_indices(ops.drop_last());
        match new_index(ops.last()) {
            Some(b) => p.push(b),
            None => p,
        }
    }
}

/// What the changes report for the line an op is about: an inserted line
/// is added, a replaced one modified, a kept one unchanged.
pub open spec fn change_marked(op: DiffOp, changes: Seq<LineChange>) -> bool {
    match op {
        DiffOp::Insert(b) => b < changes.len() && changes[b as int] == LineChange::Added,
        DiffOp::Replace(_, b) => b < changes.len() && changes[b as int] == LineChange::Modified,
        DiffOp::Equal(_, b) => b < changes.len() && changes[b as int] == LineChange::Unchanged,
        DiffOp::Delete(_, _) => true,
    }
}

proof fn lemma_new_indices_concat(a: Seq<DiffOp>, b: Seq<DiffOp>)
    ensures
        new_indices(a + b) == new_indices(a) + new_indices(b),
    decreases b.len(),
{
    if b.len() == 0 {
        assert(a + b =~= a);
        assert(new_indices(a) + new_indices(b) =~= new_indices(a));
    } else {
        assert((a + b).drop_last() =~= a + b.drop_last());
        assert((a + b).last() == b.last());
        lemma_new_indices_concat(a, b.drop_last());
        match new_index(b.last()) {
            Some(x) => {
                assert(new_indices(a + b) =~= new_indices(a) + new_indices(b));
            },
            None => {},
        }
    }
}

proof fn lemma_backtrack_new_indices(old: Seq<Seq<char>>, new: Seq<Seq<char>>, i: nat, j: nat)
    requires
        j <= usize::MAX,
    ensures
        new_indices(backtrack(old, new, i, j)) == Seq::new(j, |k: int| k as nat),
    decreases i + j,
{
    let ops = backtrack(old, new, i, j);
    if i == 0 && j == 0 {
        assert(new_indices(ops) =~= Seq::new(j, |k: int| k as nat));
    } else if i > 0 && j > 0 && old[i - 1] == new[j - 1] {
        lemma_backtrack_new_indices(old, new, (i - 1) as nat, (j - 1) as nat);
        assert(ops.drop_last() =~= backtrack(old, new, (i - 1) as nat, (j - 1) as nat));
        assert(new_indices(ops) =~= Seq::new(j, |k: int| k as nat));
    } else if j > 0 && (i == 0 || lcs(old, new, i, (j - 1) as nat) >= lcs(old, new, (i - 1) as nat, j)) {
        lemma_backtrack_new_indices(old, new, i, (j - 1) as nat);
        assert(ops.drop_last() =~= backtrack(old, new, i, (j - 1) as nat));
        assert(new_indices(ops) =~= Seq::new(j, |k: int| k as nat));
    } else {
        lemma_backtrack_new_indices(old, new, (i - 1) as nat, j);
        assert(ops.drop_last() =~= backtrack(old, new, (i - 1) as nat, j));
    }
}

proof fn lemma_merge_new_indices(ops: Seq<DiffOp>)
    ensures
        new_indices(merge_ops(ops)) == new_indices(ops),
    decreases ops.len(),
{
    if ops.len() == 0 {
    } else if ops.len() >= 2 && ops[0] is Delete && ops[1] is Insert {
        let head = seq![DiffOp::Replace(ops[0]->Delete_0, ops[1]->Insert_0)];
        lemma_merge_new_indices(ops.skip(2));
        lemma_new_indices_concat(head, merge_ops(ops.skip(2)));
        lemma_new_indices_concat(ops.take(2), ops.skip(2));
        assert(ops.take(2) + ops.skip(2) =~= ops);
        let t2 = ops.take(2);
        let t1 = t2.drop_last();
        assert(head.drop_last() =~= Seq::<DiffOp>::empty());
        assert(t1 =~= seq![ops[0]]);
        assert(t1.drop_last() =~= Seq::<DiffOp>::empty());
        assert(t1.last() == ops[0]);
        assert(new_indices(t1) == new_indices(t1.drop_last()));
        assert(t2.last() == ops[1]);
        assert(new_index(head.last()) == new_index(t2.last()));
        assert(new_indices(head) =~= new_indices(t2));
    } else {
        let head = seq![ops[0]];
        lemma_merge_new_indices(ops.skip(1));
        lemma_new_indices_concat(head, merge_ops(ops.skip(1)));
        lemma_new_indices_concat(ops.take(1), ops.skip(1));
        assert(ops.take(1) + ops.skip(1) =~= ops);
        assert(ops.take(1) =~= head);
    }
}

proof fn lemma_index_listed(ops: Seq<DiffOp>, k: int)
    requires
        0 <= k < ops.len(),
        new_index(ops[k]) is Some,
    ensures
        new_indices(ops).contains(new_index(ops[k])->0),
    decreases ops.len(),
{
    let p = ops.drop_last();
    if k == ops.len() - 1 {
        assert(new_indices(ops).last() == new_index(ops[k])->0);
    } else {
        assert(ops[k] == p[k]);
        lemma_index_listed(p, k);
        let x = new_index(ops[k])->0;
        let i = choose|i: int| 0 <= i < new_indices(p).len() && new_indices(p)[i] == x;
        match new_index(ops.last()) {
            Some(b) => { assert(new_indices(ops)[i] == x); },
            None => {},
        }
    }
}

proof fn lemma_changes_len(ops: Seq<DiffOp>, n: nat)
    ensures
        changes_from(ops, n).len() == n,
    decreases ops.len(),
{
    if ops.len() > 0 {
        lemma_changes_len(ops.drop_last(), n);
    }
}

proof fn lemma_unlisted_unchanged(ops: Seq<DiffOp>, n: nat, b: nat)
    requires
        b < n,
        !new_indices(ops).contains(b),
    ensures
        changes_from(ops, n)[b as int] == LineChange::Unchanged,
    decreases ops.len(),
{
    lemma_changes_len(ops, n);
    if ops.len() > 0 {
        let p = ops.drop_last();
        assert(!new_indices(p).contains(b)) by {
            if new_indices(p).contains(b) {
                let i = choose|i: int| 0 <= i < new_indices(p).len() && new_indices(p)[i] == b;
                match new_index(ops.last()) {
                    Some(x) => { assert(new_indices(ops)[i] == b); },
                    None => {},
                }
            }
        }
        lemma_unlisted_unchanged(p, n, b);
        match new_index(ops.last()) {
            Some(x) => {
                assert(new_indices(ops).last() == x);
                assert(x != b);
            },
            None => {},
        }
    }
}

proof fn lemma_changes_mark_ops(ops: Seq<DiffOp>, n: nat)
    requires
        new_indices(ops) == Seq::new(new_indices(ops).len(), |k: int| k as nat),
        new_indices(ops).len() <= n,
    ensures
        forall|k: int| 0 <= k < ops.len() ==> change_marked(#[trigger] ops[k], changes_from(ops, n)),
    decreases ops.len(),
{
    if ops.len() > 0 {
        let p = ops.drop_last();
        let c = new_indices(ops).len();
        lemma_changes_len(ops, n);
        lemma_changes_len(p, n);
        match new_index(ops.last()) {
            Some(x) => {
                assert(new_indices(p) =~= new_indices(ops).drop_last());
                assert(new_indices(p) =~= Seq::new(new_indices(p).len(), |k: int| k as nat));
                assert(new_indices(ops)[c - 1] == x);
                assert(new_indices(ops)[c - 1] == (c - 1) as nat);
                assert(x == c - 1);
            },
            None => {},
        }
        lemma_changes_mark_ops(p, n);
        let prev = changes_from(p, n);
        let ch = changes_from(ops, n);
        assert forall|k: int| 0 <= k < ops.len() implies change_marked(#[trigger] ops[k], ch) by {
            if k < ops.len() - 1 {
                assert(ops[k] == p[k]);
                assert(change_marked(p[k], prev));
                if new_index(ops[k]) is Some {
                    lemma_index_listed(p, k);
                    let b = new_index(ops[k])->0;
                    let i = choose|i: int| 0 <= i < new_indices(p).len() && new_indices(p)[i] == b;
                    match new_index(ops.last()) {
                        Some(x) => {
                            assert(b < x);
                        },
                        None => {},
                    }
                }
            } else {
                match ops[k] {
                    DiffOp::Equal(_, b) => {
                        assert(new_indices(ops).last() == b as nat);
                        assert(!new_indices(p).contains(b as nat)) by {
                            if new_indices(p).contains(b as nat) {
                                let i = choose|i: int| 0 <= i < new_indices(p).len() && new_indices(p)[i] == b as nat;
                                assert(new_indices(p)[i] == i);
                            }
                        }
                        lemma_unlisted_unchanged(p, n, b as nat);
                    },
                    DiffOp::Insert(b) => {
                        assert(new_indices(ops).last() == b as nat);
                    },
                    DiffOp::Replace(_, b) => {
                        assert(new_indices(ops).last() == b as nat);
                    },
                    DiffOp::Delete(_, _) => {},
                }
            }
        }
    }
}

/// Law: the diff goes through the lines of the new text once each, in
/// order, and the tracker marks each as its op says: an inserted line
/// (wherever it stands, the first line too) is added, a replaced line
/// modified, a kept line unchanged.
pub proof fn law_diff_marks_every_new_line(old: Seq<Seq<char>>, new: Seq<Seq<char>>)
    requires
        new.len() <= usize::MAX,
    ensures
        new_indices(diff_ops(old, new)) == Seq::new(new.len(), |j: int| j as nat),
        forall|k: int| 0 <= k < diff_ops(old, new).len() ==>
            change_marked(#[trigger] diff_ops(old, new)[k], changes_from(diff_ops(old, new), new.len())),
{
    lemma_backtrack_new_indices(old, new, old.len(), new.len());
    lemma_merge_new_indices(backtrack(old, new, old.len(), new.len()));
    lemma_changes_mark_ops(diff_ops(old, new), new.len());
}

/// The line of the old text that an op is about, if any (an insertion is
/// about a new line only).
pub open spec fn old_index(op: DiffOp) -> Option<nat> {
    match op {
        DiffOp::Equal(a, _) => Some(a as nat),
        DiffOp::Delete(a, _) => Some(a as nat),
        DiffOp::Replace(a, _) => Some(a as nat),
        DiffOp::Insert(_) => None,
    }
}

/// The old lines that the ops are about, in order.
pub open spec fn old_indices(ops: Seq<DiffOp>) -> Seq<nat>
    decreases ops.len(),
{
    if ops.len() == 0 {
        seq![]
    } else {
        let p = old_indices(ops.drop_last());
        match old_index(ops.last()) {
            Some(a) => p.push(a),
            None => p,
        }
    }
}

proof fn lemma_old_indices_concat(a: Seq<DiffOp>, b: Seq<DiffOp>)
    ensures
        old_indices(a + b) == old_indices(a) + old_indices(b),
    decreases b.len(),
{
    if b.len() == 0 {
        assert(a + b =~= a);
        assert(old_indices(a) + old_indices(b) =~= old_indices(a));
    } else {
        assert((a + b).drop_last() =~= a + b.drop_last());
        assert((a + b).last() == b.last());
        lemma_old_indices_concat(a, b.drop_last());
        match old_index(b.last()) {
            Some(x) => {
                assert(old_indices(a + b) =~= old_indices(a) + old_indices(b));
            },
            None => {},
        }
    }
}

proof fn lemma_backtrack_old_indices(old: Seq<Seq<char>>, new: Seq<Seq<char>>, i: nat, j: nat)
    requires
        i <= usize::MAX,
    ensures
        old_indices(backtrack(old, new, i, j)) == Seq::new(i, |k: int| k as nat),
    decreases i + j,
{
    let ops = backtrack(old, new, i, j);
    if i == 0 && j == 0 {
        assert(old_indices(ops) =~= Seq::new(i, |k: int| k as nat));
    } else if i > 0 && j > 0 && old[i - 1] == new[j - 1] {
        lemma_backtrack_old_indices(old, new, (i - 1) as nat, (j - 1) as nat);
        assert(ops.drop_last() =~= backtrack(old, new, (i - 1) as nat, (j - 1) as nat));
        assert(old_indices(ops) =~= Seq::new(i, |k: int| k as nat));
    } else if j > 0 && (i == 0 || lcs(old, new, i, (j - 1) as nat) >= lcs(old, new, (i - 1) as nat, j)) {
        lemma_backtrack_old_indices(old, new, i, (j - 1) as nat);
        assert(ops.drop_last() =~= backtrack(old, new, i, (j - 1) as nat));
    } else {
        lemma_backtrack_old_indices(old, new, (i - 1) as nat, j);
        assert(ops.drop_last() =~= backtrack(old, new, (i - 1) as nat, j));
        assert(old_indices(ops) =~= Seq::new(i, |k: int| k as nat));
    }
}

proof fn lemma_merge_old_indices(ops: Seq<DiffOp>)
    ensures
        old_indices(merge_ops(ops)) == old_indices(ops),
    decreases ops.len(),
{
    if ops.len() == 0 {
    } else if ops.len() >= 2 && ops[0] is Delete && ops[1] is Insert {
        let head = seq![DiffOp::Replace(ops[0]->Delete_0, ops[1]->Insert_0)];
        lemma_merge_old_indices(ops.skip(2));
        lemma_old_indices_concat(head, merge_ops(ops.skip(2)));
        lemma_old_indices_concat(ops.take(2), ops.skip(2));
        assert(ops.take(2) + ops.skip(2) =~= ops);
        let t2 = ops.take(2);
        let t1 = t2.drop_last();
        assert(head.drop_last() =~= Seq::<DiffOp>::empty());
        assert(t1 =~= seq![ops[0]]);
        assert(t1.drop_last() =~= Seq::<DiffOp>::empty());
        assert(t1.last() == ops[0]);
        assert(t2.last() == ops[1]);
        assert(old_indices(t2) == old_indices(t1));
        assert(old_indices(head) =~= old_indices(t2));
    } else {
        let head = seq![ops[0]];
        lemma_merge_old_indices(ops.skip(1));
        lemma_old_indices_concat(head, merge_ops(ops.skip(1)));
        lemma_old_indices_concat(ops.take(1), ops.skip(1));
        assert(ops.take(1) + ops.skip(1) =~= ops);
        assert(ops.take(1) =~= head);
    }
}

proof fn lemma_ghosts_of_deletions(ops: Seq<DiffOp>, original: Seq<Seq<char>>)
    ensures
        forall|i: int| 0 <= i < ghosts_from(ops, original).len() ==> {
            let g = #[trigger] ghosts_from(ops, original)[i];
            &&& old_indices(ops).contains(g.original_line)
            &&& g.content == original[g.original_line as int]
        },
    decreases ops.len(),
{
    if ops.len() > 0 {
        let p = ops.drop_last();
        lemma_ghosts_of_deletions(p, original);
        let gs = ghosts_from(ops, original);
        assert forall|i: int| 0 <= i < gs.len() implies {
            let g = #[trigger] gs[i];
            &&& old_indices(ops).contains(g.original_line)
            &&& g.content == original[g.original_line as int]
        } by {
            if i < ghosts_from(p, original).len() {
                let g = ghosts_from(p, original)[i];
                assert(gs[i] == g);
                let j = choose|j: int| 0 <= j < old_indices(p).len() && old_indices(p)[j] == g.original_line;
                match old_index(ops.last()) {
                    Some(a) => { assert(old_indices(ops)[j] == g.original_line); },
                    None => {},
                }
            } else {
                assert(old_indices(ops).last() == gs[i].original_line);
            }
        }
    }
}

/// Law: the diff goes through the lines of the old text once each, in
/// order (each kept, replaced or deleted), and every ghost line shown is a
/// line of the old text with its own content.
pub proof fn law_diff_accounts_for_every_old_line(old: Seq<Seq<char>>, new: Seq<Seq<char>>)
    requires
        old.len() <= usize::MAX,
    ensures
        old_indices(diff_ops(old, new)) == Seq::new(old.len(), |i: int| i as nat),
        forall|i: int| 0 <= i < ghosts_from(diff_ops(old, new), old).len() ==> {
            let g = #[trigger] ghosts_from(diff_ops(old, new), old)[i];
            &&& g.original_line < old.len()
            &&& g.content == old[g.original_line as int]
        },
{
    lemma_backtrack_old_indices(old, new, old.len(), new.len());
    lemma_merge_old_indices(backtrack(old, new, old.len(), new.len()));
    let ops = diff_ops(old, new);
    lemma_ghosts_of_deletions(ops, old);
    assert forall|i: int| 0 <= i < ghosts_from(ops, old).len() implies
        (#[trigger] ghosts_from(ops, old)[i]).original_line < old.len() by {
        let g = ghosts_from(ops, old)[i];
        let j = choose|j: int| 0 <= j < old_indices(ops).len() && old_indices(ops)[j] == g.original_line;
    }
}

/// The mathematical value of a diff tracker.
pub struct DiffView {
    /// Snapshot of the content when tracking started.
    pub original: Seq<Seq<char>>,
    /// Whether tracking is active.
    pub tracking: bool,
    /// Change of each current line, as of the last update.
    pub changes: Seq<LineChange>,
    /// Removed lines, as of the last update.
    pub ghosts: Seq<GhostView>,
}

/// Change of one current line as a tracker reports it.
pub open spec fn line_change_of(v: DiffView, line: int) -> LineChange {
    if !v.tracking {
        LineChange::Unchanged
    } else if 0 <= line < v.changes.len() {
        v.changes[line]
    } else {
        LineChange::Unchanged
    }
}

/// Diff tracker for editor content.
pub struct DiffTracker {
    /// Original content (snapshot when the LLM starts editing).
    original_lines: Vec<String>,
    /// Whether tracking is active.
    tracking: bool,
    /// Change status of each line of the current content.
    line_changes: Vec<LineChange>,
    /// Removed lines (ghost lines to show).
    ghost_lines: Vec<GhostLine>,
}

impl View for DiffTracker {
    type V = DiffView;

    closed spec fn view(&self) -> DiffView {
        DiffView {
            original: lines_view(self.original_lines@),
            tracking: self.tracking,
            changes: self.line_changes@,
            ghosts: self.ghost_lines@.map_values(|g: GhostLine| g.view()),
        }
    }
}

impl DiffTracker {
    /// A tracker that is not tracking.
    pub fn new() -> (t: Self)
        ensures
            t@.original == Seq::<Seq<char>>::empty(),
            !t@.tracking,
            t@.changes == Seq::<LineChange>::empty(),
            t@.ghosts == Seq::<GhostView>::empty(),
    {
        let t = DiffTracker {
            original_lines: Vec::new(),
            tracking: false,
            line_changes: Vec::new(),
            ghost_lines: Vec::new(),
        };
        assert(t@.original =~= Seq::<Seq<char>>::empty());
        assert(t@.ghosts =~= Seq::<GhostView>::empty());
        t
    }

    /// Start tracking changes from the given content.
    pub fn start_tracking(&mut self, lines: &Vec<String>)
        ensures
            final(self)@.original == lines_view(lines@),
            final(self)@.tracking,
            final(self)@.changes == Seq::<LineChange>::empty(),
            final(self)@.ghosts == Seq::<GhostView>::empty(),
    {
        self.original_lines = clone_lines(lines);
        self.tracking = true;
        self.line_changes = Vec::new();
        self.ghost_lines = Vec::new();
        assert(self@.ghosts =~= Seq::<GhostView>::empty());
    }

    /// Stop tracking and clear the diff state.
    pub fn stop_tracking(&mut self)
        ensures
            final(self)@.original == Seq::<Seq<char>>::empty(),
            !final(self)@.tracking,
            final(self)@.changes == Seq::<LineChange>::empty(),
            final(self)@.ghosts == Seq::<GhostView>::empty(),
    {
        self.tracking = false;
        self.original_lines = Vec::new();
        self.line_changes = Vec::new();
        self.ghost_lines = Vec::new();
        assert(self@.original =~= Seq::<Seq<char>>::empty());
        assert(self@.ghosts =~= Seq::<GhostView>::empty());
    }

    /// Whether tracking is active.
    pub fn is_tracking(&self) -> (b: bool)
        ensures
            b == self@.tracking,
    {
        self.tracking
    }

    /// Change type of a current line.
    pub fn get_line_change(&self, line_num: usize) -> (c: LineChange)
        ensures
            c == line_change_of(self@, line_num as int),
    {
        if !self.tracking {
            return LineChange::Unchanged;
        }
        if line_num < self.line_changes.len() {
            self.line_changes[line_num]
        } else {
            LineChange::Unchanged
        }
    }

    /// Ghost lines to display after a given current line.
    pub fn get_ghost_lines_after(&self, line_num: usize) -> (r: Vec<&GhostLine>)
        ensures
            r@.map_values(|g: &GhostLine| g.view()) == (if self@.tracking {
                ghosts_after(self@.ghosts, line_num as nat)
            } else {
                Seq::<GhostView>::empty()
            }),
    {
        let mut r: Vec<&GhostLine> = Vec::new();
        if !self.tracking {
            assert(r@.map_values(|g: &GhostLine| g.view()) =~= Seq::<GhostView>::empty());
            return r;
        }
        let ghost all = self@.ghosts;
        let mut k: usize = 0;
        while k < self.ghost_lines.len()
            invariant
                all == self.ghost_lines@.map_values(|g: GhostLine| g.view()),
                k <= self.ghost_lines@.len(),
                r@.map_values(|g: &GhostLine| g.view()) == ghosts_after(all.take(k as int), line_num as nat),
            decreases self.ghost_lines@.len() - k,
        {
            let g = &self.ghost_lines[k];
            assert(all.take(k + 1).drop_last() =~= all.take(k as int));
            if g.display_after == line_num {
                r.push(g);
            }
            k = k + 1;
            assert(r@.map_values(|g: &GhostLine| g.view()) =~= ghosts_after(all.take(k as int), line_num as nat));
        }
        assert(all.take(k as int) =~= all);
        r
    }

    /// Recompute the diff of the current content against the original.
    pub fn update_diff(&mut self, current_lines: &Vec<String>)
        ensures
            final(self)@.original == old(self)@.original,
            final(self)@.tracking == old(self)@.tracking,
            old(self)@.tracking ==> final(self)@.changes == changes_from(
                diff_ops(old(self)@.original, lines_view(current_lines@)),
                current_lines@.len(),
            ),
            old(self)@.tracking ==> final(self)@.ghosts == ghosts_from(
                diff_ops(old(self)@.original, lines_view(current_lines@)),
                old(self)@.original,
            ),
            !old(self)@.tracking ==> final(self)@ == old(self)@,
    {
        if !self.tracking {
            return;
        }
        let ghost orig = lines_view(self.original_lines@);
        let ghost cur = lines_view(current_lines@);
        let diff = compute_diff(&self.original_lines, current_lines);
        proof {
            assert(cur.len() == current_lines.len());
            assert(orig.len() == self.original_lines.len());
            lemma_backtrack_bounds(orig, cur, orig.len(), cur.len(), orig.len(), cur.len());
            lemma_merge_bounds(backtrack(orig, cur, orig.len(), cur.len()), orig.len(), cur.len());
        }
        let n = current_lines.len();
        let mut changes: Vec<LineChange> = Vec::new();
        let mut k: usize = 0;
        while k < n
            invariant
                k <= n,
                changes@ == Seq::new(k as nat, |i: int| LineChange::Unchanged),
            decreases n - k,
        {
            changes.push(LineChange::Unchanged);
            k = k + 1;
            assert(changes@ =~= Seq::new(k as nat, |i: int| LineChange::Unchanged));
        }
        assert(changes@ =~= changes_from(diff@.take(0), n as nat));
        let mut ghosts: Vec<GhostLine> = Vec::new();
        assert(ghosts@.map_values(|g: GhostLine| g.view()) =~= ghosts_from(diff@.take(0), orig));
        let mut k: usize = 0;
        while k < diff.len()
            invariant
                orig == lines_view(self.original_lines@),
                cur == lines_view(current_lines@),
                n == current_lines@.len(),
                diff@ == diff_ops(orig, cur),
                ops_in_bounds(diff@, orig.len(), cur.len()),
                orig.len() == self.original_lines@.len(),
                k <= diff@.len(),
                changes@ == changes_from(diff@.take(k as int), n as nat),
                changes@.len() == n,
                ghosts@.map_values(|g: GhostLine| g.view()) == ghosts_from(diff@.take(k as int), orig),
            decreases diff@.len() - k,
        {
            let op = diff[k];
            assert(op_in_bounds(diff@[k as int], orig.len(), cur.len()));
            assert(diff@.take(k + 1).drop_last() =~= diff@.take(k as int));
            assert(diff@.take(k + 1).last() == op);
            match op {
                DiffOp::Equal(_, _) => {},
                DiffOp::Insert(new_idx) => {
                    changes.set(new_idx, LineChange::Added);
                },
                DiffOp::Delete(old_idx, display_after) => {
                    let content = self.original_lines[old_idx].clone();
                    ghosts.push(GhostLine { original_line: old_idx, content, display_after });
                },
                DiffOp::Replace(_, new_idx) => {
                    changes.set(new_idx, LineChange::Modified);
                },
            }
            k = k + 1;
            assert(changes@ =~= changes_from(diff@.take(k as int), n as nat));
            assert(ghosts@.map_values(|g: GhostLine| g.view()) =~= ghosts_from(diff@.take(k as int), orig));
        }
        assert(diff@.take(k as int) =~= diff@);
        self.line_changes = changes;
        self.ghost_lines = ghosts;
    }

    /// Accept all changes: the current content becomes the new original.
    pub fn accept_changes(&mut self, current_lines: &Vec<String>)
        ensures
            old(self)@.tracking ==> final(self)@.original == lines_view(current_lines@),
            old(self)@.tracking ==> final(self)@.changes == Seq::<LineChange>::empty(),
            old(self)@.tracking ==> final(self)@.ghosts == Seq::<GhostView>::empty(),
            final(self)@.tracking == old(self)@.tracking,
            !old(self)@.tracking ==> final(self)@ == old(self)@,
    {
        if self.tracking {
            self.original_lines = clone_lines(current_lines);
            self.line_changes = Vec::new();
            self.ghost_lines = Vec::new();
            assert(self@.ghosts =~= Seq::<GhostView>::empty());
        }
    }

    /// The original content, while tracking.
    pub fn get_original(&self) -> (r: Option<Vec<String>>)
        ensures
            self@.tracking ==> r is Some && lines_view(r->0@) == self@.original,
            !self@.tracking ==> r is None,
    {
        if self.tracking {
            Some(clone_lines(&self.original_lines))
        } else {
            None
        }
    }
}

impl Default for DiffTracker {
    fn default() -> (t: Self)
        ensures
            t@.original == Seq::<Seq<char>>::empty(),
            !t@.tracking,
            t@.changes == Seq::<LineChange>::empty(),
            t@.ghosts == Seq::<GhostView>::empty(),
    {
        Self::new()
    }
}

} // verus!
