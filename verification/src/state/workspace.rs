//! Workspaces as the selector lists them, and the list the program keeps:
//! each workspace has an id that no other workspace had before it.

use vstd::prelude::*;
use crate::text::owned;

verus! {

/// Identifier of a workspace.
#[derive(Debug, Clone, Copy, PartialEq, Eq, Hash, Structural)]
pub struct WorkspaceId(pub u64);

/// What the selector shows of a workspace.
#[derive(Debug, Clone)]
pub struct WorkspaceView {
    pub id: WorkspaceId,
    pub name: String,
    pub path: String,
}

/// A workspace as id, name and path.
pub type WorkspaceV = (u64, Seq<char>, Seq<char>);

/// The value of a workspace.
pub open spec fn workspace_view(w: WorkspaceView) -> WorkspaceV {
    (w.id.0, w.name@, w.path@)
}

/// The workspaces known, in the order they were added, and the id the next
/// one gets.
pub struct WorkspaceList {
    items: Vec<WorkspaceView>,
    next_id: u64,
}

/// The position of the workspace with id `id` among `ws`, from `k` on.
pub open spec fn position_of(ws: Seq<WorkspaceV>, id: u64, k: int) -> Option<nat>
    decreases ws.len() - k,
{
    if k < 0 || k >= ws.len() {
        None
    } else if ws[k].0 == id {
        Some(k as nat)
    } else {
        position_of(ws, id, k + 1)
    }
}

impl WorkspaceList {
    /// The workspaces, in the order they were added.
    pub closed spec fn entries(&self) -> Seq<WorkspaceV> {
        self.items@.map_values(|w: WorkspaceView| workspace_view(w))
    }

    /// The id the next workspace gets.
    pub closed spec fn upcoming_id(&self) -> u64 {
        self.next_id
    }

    /// Every id is below the next one and no two workspaces share one.
    pub open spec fn wf(&self) -> bool {
        &&& forall|i: int| 0 <= i < self.entries().len() ==> (#[trigger] self.entries()[i]).0 < self.upcoming_id()
        &&& forall|i: int, j: int| 0 <= i < j < self.entries().len()
            ==> (#[trigger] self.entries()[i]).0 != (#[trigger] self.entries()[j]).0
    }

    /// One workspace, `name` at `path`, with id 1.
    pub fn new(name: &str, path: &str) -> (l: Self)
        ensures
            l.wf(),
            l.entries() == seq![(1u64, name@, path@)],
            l.upcoming_id() == 2,
    {
        let mut items: Vec<WorkspaceView> = Vec::new();
        items.push(WorkspaceView { id: WorkspaceId(1), name: owned(name), path: owned(path) });
        let l = WorkspaceList { items, next_id: 2 };
        assert(l.entries() =~= seq![(1u64, name@, path@)]);
        l
    }

    /// Whether one more workspace can get an id.
    pub fn can_add(&self) -> (b: bool)
        ensures
            b == (self.upcoming_id() < u64::MAX),
    {
        self.next_id < u64::MAX
    }

    /// The workspaces, in order.
    pub fn items(&self) -> (r: &Vec<WorkspaceView>)
        ensures
            r@.map_values(|w: WorkspaceView| workspace_view(w)) == self.entries(),
    {
        &self.items
    }

    /// The position of the workspace with id `id`, if there is one.
    pub fn position(&self, id: WorkspaceId) -> (r: Option<usize>)
        ensures
            match r {
                Some(k) => position_of(self.entries(), id.0, 0) == Some(k as nat),
                None => position_of(self.entries(), id.0, 0) is None,
            },
    {
        let ghost es = self.entries();
        let mut k: usize = 0;
        while k < self.items.len()
            invariant
                es == self.entries(),
                es.len() == self.items@.len(),
                k <= es.len(),
                position_of(es, id.0, 0) == position_of(es, id.0, k as int),
            decreases es.len() - k,
        {
            assert(es[k as int].0 == self.items@[k as int].id.0);
            if self.items[k].id.0 == id.0 {
                return Some(k);
            }
            k = k + 1;
        }
        None
    }

    /// The path of the workspace with id `id`, if there is one.
    pub fn path_of(&self, id: WorkspaceId) -> (r: Option<String>)
        ensures
            match position_of(self.entries(), id.0, 0) {
                Some(k) => r matches Some(p) && p@ == self.entries()[k as int].2,
                None => r is None,
            },
    {
        proof { lemma_position_in_range(self.entries(), id.0, 0); }
        match self.position(id) {
            Some(k) => {
                assert(self.entries()[k as int].2 == self.items@[k as int].path@);
                Some(owned(self.items[k].path.as_str()))
            },
            None => None,
        }
    }

    /// Add a workspace, `name` at `path`, with the next id, and return the
    /// id.
    pub fn add(&mut self, name: &str, path: &str) -> (id: WorkspaceId)
        requires
            old(self).wf(),
            old(self).upcoming_id() < u64::MAX,
        ensures
            final(self).wf(),
            id.0 == old(self).upcoming_id(),
            final(self).entries() == old(self).entries().push((id.0, name@, path@)),
            final(self).upcoming_id() == old(self).upcoming_id() + 1,
    {
        let id = WorkspaceId(self.next_id);
        let ghost before = self.entries();
        self.items.push(WorkspaceView { id, name: owned(name), path: owned(path) });
        self.next_id = self.next_id + 1;
        assert(self.entries() =~= before.push((id.0, name@, path@)));
        id
    }

    /// Remove the workspace with id `id` and return it; nothing when there
    /// is none.
    pub fn remove(&mut self, id: WorkspaceId) -> (r: Option<WorkspaceView>)
        requires
            old(self).wf(),
        ensures
            final(self).wf(),
            final(self).upcoming_id() == old(self).upcoming_id(),
            match position_of(old(self).entries(), id.0, 0) {
                Some(k) => r matches Some(w) && workspace_view(w) == old(self).entries()[k as int]
                    && final(self).entries() == old(self).entries().remove(k as int),
                None => r is None && final(self).entries() == old(self).entries(),
            },
    {
        proof { lemma_position_in_range(self.entries(), id.0, 0); }
        match self.position(id) {
            Some(k) => {
                let ghost before = self.entries();
                let w = self.items.remove(k);
                assert(self.entries() =~= before.remove(k as int));
                proof {
                    assert forall|i: int| 0 <= i < self.entries().len()
                        implies (#[trigger] self.entries()[i]).0 < self.upcoming_id() by {
                        if i < k { assert(self.entries()[i] == before[i]); } else { assert(self.entries()[i] == before[i + 1]); }
                    }
                    assert forall|i: int, j: int| 0 <= i < j < self.entries().len()
                        implies (#[trigger] self.entries()[i]).0 != (#[trigger] self.entries()[j]).0 by {
                        let i2 = if i < k { i } else { i + 1 };
                        let j2 = if j < k { j } else { j + 1 };
                        assert(self.entries()[i] == before[i2]);
                        assert(self.entries()[j] == before[j2]);
                    }
                }
                Some(w)
            },
            None => None,
        }
    }
}

/// A position found is a position of the list, and its workspace has the
/// id looked for.
pub proof fn lemma_position_in_range(ws: Seq<WorkspaceV>, id: u64, k: int)
    ensures
        position_of(ws, id, k) matches Some(p) ==> p < ws.len() && ws[p as int].0 == id,
    decreases ws.len() - k,
{
    if 0 <= k < ws.len() && ws[k].0 != id {
        lemma_position_in_range(ws, id, k + 1);
    }
}

/// A workspace added gets an id no workspace of the list has.
pub proof fn law_added_id_is_new(l: WorkspaceList)
    requires
        l.wf(),
    ensures
        position_of(l.entries(), l.upcoming_id(), 0) is None,
{
    lemma_none_below(l.entries(), l.upcoming_id(), 0);
}

/// No workspace from `k` on has an id at or above every id of the list.
proof fn lemma_none_below(ws: Seq<WorkspaceV>, id: u64, k: int)
    requires
        forall|i: int| 0 <= i < ws.len() ==> (#[trigger] ws[i]).0 < id,
    ensures
        position_of(ws, id, k) is None,
    decreases ws.len() - k,
{
    if 0 <= k < ws.len() {
        lemma_none_below(ws, id, k + 1);
    }
}

/// The working workspace after `deleted` was removed from the list: none
/// when it was the working one, except on the selector shown at start,
/// where no workspace is working yet and the choice stands.
pub fn active_after_delete(active: Option<WorkspaceId>, deleted: WorkspaceId, at_start: bool) -> (r: Option<WorkspaceId>)
    ensures
        r == (if !at_start && active == Some(deleted) { None } else { active }),
{
    match active {
        Some(a) => if !at_start && a.0 == deleted.0 { None } else { active },
        None => None,
    }
}

} // verus!
