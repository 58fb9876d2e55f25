//! Undo/redo history for the editor.

use vstd::prelude::*;
use super::selection::Position;

verus! {

/// Maximum number of operations kept for undo.
pub const MAX_UNDO_HISTORY: usize = 100;

/// An edit operation that can be undone.
#[derive(Debug, Clone)]
pub enum EditOp {
    /// Text inserted at a position.
    Insert { pos: Position, text: String },
    /// Text deleted from a range.
    Delete { start: Position, end: Position, deleted_text: String },
}

/// The two stacks of an undo history.
pub struct UndoView {
    pub undo: Seq<EditOp>,
    pub redo: Seq<EditOp>,
}

/// Undo stack for tracking operations. It never holds more than
/// `MAX_UNDO_HISTORY` operations for undo.
#[derive(Debug)]
pub struct UndoStack {
    undo: Vec<EditOp>,
    redo: Vec<EditOp>,
}

impl UndoStack {
    #[verifier::type_invariant]
    spec fn within_limit(self) -> bool {
        self.undo@.len() <= MAX_UNDO_HISTORY
    }
}

/// The undo stack after pushing `op` onto `undo`, oldest entry dropped past
/// the limit.
pub open spec fn pushed(undo: Seq<EditOp>, op: EditOp) -> Seq<EditOp> {
    if undo.len() + 1 > MAX_UNDO_HISTORY { undo.push(op).skip(1) } else { undo.push(op) }
}

impl View for UndoStack {
    type V = UndoView;

    closed spec fn view(&self) -> UndoView {
        UndoView { undo: self.undo@, redo: self.redo@ }
    }
}

impl UndoStack {
    pub fn new() -> (s: Self)
        ensures
            s@.undo == Seq::<EditOp>::empty(),
            s@.redo == Seq::<EditOp>::empty(),
    {
        UndoStack { undo: Vec::new(), redo: Vec::new() }
    }

    /// The two stacks, moved out; `self` is left empty.
    fn take_parts(&mut self) -> (r: (Vec<EditOp>, Vec<EditOp>))
        ensures
            r.0@ == old(self)@.undo,
            r.1@ == old(self)@.redo,
            r.0@.len() <= MAX_UNDO_HISTORY,
    {
        let mut parts = UndoStack::new();
        std::mem::swap(&mut parts, self);
        proof { use_type_invariant(&parts); }
        let UndoStack { undo, redo } = parts;
        (undo, redo)
    }

    /// Record a new edit: it goes on the undo stack, the redo stack is
    /// cleared, and the oldest entry is dropped past the limit.
    pub fn push(&mut self, op: EditOp)
        ensures
            final(self)@.undo == pushed(old(self)@.undo, op),
            final(self)@.redo == Seq::<EditOp>::empty(),
            final(self)@.undo.len() <= MAX_UNDO_HISTORY,
    {
        let (mut undo, _) = self.take_parts();
        if undo.len() >= MAX_UNDO_HISTORY {
            undo.remove(0);
            undo.push(op);
            assert(undo@ =~= pushed(old(self)@.undo, op));
        } else {
            undo.push(op);
        }
        *self = UndoStack { undo, redo: Vec::new() };
    }

    /// Take the last operation for undo.
    pub fn pop_undo(&mut self) -> (r: Option<EditOp>)
        ensures
            old(self)@.undo.len() == 0 ==> r is None && final(self)@ == old(self)@,
            old(self)@.undo.len() > 0 ==> r == Some(old(self)@.undo.last())
                && final(self)@.undo == old(self)@.undo.drop_last(),
            final(self)@.redo == old(self)@.redo,
            final(self)@.undo.len() <= MAX_UNDO_HISTORY,
    {
        let (mut undo, redo) = self.take_parts();
        let r = undo.pop();
        *self = UndoStack { undo, redo };
        r
    }

    /// Put an undone operation on the redo stack.
    pub fn push_redo(&mut self, op: EditOp)
        ensures
            final(self)@.undo == old(self)@.undo,
            final(self)@.redo == old(self)@.redo.push(op),
            final(self)@.undo.len() <= MAX_UNDO_HISTORY,
    {
        let (undo, mut redo) = self.take_parts();
        redo.push(op);
        *self = UndoStack { undo, redo };
    }

    /// Take the last undone operation for redo.
    pub fn pop_redo(&mut self) -> (r: Option<EditOp>)
        ensures
            old(self)@.redo.len() == 0 ==> r is None && final(self)@ == old(self)@,
            old(self)@.redo.len() > 0 ==> r == Some(old(self)@.redo.last())
                && final(self)@.redo == old(self)@.redo.drop_last(),
            final(self)@.undo == old(self)@.undo,
            final(self)@.undo.len() <= MAX_UNDO_HISTORY,
    {
        let (undo, mut redo) = self.take_parts();
        let r = redo.pop();
        *self = UndoStack { undo, redo };
        r
    }

    /// Whether there is something to undo.
    pub fn can_undo(&self) -> (b: bool)
        ensures
            b == (self@.undo.len() > 0),
            self@.undo.len() <= MAX_UNDO_HISTORY,
    {
        proof { use_type_invariant(self); }
        self.undo.len() > 0
    }

    /// Whether there is something to redo.
    pub fn can_redo(&self) -> (b: bool)
        ensures
            b == (self@.redo.len() > 0),
    {
        self.redo.len() > 0
    }

    /// Clear all history.
    pub fn clear(&mut self)
        ensures
            final(self)@.undo == Seq::<EditOp>::empty(),
            final(self)@.redo == Seq::<EditOp>::empty(),
    {
        *self = UndoStack::new();
    }
}

impl Default for UndoStack {
    fn default() -> (s: Self)
        ensures
            s@.undo == Seq::<EditOp>::empty(),
            s@.redo == Seq::<EditOp>::empty(),
    {
        UndoStack::new()
    }
}

/// Law: the last operation pushed is the first one undone, and undoing it
/// leaves the history as it was before the push (when the limit did not drop
/// an entry).
pub proof fn law_undo_returns_last_push(before: Seq<EditOp>, op: EditOp)
    ensures
        pushed(before, op).len() > 0,
        pushed(before, op).last() == op,
        before.len() < MAX_UNDO_HISTORY ==> pushed(before, op).drop_last() == before,
        pushed(before, op).len() <= if before.len() < MAX_UNDO_HISTORY { before.len() + 1 } else { before.len() },
{
    if before.len() + 1 > MAX_UNDO_HISTORY {
        assert(before.push(op).skip(1).last() == op);
    } else {
        assert(before.push(op).drop_last() =~= before);
    }
}

} // verus!
