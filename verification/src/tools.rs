//! Types of edits that tools make, and the state of the tools that does not
//! depend on the windowing system.

use vstd::prelude::*;

verus! {

/// Types of state modifications, for the purposes of undo.
///
/// Certain state modifications group together in undo; for instance when dragging
/// a point, each individual edit (each time we receive a `MouseMoved` event)
/// is combined into a single edit representing the entire drag.
///
/// When a tool handles an event, it returns an `Option<EditType>`, that describes
/// what (if any) sort of modification it made to the state.
#[derive(Debug, Clone, Copy, PartialEq, Eq, Structural)]
pub enum EditType {
    /// Any change that always gets its own undo group
    Normal,
    NudgeLeft,
    NudgeRight,
    NudgeUp,
    NudgeDown,
    /// An edit where a drag of some kind is in progress.
    Drag,
    /// An edit that finishes a drag; it combines with the previous undo
    /// group, but not with any subsequent event.
    DragUp,
}

/// An edit of kind `next`, following an edit of kind `prev`, joins the undo
/// group of `prev` when both are the same nudge, both are drags, or `next`
/// ends the drag that `prev` belongs to.
pub open spec fn combines_with(prev: EditType, next: EditType) -> bool {
    ||| prev == next && (prev == EditType::NudgeLeft || prev == EditType::NudgeRight || prev
        == EditType::NudgeUp || prev == EditType::NudgeDown || prev == EditType::Drag)
    ||| prev == EditType::Drag && next == EditType::DragUp
}

impl EditType {
    /// Whether an edit of kind `other` that follows an edit of this kind
    /// needs an undo group of its own.
    pub fn needs_new_undo_group(self, other: EditType) -> (r: bool)
        ensures
            r == !combines_with(self, other),
    {
        match (self, other) {
            (EditType::NudgeDown, EditType::NudgeDown) => false,
            (EditType::NudgeUp, EditType::NudgeUp) => false,
            (EditType::NudgeLeft, EditType::NudgeLeft) => false,
            (EditType::NudgeRight, EditType::NudgeRight) => false,
            (EditType::Drag, EditType::Drag) => false,
            (EditType::Drag, EditType::DragUp) => false,
            _ => true,
        }
    }
}

/// Normal edits, and edits that finish a drag, never let a later edit join
/// their undo group.
pub proof fn lemma_group_closers(next: EditType)
    ensures
        !combines_with(EditType::Normal, next),
        !combines_with(EditType::DragUp, next),
        combines_with(EditType::Drag, EditType::DragUp),
{
}

/// The state of the hyperbezier pen.
#[derive(Debug, Clone, PartialEq)]
pub struct HyperPen {
    pub this_edit_type: Option<EditType>,
    pub is_draggable: bool,
}

impl Default for HyperPen {
    fn default() -> (p: HyperPen)
        ensures
            p.this_edit_type is None,
            !p.is_draggable,
    {
        HyperPen { this_edit_type: None, is_draggable: false }
    }
}

} // verus!
