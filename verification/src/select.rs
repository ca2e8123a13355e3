//! The decisions of the select tool when the left button is pressed: what is
//! selected, what is toggled, and where the tool's mouse handling goes next.
//!
//! The item under the mouse is found by the editor, which also carries out
//! what needs the floating-point geometry (turning a line into a curve,
//! turning a guide); the decisions, and the changes to the selection and the
//! points, are made here.

use vstd::prelude::*;
use crate::point::{EntityId, PathPoint};
use crate::point_list::PathPoints;
use crate::segment::Segment;
use crate::session::{path_index_from, selected_in_turn, EditSession};
use crate::tools::EditType;

verus! {

/// An item that the select tool can act on: a handle of the selection's
/// bounding box, a point, a guide, or a segment of a path.
pub enum Item<P, H> {
    SelectionHandle(H),
    Point(EntityId),
    Guide(EntityId),
    Segment(Segment<P>),
}

/// Where the select tool's mouse handling is.
pub enum SelectState<P, H, D> {
    /// The mouse is idle; it may be hovering on an item.
    Idle(Option<Item<P, H>>),
    /// The mouse has clicked, and may have clicked an item.
    Down(Option<Item<P, H>>),
    /// The mouse is down but a drag that begins is not acted on.
    SuppressDrag,
    /// A drag gesture is in progress.
    Drag(D),
    /// The mouse is up after clicking an item; a double-click acts on it.
    WaitDoubleClick(Item<P, H>),
}

/// What a press leaves for the editor to do with the geometry.
pub enum PressAction<P> {
    /// Nothing.
    Nothing,
    /// Turn this line segment, of the path at this index, into a curve.
    UpgradeLine(usize, Segment<P>),
    /// Toggle the guide with this id between horizontal and vertical, at
    /// the position of the press.
    ToggleGuide(EntityId),
}

/// The ids of the points of a segment, in order.
pub open spec fn segment_ids<P>(seg: Segment<P>) -> Seq<EntityId> {
    match seg {
        Segment::Line(a, b) => seq![a.id, b.id],
        Segment::Cubic(a, b, c, d) => seq![a.id, b.id, c.id, d.id],
    }
}

/// The item a single click acts on: the one hovered, or the one waiting for
/// a double-click.
pub open spec fn pressed_item<P, H, D>(s: SelectState<P, H, D>) -> Option<Item<P, H>> {
    match s {
        SelectState::Idle(item) => item,
        SelectState::WaitDoubleClick(item) => Some(item),
        _ => None,
    }
}

/// The selection after a click on a point or guide: without `append`, the
/// item alone, unless it is already selected; with `append`, the item's
/// selection is toggled.
pub open spec fn clicked_selection(sel: Set<EntityId>, id: EntityId, append: bool) -> Set<EntityId> {
    if !append {
        if sel.contains(id) {
            sel
        } else {
            Set::empty().insert(id)
        }
    } else if sel.contains(id) {
        sel.remove(id)
    } else {
        sel.insert(id)
    }
}

/// Whether every point of the segment is selected.
pub open spec fn all_selected<P>(sel: Set<EntityId>, seg: Segment<P>) -> bool {
    forall|i: int| 0 <= i < segment_ids(seg).len() ==> sel.contains(#[trigger] segment_ids(seg)[i])
}

/// The ids of a segment's points.
fn ids_of<P: Copy>(seg: &Segment<P>) -> (r: Vec<EntityId>)
    ensures
        r@ == segment_ids(*seg),
{
    match seg {
        Segment::Line(a, b) => vec![a.id, b.id],
        Segment::Cubic(a, b, c, d) => vec![a.id, b.id, c.id, d.id],
    }
}

/// Whether `r` is what a single click does: the next state, the selection,
/// the kind of edit and the action for the editor, with the paths unchanged.
pub open spec fn single_click<P: Copy, H, D>(
    s: SelectState<P, H, D>,
    paths: Seq<PathPoints<P>>,
    sel: Set<EntityId>,
    append: bool,
    alt: bool,
    r: (SelectState<P, H, D>, Option<EditType>, PressAction<P>),
    sel2: Set<EntityId>,
) -> bool {
    match pressed_item(s) {
        Some(Item::SelectionHandle(h)) => {
            &&& r.0 == SelectState::<P, H, D>::Down(Some(Item::SelectionHandle(h)))
            &&& sel2 == sel
            &&& r.1 is None
            &&& r.2 is Nothing
        },
        Some(Item::Point(id)) => {
            &&& r.0 == SelectState::<P, H, D>::Down(Some(Item::Point(id)))
            &&& sel2 == clicked_selection(sel, id, append)
            &&& r.1 is None
            &&& r.2 is Nothing
        },
        Some(Item::Guide(id)) => {
            &&& r.0 == SelectState::<P, H, D>::Down(Some(Item::Guide(id)))
            &&& sel2 == clicked_selection(sel, id, append)
            &&& r.1 is None
            &&& r.2 is Nothing
        },
        Some(Item::Segment(seg)) => if alt {
            &&& r.0 == SelectState::<P, H, D>::SuppressDrag
            &&& sel2 == sel
            &&& match (seg, path_index_from(paths, segment_ids(seg)[0], 0)) {
                (Segment::Line(..), Some(i)) => r.1 == Some(EditType::Normal) && r.2 == PressAction::UpgradeLine(
                    i as usize,
                    seg,
                ),
                _ => r.1 is None && r.2 is Nothing,
            }
        } else {
            let ids = segment_ids(seg).to_set();
            &&& r.1 is None
            &&& r.2 is Nothing
            &&& if !append {
                &&& sel2 == ids
                &&& r.0 == SelectState::<P, H, D>::Down(Some(Item::Segment(seg)))
            } else if all_selected(sel, seg) {
                &&& sel2 == sel.difference(ids)
                &&& r.0 == SelectState::<P, H, D>::SuppressDrag
            } else {
                &&& sel2 == sel.union(ids)
                &&& r.0 == SelectState::<P, H, D>::Down(Some(Item::Segment(seg)))
            }
        },
        None => {
            &&& r.0 == SelectState::<P, H, D>::Down(None)
            &&& sel2 == sel
            &&& r.1 is None
            &&& r.2 is Nothing
        },
    }
}

/// Handles a press of the left button. `append` is whether shift is held,
/// `alt` whether alt is, and `count` is the click count of the press.
///
/// A single click acts on the item hovered or waiting for a double-click:
/// a selection handle starts a press on it; a point or guide is selected
/// (or, appending, toggled); with alt, a line segment is to be turned into a
/// curve; otherwise a segment's points are selected (or, appending, added,
/// or removed when all were selected). A double-click acts on the item that
/// waits for it: a point's type is toggled, a guide is to be turned, and a
/// segment's path is selected. Other counts change nothing.
pub fn left_down<P: Copy, H, D>(
    state: SelectState<P, H, D>,
    session: &mut EditSession<P>,
    append: bool,
    alt: bool,
    count: u8,
) -> (r: (SelectState<P, H, D>, Option<EditType>, PressAction<P>))
    ensures
        count == 1 ==> final(session).paths@ == old(session).paths@ && single_click(
            state,
            old(session).paths@,
            old(session).selection@,
            append,
            alt,
            r,
            final(session).selection@,
        ),
        count == 2 ==> match state {
            SelectState::WaitDoubleClick(item) => {
                &&& r.0 == SelectState::<P, H, D>::WaitDoubleClick(item)
                &&& match item {
                    Item::Point(id) => {
                        &&& r.1 == Some(EditType::Normal)
                        &&& r.2 is Nothing
                        &&& final(session).selection@ == old(session).selection@
                        &&& final(session).paths@.len() == old(session).paths@.len()
                        &&& forall|i: int|
                            0 <= i < old(session).paths@.len() ==> (#[trigger] final(session).paths@[i])@
                                == if path_index_from(old(session).paths@, id, 0) == Some(i) {
                                PathPoints::toggled_at(old(session).paths@[i]@, id)
                            } else {
                                old(session).paths@[i]@
                            }
                    },
                    Item::Guide(id) => {
                        &&& r.1 == Some(EditType::Normal)
                        &&& r.2 == PressAction::<P>::ToggleGuide(id)
                        &&& *final(session) == *old(session)
                    },
                    Item::Segment(seg) => {
                        let path = segment_ids(seg)[0].parent_spec();
                        &&& r.1 is None
                        &&& r.2 is Nothing
                        &&& final(session).paths@ == old(session).paths@
                        &&& (exists|i: int|
                            {
                                &&& 0 <= i < old(session).paths@.len()
                                &&& old(session).paths@[i]@.id == path
                                &&& forall|j: int| 0 <= j < i ==> (#[trigger] old(session).paths@[j])@.id != path
                                &&& final(session).selection@ == selected_in_turn(
                                    old(session).selection@,
                                    old(session).paths@[i]@.points.map_values(|p: PathPoint<P>| p.id),
                                    append,
                                )
                            }) || (!(exists|i: int|
                            0 <= i < old(session).paths@.len() && (#[trigger] old(session).paths@[i])@.id == path)
                            && final(session).selection@ == old(session).selection@)
                    },
                    Item::SelectionHandle(_) => {
                        &&& r.1 is None
                        &&& r.2 is Nothing
                        &&& *final(session) == *old(session)
                    },
                }
            },
            _ => {
                &&& r.0 == SelectState::<P, H, D>::SuppressDrag
                &&& r.1 is None
                &&& r.2 is Nothing
                &&& *final(session) == *old(session)
            },
        },
        count != 1 && count != 2 ==> r.0 == state && r.1 is None && r.2 is Nothing && *final(session) == *old(
            session,
        ),
{
    if count == 1 {
        let item = match state {
            SelectState::Idle(item) => item,
            SelectState::WaitDoubleClick(item) => Some(item),
            _ => None,
        };
        match item {
            Some(Item::SelectionHandle(h)) => (SelectState::Down(Some(Item::SelectionHandle(h))), None, PressAction::Nothing),
            Some(Item::Point(id)) => {
                click_on(session, id, append);
                (SelectState::Down(Some(Item::Point(id))), None, PressAction::Nothing)
            },
            Some(Item::Guide(id)) => {
                click_on(session, id, append);
                (SelectState::Down(Some(Item::Guide(id))), None, PressAction::Nothing)
            },
            Some(Item::Segment(seg)) => {
                if alt {
                    // toggle the segment's type
                    let found = match seg {
                        Segment::Line(..) => session.path_idx_for_point(seg.start_id()),
                        Segment::Cubic(..) => None,
                    };
                    match found {
                        Some(i) => (SelectState::SuppressDrag, Some(EditType::Normal), PressAction::UpgradeLine(i, seg)),
                        None => (SelectState::SuppressDrag, None, PressAction::Nothing),
                    }
                } else {
                    let ids = ids_of(&seg);
                    let all = all_in_selection(session, &ids);
                    if !append {
                        session.selection.clear();
                        session.selection.extend(ids.as_slice());
                        proof {
                            assert(Set::<EntityId>::empty() + ids@.to_set() =~= ids@.to_set());
                        }
                        (SelectState::Down(Some(Item::Segment(seg))), None, PressAction::Nothing)
                    } else if all {
                        remove_all(session, &ids);
                        (SelectState::SuppressDrag, None, PressAction::Nothing)
                    } else {
                        session.selection.extend(ids.as_slice());
                        (SelectState::Down(Some(Item::Segment(seg))), None, PressAction::Nothing)
                    }
                }
            },
            None => (SelectState::Down(None), None, PressAction::Nothing),
        }
    } else if count == 2 {
        match state {
            SelectState::WaitDoubleClick(item) => {
                match item {
                    Item::Point(id) => {
                        session.toggle_point_type(id);
                        (SelectState::WaitDoubleClick(Item::Point(id)), Some(EditType::Normal), PressAction::Nothing)
                    },
                    Item::Guide(id) => (
                        SelectState::WaitDoubleClick(Item::Guide(id)),
                        Some(EditType::Normal),
                        PressAction::ToggleGuide(id),
                    ),
                    Item::Segment(seg) => {
                        let path = seg.start_id().parent();
                        session.select_path(path, append);
                        (SelectState::WaitDoubleClick(Item::Segment(seg)), None, PressAction::Nothing)
                    },
                    Item::SelectionHandle(h) => (
                        SelectState::WaitDoubleClick(Item::SelectionHandle(h)),
                        None,
                        PressAction::Nothing,
                    ),
                }
            },
            _ => (SelectState::SuppressDrag, None, PressAction::Nothing),
        }
    } else {
        (state, None, PressAction::Nothing)
    }
}

/// A click on a point or guide: without `append`, it becomes the selection
/// unless it is already selected; with `append`, its selection is toggled.
fn click_on<P: Copy>(session: &mut EditSession<P>, id: EntityId, append: bool)
    ensures
        final(session).paths@ == old(session).paths@,
        final(session).selection@ == clicked_selection(old(session).selection@, id, append),
{
    if !append {
        if !session.selection.contains(&id) {
            session.selection.select_one(id);
        }
    } else if !session.selection.remove(&id) {
        session.selection.insert(id);
    }
}

/// Whether every one of `ids` is selected.
fn all_in_selection<P: Copy>(session: &EditSession<P>, ids: &Vec<EntityId>) -> (r: bool)
    ensures
        r == forall|i: int| 0 <= i < ids@.len() ==> session.selection@.contains(#[trigger] ids@[i]),
{
    let mut i: usize = 0;
    while i < ids.len()
        invariant
            0 <= i <= ids.len(),
            forall|j: int| 0 <= j < i ==> session.selection@.contains(#[trigger] ids@[j]),
        decreases ids.len() - i,
    {
        if !session.selection.contains(&ids[i]) {
            return false;
        }
        i += 1;
    }
    true
}

/// Removes each of `ids` from the selection.
fn remove_all<P: Copy>(session: &mut EditSession<P>, ids: &Vec<EntityId>)
    ensures
        final(session).paths@ == old(session).paths@,
        final(session).selection@ == old(session).selection@.difference(ids@.to_set()),
{
    let mut i: usize = 0;
    while i < ids.len()
        invariant
            0 <= i <= ids.len(),
            session.paths@ == old(session).paths@,
            session.selection@ == old(session).selection@.difference(ids@.take(i as int).to_set()),
        decreases ids.len() - i,
    {
        session.selection.remove(&ids[i]);
        proof {
            let before = ids@.take(i as int);
            let after = ids@.take(i + 1);
            let x = ids@[i as int];
            assert forall|e: EntityId| after.to_set().contains(e) <==> before.to_set().insert(x).contains(e) by {
                if after.contains(e) {
                    let j = choose|j: int| 0 <= j < after.len() && after[j] == e;
                    if j < i {
                        assert(before[j] == e);
                    }
                }
                if before.contains(e) {
                    let j = choose|j: int| 0 <= j < before.len() && before[j] == e;
                    assert(after[j] == e);
                }
                if e == x {
                    assert(after[i as int] == e);
                }
            }
            assert(after.to_set() =~= before.to_set().insert(x));
            assert(session.selection@ =~= old(session).selection@.difference(after.to_set()));
        }
        i += 1;
    }
    assert(ids@.take(ids.len() as int) =~= ids@);
}

} // verus!
