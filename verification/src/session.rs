//! Identifiers for editing sessions.

use vstd::prelude::*;
use crate::point::{EntityId, PathPoint};
use crate::point_list::{
    can_delete, deleted_all, has_id, is_first_index_of, lemma_first_index_exists, lemma_first_index_unique,
    next_index, prev_index, reversed_points, PathPoints, PathPointsView,
};
use crate::selection::{sorted_ids, Selection};
use crate::sort::lemma_filter_push;

verus! {

/// A unique identifier for a session. A session keeps the same identifier
/// even if the name of the glyph changes.
#[derive(Debug, Clone, Copy, PartialEq, Eq, Hash, Structural)]
pub struct SessionId(pub usize);

/// Hands out session identifiers, counting up from zero and wrapping around
/// at the end of the range of `usize`.
pub struct SessionCounter {
    next: usize,
}

impl SessionCounter {
    /// The identifier the counter hands out next.
    pub closed spec fn upcoming(self) -> usize {
        self.next
    }

    pub fn new() -> (r: SessionCounter)
        ensures
            r.upcoming() == 0,
    {
        SessionCounter { next: 0 }
    }
}

impl SessionId {
    /// The next identifier of the counter.
    pub fn next(counter: &mut SessionCounter) -> (r: SessionId)
        ensures
            r.0 == old(counter).upcoming(),
            final(counter).upcoming() == (if old(counter).upcoming() == usize::MAX {
                0
            } else {
                old(counter).upcoming() + 1
            }),
    {
        let id = counter.next;
        counter.next = counter.next.wrapping_add(1);
        SessionId(id)
    }
}

/// The index of the first path that `point` belongs to, from `i` on.
pub open spec fn path_index_from<P>(paths: Seq<PathPoints<P>>, point: EntityId, i: int) -> Option<int>
    decreases paths.len() - i,
{
    if i < 0 || i >= paths.len() {
        None
    } else if point.is_child_of_spec(paths[i]@.id) {
        Some(i)
    } else {
        path_index_from(paths, point, i + 1)
    }
}

/// The id of the point after (or before) `id` in its path, going around the
/// end; `id` itself when it is in no path.
pub open spec fn neighbour_of<P>(paths: Seq<PathPoints<P>>, id: EntityId, forward: bool) -> EntityId {
    match path_index_from(paths, id, 0) {
        Some(i) => {
            let pts = paths[i]@.points;
            if has_id(pts, id) {
                let k = choose|k: int| is_first_index_of(pts, id, k);
                if forward {
                    pts[next_index(pts.len() as int, k)].id
                } else {
                    pts[prev_index(pts.len() as int, k)].id
                }
            } else {
                id
            }
        },
        None => id,
    }
}

/// A selection after each id in turn is selected: an id not yet selected is
/// added; one already selected is removed when `toggle` is set.
pub open spec fn selected_in_turn(s: Set<EntityId>, ids: Seq<EntityId>, toggle: bool) -> Set<EntityId>
    decreases ids.len(),
{
    if ids.len() == 0 {
        s
    } else {
        let before = selected_in_turn(s, ids.drop_last(), toggle);
        let x = ids.last();
        if !before.contains(x) {
            before.insert(x)
        } else if toggle {
            before.remove(x)
        } else {
            before
        }
    }
}

/// The ids of all the points of the paths.
pub open spec fn all_point_ids<P>(paths: Seq<PathPoints<P>>) -> Set<EntityId> {
    Set::new(|e: EntityId| exists|i: int, j: int| 0 <= i < paths.len() && 0 <= j < paths[i]@.points.len()
        && (#[trigger] paths[i]@.points[j]).id == e)
}

/// The paths holding a selected point.
pub open spec fn paths_with_selection<P>(paths: Seq<PathPoints<P>>, sel: Set<EntityId>) -> Set<int> {
    Set::new(|i: int| exists|e: EntityId| sel.contains(e) && path_index_from(paths, e, 0) == Some(i))
}

/// The paths to reverse: those holding a selected point, or all of them
/// when no selected point is in a path.
pub open spec fn paths_to_reverse<P>(paths: Seq<PathPoints<P>>, sel: Set<EntityId>, i: int) -> bool {
    if exists|e: EntityId| sel.contains(e) && path_index_from(paths, e, 0) is Some {
        paths_with_selection(paths, sel).contains(i)
    } else {
        true
    }
}

/// Whether an id is held by the path at index `p`.
pub open spec fn in_path<P>(paths: Seq<PathPoints<P>>, p: int) -> spec_fn(EntityId) -> bool {
    |e: EntityId| path_index_from(paths, e, 0) == Some(p)
}

/// Whether an id is a guide's that no path holds.
pub open spec fn loose_guide<P>(paths: Seq<PathPoints<P>>) -> spec_fn(EntityId) -> bool {
    |e: EntityId| e.is_guide_spec() && path_index_from(paths, e, 0) is None
}

/// The selected points of the path at index `p`, in increasing order.
pub open spec fn selected_in_path<P>(paths: Seq<PathPoints<P>>, sel: Set<EntityId>, p: int) -> Seq<EntityId> {
    sorted_ids(sel).filter(in_path(paths, p))
}

/// Each of these points of a contour can be deleted in turn.
pub open spec fn group_deletable<P>(v: PathPointsView<P>, ids: Seq<EntityId>) -> bool {
    forall|k: int| 0 <= k < ids.len() ==> can_delete(deleted_all(v, #[trigger] ids.take(k)), ids[k])
}

/// The selected points of every path can be deleted in turn.
pub open spec fn selection_deletable<P>(paths: Seq<PathPoints<P>>, sel: Set<EntityId>) -> bool {
    forall|p: int| 0 <= p < paths.len() ==> group_deletable(paths[p]@, #[trigger] selected_in_path(paths, sel, p))
}

/// The contours of the paths.
pub open spec fn views_of<P>(paths: Seq<PathPoints<P>>) -> Seq<PathPointsView<P>> {
    paths.map_values(|q: PathPoints<P>| q@)
}

/// Whether a contour has any point left.
pub open spec fn has_points<P>() -> spec_fn(PathPointsView<P>) -> bool {
    |v: PathPointsView<P>| v.points.len() > 0
}

/// Each path with its selected points deleted in turn.
pub open spec fn paths_pruned<P>(paths: Seq<PathPoints<P>>, sel: Set<EntityId>) -> Seq<PathPointsView<P>> {
    Seq::new(paths.len(), |p: int| deleted_all(paths[p]@, selected_in_path(paths, sel, p)))
}

/// The selection after the selection is deleted: where a single point of a
/// path was selected and the path keeps points, the path's last stored point
/// (for an open contour its end, where drawing goes on; for a closed one its
/// start point); otherwise nothing.
pub open spec fn selection_after_deletion<P>(paths: Seq<PathPoints<P>>, sel: Set<EntityId>) -> Set<EntityId> {
    let ids = sorted_ids(sel);
    if ids.len() == 1 {
        match path_index_from(paths, ids[0], 0) {
            Some(p) => if has_id(paths[p]@.points, ids[0]) && paths_pruned(paths, sel)[p].points.len() > 0 {
                Set::empty().insert(paths_pruned(paths, sel)[p].points.last().id)
            } else {
                Set::empty()
            },
            None => Set::empty(),
        }
    } else {
        Set::empty()
    }
}

/// The contours after the selection is deleted: the selected points of each
/// path deleted in turn, and the paths left without points dropped.
pub open spec fn paths_after_deletion<P>(paths: Seq<PathPoints<P>>, sel: Set<EntityId>) -> Seq<PathPointsView<P>> {
    paths_pruned(paths, sel).filter(has_points())
}

/// The paths being edited, and the points selected in them.
pub struct EditSession<P> {
    pub paths: Vec<PathPoints<P>>,
    pub selection: Selection,
}

impl<P: Copy> EditSession<P> {
    /// A session with these paths and nothing selected.
    pub fn new(paths: Vec<PathPoints<P>>) -> (r: Self)
        ensures
            r.paths@ == paths@,
            r.selection@ == Set::<EntityId>::empty(),
    {
        EditSession { paths, selection: Selection::new() }
    }

    /// The index of the path that `point` belongs to.
    pub fn path_idx_for_point(&self, point: EntityId) -> (r: Option<usize>)
        ensures
            r matches Some(i) ==> path_index_from(self.paths@, point, 0) == Some(i as int),
            r is None ==> path_index_from(self.paths@, point, 0) is None,
    {
        let mut i: usize = 0;
        while i < self.paths.len()
            invariant
                0 <= i <= self.paths.len(),
                path_index_from(self.paths@, point, 0) == path_index_from(self.paths@, point, i as int),
            decreases self.paths.len() - i,
        {
            if point.is_child_of(self.paths[i].id()) {
                return Some(i);
            }
            i += 1;
        }
        None
    }

    /// The index of the path being drawn: the one holding the only
    /// selected point.
    pub fn active_path_idx(&self) -> (r: Option<usize>)
        ensures
            self.selection@.len() != 1 ==> r is None,
            self.selection@.len() == 1 ==> {
                let id = self.selection@.choose();
                &&& r matches Some(i) ==> path_index_from(self.paths@, id, 0) == Some(i as int)
                &&& r is None ==> path_index_from(self.paths@, id, 0) is None
            },
    {
        if self.selection.len() == 1 {
            let id = self.only_selected();
            self.path_idx_for_point(id)
        } else {
            None
        }
    }

    /// The only selected id.
    fn only_selected(&self) -> (r: EntityId)
        requires
            self.selection@.len() == 1,
        ensures
            r == self.selection@.choose(),
            self.selection@ == Set::<EntityId>::empty().insert(r),
    {
        let ids = self.selection.iter();
        proof {
            ids@.unique_seq_to_set();
            assert(ids@.len() == 1);
            assert(ids@.to_set().contains(ids@[0]));
            assert(self.selection@ =~= Set::<EntityId>::empty().insert(ids@[0])) by {
                assert forall|e: EntityId| self.selection@.contains(e) implies e == ids@[0] by {
                    let j = choose|j: int| 0 <= j < ids@.len() && ids@[j] == e;
                }
            }
            let c = self.selection@.choose();
            assert(self.selection@.contains(c));
        }
        ids[0]
    }

    /// The point with this id.
    pub fn path_point_for_id(&self, id: EntityId) -> (r: Option<PathPoint<P>>)
        ensures
            r matches Some(p) ==> exists|i: int, k: int|
                path_index_from(self.paths@, id, 0) == Some(i) && is_first_index_of(self.paths@[i]@.points, id, k)
                    && p == self.paths@[i]@.points[k],
            r is None ==> match path_index_from(self.paths@, id, 0) {
                Some(i) => !has_id(self.paths@[i]@.points, id),
                None => true,
            },
    {
        match self.path_idx_for_point(id) {
            Some(i) => {
                proof {
                    lemma_path_index_found(self.paths@, id, 0);
                }
                self.paths[i].path_point_for_id(id)
            },
            None => None,
        }
    }

    /// Toggles the type of the point with this id, in the path it belongs
    /// to; nothing changes where no path holds it.
    pub fn toggle_point_type(&mut self, id: EntityId)
        ensures
            final(self).selection@ == old(self).selection@,
            final(self).paths@.len() == old(self).paths@.len(),
            forall|i: int|
                0 <= i < old(self).paths@.len() ==> (#[trigger] final(self).paths@[i])@ == if path_index_from(
                    old(self).paths@,
                    id,
                    0,
                ) == Some(i) {
                    PathPoints::toggled_at(old(self).paths@[i]@, id)
                } else {
                    old(self).paths@[i]@
                },
            forall|i: int|
                0 <= i < old(self).paths@.len() && old(self).paths@[i].wf() ==> (#[trigger] final(self).paths@[i]).wf(),
    {
        match self.path_idx_for_point(id) {
            Some(i) => {
                proof {
                    lemma_path_index_found(self.paths@, id, 0);
                }
                let mut path = self.paths.remove(i);
                path.toggle_point_type(id);
                self.paths.insert(i, path);
                proof {
                    assert forall|j: int| 0 <= j < old(self).paths@.len() implies (#[trigger] self.paths@[j])@
                        == if path_index_from(old(self).paths@, id, 0) == Some(j) {
                        PathPoints::toggled_at(old(self).paths@[j]@, id)
                    } else {
                        old(self).paths@[j]@
                    } by {
                        if j < i {
                            assert(self.paths@[j] == old(self).paths@[j]);
                        } else if j > i {
                            assert(self.paths@[j] == old(self).paths@[j]);
                        }
                    }
                }
            },
            None => {},
        }
    }

    /// Deletes the selected points, path by path, and drops the paths left
    /// without points. When a single point of a path was deleted and the
    /// path keeps points, a point of that path is selected afterwards;
    /// otherwise nothing is. Returns the selected guides (selected ids of
    /// guides that no path holds), in increasing order, for the editor to
    /// remove.
    pub fn delete_selection(&mut self) -> (r: Vec<EntityId>)
        requires
            selection_deletable(old(self).paths@, old(self).selection@),
        ensures
            final(self).selection@ == selection_after_deletion(old(self).paths@, old(self).selection@),
            views_of(final(self).paths@) == paths_after_deletion(old(self).paths@, old(self).selection@),
            r@ == sorted_ids(old(self).selection@).filter(loose_guide(old(self).paths@)),
    {
        let ghost paths0 = self.paths@;
        let ghost sel0 = self.selection@;
        let ids = self.selection.iter();
        self.selection.clear();
        let n = self.paths.len();
        // the path each selected id belongs to, and the selected guides
        let mut owner: Vec<Option<usize>> = Vec::new();
        let mut guides: Vec<EntityId> = Vec::new();
        let mut k: usize = 0;
        assert(ids@.take(0) =~= Seq::<EntityId>::empty());
        while k < ids.len()
            invariant
                0 <= k <= ids.len(),
                self.paths@ == paths0,
                self.selection@ == Set::<EntityId>::empty(),
                owner@.len() == k,
                forall|j: int| 0 <= j < k ==> match #[trigger] owner@[j] {
                    Some(i) => path_index_from(paths0, ids@[j], 0) == Some(i as int),
                    None => path_index_from(paths0, ids@[j], 0) is None,
                },
                guides@ == ids@.take(k as int).filter(loose_guide(paths0)),
            decreases ids.len() - k,
        {
            let e = ids[k];
            let found = self.path_idx_for_point(e);
            proof {
                lemma_filter_push(ids@.take(k as int), e, loose_guide(paths0));
                assert(ids@.take(k + 1) =~= ids@.take(k as int).push(e));
            }
            if found.is_none() && e.is_guide() {
                guides.push(e);
            }
            owner.push(found);
            k += 1;
        }
        assert(ids@.take(ids.len() as int) =~= ids@);
        // whether a single selected point is one of its path's points
        let single = if ids.len() == 1 {
            match owner[0] {
                Some(p) => {
                    proof {
                        assert(owner@[0] == Some(p));
                        lemma_path_index_found(paths0, ids@[0], 0);
                    }
                    self.paths[p].contains_point(ids[0])
                },
                None => false,
            }
        } else {
            false
        };
        // delete the selected points of each path
        let mut p: usize = 0;
        while p < n
            invariant
                0 <= p <= n,
                n == paths0.len(),
                self.paths@.len() == n,
                self.selection@ == Set::<EntityId>::empty(),
                ids@ == sorted_ids(sel0),
                owner@.len() == ids@.len(),
                forall|j: int| 0 <= j < ids@.len() ==> match #[trigger] owner@[j] {
                    Some(i) => path_index_from(paths0, ids@[j], 0) == Some(i as int),
                    None => path_index_from(paths0, ids@[j], 0) is None,
                },
                selection_deletable(paths0, sel0),
                forall|j: int| 0 <= j < n ==> (#[trigger] self.paths@[j])@ == if j < p {
                    deleted_all(paths0[j]@, selected_in_path(paths0, sel0, j))
                } else {
                    paths0[j]@
                },
            decreases n - p,
        {
            let mut mine: Vec<EntityId> = Vec::new();
            let mut k: usize = 0;
            assert(ids@.take(0) =~= Seq::<EntityId>::empty());
            while k < ids.len()
                invariant
                    0 <= k <= ids.len(),
                    owner@.len() == ids@.len(),
                    forall|j: int| 0 <= j < ids@.len() ==> match #[trigger] owner@[j] {
                        Some(i) => path_index_from(paths0, ids@[j], 0) == Some(i as int),
                        None => path_index_from(paths0, ids@[j], 0) is None,
                    },
                    mine@ == ids@.take(k as int).filter(in_path(paths0, p as int)),
                decreases ids.len() - k,
            {
                let e = ids[k];
                proof {
                    lemma_filter_push(ids@.take(k as int), e, in_path(paths0, p as int));
                    assert(ids@.take(k + 1) =~= ids@.take(k as int).push(e));
                    assert(owner@[k as int] == owner@[k as int]);
                }
                match owner[k] {
                    Some(i) => {
                        if i == p {
                            mine.push(e);
                        }
                    },
                    None => {},
                }
                k += 1;
            }
            assert(ids@.take(ids.len() as int) =~= ids@);
            assert(group_deletable(paths0[p as int]@, selected_in_path(paths0, sel0, p as int)));
            let ghost before = self.paths@;
            let mut path = self.paths.remove(p);
            path.delete_points(mine.as_slice());
            self.paths.insert(p, path);
            proof {
                assert forall|j: int| 0 <= j < n implies (#[trigger] self.paths@[j])@ == if j < p + 1 {
                    deleted_all(paths0[j]@, selected_in_path(paths0, sel0, j))
                } else {
                    paths0[j]@
                } by {
                    if j != p {
                        assert(self.paths@[j] == before[j]);
                    }
                }
            }
            p += 1;
        }
        let ghost pruned = paths_pruned(paths0, sel0);
        // select a point of the path a single point was deleted from
        if single {
            match owner[0] {
                Some(p) => {
                    proof {
                        assert(owner@[0] == Some(p));
                        lemma_path_index_found(paths0, ids@[0], 0);
                    }
                    if self.paths[p].len() > 0 {
                        let last = self.paths[p].point_at(self.paths[p].len() - 1).id;
                        self.selection.select_one(last);
                    }
                },
                None => {},
            }
        }
        assert(self.selection@ == selection_after_deletion(paths0, sel0));
        // drop the paths left without points
        assert(views_of(self.paths@) =~= pruned);
        let mut rest: Vec<PathPoints<P>> = Vec::new();
        std::mem::swap(&mut rest, &mut self.paths);
        let ghost all = rest@;
        let mut kept: Vec<PathPoints<P>> = Vec::new();
        assert(all.skip(0) =~= all);
        assert(pruned.take(0) =~= Seq::<PathPointsView<P>>::empty());
        while rest.len() > 0
            invariant
                rest@.len() <= all.len(),
                all.len() == n,
                self.selection@ == selection_after_deletion(paths0, sel0),
                views_of(all) == pruned,
                rest@ == all.skip(all.len() - rest@.len()),
                views_of(kept@) == pruned.take(all.len() - rest@.len()).filter(has_points()),
            decreases rest.len(),
        {
            let ghost d = all.len() - rest@.len();
            let q = rest.remove(0);
            assert(q == all[d]);
            assert(rest@ =~= all.skip(d + 1));
            proof {
                lemma_filter_push(pruned.take(d), pruned[d], has_points());
                assert(pruned.take(d + 1) =~= pruned.take(d).push(pruned[d]));
                assert(views_of(all)[d] == q@);
            }
            if q.len() > 0 {
                let ghost kb = kept@;
                kept.push(q);
                assert(views_of(kept@) =~= views_of(kb).push(q@));
            }
            assert(views_of(kept@) == pruned.take(d + 1).filter(has_points()));
        }
        assert(pruned.take(all.len() as int) =~= pruned);
        self.paths = kept;
        guides
    }

    /// Adds a path and selects its first point.
    pub fn add_path(&mut self, path: PathPoints<P>)
        requires
            path@.points.len() > 0,
        ensures
            final(self).paths@ == old(self).paths@.push(path),
            final(self).selection@ == Set::<EntityId>::empty().insert(path@.points[0].id),
    {
        let point = path.point_at(0).id;
        self.paths.push(path);
        self.selection.select_one(point);
    }

    /// Adds pasted paths, and selects all their points (only).
    pub fn paste_paths(&mut self, paths: Vec<PathPoints<P>>)
        ensures
            final(self).paths@ == old(self).paths@ + paths@,
            final(self).selection@ == all_point_ids(paths@),
    {
        self.selection.clear();
        let mut i: usize = 0;
        while i < paths.len()
            invariant
                0 <= i <= paths.len(),
                self.paths@ == old(self).paths@,
                self.selection@ == all_point_ids(paths@.take(i as int)),
            decreases paths.len() - i,
        {
            let pts = paths[i].point_ids();
            let ghost before = self.selection@;
            self.selection.extend(pts.as_slice());
            proof {
                let next = paths@.take(i + 1);
                assert forall|e: EntityId| self.selection@.contains(e) == all_point_ids(next).contains(e) by {
                    if before.contains(e) {
                        let (a, b) = choose|a: int, b: int| 0 <= a < paths@.take(i as int).len() && 0 <= b < paths@.take(i as int)[a]@.points.len()
                            && (#[trigger] paths@.take(i as int)[a]@.points[b]).id == e;
                        assert(next[a] == paths@.take(i as int)[a]);
                    }
                    if pts@.to_set().contains(e) {
                        let b = choose|b: int| 0 <= b < pts@.len() && pts@[b] == e;
                        assert(next[i as int]@.points[b].id == pts@[b]);
                    }
                    if all_point_ids(next).contains(e) {
                        let (a, b) = choose|a: int, b: int| 0 <= a < next.len() && 0 <= b < next[a]@.points.len()
                            && (#[trigger] next[a]@.points[b]).id == e;
                        if a < i {
                            assert(paths@.take(i as int)[a] == next[a]);
                        } else {
                            assert(pts@[b] == next[a]@.points[b].id);
                        }
                    }
                }
                assert(self.selection@ =~= all_point_ids(next));
            }
            i += 1;
        }
        assert(paths@.take(paths.len() as int) =~= paths@);
        let mut incoming = paths;
        self.paths.append(&mut incoming);
    }

    /// If the selection is a single point, selects the point after it on
    /// its path.
    pub fn select_next(&mut self)
        ensures
            final(self).paths@ == old(self).paths@,
            old(self).selection@.len() != 1 ==> final(self).selection@ == old(self).selection@,
            old(self).selection@.len() == 1 ==> final(self).selection@ == Set::<EntityId>::empty().insert(
                neighbour_of(old(self).paths@, old(self).selection@.choose(), true),
            ),
    {
        self.select_neighbour(true);
    }

    /// If the selection is a single point, selects the point before it on
    /// its path.
    pub fn select_prev(&mut self)
        ensures
            final(self).paths@ == old(self).paths@,
            old(self).selection@.len() != 1 ==> final(self).selection@ == old(self).selection@,
            old(self).selection@.len() == 1 ==> final(self).selection@ == Set::<EntityId>::empty().insert(
                neighbour_of(old(self).paths@, old(self).selection@.choose(), false),
            ),
    {
        self.select_neighbour(false);
    }

    fn select_neighbour(&mut self, forward: bool)
        ensures
            final(self).paths@ == old(self).paths@,
            old(self).selection@.len() != 1 ==> final(self).selection@ == old(self).selection@,
            old(self).selection@.len() == 1 ==> final(self).selection@ == Set::<EntityId>::empty().insert(
                neighbour_of(old(self).paths@, old(self).selection@.choose(), forward),
            ),
    {
        if self.selection.len() != 1 {
            return;
        }
        let id = self.only_selected();
        let next = match self.path_idx_for_point(id) {
            Some(i) => {
                proof {
                    lemma_path_index_found(self.paths@, id, 0);
                }
                let path = &self.paths[i];
                if path.contains_point(id) {
                    proof {
                        lemma_first_index_exists(path@.points, id);
                    }
                    let pp = if forward {
                        path.next_point(id)
                    } else {
                        path.prev_point(id)
                    };
                    proof {
                        let k = choose|k: int| is_first_index_of(path@.points, id, k);
                        assert forall|k2: int| is_first_index_of(path@.points, id, k2) implies k2 == k by {
                            lemma_first_index_unique(path@.points, id, k, k2);
                        }
                    }
                    pp.id
                } else {
                    id
                }
            },
            None => id,
        };
        self.selection.select_one(next);
    }

    /// Selects each point of the path with this id in turn: a point not yet
    /// selected is added, and, when `toggle` is set, a selected one is
    /// removed. Returns whether there is such a path.
    pub fn select_path(&mut self, id: EntityId, toggle: bool) -> (r: bool)
        ensures
            final(self).paths@ == old(self).paths@,
            r == exists|i: int| 0 <= i < old(self).paths@.len() && (#[trigger] old(self).paths@[i])@.id == id,
            r ==> exists|i: int|
                {
                    &&& 0 <= i < old(self).paths@.len()
                    &&& old(self).paths@[i]@.id == id
                    &&& forall|j: int| 0 <= j < i ==> (#[trigger] old(self).paths@[j])@.id != id
                    &&& final(self).selection@ == selected_in_turn(
                        old(self).selection@,
                        old(self).paths@[i]@.points.map_values(|p: PathPoint<P>| p.id),
                        toggle,
                    )
                },
            !r ==> final(self).selection@ == old(self).selection@,
    {
        let mut i: usize = 0;
        while i < self.paths.len()
            invariant
                0 <= i <= self.paths.len(),
                self.paths@ == old(self).paths@,
                self.selection@ == old(self).selection@,
                forall|j: int| 0 <= j < i ==> (#[trigger] self.paths@[j])@.id != id,
            decreases self.paths.len() - i,
        {
            if self.paths[i].id() == id {
                let pts = self.paths[i].as_slice();
                let ghost ids = pts@.map_values(|p: PathPoint<P>| p.id);
                let mut k: usize = 0;
                while k < pts.len()
                    invariant
                        0 <= k <= pts.len(),
                        ids == pts@.map_values(|p: PathPoint<P>| p.id),
                        self.paths@ == old(self).paths@,
                        i < self.paths@.len(),
                        self.paths@[i as int]@.id == id,
                        pts@ == self.paths@[i as int]@.points,
                        forall|j: int| 0 <= j < i ==> (#[trigger] self.paths@[j])@.id != id,
                        self.selection@ == selected_in_turn(old(self).selection@, ids.take(k as int), toggle),
                    decreases pts.len() - k,
                {
                    let ghost before = self.selection@;
                    assert(ids.take(k + 1).drop_last() =~= ids.take(k as int));
                    if !self.selection.insert(pts[k].id) && toggle {
                        self.selection.remove(&pts[k].id);
                    }
                    k += 1;
                }
                assert(ids.take(pts.len() as int) =~= ids);
                return true;
            }
            i += 1;
        }
        false
    }

    /// Reverses the direction of the paths that hold a selected point, or
    /// of all paths when none does.
    pub fn reverse_contours(&mut self)
        ensures
            final(self).selection@ == old(self).selection@,
            final(self).paths@.len() == old(self).paths@.len(),
            forall|i: int|
                0 <= i < old(self).paths@.len() ==> (#[trigger] final(self).paths@[i])@ == if paths_to_reverse(
                    old(self).paths@,
                    old(self).selection@,
                    i,
                ) {
                    PathPointsView {
                        points: reversed_points(old(self).paths@[i]@.points, old(self).paths@[i]@.closed),
                        ..old(self).paths@[i]@
                    }
                } else {
                    old(self).paths@[i]@
                },
    {
        let ids = self.selection.iter();
        let n = self.paths.len();
        let mut marked: Vec<bool> = Vec::new();
        let mut i: usize = 0;
        while i < n
            invariant
                0 <= i <= n,
                marked@.len() == i,
                forall|j: int| 0 <= j < i ==> !(#[trigger] marked@[j]),
            decreases n - i,
        {
            marked.push(false);
            i += 1;
        }
        let mut any = false;
        let mut k: usize = 0;
        while k < ids.len()
            invariant
                0 <= k <= ids.len(),
                n == self.paths@.len(),
                self.paths@ == old(self).paths@,
                marked@.len() == n,
                forall|j: int| 0 <= j < n ==> (#[trigger] marked@[j] <==> exists|q: int|
                    0 <= q < k && path_index_from(self.paths@, ids@[q], 0) == Some(j)),
                any <==> exists|q: int| 0 <= q < k && path_index_from(self.paths@, #[trigger] ids@[q], 0) is Some,
            decreases ids.len() - k,
        {
            match self.path_idx_for_point(ids[k]) {
                Some(ix) => {
                    proof {
                        lemma_path_index_found(self.paths@, ids@[k as int], 0);
                    }
                    marked.set(ix, true);
                    any = true;
                    proof {
                        assert forall|j: int| 0 <= j < n implies (#[trigger] marked@[j] <==> exists|q: int|
                            0 <= q < k + 1 && path_index_from(self.paths@, ids@[q], 0) == Some(j)) by {
                            if j == ix as int {
                                assert(path_index_from(self.paths@, ids@[k as int], 0) == Some(j));
                            }
                        }
                    }
                },
                None => {},
            }
            k += 1;
        }
        proof {
            let sel = old(self).selection@;
            assert(ids@.to_set() == sel);
            assert forall|j: int| 0 <= j < n implies ((#[trigger] marked@[j] && any) || !any) == paths_to_reverse(
                old(self).paths@,
                sel,
                j,
            ) by {
                if any {
                    let q = choose|q: int| 0 <= q < ids@.len() && path_index_from(self.paths@, #[trigger] ids@[q], 0) is Some;
                    assert(ids@.to_set().contains(ids@[q]));
                    assert(sel.contains(ids@[q]) && path_index_from(old(self).paths@, ids@[q], 0) is Some);
                    if marked@[j] {
                        let q2 = choose|q2: int| 0 <= q2 < ids@.len() && path_index_from(self.paths@, ids@[q2], 0) == Some(j);
                        assert(ids@.to_set().contains(ids@[q2]));
                        assert(sel.contains(ids@[q2]));
                        assert(paths_with_selection(old(self).paths@, sel).contains(j));
                    }
                    if paths_with_selection(old(self).paths@, sel).contains(j) {
                        let e = choose|e: EntityId| sel.contains(e) && path_index_from(old(self).paths@, e, 0) == Some(j);
                        assert(ids@.to_set().contains(e));
                        let q3 = choose|q3: int| 0 <= q3 < ids@.len() && ids@[q3] == e;
                        assert(path_index_from(self.paths@, ids@[q3], 0) == Some(j));
                    }
                } else {
                    assert forall|e: EntityId| sel.contains(e) implies path_index_from(old(self).paths@, e, 0) is None by {
                        assert(ids@.to_set().contains(e));
                        let q = choose|q: int| 0 <= q < ids@.len() && ids@[q] == e;
                        assert(!(path_index_from(self.paths@, ids@[q], 0) is Some));
                    }
                }
            }
        }
        let mut p: usize = 0;
        while p < n
            invariant
                0 <= p <= n,
                n == self.paths@.len() == old(self).paths@.len(),
                marked@.len() == n,
                self.selection@ == old(self).selection@,
                forall|j: int| 0 <= j < n ==> ((#[trigger] marked@[j] && any) || !any) == paths_to_reverse(
                    old(self).paths@,
                    old(self).selection@,
                    j,
                ),
                forall|j: int|
                    0 <= j < n ==> (#[trigger] self.paths@[j])@ == if j < p && paths_to_reverse(
                        old(self).paths@,
                        old(self).selection@,
                        j,
                    ) {
                        PathPointsView {
                            points: reversed_points(old(self).paths@[j]@.points, old(self).paths@[j]@.closed),
                            ..old(self).paths@[j]@
                        }
                    } else {
                        old(self).paths@[j]@
                    },
            decreases n - p,
        {
            assert(((marked@[p as int] && any) || !any) == paths_to_reverse(
                old(self).paths@,
                old(self).selection@,
                p as int,
            ));
            let ghost before_all = self.paths@;
            if (any && marked[p]) || !any {
                let ghost before = self.paths@;
                let mut path = self.paths.remove(p);
                path.reverse_contour();
                let ghost changed = path;
                self.paths.insert(p, path);
                assert(self.paths@ =~= before.update(p as int, changed));
                assert(before[p as int]@ == old(self).paths@[p as int]@);
            }
            assert forall|j: int|
                0 <= j < n implies (#[trigger] self.paths@[j])@ == if j < p + 1 && paths_to_reverse(
                    old(self).paths@,
                    old(self).selection@,
                    j,
                ) {
                    PathPointsView {
                        points: reversed_points(old(self).paths@[j]@.points, old(self).paths@[j]@.closed),
                        ..old(self).paths@[j]@
                    }
                } else {
                    old(self).paths@[j]@
                } by {
                if j != p {
                    assert(self.paths@[j] == before_all[j]);
                }
            }
            p += 1;
        }
    }

    /// Selects every point of every path.
    pub fn select_all(&mut self)
        ensures
            final(self).paths@ == old(self).paths@,
            final(self).selection@ == all_point_ids(old(self).paths@),
    {
        let mut sel = Selection::new();
        let mut i: usize = 0;
        while i < self.paths.len()
            invariant
                0 <= i <= self.paths.len(),
                self.paths@ == old(self).paths@,
                sel@ == all_point_ids(self.paths@.take(i as int)),
            decreases self.paths.len() - i,
        {
            let pts = self.paths[i].point_ids();
            let ghost before = sel@;
            sel.extend(pts.as_slice());
            proof {
                let prev = self.paths@.take(i as int);
                let next = self.paths@.take(i + 1);
                assert forall|e: EntityId| sel@.contains(e) == all_point_ids(next).contains(e) by {
                    if before.contains(e) {
                        let (a, b) = choose|a: int, b: int| 0 <= a < prev.len() && 0 <= b < prev[a]@.points.len()
                            && (#[trigger] prev[a]@.points[b]).id == e;
                        assert(next[a] == prev[a]);
                    }
                    if pts@.to_set().contains(e) {
                        let b = choose|b: int| 0 <= b < pts@.len() && pts@[b] == e;
                        assert(next[i as int]@.points[b].id == pts@[b]);
                    }
                    if all_point_ids(next).contains(e) {
                        let (a, b) = choose|a: int, b: int| 0 <= a < next.len() && 0 <= b < next[a]@.points.len()
                            && (#[trigger] next[a]@.points[b]).id == e;
                        if a < i {
                            assert(prev[a] == next[a]);
                        } else {
                            assert(pts@[b] == next[a]@.points[b].id);
                        }
                    }
                }
                assert(sel@ =~= all_point_ids(next));
            }
            i += 1;
        }
        assert(self.paths@.take(self.paths.len() as int) =~= self.paths@);
        self.selection = sel;
    }
}

/// The index found for a point is that of a path the point belongs to.
proof fn lemma_path_index_found<P>(paths: Seq<PathPoints<P>>, point: EntityId, i: int)
    requires
        path_index_from(paths, point, i) is Some,
    ensures
        ({
            let k = path_index_from(paths, point, i)->0;
            &&& i <= k < paths.len()
            &&& point.is_child_of_spec(paths[k]@.id)
        }),
    decreases paths.len() - i,
{
    if 0 <= i < paths.len() && !point.is_child_of_spec(paths[i]@.id) {
        lemma_path_index_found(paths, point, i + 1);
    }
}

} // verus!
