//! Raw storage for the points that make up a glyph contour.
//!
//! A closed contour is stored with its start point last; an open contour
//! starts with its first point. Off-curve points come in pairs between two
//! on-curve points.

use vstd::prelude::*;
use crate::point::{EntityId, IdCounter, PathPoint, PointType};
use crate::segment::{collect_segments, segments_from, Segment};
use crate::sort::lemma_filter_push;

verus! {

/// The points of one contour, and whether it is closed.
#[derive(Debug, Clone)]
pub struct PathPoints<P> {
    path_id: EntityId,
    points: Vec<PathPoint<P>>,
    trailing: Option<P>,
    closed: bool,
}

/// The abstract value of a contour.
pub struct PathPointsView<P> {
    pub id: EntityId,
    pub points: Seq<PathPoint<P>>,
    pub trailing: Option<P>,
    pub closed: bool,
}

impl<P> View for PathPoints<P> {
    type V = PathPointsView<P>;

    closed spec fn view(&self) -> PathPointsView<P> {
        PathPointsView {
            id: self.path_id,
            points: self.points@,
            trailing: self.trailing,
            closed: self.closed,
        }
    }
}

/// Every id in the contour, its own and its points', has a child component
/// below `next`: all of them were issued before a counter reached `next`.
pub open spec fn ids_below<P>(v: PathPointsView<P>, next: usize) -> bool {
    &&& v.id.point_raw() < next
    &&& forall|i: int| 0 <= i < v.points.len() ==> (#[trigger] v.points[i]).id.point_raw() < next
}

/// The points of a contour in the other direction: a closed contour keeps
/// its start point (stored last) and reverses the others.
pub open spec fn reversed_points<P>(s: Seq<PathPoint<P>>, closed: bool) -> Seq<PathPoint<P>> {
    if closed && s.len() > 0 {
        s.drop_last().reverse().push(s.last())
    } else {
        s.reverse()
    }
}

/// Reversing a contour twice gives back its points.
pub proof fn lemma_reverse_twice<P>(s: Seq<PathPoint<P>>, closed: bool)
    ensures
        reversed_points(reversed_points(s, closed), closed) == s,
{
    if closed && s.len() > 0 {
        let r = reversed_points(s, closed);
        assert(r.drop_last() =~= s.drop_last().reverse());
        assert(r.drop_last().reverse() =~= s.drop_last());
        assert(reversed_points(r, closed) =~= s);
    } else {
        assert(s.reverse().reverse() =~= s);
    }
}

/// The index before `idx`, going around the end.
pub open spec fn prev_index(len: int, idx: int) -> int {
    if idx == 0 {
        len - 1
    } else {
        idx - 1
    }
}

/// The index after `idx`, going around the end.
pub open spec fn next_index(len: int, idx: int) -> int {
    (idx + 1) % len
}

/// The index of the point a contour starts at.
pub open spec fn first_index(len: int, closed: bool) -> int {
    if closed {
        len - 1
    } else {
        0
    }
}

/// `s` rotated left by `k`: its first `k` items move to the end.
pub open spec fn rotate_left<T>(s: Seq<T>, k: int) -> Seq<T> {
    s.skip(k) + s.take(k)
}

/// Whether `i` is the first index holding a point with this id.
pub open spec fn is_first_index_of<P>(s: Seq<PathPoint<P>>, id: EntityId, i: int) -> bool {
    &&& 0 <= i < s.len()
    &&& s[i].id == id
    &&& forall|j: int| 0 <= j < i ==> (#[trigger] s[j]).id != id
}

/// Whether some point has this id.
pub open spec fn has_id<P>(s: Seq<PathPoint<P>>, id: EntityId) -> bool {
    exists|i: int| 0 <= i < s.len() && (#[trigger] s[i]).id == id
}

/// The index of the first on-curve point, if it exists.
pub open spec fn is_first_on_curve<P>(s: Seq<PathPoint<P>>, i: int) -> bool {
    &&& 0 <= i < s.len()
    &&& s[i].typ is OnCurve
    &&& forall|j: int| 0 <= j < i ==> (#[trigger] s[j]).typ is OffCurve
}

/// The points in drawing order: a closed contour's start point (stored last)
/// comes first.
pub open spec fn points_in_order<P>(s: Seq<PathPoint<P>>, closed: bool) -> Seq<PathPoint<P>> {
    if closed && s.len() > 0 {
        seq![s.last()] + s.drop_last()
    } else {
        s
    }
}

/// The segments of a contour: from its start point on for a closed contour,
/// from its second point on for an open one. `None` where the contour is
/// not well shaped.
pub open spec fn contour_segments<P>(v: PathPointsView<P>) -> Option<Seq<Segment<P>>> {
    segments_from(
        v.points,
        if v.closed { 0 } else { 1 },
        v.points[first_index(v.points.len() as int, v.closed)],
    )
}

/// For the off-curve point at `idx`: its on-curve neighbour (the one before
/// it if that is on the curve, else the one after it), and, when that
/// neighbour is smooth and its other neighbour is off the curve, that other
/// neighbour too.
pub open spec fn tangent_handle_spec<P>(pts: Seq<PathPoint<P>>, idx: int) -> Option<(int, Option<int>)> {
    let n = pts.len() as int;
    let prev = prev_index(n, idx);
    let next = next_index(n, idx);
    if pts[prev].typ is OnCurve {
        let prev2 = prev_index(n, prev);
        if pts[prev].typ == (PointType::OnCurve { smooth: true }) && pts[prev2].typ is OffCurve {
            Some((prev, Some(prev2)))
        } else {
            Some((prev, None))
        }
    } else if pts[next].typ is OnCurve {
        let next2 = next_index(n, next);
        if pts[next].typ == (PointType::OnCurve { smooth: true }) && pts[next2].typ is OffCurve {
            Some((next, Some(next2)))
        } else {
            Some((next, None))
        }
    } else {
        None
    }
}

/// A pair of indices taken as integers.
pub open spec fn index_pair_view(r: Option<(usize, Option<usize>)>) -> Option<(int, Option<int>)> {
    match r {
        Some((a, Some(b))) => Some((a as int, Some(b as int))),
        Some((a, None)) => Some((a as int, None)),
        None => None,
    }
}

/// The point at `i`, with the off-curve points next to it when it is on the
/// curve.
pub open spec fn handle_indices<P>(pts: Seq<PathPoint<P>>, i: int) -> Set<int> {
    let n = pts.len() as int;
    let prev = prev_index(n, i);
    let next = next_index(n, i);
    let base = set![i];
    let with_prev = if pts[i].typ is OnCurve && pts[prev].typ is OffCurve {
        base.insert(prev)
    } else {
        base
    };
    if pts[i].typ is OnCurve && pts[next].typ is OffCurve {
        with_prev.insert(next)
    } else {
        with_prev
    }
}

/// The indices moved along with the points in `ids`: each point found (its
/// first occurrence), with its adjacent off-curve handles when it is on the
/// curve.
pub open spec fn indices_for_points<P>(pts: Seq<PathPoint<P>>, ids: Seq<EntityId>) -> Set<int>
    decreases ids.len(),
{
    if ids.len() == 0 {
        Set::empty()
    } else {
        let before = indices_for_points(pts, ids.drop_last());
        if has_id(pts, ids.last()) {
            before.union(handle_indices(pts, choose|i: int| is_first_index_of(pts, ids.last(), i)))
        } else {
            before
        }
    }
}

/// A point that occurs has a first index.
pub proof fn lemma_first_index_exists<P>(pts: Seq<PathPoint<P>>, id: EntityId)
    requires
        has_id(pts, id),
    ensures
        exists|i: int| is_first_index_of(pts, id, i),
    decreases pts.len(),
{
    let init = pts.drop_last();
    if has_id(init, id) {
        lemma_first_index_exists(init, id);
        let i = choose|i: int| is_first_index_of(init, id, i);
        assert forall|j: int| 0 <= j < i implies (#[trigger] pts[j]).id != id by {
            assert(pts[j] == init[j]);
        }
        assert(is_first_index_of(pts, id, i));
    } else {
        let k = pts.len() - 1;
        let w = choose|i: int| 0 <= i < pts.len() && (#[trigger] pts[i]).id == id;
        if w < k {
            assert(init[w] == pts[w]);
        }
        assert forall|j: int| 0 <= j < k implies (#[trigger] pts[j]).id != id by {
            assert(pts[j] == init[j]);
        }
        assert(is_first_index_of(pts, id, k));
    }
}

/// A point has one first index.
pub proof fn lemma_first_index_unique<P>(pts: Seq<PathPoint<P>>, id: EntityId, i: int, j: int)
    requires
        is_first_index_of(pts, id, i),
        is_first_index_of(pts, id, j),
    ensures
        i == j,
{
    if i < j {
        assert(pts[i].id != id);
    } else if j < i {
        assert(pts[j].id != id);
    }
}

/// `pts` without the points whose id is `a`, `b` or `c`.
pub open spec fn without_ids<P>(pts: Seq<PathPoint<P>>, a: EntityId, b: EntityId, c: EntityId) -> Seq<PathPoint<P>> {
    pts.filter(|p: PathPoint<P>| p.id != a && p.id != b && p.id != c)
}

/// The on-curve points of `pts`, except the one whose id is `a`.
pub open spec fn on_curve_except<P>(pts: Seq<PathPoint<P>>, a: EntityId) -> Seq<PathPoint<P>> {
    pts.filter(|p: PathPoint<P>| p.typ is OnCurve && p.id != a)
}

/// The on-curve points of `pts`.
pub open spec fn on_curve_only<P>(pts: Seq<PathPoint<P>>) -> Seq<PathPoint<P>> {
    pts.filter(|p: PathPoint<P>| p.typ is OnCurve)
}

/// Deleting the point at `idx` can be done without failing: an off-curve
/// point has an off-curve neighbour, and an on-curve point between two
/// off-curve points is in a contour of more than four points (unless it
/// has exactly four).
pub open spec fn can_delete_at<P>(pts: Seq<PathPoint<P>>, idx: int) -> bool {
    let n = pts.len() as int;
    let prev = prev_index(n, idx);
    let next = next_index(n, idx);
    &&& 0 <= idx < n
    &&& pts[idx].typ is OffCurve ==> (pts[prev].typ is OffCurve || pts[next].typ is OffCurve)
    &&& (pts[idx].typ is OnCurve && n != 1 && n != 4 && pts[prev].typ is OffCurve
        && pts[next].typ is OffCurve) ==> n > 4
}

/// The points left when the point at `idx`, whose id is `id`, is deleted,
/// before the contour is tidied up:
/// - an off-curve point goes with the other off-curve point of its segment;
/// - the last point leaves nothing;
/// - from four points, only the on-curve points other than it stay;
/// - an on-curve point next to another on-curve point goes alone;
/// - an on-curve point between two off-curve points goes with both of them,
///   and if three points are left, only their on-curve points stay.
pub open spec fn points_after_removal<P>(pts: Seq<PathPoint<P>>, id: EntityId, idx: int) -> Seq<PathPoint<P>> {
    let n = pts.len() as int;
    let prev = prev_index(n, idx);
    let next = next_index(n, idx);
    if pts[idx].typ is OffCurve {
        let other = if pts[prev].typ is OffCurve { pts[prev].id } else { pts[next].id };
        without_ids(pts, id, other, other)
    } else if n == 1 {
        Seq::empty()
    } else if n == 4 {
        on_curve_except(pts, id)
    } else if pts[prev].typ is OnCurve || pts[next].typ is OnCurve {
        pts.remove(idx)
    } else {
        let kept = without_ids(pts, pts[prev].id, pts[next].id, id);
        if kept.len() == 3 {
            on_curve_only(kept)
        } else {
            kept
        }
    }
}

/// Whether the point at `i` is a smooth point between two on-curve points.
pub open spec fn needs_corner<P>(s: Seq<PathPoint<P>>, i: int) -> bool {
    let n = s.len() as int;
    &&& s[i].typ == (PointType::OnCurve { smooth: true })
    &&& s[prev_index(n, i)].typ is OnCurve
    &&& s[next_index(n, i)].typ is OnCurve
}

/// `s` with every smooth point between two on-curve points made a corner.
pub open spec fn corners_fixed<P>(s: Seq<PathPoint<P>>) -> Seq<PathPoint<P>> {
    Seq::new(
        s.len(),
        |i: int|
            if needs_corner(s, i) {
                PathPoint { typ: PointType::OnCurve { smooth: false }, ..s[i] }
            } else {
                s[i]
            },
    )
}

/// Tidying the corners keeps every point where it is, with its id and
/// position; a smooth point stays smooth when a control point is beside it
/// (before or after it, going around the end), and becomes a corner when
/// both of its neighbours are on the curve; every other point keeps its
/// type.
pub proof fn lemma_corners_fixed<P>(s: Seq<PathPoint<P>>, i: int)
    requires
        0 <= i < s.len(),
    ensures
        ({
            let n = s.len() as int;
            let r = corners_fixed(s);
            let before = s[prev_index(n, i)];
            let after = s[next_index(n, i)];
            &&& r.len() == s.len()
            &&& r[i].id == s[i].id && r[i].point == s[i].point
            &&& (r[i].typ is OnCurve) == (s[i].typ is OnCurve)
            &&& s[i].typ == (PointType::OnCurve { smooth: true }) && (before.typ is OffCurve
                || after.typ is OffCurve) ==> r[i].typ == (PointType::OnCurve { smooth: true })
            &&& s[i].typ == (PointType::OnCurve { smooth: true }) && before.typ is OnCurve && after.typ is OnCurve
                ==> r[i].typ == (PointType::OnCurve { smooth: false })
            &&& s[i].typ != (PointType::OnCurve { smooth: true }) ==> r[i].typ == s[i].typ
        }),
{
}

/// After a point is deleted, a smooth point left beside a control point is
/// still in the contour, unchanged and still smooth: only a smooth point
/// left between two on-curve points is made a corner.
pub proof fn lemma_delete_keeps_smooth_beside_handle<P>(v: PathPointsView<P>, id: EntityId, idx: int, k: int)
    requires
        0 <= idx < v.points.len(),
        ({
            let kept = points_after_removal(v.points, id, idx);
            let m = kept.len() as int;
            &&& 0 <= k < m
            &&& kept[k].typ == (PointType::OnCurve { smooth: true })
            &&& (kept[prev_index(m, k)].typ is OffCurve || kept[next_index(m, k)].typ is OffCurve)
        }),
    ensures
        deleted_at(v, id, idx).points.contains(points_after_removal(v.points, id, idx)[k]),
{
    let kept = points_after_removal(v.points, id, idx);
    lemma_corners_fixed(kept, k);
    let fixed = corners_fixed(kept);
    assert(fixed[k] == kept[k]);
    let r = deleted_at(v, id, idx).points;
    let m = fixed.len() as int;
    if m > 2 && fixed[0].typ is OffCurve && fixed.last().typ is OffCurve {
        assert(r == rotate_left(fixed, 1));
        let j = if k == 0 { m - 1 } else { k - 1 };
        assert(r[j] == fixed[k]);
    } else {
        assert(r[k] == fixed[k]);
    }
}

/// `s`, rotated by one when it has more than two points and both its first
/// and its last point are off the curve.
pub open spec fn normalized<P>(s: Seq<PathPoint<P>>) -> Seq<PathPoint<P>> {
    if s.len() > 2 && s[0].typ is OffCurve && s.last().typ is OffCurve {
        rotate_left(s, 1)
    } else {
        s
    }
}

/// The contour after the point at `idx`, whose id is `id`, is deleted: the
/// points left are tidied up, and a contour of fewer than three points is
/// open.
pub open spec fn deleted_at<P>(v: PathPointsView<P>, id: EntityId, idx: int) -> PathPointsView<P> {
    let pts = normalized(corners_fixed(points_after_removal(v.points, id, idx)));
    PathPointsView { points: pts, closed: v.closed && pts.len() >= 3, ..v }
}

/// The contour after the point with id `id` is deleted; unchanged when no
/// point has that id.
pub open spec fn deleted<P>(v: PathPointsView<P>, id: EntityId) -> PathPointsView<P> {
    if has_id(v.points, id) {
        deleted_at(v, id, choose|i: int| is_first_index_of(v.points, id, i))
    } else {
        v
    }
}

/// The point with id `id` can be deleted without failing.
pub open spec fn can_delete<P>(v: PathPointsView<P>, id: EntityId) -> bool {
    has_id(v.points, id) ==> can_delete_at(v.points, choose|i: int| is_first_index_of(v.points, id, i))
}

/// Every point has the contour's id as its parent.
pub open spec fn all_children<P>(s: Seq<PathPoint<P>>, path: EntityId) -> bool {
    forall|i: int| 0 <= i < s.len() ==> (#[trigger] s[i]).id.is_child_of_spec(path)
}

/// Keeping some points keeps them all children of the contour.
pub proof fn lemma_filter_children<P>(s: Seq<PathPoint<P>>, path: EntityId, pred: spec_fn(PathPoint<P>) -> bool)
    requires
        all_children(s, path),
    ensures
        all_children(s.filter(pred), path),
{
    assert forall|i: int| 0 <= i < s.filter(pred).len() implies (#[trigger] s.filter(pred)[i]).id.is_child_of_spec(path) by {
        let x = s.filter(pred)[i];
        assert(s.filter(pred).contains(x));
        s.lemma_filter_contains_rev(pred, x);
        let j = choose|j: int| 0 <= j < s.len() && s[j] == x;
        assert(s[j].id.is_child_of_spec(path));
    }
}

/// The contour after deleting the points with these ids, one after another.
pub open spec fn deleted_all<P>(v: PathPointsView<P>, ids: Seq<EntityId>) -> PathPointsView<P>
    decreases ids.len(),
{
    if ids.len() == 0 {
        v
    } else {
        deleted(deleted_all(v, ids.drop_last()), ids.last())
    }
}

/// The points left after a removal all belong to the contour.
proof fn lemma_removal_children<P>(pts: Seq<PathPoint<P>>, id: EntityId, idx: int, path: EntityId)
    requires
        all_children(pts, path),
        0 <= idx < pts.len(),
    ensures
        all_children(points_after_removal(pts, id, idx), path),
{
    let n = pts.len() as int;
    let prev = prev_index(n, idx);
    let next = next_index(n, idx);
    if pts[idx].typ is OffCurve {
        let other = if pts[prev].typ is OffCurve { pts[prev].id } else { pts[next].id };
        lemma_filter_children(pts, path, |p: PathPoint<P>| p.id != id && p.id != other && p.id != other);
    } else if n == 1 {
    } else if n == 4 {
        lemma_filter_children(pts, path, |p: PathPoint<P>| p.typ is OnCurve && p.id != id);
    } else if pts[prev].typ is OnCurve || pts[next].typ is OnCurve {
        pts.remove_ensures(idx);
        assert forall|i: int| 0 <= i < pts.remove(idx).len() implies (#[trigger] pts.remove(idx)[i]).id.is_child_of_spec(path) by {
            if i < idx {
                assert(pts[i].id.is_child_of_spec(path));
            } else {
                assert(pts[i + 1].id.is_child_of_spec(path));
            }
        }
    } else {
        let a = pts[prev].id;
        let b = pts[next].id;
        lemma_filter_children(pts, path, |p: PathPoint<P>| p.id != a && p.id != b && p.id != id);
        let kept = without_ids(pts, a, b, id);
        lemma_filter_children(kept, path, |p: PathPoint<P>| p.typ is OnCurve);
    }
}

/// No two points share an id.
pub open spec fn ids_unique<P>(s: Seq<PathPoint<P>>) -> bool {
    forall|i: int, j: int| 0 <= i < j < s.len() ==> (#[trigger] s[i]).id != (#[trigger] s[j]).id
}

/// Keeping some points keeps a missing id missing.
proof fn lemma_filter_lacks<P>(s: Seq<PathPoint<P>>, id: EntityId, pred: spec_fn(PathPoint<P>) -> bool)
    requires
        !has_id(s, id),
    ensures
        !has_id(s.filter(pred), id),
{
    if has_id(s.filter(pred), id) {
        let i = choose|i: int| 0 <= i < s.filter(pred).len() && (#[trigger] s.filter(pred)[i]).id == id;
        let x = s.filter(pred)[i];
        assert(s.filter(pred).contains(x));
        s.lemma_filter_contains_rev(pred, x);
        let j = choose|j: int| 0 <= j < s.len() && s[j] == x;
        assert(s[j].id == id);
    }
}

/// Keeping only the points that fail to have an id leaves no point with it.
proof fn lemma_filter_drops<P>(s: Seq<PathPoint<P>>, id: EntityId, pred: spec_fn(PathPoint<P>) -> bool)
    requires
        forall|p: PathPoint<P>| #[trigger] pred(p) ==> p.id != id,
    ensures
        !has_id(s.filter(pred), id),
{
    if has_id(s.filter(pred), id) {
        let i = choose|i: int| 0 <= i < s.filter(pred).len() && (#[trigger] s.filter(pred)[i]).id == id;
        s.lemma_filter_pred(pred, i);
    }
}

/// Deleting a point of a contour whose ids are all different leaves no
/// point with that id.
pub proof fn lemma_delete_removes_point<P>(v: PathPointsView<P>, id: EntityId)
    requires
        ids_unique(v.points),
        can_delete(v, id),
    ensures
        !has_id(deleted(v, id).points, id),
{
    if has_id(v.points, id) {
        let pts = v.points;
        lemma_first_index_exists(pts, id);
        let idx = choose|i: int| is_first_index_of(pts, id, i);
        let n = pts.len() as int;
        let prev = prev_index(n, idx);
        let next = next_index(n, idx);
        let removed = points_after_removal(pts, id, idx);
        if pts[idx].typ is OffCurve {
            let other = if pts[prev].typ is OffCurve { pts[prev].id } else { pts[next].id };
            lemma_filter_drops(pts, id, |p: PathPoint<P>| p.id != id && p.id != other && p.id != other);
        } else if n == 1 {
        } else if n == 4 {
            lemma_filter_drops(pts, id, |p: PathPoint<P>| p.typ is OnCurve && p.id != id);
        } else if pts[prev].typ is OnCurve || pts[next].typ is OnCurve {
            pts.remove_ensures(idx);
            if has_id(removed, id) {
                let i = choose|i: int| 0 <= i < removed.len() && (#[trigger] removed[i]).id == id;
                if i < idx {
                    assert(removed[i] == pts[i]);
                } else {
                    assert(removed[i] == pts[i + 1]);
                    assert(pts[idx].id != pts[i + 1].id);
                }
            }
        } else {
            let a = pts[prev].id;
            let b = pts[next].id;
            lemma_filter_drops(pts, id, |p: PathPoint<P>| p.id != a && p.id != b && p.id != id);
            let kept = without_ids(pts, a, b, id);
            lemma_filter_lacks(kept, id, |p: PathPoint<P>| p.typ is OnCurve);
        }
        assert(!has_id(removed, id));
        let fixed = corners_fixed(removed);
        if has_id(fixed, id) {
            let i = choose|i: int| 0 <= i < fixed.len() && (#[trigger] fixed[i]).id == id;
            assert(removed[i].id == id);
        }
        let fin = normalized(fixed);
        if has_id(fin, id) {
            let i = choose|i: int| 0 <= i < fin.len() && (#[trigger] fin[i]).id == id;
            if fixed.len() > 2 && fixed[0].typ is OffCurve && fixed.last().typ is OffCurve {
                if i < fixed.len() - 1 {
                    assert(fin[i] == fixed[i + 1]);
                } else {
                    assert(fin[i] == fixed[0]);
                }
            } else {
                assert(fin[i] == fixed[i]);
            }
        }
    }
}

/// How a point is drawn.
#[derive(Debug, Clone, Copy, PartialEq, Eq, Structural)]
pub enum PointStyle {
    /// The first point of an open contour.
    Open,
    /// The last point of an open contour.
    Close,
    OffCurveAuto,
    OffCurve,
    Corner,
    Smooth,
}

/// How the point at `idx` of a contour is drawn: the only point is a
/// corner; the ends of an open contour are marked as such when on the
/// curve; an automatic off-curve point is marked as such on a hyperbezier.
pub open spec fn style_of<P>(pts: Seq<PathPoint<P>>, idx: int, closed: bool, hyper: bool) -> PointStyle {
    let len = pts.len() as int;
    let this = pts[idx];
    if len == 1 {
        PointStyle::Corner
    } else if this.typ is OnCurve && !closed && idx == 0 {
        PointStyle::Open
    } else if this.typ is OnCurve && !closed && idx == len - 1 {
        PointStyle::Close
    } else {
        match this.typ {
            PointType::OffCurve { auto: true } => if hyper {
                PointStyle::OffCurveAuto
            } else {
                PointStyle::OffCurve
            },
            PointType::OffCurve { .. } => PointStyle::OffCurve,
            PointType::OnCurve { smooth: false } => PointStyle::Corner,
            PointType::OnCurve { smooth: true } => PointStyle::Smooth,
        }
    }
}

/// A position into the points of a contour, from which its neighbours can
/// be reached.
pub struct Cursor {
    idx: usize,
}

impl Cursor {
    pub closed spec fn index(self) -> int {
        self.idx as int
    }

    pub fn idx(&self) -> (r: usize)
        ensures
            r == self.index(),
    {
        self.idx
    }

    /// The point under the cursor.
    pub fn point<P: Copy>(&self, path: &PathPoints<P>) -> (r: PathPoint<P>)
        requires
            self.index() < path@.points.len(),
        ensures
            r == path@.points[self.index()],
    {
        path.point_at(self.idx)
    }

    /// The index after the cursor: going around the end of a closed
    /// contour, and none after the last point of an open one.
    pub fn next_idx<P: Copy>(&self, path: &PathPoints<P>) -> (r: Option<usize>)
        requires
            self.index() < path@.points.len(),
        ensures
            r matches Some(i) ==> i < path@.points.len(),
            path@.closed ==> r == Some(next_index(path@.points.len() as int, self.index()) as usize),
            !path@.closed && self.index() < path@.points.len() - 1 ==> r == Some((self.index() + 1) as usize),
            !path@.closed && self.index() == path@.points.len() - 1 ==> r is None,
    {
        let len = path.len();
        if path.closed() {
            Some((self.idx + 1) % len)
        } else if self.idx < len - 1 {
            Some(self.idx + 1)
        } else {
            None
        }
    }

    /// The index before the cursor: going around the start of a closed
    /// contour, and none before the first point of an open one.
    pub fn prev_idx<P: Copy>(&self, path: &PathPoints<P>) -> (r: Option<usize>)
        requires
            self.index() < path@.points.len(),
        ensures
            r matches Some(i) ==> i < path@.points.len(),
            path@.closed ==> r == Some(prev_index(path@.points.len() as int, self.index()) as usize),
            !path@.closed && self.index() > 0 ==> r == Some((self.index() - 1) as usize),
            !path@.closed && self.index() == 0 ==> r is None,
    {
        let len = path.len();
        if path.closed() {
            if self.idx == 0 {
                Some(len - 1)
            } else {
                Some(self.idx - 1)
            }
        } else if self.idx > 0 {
            Some(self.idx - 1)
        } else {
            None
        }
    }

    /// The point after the cursor, if there is one.
    pub fn next<P: Copy>(&self, path: &PathPoints<P>) -> (r: Option<PathPoint<P>>)
        requires
            self.index() < path@.points.len(),
        ensures
            path@.closed ==> r == Some(path@.points[next_index(path@.points.len() as int, self.index())]),
            !path@.closed && self.index() < path@.points.len() - 1 ==> r == Some(path@.points[self.index() + 1]),
            !path@.closed && self.index() == path@.points.len() - 1 ==> r is None,
    {
        let n = path.len();
        let ghost k = next_index(n as int, self.index());
        assert(0 <= k < n) by {
            if path@.closed {
                assert(0 <= (self.index() + 1) % (n as int) < n);
            }
        }
        match self.next_idx(path) {
            Some(i) => Some(path.point_at(i)),
            None => None,
        }
    }

    /// The point before the cursor, if there is one.
    pub fn prev<P: Copy>(&self, path: &PathPoints<P>) -> (r: Option<PathPoint<P>>)
        requires
            self.index() < path@.points.len(),
        ensures
            path@.closed ==> r == Some(path@.points[prev_index(path@.points.len() as int, self.index())]),
            !path@.closed && self.index() > 0 ==> r == Some(path@.points[self.index() - 1]),
            !path@.closed && self.index() == 0 ==> r is None,
    {
        let n = path.len();
        let ghost k = prev_index(n as int, self.index());
        assert(0 <= k < n) by {
            if path@.closed {
                assert(0 <= (self.index() + 1) % (n as int) < n);
            }
        }
        match self.prev_idx(path) {
            Some(i) => Some(path.point_at(i)),
            None => None,
        }
    }

    /// Moves the cursor to the start point of the contour.
    pub fn move_to_start<P: Copy>(&mut self, path: &PathPoints<P>)
        requires
            path@.points.len() > 0,
        ensures
            final(self).index() == first_index(path@.points.len() as int, path@.closed),
    {
        self.idx = if path.closed() {
            path.len() - 1
        } else {
            0
        };
    }

    /// Moves the cursor to the last stored point.
    pub fn move_to_end<P: Copy>(&mut self, path: &PathPoints<P>)
        requires
            path@.points.len() > 0,
        ensures
            final(self).index() == path@.points.len() - 1,
    {
        self.idx = path.len() - 1;
    }
}

impl<P: Copy> PathPoints<P> {
    /// Every point belongs to this contour.
    pub open spec fn wf(self) -> bool {
        forall|i: int| 0 <= i < self@.points.len() ==> (#[trigger] self@.points[i]).id.is_child_of_spec(self@.id)
    }

    /// A new open contour holding one corner point.
    pub fn new(ids: &mut IdCounter, start_point: P) -> (r: Self)
        requires
            old(ids).wf(),
            old(ids).next_point() < usize::MAX - 1,
        ensures
            final(ids).wf(),
            final(ids).next_point() == old(ids).next_point() + 2,
            r.wf(),
            r@.id.point_raw() == old(ids).next_point(),
            r@.points.len() == 1,
            r@.points[0].id.point_raw() == old(ids).next_point() + 1,
            r@.points[0].point == start_point,
            r@.points[0].typ == (PointType::OnCurve { smooth: false }),
            !r@.closed,
            r@.trailing is None,
            ids_below(r@, final(ids).next_point()),
    {
        let path_id = EntityId::next(ids);
        let start = PathPoint::on_curve(ids, path_id, start_point);
        let mut points = Vec::new();
        points.push(start);
        PathPoints { path_id, points, closed: false, trailing: None }
    }

    /// A contour from its parts. A closed contour whose last point is not
    /// on the curve is rotated so that it ends with its first on-curve point.
    pub fn from_raw_parts(
        path_id: EntityId,
        points: Vec<PathPoint<P>>,
        trailing: Option<P>,
        closed: bool,
    ) -> (r: Self)
        requires
            points.len() > 0,
            forall|i: int| 0 <= i < points.len() ==> (#[trigger] points[i]).id.is_child_of_spec(path_id),
            !closed ==> points[0].typ is OnCurve,
            closed && points@.last().typ is OffCurve ==> exists|i: int|
                0 <= i < points.len() && (#[trigger] points[i]).typ is OnCurve,
        ensures
            r.wf(),
            r@.id == path_id,
            r@.trailing == trailing,
            r@.closed == closed,
            !(closed && points@.last().typ is OffCurve) ==> r@.points == points@,
            closed && points@.last().typ is OffCurve ==> exists|i: int|
                is_first_on_curve(points@, i) && r@.points == rotate_left(points@, i + 1),
            closed ==> r@.points.len() > 0 && r@.points.last().typ is OnCurve,
    {
        let mut points = points;
        // normalize incoming representation
        // if the path is closed, the last point should be an on-curve point,
        // and is considered the start of the path.
        if closed && !points[points.len() - 1].is_on_curve() {
            let mut i: usize = 0;
            while i < points.len() && !points[i].is_on_curve()
                invariant
                    0 <= i <= points.len(),
                    forall|j: int| 0 <= j < i ==> (#[trigger] points[j]).typ is OffCurve,
                    exists|k: int| 0 <= k < points.len() && (#[trigger] points[k]).typ is OnCurve,
                decreases points.len() - i,
            {
                i += 1;
            }
            let rotate_distance = i + 1;
            let ghost before = points@;
            points = rotate_vec_left(points, rotate_distance);
            assert(is_first_on_curve(before, i as int));
            assert(points@.last() == before[i as int]) by {
                assert(points@ == before.skip(i + 1) + before.take(i + 1));
            }
        }
        PathPoints { path_id, points, trailing, closed }
    }

    pub fn len(&self) -> (r: usize)
        ensures
            r == self@.points.len(),
    {
        self.points.len()
    }

    pub fn closed(&self) -> (r: bool)
        ensures
            r == self@.closed,
    {
        self.closed
    }

    pub fn id(&self) -> (r: EntityId)
        ensures
            r == self@.id,
    {
        self.path_id
    }

    pub fn trailing(&self) -> (r: Option<&P>)
        ensures
            r == (match self@.trailing {
                Some(t) => Some(&t),
                None => None,
            }),
    {
        self.trailing.as_ref()
    }

    pub fn clear_trailing(&mut self)
        ensures
            final(self)@ == (PathPointsView { trailing: None, ..old(self)@ }),
    {
        self.trailing = None;
    }

    pub fn set_trailing(&mut self, trailing: P)
        ensures
            final(self)@ == (PathPointsView { trailing: Some(trailing), ..old(self)@ }),
    {
        self.trailing = Some(trailing);
    }

    pub fn as_slice(&self) -> (r: &[PathPoint<P>])
        ensures
            r@ == self@.points,
    {
        self.points.as_slice()
    }

    /// The points in order: for a closed contour, its start point first.
    pub fn iter_points(&self) -> (r: Vec<PathPoint<P>>)
        ensures
            r@ == points_in_order(self@.points, self@.closed),
    {
        let mut out: Vec<PathPoint<P>> = Vec::new();
        let n = self.points.len();
        if self.closed && n > 0 {
            out.push(self.points[n - 1]);
            let mut i: usize = 0;
            while i < n - 1
                invariant
                    n == self.points.len(),
                    n > 0,
                    0 <= i <= n - 1,
                    out@ == seq![self.points@.last()] + self.points@.take(i as int),
                decreases n - 1 - i,
            {
                out.push(self.points[i]);
                assert(out@ =~= seq![self.points@.last()] + self.points@.take(i + 1));
                i += 1;
            }
            assert(self.points@.take(n - 1) =~= self.points@.drop_last());
        } else {
            let mut i: usize = 0;
            while i < n
                invariant
                    n == self.points.len(),
                    0 <= i <= n,
                    out@ == self.points@.take(i as int),
                decreases n - i,
            {
                out.push(self.points[i]);
                assert(out@ =~= self.points@.take(i + 1));
                i += 1;
            }
            assert(self.points@.take(n as int) =~= self.points@);
        }
        out
    }

    /// Closes the contour; its first point becomes its start point, stored
    /// last. Returns the id of that point.
    pub fn close(&mut self) -> (r: EntityId)
        requires
            !old(self)@.closed,
            old(self)@.points.len() > 0,
        ensures
            final(self)@ == (PathPointsView {
                points: rotate_left(old(self)@.points, 1),
                closed: true,
                ..old(self)@
            }),
            r == old(self)@.points[0].id,
            old(self).wf() ==> final(self).wf(),
    {
        let mut points = Vec::new();
        std::mem::swap(&mut points, &mut self.points);
        let ghost before = points@;
        self.points = rotate_vec_left(points, 1);
        self.closed = true;
        let r = self.points[self.points.len() - 1].id;
        proof {
            assert(self.points@.last() == before[0]);
            assert forall|i: int| 0 <= i < self.points@.len() implies (#[trigger] self.points@[i] == before[i + 1]
                || (i == before.len() - 1 && self.points@[i] == before[0])) by {
                if i < before.len() - 1 {
                    assert(self.points@[i] == before.skip(1)[i]);
                }
            }
        }
        r
    }

    /// Reverses the direction of the contour, keeping its start point.
    pub fn reverse_contour(&mut self)
        ensures
            final(self)@ == (PathPointsView {
                points: reversed_points(old(self)@.points, old(self)@.closed),
                ..old(self)@
            }),
            old(self).wf() ==> final(self).wf(),
    {
        let n = self.points.len();
        let last = if self.closed && n > 0 {
            n - 1
        } else {
            n
        };
        let ghost before = self.points@;
        let mut i: usize = 0;
        while i < last / 2
            invariant
                self.points.len() == n,
                before.len() == n,
                last <= n,
                0 <= i <= last / 2,
                forall|j: int| 0 <= j < i ==> self.points@[j] == before[last - 1 - j],
                forall|j: int| 0 <= j < i ==> self.points@[last - 1 - j] == before[j],
                forall|j: int| i <= j < last - i ==> self.points@[j] == before[j],
                forall|j: int| last <= j < n ==> self.points@[j] == before[j],
                self.closed == old(self).closed,
                self.path_id == old(self).path_id,
                self.trailing == old(self).trailing,
                before == old(self).points@,
                last == (if self.closed && n > 0 { n - 1 } else { n as int }),
            decreases last / 2 - i,
        {
            let a = self.points[i];
            let b = self.points[last - 1 - i];
            self.points.set(i, b);
            self.points.set(last - 1 - i, a);
            i += 1;
        }
        proof {
            assert forall|j: int| 0 <= j < last implies #[trigger] self.points@[j] == before[last - 1 - j] by {
                if j >= last - i {
                    assert(self.points@[last - 1 - (last - 1 - j)] == before[last - 1 - j]);
                }
            }
            if self.closed && n > 0 {
                assert(self.points@[n - 1] == before[n - 1]);
                assert(self.points@ =~= before.drop_last().reverse().push(before.last()));
            } else {
                assert(self.points@ =~= before.reverse());
            }
            if old(self).wf() {
                assert forall|j: int| 0 <= j < n implies (#[trigger] self.points@[j]).id.is_child_of_spec(self.path_id) by {
                    if j < last {
                        assert(old(self)@.points[last - 1 - j].id.is_child_of_spec(self.path_id));
                    } else {
                        assert(old(self)@.points[j].id.is_child_of_spec(self.path_id));
                    }
                }
            }
        }
    }

    /// Push a new on-curve point onto the end of the point list.
    ///
    /// The points must not be closed, and their ids must all come from `ids`:
    /// the new point's id then differs from every id already in the contour.
    pub fn push_on_curve(&mut self, ids: &mut IdCounter, point: P) -> (r: EntityId)
        requires
            !old(self)@.closed,
            old(ids).wf(),
            old(ids).next_point() < usize::MAX,
            ids_below(old(self)@, old(ids).next_point()),
        ensures
            final(ids).wf(),
            final(ids).next_point() == old(ids).next_point() + 1,
            final(self)@ == (PathPointsView {
                points: old(self)@.points.push(
                    PathPoint { id: r, point, typ: PointType::OnCurve { smooth: false } },
                ),
                ..old(self)@
            }),
            r.is_child_of_spec(old(self)@.id),
            r.point_raw() == old(ids).next_point(),
            r != old(self)@.id,
            forall|i: int| 0 <= i < old(self)@.points.len() ==> (#[trigger] old(self)@.points[i]).id != r,
            ids_below(final(self)@, final(ids).next_point()),
            old(self).wf() ==> final(self).wf(),
    {
        let point = PathPoint::on_curve(ids, self.path_id, point);
        self.points.push(point);
        proof {
            EntityId::lemma_eq_components(point.id, old(self)@.id);
            assert forall|i: int| 0 <= i < old(self)@.points.len() implies (#[trigger] old(
                self,
            )@.points[i]).id != point.id by {
                EntityId::lemma_eq_components(point.id, old(self)@.points[i].id);
            }
            assert(self.points@[self.points@.len() - 1] == point);
        }
        point.id
    }

    /// The index of the first point with this id.
    fn idx_for_point(&self, point: EntityId) -> (r: Option<usize>)
        ensures
            r matches Some(i) ==> is_first_index_of(self@.points, point, i as int),
            r is None ==> !has_id(self@.points, point),
    {
        let mut i: usize = 0;
        while i < self.points.len()
            invariant
                0 <= i <= self.points.len(),
                forall|j: int| 0 <= j < i ==> (#[trigger] self.points@[j]).id != point,
            decreases self.points.len() - i,
        {
            if self.points[i].id == point {
                return Some(i);
            }
            i += 1;
        }
        None
    }

    /// The contour with the type of the first point with this id toggled:
    /// smooth to corner and back, automatic to manual and back. A contour
    /// without such a point is unchanged.
    pub open spec fn toggled_at(v: PathPointsView<P>, id: EntityId) -> PathPointsView<P> {
        if has_id(v.points, id) {
            let i = choose|i: int| is_first_index_of(v.points, id, i);
            PathPointsView {
                points: v.points.update(i, PathPoint { typ: v.points[i].typ.toggled(), ..v.points[i] }),
                ..v
            }
        } else {
            v
        }
    }

    /// Toggles the type of the point with this id.
    pub fn toggle_point_type(&mut self, id: EntityId)
        ensures
            final(self)@ == Self::toggled_at(old(self)@, id),
            old(self).wf() ==> final(self).wf(),
    {
        match self.idx_for_point(id) {
            Some(i) => {
                proof {
                    let j = choose|j: int| is_first_index_of(old(self)@.points, id, j);
                    lemma_first_index_unique(old(self)@.points, id, i as int, j);
                }
                let mut p = self.points[i];
                p.toggle_type();
                self.points.set(i, p);
                proof {
                    assert(self@.points =~= old(self)@.points.update(
                        i as int,
                        PathPoint { typ: old(self)@.points[i as int].typ.toggled(), ..old(self)@.points[i as int] },
                    ));
                    if old(self).wf() {
                        assert forall|k: int| 0 <= k < self@.points.len() implies (#[trigger] self@.points[k]).id.is_child_of_spec(
                            self@.id,
                        ) by {
                            assert(old(self)@.points[k].id.is_child_of_spec(self@.id));
                        }
                    }
                }
            },
            None => {},
        }
    }

    /// The index a cursor for this id starts at: the first point with the
    /// id, or the start point when there is none.
    pub open spec fn cursor_index(v: PathPointsView<P>, id: EntityId) -> int {
        if has_id(v.points, id) {
            choose|i: int| is_first_index_of(v.points, id, i)
        } else {
            first_index(v.points.len() as int, v.closed)
        }
    }

    /// Whether the point at `idx` has a control point beside it: the point
    /// before it or the point after it is off the curve. An open contour's
    /// first point has nothing before it, and its last nothing after it.
    pub open spec fn control_beside(v: PathPointsView<P>, idx: int) -> bool {
        let n = v.points.len() as int;
        if v.closed {
            v.points[prev_index(n, idx)].typ is OffCurve || v.points[next_index(n, idx)].typ is OffCurve
        } else {
            (idx > 0 && v.points[idx - 1].typ is OffCurve) || (idx < n - 1 && v.points[idx + 1].typ is OffCurve)
        }
    }

    /// The contour after toggling an on-curve point: a smooth point becomes
    /// a corner, and a corner becomes smooth only when it has a control
    /// point beside it. Off-curve points are not toggled.
    pub open spec fn on_curve_toggled(v: PathPointsView<P>, id: EntityId) -> PathPointsView<P> {
        let i = Self::cursor_index(v, id);
        let p = v.points[i];
        if p.typ == (PointType::OnCurve { smooth: true }) || (p.typ is OnCurve && Self::control_beside(v, i)) {
            PathPointsView { points: v.points.update(i, PathPoint { typ: p.typ.toggled(), ..p }), ..v }
        } else {
            v
        }
    }

    /// Toggles the point with this id (or, when there is none, the start
    /// point) between smooth and corner, where it is on the curve: it only
    /// becomes smooth if it has a control point beside it.
    pub fn toggle_on_curve_point_type(&mut self, id: EntityId)
        requires
            old(self)@.points.len() > 0,
        ensures
            final(self)@ == Self::on_curve_toggled(old(self)@, id),
            old(self).wf() ==> final(self).wf(),
    {
        let cursor = self.cursor(Some(id));
        let i = cursor.idx();
        proof {
            if has_id(self@.points, id) {
                let j = choose|j: int| is_first_index_of(self@.points, id, j);
                lemma_first_index_unique(self@.points, id, i as int, j);
            }
        }
        let prev_ctrl = match cursor.prev(self) {
            Some(p) => p.is_off_curve(),
            None => false,
        };
        let next_ctrl = match cursor.next(self) {
            Some(p) => p.is_off_curve(),
            None => false,
        };
        let has_ctrl = prev_ctrl || next_ctrl;
        let mut pt = self.points[i];
        if pt.is_smooth() || (pt.is_on_curve() && has_ctrl) {
            pt.toggle_type();
            self.points.set(i, pt);
            proof {
                assert(self@.points =~= old(self)@.points.update(
                    i as int,
                    PathPoint { typ: old(self)@.points[i as int].typ.toggled(), ..old(self)@.points[i as int] },
                ));
                if old(self).wf() {
                    assert forall|k: int| 0 <= k < self@.points.len() implies (#[trigger] self@.points[k]).id.is_child_of_spec(
                        self@.id,
                    ) by {
                        assert(old(self)@.points[k].id.is_child_of_spec(self@.id));
                    }
                }
            }
        }
    }

    /// The ids of the points, in order.
    pub fn point_ids(&self) -> (r: Vec<EntityId>)
        ensures
            r@ == self@.points.map_values(|p: PathPoint<P>| p.id),
    {
        let mut out: Vec<EntityId> = Vec::new();
        let mut i: usize = 0;
        while i < self.points.len()
            invariant
                0 <= i <= self.points.len(),
                out@ == self.points@.take(i as int).map_values(|p: PathPoint<P>| p.id),
            decreases self.points.len() - i,
        {
            out.push(self.points[i].id);
            assert(out@ =~= self.points@.take(i + 1).map_values(|p: PathPoint<P>| p.id));
            i += 1;
        }
        assert(self.points@.take(self.points.len() as int) =~= self.points@);
        out
    }

    /// Whether some point has this id.
    pub fn contains_point(&self, point: EntityId) -> (r: bool)
        ensures
            r == has_id(self@.points, point),
    {
        match self.idx_for_point(point) {
            Some(_) => true,
            None => false,
        }
    }

    /// The point with this id, if there is one.
    pub fn path_point_for_id(&self, point: EntityId) -> (r: Option<PathPoint<P>>)
        requires
            point.is_child_of_spec(self@.id),
        ensures
            r matches Some(p) ==> exists|i: int| is_first_index_of(self@.points, point, i) && p == self@.points[i],
            r is None ==> !has_id(self@.points, point),
    {
        match self.idx_for_point(point) {
            Some(idx) => Some(self.points[idx]),
            None => None,
        }
    }

    /// The point before the point with this id, going around the end.
    pub fn prev_point(&self, point: EntityId) -> (r: PathPoint<P>)
        requires
            point.is_child_of_spec(self@.id),
            has_id(self@.points, point),
        ensures
            exists|i: int|
                is_first_index_of(self@.points, point, i) && r == self@.points[prev_index(
                    self@.points.len() as int,
                    i,
                )],
    {
        let idx = match self.idx_for_point(point) {
            Some(i) => i,
            None => 0,
        };
        let idx = if idx == 0 {
            self.points.len() - 1
        } else {
            idx - 1
        };
        self.points[idx]
    }

    /// The point after the point with this id, going around the end.
    pub fn next_point(&self, point: EntityId) -> (r: PathPoint<P>)
        requires
            point.is_child_of_spec(self@.id),
            has_id(self@.points, point),
        ensures
            exists|i: int|
                is_first_index_of(self@.points, point, i) && r == self@.points[next_index(
                    self@.points.len() as int,
                    i,
                )],
    {
        let idx = match self.idx_for_point(point) {
            Some(i) => {
                assert(i < self.points.len());
                i
            },
            None => 0,
        };
        let idx = (idx + 1) % self.points.len();
        self.points[idx]
    }

    /// The point the contour starts at.
    pub fn start_point(&self) -> (r: &PathPoint<P>)
        requires
            self@.points.len() > 0,
        ensures
            *r == self@.points[first_index(self@.points.len() as int, self@.closed)],
    {
        let idx = if self.closed {
            self.points.len() - 1
        } else {
            0
        };
        &self.points[idx]
    }

    /// The last point before the start point of a closed contour, or the
    /// last point of an open one.
    pub fn end_point(&self) -> (r: &PathPoint<P>)
        requires
            self@.points.len() > 0,
        ensures
            *r == self@.points[if self@.closed {
                if self@.points.len() >= 2 {
                    self@.points.len() - 2
                } else {
                    0
                }
            } else {
                self@.points.len() - 1
            }],
    {
        let idx = if self.closed {
            self.points.len().saturating_sub(2)
        } else {
            self.points.len() - 1
        };
        &self.points[idx]
    }

    /// The point at `idx`.
    pub fn point_at(&self, idx: usize) -> (r: PathPoint<P>)
        requires
            idx < self@.points.len(),
        ensures
            r == self@.points[idx as int],
    {
        self.points[idx]
    }

    /// Moves the point at `idx` to `point`, keeping its id and type.
    pub fn set_point(&mut self, idx: usize, point: P)
        requires
            idx < old(self)@.points.len(),
        ensures
            final(self)@ == (PathPointsView {
                points: old(self)@.points.update(
                    idx as int,
                    PathPoint { point, ..old(self)@.points[idx as int] },
                ),
                ..old(self)@
            }),
            old(self).wf() ==> final(self).wf(),
    {
        let mut pp = self.points[idx];
        pp.point = point;
        self.points.set(idx, pp);
        proof {
            if old(self).wf() {
                assert forall|i: int| 0 <= i < self@.points.len() implies (#[trigger] self@.points[i]).id.is_child_of_spec(self@.id) by {
                    assert(old(self)@.points[i].id.is_child_of_spec(self@.id));
                }
            }
        }
    }

    /// The segments of the contour, in order.
    pub fn iter_segments(&self) -> (r: Vec<Segment<P>>)
        requires
            self@.points.len() > 0,
            contour_segments(self@) is Some,
        ensures
            Some(r@) == contour_segments(self@),
    {
        let prev = *self.start_point();
        let idx: usize = if self.closed {
            0
        } else {
            1
        };
        collect_segments(self.points.as_slice(), idx, prev)
    }

    /// A cursor at the point with this id, or at the start point when there
    /// is no id or no such point.
    pub fn cursor(&self, id: Option<EntityId>) -> (r: Cursor)
        requires
            self@.points.len() > 0,
        ensures
            r.index() < self@.points.len(),
            id is Some && has_id(self@.points, id->0) ==> is_first_index_of(self@.points, id->0, r.index()),
            (id is None || !has_id(self@.points, id->0)) ==> r.index() == first_index(
                self@.points.len() as int,
                self@.closed,
            ),
    {
        let found = match id {
            Some(i) => self.idx_for_point(i),
            None => None,
        };
        let idx = match found {
            Some(i) => i,
            None => if self.closed {
                self.points.len() - 1
            } else {
                0
            },
        };
        Cursor { idx }
    }

    /// The index before `idx`, going around the end.
    fn prev_idx(&self, idx: usize) -> (r: usize)
        requires
            idx < self@.points.len(),
        ensures
            r == prev_index(self@.points.len() as int, idx as int),
    {
        if idx == 0 {
            self.points.len() - 1
        } else {
            idx - 1
        }
    }

    /// The index after `idx`, going around the end.
    fn next_idx(&self, idx: usize) -> (r: usize)
        requires
            idx < self@.points.len(),
        ensures
            r == next_index(self@.points.len() as int, idx as int),
            r < self@.points.len(),
    {
        let n = self.points.len();
        (idx + 1) % n
    }

    /// Given the index of an off-curve point, its neighbouring on-curve
    /// point; if that point is smooth and its other neighbour is also off
    /// the curve, that neighbour too.
    pub fn tangent_handle_opt(&self, idx: usize) -> (r: Option<(usize, Option<usize>)>)
        requires
            idx < self@.points.len(),
            self@.points[idx as int].typ is OffCurve,
        ensures
            index_pair_view(r) == tangent_handle_spec(self@.points, idx as int),
    {
        let prev = self.prev_idx(idx);
        let next = self.next_idx(idx);
        if self.points[prev].typ.is_on_curve() {
            let prev2 = self.prev_idx(prev);
            if self.points[prev].is_smooth() && !self.points[prev2].is_on_curve() {
                Some((prev, Some(prev2)))
            } else {
                Some((prev, None))
            }
        } else if self.points[next].is_on_curve() {
            let next2 = self.next_idx(next);
            if self.points[next].is_smooth() && !self.points[next2].is_on_curve() {
                Some((next, Some(next2)))
            } else {
                Some((next, None))
            }
        } else {
            None
        }
    }

    /// Given the index of an off-curve point, the index of its on-curve
    /// neighbour and of the other handle of that neighbour, when the
    /// neighbour has a tangent handle.
    pub fn tangent_handle(&self, idx: usize) -> (r: Option<(usize, usize)>)
        requires
            idx < self@.points.len(),
            self@.points[idx as int].typ is OffCurve,
        ensures
            r matches Some((a, b)) ==> tangent_handle_spec(self@.points, idx as int) == Some(
                (a as int, Some(b as int)),
            ),
            r is None ==> !(tangent_handle_spec(self@.points, idx as int) matches Some((_, Some(_)))),
    {
        if let Some((on_curve, Some(bcp2))) = self.tangent_handle_opt(idx) {
            Some((on_curve, bcp2))
        } else {
            None
        }
    }

    /// For a list of points, the indices of those points, with the
    /// off-curve points next to each on-curve one. Each index occurs once.
    pub fn points_for_points(&self, points: &[EntityId]) -> (r: Vec<usize>)
        ensures
            r@.no_duplicates(),
            forall|x: usize| r@.contains(x) <==> indices_for_points(self@.points, points@).contains(x as int),
    {
        let mut out: Vec<usize> = Vec::new();
        let mut k: usize = 0;
        while k < points.len()
            invariant
                0 <= k <= points.len(),
                out@.no_duplicates(),
                forall|x: usize| out@.contains(x) <==> indices_for_points(self@.points, points@.take(k as int)).contains(x as int),
                forall|j: int| indices_for_points(self@.points, points@.take(k as int)).contains(j) ==> 0 <= j < self@.points.len(),
            decreases points.len() - k,
        {
            let ghost before = indices_for_points(self@.points, points@.take(k as int));
            let ghost next_ids = points@.take(k + 1);
            proof {
                assert(next_ids.drop_last() =~= points@.take(k as int));
                assert(next_ids.last() == points[k as int]);
            }
            match self.idx_for_point(points[k]) {
                Some(idx) => {
                    proof {
                        assert(has_id(self@.points, points[k as int]));
                        let c = choose|i: int| is_first_index_of(self@.points, points[k as int], i);
                        lemma_first_index_unique(self@.points, points[k as int], c, idx as int);
                    }
                    push_unique(&mut out, idx);
                    if self.points[idx].is_on_curve() {
                        let prev = self.prev_idx(idx);
                        let next = self.next_idx(idx);
                        if !self.points[prev].is_on_curve() {
                            push_unique(&mut out, prev);
                        }
                        if !self.points[next].is_on_curve() {
                            push_unique(&mut out, next);
                        }
                    }
                    proof {
                        let h = handle_indices(self@.points, idx as int);
                        assert(indices_for_points(self@.points, next_ids) == before.union(h));
                        assert forall|x: usize| out@.contains(x) <==> before.union(h).contains(x as int) by {}
                    }
                },
                None => {
                    assert(indices_for_points(self@.points, next_ids) == before);
                },
            }
            k += 1;
        }
        assert(points@.take(points.len() as int) =~= points@);
        out
    }

    /// Deletes the point with id `point_id`, with whatever has to go along
    /// with it, then tidies the contour up. Nothing happens when no point
    /// has that id.
    pub fn delete_point(&mut self, point_id: EntityId)
        requires
            can_delete(old(self)@, point_id),
        ensures
            final(self)@ == deleted(old(self)@, point_id),
            old(self).wf() ==> final(self).wf(),
    {
        let idx = match self.idx_for_point(point_id) {
            Some(i) => i,
            None => return ,
        };
        let ghost v0 = self@;
        proof {
            let c = choose|i: int| is_first_index_of(v0.points, point_id, i);
            lemma_first_index_unique(v0.points, point_id, c, idx as int);
        }
        let n = self.points.len();
        let prev_idx = self.prev_idx(idx);
        let next_idx = self.next_idx(idx);
        if self.points[idx].is_off_curve() {
            // delete both of the off curve points for this segment
            let other_id = if self.points[prev_idx].is_off_curve() {
                self.points[prev_idx].id
            } else {
                self.points[next_idx].id
            };
            self.points = keep_without_ids(&self.points, point_id, other_id, other_id);
        } else if n == 1 {
            self.points = Vec::new();
        } else if n == 4 {
            // with less than four points they must all be on curve
            self.points = keep_on_curve_except(&self.points, point_id);
        } else if self.points[prev_idx].is_on_curve() || self.points[next_idx].is_on_curve() {
            // a line segment, or a corner neighbour that keeps its handles
            self.points.remove(idx);
        } else {
            let prev_id = self.points[prev_idx].id;
            let next_id = self.points[next_idx].id;
            let kept = keep_without_ids(&self.points, prev_id, next_id, point_id);
            self.points = if kept.len() == 3 {
                keep_on_curve(&kept)
            } else {
                kept
            };
        }
        assert(self.points@ == points_after_removal(v0.points, point_id, idx as int));
        proof {
            if old(self).wf() {
                lemma_removal_children(v0.points, point_id, idx as int, v0.id);
            }
        }
        let ghost removed = self.points@;
        fix_corners(&mut self.points);
        let len = self.points.len();
        if len > 2 && !self.points[0].is_on_curve() && !self.points[len - 1].is_on_curve() {
            let mut pts = Vec::new();
            std::mem::swap(&mut pts, &mut self.points);
            self.points = rotate_vec_left(pts, 1);
        }
        if self.points.len() < 3 {
            self.closed = false;
        }
        proof {
            if old(self).wf() {
                let fixed = corners_fixed(removed);
                assert(all_children(fixed, v0.id)) by {
                    assert forall|i: int| 0 <= i < fixed.len() implies (#[trigger] fixed[i]).id.is_child_of_spec(v0.id) by {
                        assert(removed[i].id.is_child_of_spec(v0.id));
                    }
                }
                if len > 2 && fixed[0].typ is OffCurve && fixed.last().typ is OffCurve {
                    assert forall|i: int| 0 <= i < self@.points.len() implies (#[trigger] self@.points[i]).id.is_child_of_spec(v0.id) by {
                        if i < len - 1 {
                            assert(self@.points[i] == fixed[i + 1]);
                        } else {
                            assert(self@.points[i] == fixed[0]);
                        }
                    }
                }
            }
        }
    }

    /// Deletes the points with these ids, one after another.
    pub fn delete_points(&mut self, points: &[EntityId])
        requires
            forall|k: int| 0 <= k < points.len() ==> can_delete(deleted_all(old(self)@, #[trigger] points@.take(k)), points@[k]),
        ensures
            final(self)@ == deleted_all(old(self)@, points@),
            old(self).wf() ==> final(self).wf(),
    {
        let mut k: usize = 0;
        while k < points.len()
            invariant
                0 <= k <= points.len(),
                self@ == deleted_all(old(self)@, points@.take(k as int)),
                old(self).wf() ==> self.wf(),
                forall|j: int| 0 <= j < points.len() ==> can_delete(deleted_all(old(self)@, #[trigger] points@.take(j)), points@[j]),
            decreases points.len() - k,
        {
            assert(points@.take(k + 1).drop_last() =~= points@.take(k as int));
            self.delete_point(points[k]);
            k += 1;
        }
        assert(points@.take(points.len() as int) =~= points@);
    }

    /// How the point at `idx` is drawn, for a hyperbezier contour or not.
    pub fn point_style(&self, idx: usize, is_hyper: bool) -> (r: PointStyle)
        requires
            idx < self@.points.len(),
        ensures
            r == style_of(self@.points, idx as int, self@.closed, is_hyper),
    {
        let len = self.points.len();
        if len == 1 {
            return PointStyle::Corner;
        }
        let this = self.points[idx];
        if this.is_on_curve() && !self.closed {
            if idx == 0 {
                return PointStyle::Open;
            } else if idx == len - 1 {
                return PointStyle::Close;
            }
        }
        match this.typ {
            PointType::OffCurve { auto: true } if is_hyper => PointStyle::OffCurveAuto,
            PointType::OffCurve { .. } => PointStyle::OffCurve,
            PointType::OnCurve { smooth: false } => PointStyle::Corner,
            PointType::OnCurve { smooth: true } => PointStyle::Smooth,
        }
    }

    /// Whether the last segment of the point list is a curve.
    pub fn last_segment_is_curve(&self) -> (r: bool)
        ensures
            r == (self@.points.len() > 2 && self@.points[self@.points.len() - 2].typ is OffCurve),
    {
        let len = self.points.len();
        len > 2 && !self.points[len - 2].is_on_curve()
    }

    /// Whether the trailing control point and its handle are drawn: always
    /// for a contour of one point; otherwise when its last segment is a curve.
    pub fn should_draw_trailing(&self) -> (r: bool)
        ensures
            r == (self@.points.len() == 1 || (self@.points.len() > 2 && self@.points[self@.points.len()
                - 2].typ is OffCurve)),
    {
        self.points.len() == 1 || self.last_segment_is_curve()
    }
}

/// The points of `pts` whose id is none of `a`, `b`, `c`.
fn keep_without_ids<P: Copy>(pts: &Vec<PathPoint<P>>, a: EntityId, b: EntityId, c: EntityId) -> (r: Vec<
    PathPoint<P>,
>)
    ensures
        r@ == without_ids(pts@, a, b, c),
{
    let ghost pred = |p: PathPoint<P>| p.id != a && p.id != b && p.id != c;
    let mut out: Vec<PathPoint<P>> = Vec::new();
    let mut i: usize = 0;
    proof {
        reveal(Seq::filter);
        assert(pts@.take(0) =~= Seq::<PathPoint<P>>::empty());
    }
    while i < pts.len()
        invariant
            0 <= i <= pts.len(),
            pred == (|p: PathPoint<P>| p.id != a && p.id != b && p.id != c),
            out@ == pts@.take(i as int).filter(pred),
        decreases pts.len() - i,
    {
        let p = pts[i];
        proof {
            lemma_filter_push(pts@.take(i as int), p, pred);
            assert(pts@.take(i + 1) =~= pts@.take(i as int).push(p));
        }
        if p.id != a && p.id != b && p.id != c {
            out.push(p);
        }
        i += 1;
    }
    assert(pts@.take(pts.len() as int) =~= pts@);
    out
}

/// The on-curve points of `pts` whose id is not `a`.
fn keep_on_curve_except<P: Copy>(pts: &Vec<PathPoint<P>>, a: EntityId) -> (r: Vec<PathPoint<P>>)
    ensures
        r@ == on_curve_except(pts@, a),
{
    let ghost pred = |p: PathPoint<P>| p.typ is OnCurve && p.id != a;
    let mut out: Vec<PathPoint<P>> = Vec::new();
    let mut i: usize = 0;
    proof {
        reveal(Seq::filter);
        assert(pts@.take(0) =~= Seq::<PathPoint<P>>::empty());
    }
    while i < pts.len()
        invariant
            0 <= i <= pts.len(),
            pred == (|p: PathPoint<P>| p.typ is OnCurve && p.id != a),
            out@ == pts@.take(i as int).filter(pred),
        decreases pts.len() - i,
    {
        let p = pts[i];
        proof {
            lemma_filter_push(pts@.take(i as int), p, pred);
            assert(pts@.take(i + 1) =~= pts@.take(i as int).push(p));
        }
        if p.is_on_curve() && p.id != a {
            out.push(p);
        }
        i += 1;
    }
    assert(pts@.take(pts.len() as int) =~= pts@);
    out
}

/// The on-curve points of `pts`.
fn keep_on_curve<P: Copy>(pts: &Vec<PathPoint<P>>) -> (r: Vec<PathPoint<P>>)
    ensures
        r@ == on_curve_only(pts@),
{
    let ghost pred = |p: PathPoint<P>| p.typ is OnCurve;
    let mut out: Vec<PathPoint<P>> = Vec::new();
    let mut i: usize = 0;
    proof {
        reveal(Seq::filter);
        assert(pts@.take(0) =~= Seq::<PathPoint<P>>::empty());
    }
    while i < pts.len()
        invariant
            0 <= i <= pts.len(),
            pred == (|p: PathPoint<P>| p.typ is OnCurve),
            out@ == pts@.take(i as int).filter(pred),
        decreases pts.len() - i,
    {
        let p = pts[i];
        proof {
            lemma_filter_push(pts@.take(i as int), p, pred);
            assert(pts@.take(i + 1) =~= pts@.take(i as int).push(p));
        }
        if p.is_on_curve() {
            out.push(p);
        }
        i += 1;
    }
    assert(pts@.take(pts.len() as int) =~= pts@);
    out
}

/// Makes a corner of every smooth point between two on-curve points.
fn fix_corners<P: Copy>(v: &mut Vec<PathPoint<P>>)
    ensures
        final(v)@ == corners_fixed(old(v)@),
{
    let ghost s = v@;
    let n = v.len();
    let mut i: usize = 0;
    while i < n
        invariant
            v.len() == n,
            s.len() == n,
            s == old(v)@,
            0 <= i <= n,
            forall|j: int| 0 <= j < i ==> v@[j] == #[trigger] corners_fixed(s)[j],
            forall|j: int| i <= j < n ==> v@[j] == s[j],
        decreases n - i,
    {
        let prev = if i == 0 {
            n - 1
        } else {
            i - 1
        };
        let next = (i + 1) % n;
        proof {
            assert(v@[prev as int].typ is OnCurve == s[prev as int].typ is OnCurve) by {
                if prev < i {
                    assert(v@[prev as int] == corners_fixed(s)[prev as int]);
                }
            }
            assert(v@[next as int].typ is OnCurve == s[next as int].typ is OnCurve) by {
                if next < i {
                    assert(v@[next as int] == corners_fixed(s)[next as int]);
                }
            }
        }
        if v[i].is_smooth() && v[prev].is_on_curve() && v[next].is_on_curve() {
            let mut p = v[i];
            p.toggle_type();
            v.set(i, p);
        }
        assert(v@[i as int] == corners_fixed(s)[i as int]);
        i += 1;
    }
    assert(v@ =~= corners_fixed(s));
}

/// Adds `x` to `v` unless it is already there.
fn push_unique(v: &mut Vec<usize>, x: usize)
    requires
        old(v)@.no_duplicates(),
    ensures
        final(v)@.no_duplicates(),
        forall|y: usize| final(v)@.contains(y) <==> (old(v)@.contains(y) || y == x),
{
    let mut i: usize = 0;
    while i < v.len()
        invariant
            0 <= i <= v.len(),
            v@ == old(v)@,
            old(v)@.no_duplicates(),
            forall|j: int| 0 <= j < i ==> v@[j] != x,
        decreases v.len() - i,
    {
        if v[i] == x {
            assert(v@[i as int] == x);
            return;
        }
        i += 1;
    }
    v.push(x);
    proof {
        assert forall|y: usize| v@.contains(y) <==> (old(v)@.contains(y) || y == x) by {
            if old(v)@.contains(y) {
                let j = choose|j: int| 0 <= j < old(v)@.len() && old(v)@[j] == y;
                assert(v@[j] == y);
            }
            if y == x {
                assert(v@[v@.len() - 1] == y);
            }
        }
    }
}

/// `v` rotated left by `k`.
fn rotate_vec_left<T: Copy>(v: Vec<T>, k: usize) -> (r: Vec<T>)
    requires
        k <= v.len(),
    ensures
        r@ == rotate_left(v@, k as int),
{
    let mut out: Vec<T> = Vec::new();
    let mut i: usize = k;
    while i < v.len()
        invariant
            k <= i <= v.len(),
            out@ == v@.subrange(k as int, i as int),
        decreases v.len() - i,
    {
        out.push(v[i]);
        assert(out@ =~= v@.subrange(k as int, i + 1));
        i += 1;
    }
    let mut j: usize = 0;
    while j < k
        invariant
            0 <= j <= k <= v.len(),
            out@ == v@.skip(k as int) + v@.take(j as int),
        decreases k - j,
    {
        out.push(v[j]);
        assert(out@ =~= v@.skip(k as int) + v@.take(j + 1));
        j += 1;
    }
    out
}

} // verus!
