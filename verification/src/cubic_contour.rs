//! Cubic contours as they are saved in a UFO glyph.
//!
//! Each point of a cubic contour is saved as one UFO point: an open contour
//! starts with a move, a control point is an off-curve point, and an
//! on-curve point is a curve point after a control point and a line point
//! otherwise. A closed contour is stored with its start point last, and is
//! saved with that point first.

use vstd::prelude::*;
use crate::point::{ContourPointKind, EntityId, IdCounter, PathPoint, PointType, NO_PARENT_TYPE_ID};
use crate::point_list::{ids_below, is_first_on_curve, rotate_left, PathPoints, PathPointsView};
use crate::session::views_of;

verus! {

/// A point of a saved cubic contour: where it is, its kind, whether it is
/// smooth, and whether its lib marks it as placed automatically. When a
/// contour is saved, `point_id` is the id of the contour point it stands
/// for; reading does not use it.
#[derive(Clone, Copy, PartialEq, Debug)]
pub struct CubicRecord<P> {
    pub point: P,
    pub kind: ContourPointKind,
    pub smooth: bool,
    pub auto: bool,
    pub point_id: Option<EntityId>,
}

/// The type of the contour point a saved point reads back as.
pub open spec fn record_type<P>(r: CubicRecord<P>) -> PointType {
    if r.kind == ContourPointKind::OffCurve {
        PointType::OffCurve { auto: r.auto }
    } else {
        PointType::OnCurve { smooth: r.smooth }
    }
}

/// A saved cubic contour is closed unless it starts with a move.
pub open spec fn cubic_closed<P>(rs: Seq<CubicRecord<P>>) -> bool {
    rs[0].kind != ContourPointKind::Move
}

/// The points that saved points read back as, in order, with the ids taken
/// one after the other from `next` on, all children of `parent`.
pub open spec fn cubic_points<P>(rs: Seq<CubicRecord<P>>, parent: usize, next: int) -> Seq<PathPoint<P>> {
    Seq::new(
        rs.len(),
        |i: int| PathPoint { id: EntityId::from_key((parent, (next + i) as usize)), point: rs[i].point, typ: record_type(rs[i]) },
    )
}

/// The points of a closed contour are stored with the saved first point
/// last.
pub open spec fn cubic_stored<P>(rs: Seq<CubicRecord<P>>, parent: usize, next: int) -> Seq<PathPoint<P>> {
    if cubic_closed(rs) {
        rotate_left(cubic_points(rs, parent, next), 1)
    } else {
        cubic_points(rs, parent, next)
    }
}

/// A saved cubic contour can be read: it has a point, no quadratic point,
/// and, when closed, an on-curve point.
pub open spec fn cubic_readable<P>(rs: Seq<CubicRecord<P>>) -> bool {
    &&& rs.len() > 0
    &&& forall|i: int| 0 <= i < rs.len() ==> (#[trigger] rs[i]).kind != ContourPointKind::QCurve
    &&& cubic_closed(rs) ==> exists|i: int| 0 <= i < rs.len() && (#[trigger] rs[i]).kind != ContourPointKind::OffCurve
}

/// Reads a cubic contour back from its saved points, taking its ids from
/// `ids`: first the contour's own, then one for each point, in order. A
/// closed contour keeps its saved first point last; if that leaves a control
/// point last, the contour is turned to end with its first on-curve point.
/// With the contour come, for each saved point, its index and the id of the
/// point it became, so that saved identifiers can follow the points.
pub fn cubic_points_from_records<P: Copy>(ids: &mut IdCounter, records: &[CubicRecord<P>]) -> (r: (
    PathPoints<P>,
    Vec<(usize, EntityId)>,
))
    requires
        old(ids).wf(),
        old(ids).next_point() + records@.len() + 1 < usize::MAX,
        cubic_readable(records@),
    ensures
        final(ids).wf(),
        ({
            let parent = old(ids).next_point();
            let stored = cubic_stored(records@, parent, parent + 1);
            let closed = cubic_closed(records@);
            &&& final(ids).next_point() == parent + 1 + records@.len()
            &&& r.1@ == Seq::new(
                records@.len(),
                |i: int| (i as usize, EntityId::from_key((parent, (parent + 1 + i) as usize))),
            )
            &&& r.0@.id == EntityId::from_key((NO_PARENT_TYPE_ID, parent))
            &&& r.0@.trailing is None
            &&& r.0@.closed == closed
            &&& !(closed && stored.last().typ is OffCurve) ==> r.0@.points == stored
            &&& closed && stored.last().typ is OffCurve ==> exists|i: int|
                is_first_on_curve(stored, i) && r.0@.points == rotate_left(stored, i + 1)
            &&& r.0.wf()
            &&& ids_below(r.0@, final(ids).next_point())
        }),
{
    broadcast use EntityId::lemma_key_roundtrip, EntityId::lemma_from_key;

    let ghost parent = ids.next_point();
    let ghost all = records@;
    let path_id = EntityId::next(ids);
    assert(path_id == EntityId::from_key((NO_PARENT_TYPE_ID, parent))) by {
        EntityId::lemma_eq_components(path_id, EntityId::from_key((NO_PARENT_TYPE_ID, parent)));
    }
    let closed = records[0].kind != ContourPointKind::Move;
    let mut points: Vec<PathPoint<P>> = Vec::new();
    let mut origins: Vec<(usize, EntityId)> = Vec::new();
    let mut i: usize = 0;
    while i < records.len()
        invariant
            0 <= i <= records.len(),
            all == records@,
            ids.wf(),
            path_id == EntityId::from_key((NO_PARENT_TYPE_ID, parent)),
            parent + all.len() + 1 < usize::MAX,
            ids.next_point() == parent + 1 + i,
            points@ == cubic_points(all, parent, parent + 1).take(i as int),
            origins@ == Seq::new(i as nat, |j: int| (j as usize, EntityId::from_key((parent, (parent + 1 + j) as usize)))),
        decreases records.len() - i,
    {
        let rec = records[i];
        let ghost next = ids.next_point();
        let id = EntityId::new_with_parent(ids, path_id);
        let typ = if rec.kind == ContourPointKind::OffCurve {
            PointType::OffCurve { auto: rec.auto }
        } else {
            PointType::OnCurve { smooth: rec.smooth }
        };
        proof {
            EntityId::lemma_from_key((parent, next));
            EntityId::lemma_eq_components(id, EntityId::from_key((parent, next)));
        }
        let pp = PathPoint { id, point: rec.point, typ };
        proof {
            EntityId::lemma_from_key((NO_PARENT_TYPE_ID, parent));
            assert(id.parent_raw() == parent);
            assert(id == EntityId::from_key((parent, next)));
            assert(next == (parent + 1 + i) as usize);
            assert(pp == cubic_points(all, parent, parent + 1)[i as int]);
        }
        points.push(pp);
        origins.push((i, id));
        assert(points@ =~= cubic_points(all, parent, parent + 1).take(i + 1));
        assert(origins@ =~= Seq::new((i + 1) as nat, |j: int| (j as usize, EntityId::from_key((parent, (parent + 1 + j) as usize)))));
        i += 1;
    }
    let ghost pts = cubic_points(all, parent, parent + 1);
    assert(pts.take(all.len() as int) =~= pts);
    if closed {
        points = rotate_one(points);
    }
    let ghost stored = points@;
    assert(stored == cubic_stored(all, parent, parent + 1));
    proof {
        assert forall|j: int| 0 <= j < stored.len() implies (#[trigger] stored[j]).id.is_child_of_spec(path_id)
            && stored[j].id.point_raw() < ids.next_point() by {
            let k = if closed {
                if j < stored.len() - 1 {
                    j + 1
                } else {
                    0
                }
            } else {
                j
            };
            assert(stored[j] == pts[k]);
            EntityId::lemma_from_key((parent, (parent + 1 + k) as usize));
        }
        if !closed {
            assert(stored[0].typ is OnCurve);
        }
        if closed && stored.last().typ is OffCurve {
            let k = choose|k: int| 0 <= k < all.len() && (#[trigger] all[k]).kind != ContourPointKind::OffCurve;
            let j = if k == 0 {
                stored.len() - 1
            } else {
                k - 1
            };
            assert(stored[j] == pts[k]);
        }
    }
    (PathPoints::from_raw_parts(path_id, points, None, closed), origins)
}

/// The points rotated left by one: the first point moves to the end.
fn rotate_one<P: Copy>(v: Vec<PathPoint<P>>) -> (r: Vec<PathPoint<P>>)
    requires
        v@.len() > 0,
    ensures
        r@ == rotate_left(v@, 1),
{
    let mut out: Vec<PathPoint<P>> = Vec::new();
    let mut i: usize = 1;
    while i < v.len()
        invariant
            1 <= i <= v.len(),
            out@ == v@.subrange(1, i as int),
        decreases v.len() - i,
    {
        out.push(v[i]);
        assert(out@ =~= v@.subrange(1, i + 1));
        i += 1;
    }
    out.push(v[0]);
    assert(out@ =~= rotate_left(v@, 1));
    out
}

/// The saved point for the contour point at `i`: an open contour's first
/// point is a move, a control point is an off-curve point, and an on-curve
/// point is a curve point after a control point (the point before the first
/// one being the last) and a line point otherwise.
pub open spec fn cubic_record_at<P>(pts: Seq<PathPoint<P>>, closed: bool, i: int) -> CubicRecord<P> {
    let p = pts[i];
    let prev_off = if i == 0 {
        pts.last().typ is OffCurve
    } else {
        pts[i - 1].typ is OffCurve
    };
    let (kind, smooth) = match p.typ {
        PointType::OnCurve { smooth } => if i == 0 && !closed {
            (ContourPointKind::Move, smooth)
        } else if prev_off {
            (ContourPointKind::Curve, smooth)
        } else {
            (ContourPointKind::Line, smooth)
        },
        PointType::OffCurve { .. } => (ContourPointKind::OffCurve, false),
    };
    CubicRecord { point: p.point, kind, smooth, auto: false, point_id: Some(p.id) }
}

/// The saved points of a cubic contour: one for each point, in order; a
/// closed contour's start point, stored last, is saved first.
pub open spec fn cubic_records_spec<P>(v: PathPointsView<P>) -> Seq<CubicRecord<P>> {
    let rs = Seq::new(v.points.len(), |i: int| cubic_record_at(v.points, v.closed, i));
    if v.closed && rs.len() > 0 {
        seq![rs.last()] + rs.drop_last()
    } else {
        rs
    }
}

/// The points a cubic contour is saved as.
pub fn cubic_records<P: Copy>(path: &PathPoints<P>) -> (r: Vec<CubicRecord<P>>)
    ensures
        r@ == cubic_records_spec(path@),
{
    let pts = path.as_slice();
    let n = pts.len();
    let closed = path.closed();
    let mut prev_off = if n > 0 {
        !pts[n - 1].is_on_curve()
    } else {
        false
    };
    let ghost all = Seq::new(n as nat, |i: int| cubic_record_at(path@.points, path@.closed, i));
    let mut out: Vec<CubicRecord<P>> = Vec::new();
    let mut i: usize = 0;
    while i < n
        invariant
            0 <= i <= n,
            n == pts@.len(),
            pts@ == path@.points,
            closed == path@.closed,
            all == Seq::new(n as nat, |i: int| cubic_record_at(path@.points, path@.closed, i)),
            out@ == all.take(i as int),
            i > 0 ==> prev_off == (pts@[i - 1].typ is OffCurve),
            i == 0 && n > 0 ==> prev_off == (pts@.last().typ is OffCurve),
        decreases n - i,
    {
        let p = pts[i];
        let (kind, smooth) = match p.typ {
            PointType::OnCurve { smooth } => if i == 0 && !closed {
                (ContourPointKind::Move, smooth)
            } else if prev_off {
                (ContourPointKind::Curve, smooth)
            } else {
                (ContourPointKind::Line, smooth)
            },
            PointType::OffCurve { .. } => (ContourPointKind::OffCurve, false),
        };
        out.push(CubicRecord { point: p.point, kind, smooth, auto: false, point_id: Some(p.id) });
        assert(out@ =~= all.take(i + 1));
        prev_off = !p.is_on_curve();
        i += 1;
    }
    assert(all.take(n as int) =~= all);
    if closed && n > 0 {
        let mut turned: Vec<CubicRecord<P>> = Vec::new();
        turned.push(out[n - 1]);
        let mut k: usize = 0;
        while k < n - 1
            invariant
                0 <= k <= n - 1,
                n == out@.len(),
                n > 0,
                turned@ == seq![out@.last()] + out@.take(k as int),
            decreases n - 1 - k,
        {
            turned.push(out[k]);
            assert(turned@ =~= seq![out@.last()] + out@.take(k + 1));
            k += 1;
        }
        assert(out@.take(n - 1) =~= out@.drop_last());
        turned
    } else {
        out
    }
}

/// The positions and types of points, with control points taken as placed
/// by hand: a cubic contour does not save whether they were placed
/// automatically.
pub open spec fn manual_shape<P>(pts: Seq<PathPoint<P>>) -> Seq<(P, PointType)> {
    pts.map_values(
        |p: PathPoint<P>|
            (p.point, match p.typ {
                PointType::OffCurve { .. } => PointType::OffCurve { auto: false },
                PointType::OnCurve { smooth } => PointType::OnCurve { smooth },
            }),
    )
}

/// Saving a cubic contour and reading it back gives its points again, with
/// new ids: their positions and types, in order (control points as placed by
/// hand), whether it is closed, and no turning of a closed contour. This
/// holds for a contour that is stored as contours are: an open one starting
/// on the curve, a closed one ending on it.
pub proof fn lemma_cubic_saved_reads_back<P>(v: PathPointsView<P>, parent: usize, next: int)
    requires
        v.points.len() > 0,
        !v.closed ==> v.points[0].typ is OnCurve,
        v.closed ==> v.points.last().typ is OnCurve,
    ensures
        ({
            let rs = cubic_records_spec(v);
            let stored = cubic_stored(rs, parent, next);
            &&& cubic_readable(rs)
            &&& cubic_closed(rs) == v.closed
            &&& !(cubic_closed(rs) && stored.last().typ is OffCurve)
            &&& manual_shape(stored) == manual_shape(v.points)
        }),
{
    let n = v.points.len() as int;
    let pts = v.points;
    let all = Seq::new(n as nat, |i: int| cubic_record_at(pts, v.closed, i));
    let rs = cubic_records_spec(v);
    let cp = cubic_points(rs, parent, next);
    let stored = cubic_stored(rs, parent, next);
    // each saved point reads back as the point it was saved from
    assert forall|i: int| 0 <= i < n implies (#[trigger] all[i]).point == pts[i].point && record_type(all[i]) == match pts[i].typ {
        PointType::OffCurve { .. } => PointType::OffCurve { auto: false },
        PointType::OnCurve { smooth } => PointType::OnCurve { smooth },
    } && (all[i].kind == ContourPointKind::Move <==> (i == 0 && !v.closed)) && all[i].kind != ContourPointKind::QCurve by {
    }
    if v.closed {
        assert(rs == seq![all[n - 1]] + all.drop_last());
        assert forall|j: int| 0 <= j < n implies (#[trigger] stored[j]).point == pts[j].point && stored[j].typ
            == record_type(all[j]) by {
            if j < n - 1 {
                assert(stored[j] == cp[j + 1]);
                assert(rs[j + 1] == all[j]);
            } else {
                assert(stored[j] == cp[0]);
            }
        }
        assert(rs[0] == all[n - 1]);
    } else {
        assert(rs == all);
        assert forall|j: int| 0 <= j < n implies (#[trigger] stored[j]).point == pts[j].point && stored[j].typ
            == record_type(all[j]) by {
            assert(stored[j] == cp[j]);
        }
    }
    assert forall|i: int| 0 <= i < rs.len() implies (#[trigger] rs[i]).kind != ContourPointKind::QCurve by {
        if v.closed {
            if i > 0 {
                assert(rs[i] == all[i - 1]);
            }
        }
    }
    if v.closed {
        assert(rs[0].kind != ContourPointKind::OffCurve);
    }
    assert(manual_shape(stored) =~= manual_shape(pts));
}

/// An element of a drawn path: a move to a new contour, a line, a quadratic
/// curve (not kept), a cubic curve, or the closing of the contour.
#[derive(Clone, Copy, PartialEq, Debug)]
pub enum PathEl<P> {
    MoveTo(P),
    LineTo(P),
    QuadTo(P, P),
    CurveTo(P, P, P),
    ClosePath,
}

/// Where splitting elements into contours is: the contours finished, and
/// the one being built, with the next child component to issue.
pub struct SplitState<P> {
    pub done: Seq<PathPointsView<P>>,
    pub id: EntityId,
    pub points: Seq<PathPoint<P>>,
    pub closed: bool,
    pub next: int,
}

/// The contour being built.
pub open spec fn current_view<P>(st: SplitState<P>) -> PathPointsView<P> {
    PathPointsView { id: st.id, points: st.points, trailing: None, closed: st.closed }
}

/// A point of the contour being built, with the next child id.
pub open spec fn next_child<P>(st: SplitState<P>, k: int, point: P, typ: PointType) -> PathPoint<P> {
    PathPoint { id: EntityId::from_key((st.id.point_raw(), (st.next + k) as usize)), point, typ }
}

/// The contours finished after the one being built is: it is kept if it
/// has points.
pub open spec fn flushed<P>(st: SplitState<P>) -> Seq<PathPointsView<P>> {
    if st.points.len() > 0 {
        st.done.push(current_view(st))
    } else {
        st.done
    }
}

/// One element: a move finishes the contour being built and starts a new
/// one at its point, with a new id; a line adds a corner, a cubic curve its
/// two control points and its end, and a close closes the contour.
pub open spec fn split_step<P>(st: SplitState<P>, el: PathEl<P>) -> SplitState<P> {
    match el {
        PathEl::MoveTo(p) => SplitState {
            done: flushed(st),
            id: EntityId::from_key((NO_PARENT_TYPE_ID, st.next as usize)),
            points: seq![
                PathPoint {
                    id: EntityId::from_key((st.next as usize, (st.next + 1) as usize)),
                    point: p,
                    typ: PointType::OnCurve { smooth: false },
                },
            ],
            closed: false,
            next: st.next + 2,
        },
        PathEl::LineTo(p) => SplitState {
            points: st.points.push(next_child(st, 0, p, PointType::OnCurve { smooth: false })),
            next: st.next + 1,
            ..st
        },
        PathEl::QuadTo(..) => st,
        PathEl::CurveTo(a, b, c) => SplitState {
            points: st.points + seq![
                next_child(st, 0, a, PointType::OffCurve { auto: false }),
                next_child(st, 1, b, PointType::OffCurve { auto: false }),
                next_child(st, 2, c, PointType::OnCurve { smooth: false }),
            ],
            next: st.next + 3,
            ..st
        },
        PathEl::ClosePath => SplitState { closed: true, ..st },
    }
}

/// The state after the elements, starting with a first contour whose id has
/// the child component `start`.
pub open spec fn split_through<P>(els: Seq<PathEl<P>>, start: int) -> SplitState<P>
    decreases els.len(),
{
    if els.len() == 0 {
        SplitState {
            done: Seq::empty(),
            id: EntityId::from_key((NO_PARENT_TYPE_ID, start as usize)),
            points: Seq::empty(),
            closed: false,
            next: start + 1,
        }
    } else {
        split_step(split_through(els.drop_last(), start), els.last())
    }
}

/// A contour can be finished: an open one starts on the curve.
pub open spec fn finishable<P>(st: SplitState<P>) -> bool {
    st.points.len() > 0 && !st.closed ==> st.points[0].typ is OnCurve
}

/// Every contour the elements make can be finished: where a move finishes
/// one, and at the end.
pub open spec fn splittable<P>(els: Seq<PathEl<P>>, start: int) -> bool {
    &&& forall|k: int| 0 <= k < els.len() && (#[trigger] els[k]) is MoveTo ==> finishable(split_through(els.take(k), start))
    &&& finishable(split_through(els, start))
}

/// A child id is the key of its parent's child component and its own.
proof fn lemma_child_id(id: EntityId, parent: EntityId, child: usize)
    requires
        id.is_child_of_spec(parent),
        id.point_raw() == child,
    ensures
        id == EntityId::from_key((parent.point_raw(), child)),
{
    EntityId::lemma_from_key((parent.point_raw(), child));
    EntityId::lemma_eq_components(id, EntityId::from_key((parent.point_raw(), child)));
}

/// The contours drawn by path elements: each move starts a new contour (a
/// contour with no point is dropped), lines and cubic curves add their
/// points, quadratic curves are not kept, and a close closes the contour.
/// Ids are taken from `ids`: the first contour's, then for each element in
/// turn its contour's and its points'.
pub fn paths_for_elements<P: Copy>(ids: &mut IdCounter, els: &[PathEl<P>]) -> (r: Vec<PathPoints<P>>)
    requires
        old(ids).wf(),
        old(ids).next_point() + 3 * els@.len() + 2 < usize::MAX,
        splittable(els@, old(ids).next_point() as int),
    ensures
        final(ids).wf(),
        final(ids).next_point() == split_through(els@, old(ids).next_point() as int).next,
        views_of(r@) == flushed(split_through(els@, old(ids).next_point() as int)),
        forall|i: int| 0 <= i < r@.len() ==> (#[trigger] r@[i]).wf(),
{
    broadcast use EntityId::lemma_key_roundtrip, EntityId::lemma_from_key;

    let ghost start = ids.next_point() as int;
    let ghost all = els@;
    let mut cur_id = EntityId::next(ids);
    proof {
        EntityId::lemma_eq_components(cur_id, EntityId::from_key((NO_PARENT_TYPE_ID, start as usize)));
    }
    let mut cur_points: Vec<PathPoint<P>> = Vec::new();
    let mut closed = false;
    let mut done: Vec<PathPoints<P>> = Vec::new();
    let mut i: usize = 0;
    assert(all.take(0) =~= Seq::<PathEl<P>>::empty());
    while i < els.len()
        invariant
            0 <= i <= els.len(),
            all == els@,
            ids.wf(),
            start + 3 * all.len() + 2 < usize::MAX,
            splittable(all, start),
            ({
                let st = split_through(all.take(i as int), start);
                &&& views_of(done@) == st.done
                &&& cur_id == st.id
                &&& cur_points@ == st.points
                &&& closed == st.closed
                &&& ids.next_point() == st.next
                &&& st.next <= start + 1 + 3 * i
                &&& cur_id.point_raw() < st.next
                &&& cur_id.parent_raw() == NO_PARENT_TYPE_ID
                &&& st.points.len() > 0 ==> st.points.last().typ is OnCurve
                &&& forall|j: int| 0 <= j < st.points.len() ==> (#[trigger] st.points[j]).id.is_child_of_spec(st.id)
            }),
            forall|j: int| 0 <= j < done@.len() ==> (#[trigger] done@[j]).wf(),
        decreases els.len() - i,
    {
        let ghost st = split_through(all.take(i as int), start);
        let el = els[i];
        proof {
            assert(all.take(i + 1).drop_last() =~= all.take(i as int));
            assert(all.take(i + 1).last() == el);
        }
        let ghost next = ids.next_point();
        match el {
            PathEl::MoveTo(p) => {
                assert(finishable(st));
                if cur_points.len() > 0 {
                    let mut pts: Vec<PathPoint<P>> = Vec::new();
                    std::mem::swap(&mut pts, &mut cur_points);
                    let path = PathPoints::from_raw_parts(cur_id, pts, None, closed);
                    let ghost db = done@;
                    done.push(path);
                    assert(views_of(done@) =~= views_of(db).push(path@));
                } else {
                    cur_points = Vec::new();
                }
                cur_id = EntityId::next(ids);
                proof {
                    EntityId::lemma_from_key((NO_PARENT_TYPE_ID, next));
                    EntityId::lemma_eq_components(cur_id, EntityId::from_key((NO_PARENT_TYPE_ID, next)));
                    assert(cur_id == EntityId::from_key((NO_PARENT_TYPE_ID, next)));
                }
                let first = PathPoint::on_curve(ids, cur_id, p);
                proof {
                    EntityId::lemma_eq_components(first.id, EntityId::from_key((next, (next + 1) as usize)));
                }
                cur_points.push(first);
                closed = false;
                proof {
                    let st2 = split_through(all.take(i + 1), start);
                    assert(st2 == split_step(st, el));
                    assert(first.id.parent_raw() == next);
                    assert(first.id.point_raw() == next + 1);
                    assert(next + 1 < usize::MAX);
                    EntityId::lemma_from_key((next, (next + 1) as usize));
                    EntityId::lemma_eq_components(first.id, EntityId::from_key((next, (next + 1) as usize)));
                    assert(first.id == EntityId::from_key((next, (next + 1) as usize)));
                    assert(st.next == next);
                    assert(st2.points[0] == first);
                }
                assert(cur_points@ =~= split_through(all.take(i + 1), start).points);
            },
            PathEl::LineTo(p) => {
                let pt = PathPoint::on_curve(ids, cur_id, p);
                proof {
                    lemma_child_id(pt.id, cur_id, next);
                    assert(pt == next_child(st, 0, p, PointType::OnCurve { smooth: false }));
                }
                cur_points.push(pt);
                assert(cur_points@ =~= split_through(all.take(i + 1), start).points);
            },
            PathEl::QuadTo(..) => {},
            PathEl::CurveTo(a, b, c) => {
                let pa = PathPoint::off_curve(ids, cur_id, a);
                let pb = PathPoint::off_curve(ids, cur_id, b);
                let pc = PathPoint::on_curve(ids, cur_id, c);
                proof {
                    assert(next + 2 < usize::MAX);
                    lemma_child_id(pa.id, cur_id, next);
                    lemma_child_id(pb.id, cur_id, (next + 1) as usize);
                    lemma_child_id(pc.id, cur_id, (next + 2) as usize);
                    assert(pa == next_child(st, 0, a, PointType::OffCurve { auto: false }));
                    assert(pb == next_child(st, 1, b, PointType::OffCurve { auto: false }));
                    assert(pc == next_child(st, 2, c, PointType::OnCurve { smooth: false }));
                }
                cur_points.push(pa);
                cur_points.push(pb);
                cur_points.push(pc);
                assert(cur_points@ =~= split_through(all.take(i + 1), start).points);
            },
            PathEl::ClosePath => {
                closed = true;
            },
        }
        proof {
            let st2 = split_through(all.take(i + 1), start);
            assert(st2 == split_step(st, el));
            assert(views_of(done@) == st2.done);
            assert(cur_id == st2.id);
            assert(cur_points@ == st2.points);
            assert(closed == st2.closed);
            assert(ids.next_point() == st2.next);
            assert(st2.next <= start + 1 + 3 * (i + 1));
            assert(cur_id.point_raw() < st2.next);
            assert(st2.points.len() > 0 ==> st2.points.last().typ is OnCurve);
            assert forall|j: int| 0 <= j < st2.points.len() implies (#[trigger] st2.points[j]).id.is_child_of_spec(st2.id) by {
                if j < st.points.len() && !(el is MoveTo) {
                    assert(st2.points[j] == st.points[j]);
                }
            }
        }
        i += 1;
    }
    assert(all.take(all.len() as int) =~= all);
    if cur_points.len() > 0 {
        let path = PathPoints::from_raw_parts(cur_id, cur_points, None, closed);
        let ghost db = done@;
        done.push(path);
        assert(views_of(done@) =~= views_of(db).push(path@));
    }
    done
}

} // verus!
