//! Hyperbezier contours as they are saved in a UFO glyph.
//!
//! A hyperbezier contour is saved as the cubic contour it renders to, and
//! each of its on-curve points marks the saved point it ends at: the point's
//! lib says that it is a hyperbezier point, and for a curve it holds the two
//! control points and whether each was placed automatically. Reading the
//! contour back keeps only the marked points (and an open contour's first
//! point); the rendered off-curve points are dropped.
//!
//! The saved points are handled here as plain records; the rendering of a
//! hyperbezier segment into cubic elements is done elsewhere and handed in.

use vstd::prelude::*;
use crate::point::{ContourPointKind, EntityId, IdCounter, PathPoint, PointType, NO_PARENT_TYPE_ID};
use crate::point_list::{contour_segments, first_index, ids_below, PathPoints, PathPointsView};
use crate::segment::{lemma_segments_chain, segments_from, Segment};

verus! {

/// The control points that a hyperbezier curve point carries in its lib.
#[derive(Clone, Copy, PartialEq, Debug)]
pub struct HyperControls<P> {
    pub p1: P,
    pub p2: P,
    pub auto1: bool,
    pub auto2: bool,
}

/// A point of a saved contour: where it is, its kind and smoothness, whether
/// its lib marks it as a hyperbezier point, and the control points that the
/// lib holds for it, if any. When a contour is saved, `point_id` is the id of
/// the contour point the saved point stands for (its first point, or the end
/// of a segment), so that the point's identifier can be saved with it; a
/// point that only draws the rendering has none. Reading does not use it.
#[derive(Clone, Copy, PartialEq, Debug)]
pub struct ContourRecord<P> {
    pub point: P,
    pub kind: ContourPointKind,
    pub smooth: bool,
    pub hyper_point: bool,
    pub controls: Option<HyperControls<P>>,
    pub point_id: Option<EntityId>,
}

/// An element of a rendered hyperbezier segment. Elements other than lines
/// and cubic curves are not saved.
#[derive(Clone, Copy, PartialEq, Debug)]
pub enum RenderedEl<P> {
    LineTo(P),
    CurveTo(P, P, P),
    Other,
}

/// The point of a contour whose parent component is `parent` and whose child
/// component is `child`.
pub open spec fn point_at<P>(parent: usize, child: int, point: P, typ: PointType) -> PathPoint<P> {
    PathPoint { id: EntityId::from_key((parent, child as usize)), point, typ }
}

/// The points that one saved point reads back as, their ids taken from
/// `next` on: an open contour's first point is a corner; a marked point is
/// an on-curve point, smooth as saved, after its two control points if it
/// has them; any other point is dropped.
pub open spec fn record_points<P>(r: ContourRecord<P>, parent: usize, next: int) -> Seq<PathPoint<P>> {
    if r.kind == ContourPointKind::Move {
        seq![point_at(parent, next, r.point, PointType::OnCurve { smooth: false })]
    } else if !r.hyper_point {
        Seq::empty()
    } else {
        match r.controls {
            Some(c) => seq![
                point_at(parent, next, c.p1, PointType::OffCurve { auto: c.auto1 }),
                point_at(parent, next + 1, c.p2, PointType::OffCurve { auto: c.auto2 }),
                point_at(parent, next + 2, r.point, PointType::OnCurve { smooth: r.smooth }),
            ],
            None => seq![point_at(parent, next, r.point, PointType::OnCurve { smooth: r.smooth })],
        }
    }
}

/// The points that saved points read back as, in order, their ids taken one
/// after the other from `next` on.
pub open spec fn records_points<P>(rs: Seq<ContourRecord<P>>, parent: usize, next: int) -> Seq<PathPoint<P>>
    decreases rs.len(),
{
    if rs.len() == 0 {
        Seq::empty()
    } else {
        let init = records_points(rs.drop_last(), parent, next);
        init + record_points(rs.last(), parent, next + init.len())
    }
}

/// A saved contour is closed unless one of its points starts it.
pub open spec fn records_closed<P>(rs: Seq<ContourRecord<P>>) -> bool {
    forall|j: int| 0 <= j < rs.len() ==> (#[trigger] rs[j]).kind != ContourPointKind::Move
}

/// The points read back from saved points never end with a control point.
pub proof fn lemma_records_points_end_on_curve<P>(rs: Seq<ContourRecord<P>>, parent: usize, next: int)
    ensures
        records_points(rs, parent, next).len() <= 3 * rs.len(),
        records_points(rs, parent, next).len() > 0 ==> records_points(rs, parent, next).last().typ is OnCurve,
    decreases rs.len(),
{
    if rs.len() > 0 {
        lemma_records_points_end_on_curve(rs.drop_last(), parent, next);
    }
}

/// The points read back from saved points take their ids one after the
/// other, from `next` on.
pub proof fn lemma_records_points_ids<P>(rs: Seq<ContourRecord<P>>, parent: usize, next: int)
    ensures
        forall|j: int| 0 <= j < records_points(rs, parent, next).len() ==> (#[trigger] records_points(
            rs,
            parent,
            next,
        )[j]).id == EntityId::from_key((parent, (next + j) as usize)),
    decreases rs.len(),
{
    if rs.len() > 0 {
        lemma_records_points_ids(rs.drop_last(), parent, next);
        let init = records_points(rs.drop_last(), parent, next);
        let tail = record_points(rs.last(), parent, next + init.len());
        let all = records_points(rs, parent, next);
        assert forall|j: int| 0 <= j < all.len() implies (#[trigger] all[j]).id == EntityId::from_key(
            (parent, (next + j) as usize),
        ) by {
            if j < init.len() {
                assert(all[j] == init[j]);
            } else {
                assert(all[j] == tail[j - init.len()]);
            }
        }
    }
}

/// A point id of a contour is the key of its parent and child components.
proof fn lemma_child_key(id: EntityId, path_id: EntityId, parent: usize, child: usize)
    requires
        path_id == EntityId::from_key((NO_PARENT_TYPE_ID, parent)),
        id.is_child_of_spec(path_id),
        id.point_raw() == child,
    ensures
        id == EntityId::from_key((parent, child)),
{
    EntityId::lemma_from_key((NO_PARENT_TYPE_ID, parent));
    EntityId::lemma_from_key((parent, child));
    EntityId::lemma_eq_components(id, EntityId::from_key((parent, child)));
}

/// For each saved point that reads back as a contour point, its index among
/// the saved points and the id of the on-curve point it reads back as, in
/// order.
pub open spec fn record_origins<P>(rs: Seq<ContourRecord<P>>, parent: usize, next: int) -> Seq<(usize, EntityId)>
    decreases rs.len(),
{
    if rs.len() == 0 {
        Seq::empty()
    } else {
        let init = records_points(rs.drop_last(), parent, next);
        let pts = record_points(rs.last(), parent, next + init.len());
        let o = record_origins(rs.drop_last(), parent, next);
        if pts.len() > 0 {
            o.push(((rs.len() - 1) as usize, pts.last().id))
        } else {
            o
        }
    }
}

/// Reads a hyperbezier contour back from its saved points, taking its ids
/// from `ids`: first the contour's own, then one for each point read, in
/// order. There is no contour where no point is read back, or where an
/// open contour would start with a control point. With the contour come the
/// origins of its on-curve points: for each saved point read back, its
/// index and the id of the on-curve point it became, so that saved
/// identifiers can follow the points.
pub fn points_from_records<P: Copy>(ids: &mut IdCounter, records: &[ContourRecord<P>]) -> (r: Option<
    (PathPoints<P>, Vec<(usize, EntityId)>),
>)
    requires
        old(ids).wf(),
        old(ids).next_point() + 3 * records@.len() + 1 < usize::MAX,
    ensures
        final(ids).wf(),
        ({
            let parent = old(ids).next_point();
            let pts = records_points(records@, parent, parent + 1);
            let closed = records_closed(records@);
            &&& final(ids).next_point() == parent + 1 + pts.len()
            &&& r is None <==> (pts.len() == 0 || (!closed && pts[0].typ is OffCurve))
            &&& r matches Some((pp, origins)) ==> {
                &&& origins@ == record_origins(records@, parent, parent + 1)
                &&& pp@ == (PathPointsView {
                    id: EntityId::from_key((NO_PARENT_TYPE_ID, parent)),
                    points: pts,
                    trailing: None,
                    closed,
                })
                &&& pp.wf()
                &&& ids_below(pp@, final(ids).next_point())
            }
        }),
{
    broadcast use EntityId::lemma_key_roundtrip, EntityId::lemma_from_key;

    let ghost parent = ids.next_point();
    let ghost all = records@;
    let path_id = EntityId::next(ids);
    assert(path_id == EntityId::from_key((NO_PARENT_TYPE_ID, parent))) by {
        EntityId::lemma_eq_components(path_id, EntityId::from_key((NO_PARENT_TYPE_ID, parent)));
    }
    let mut points: Vec<PathPoint<P>> = Vec::new();
    let mut origins: Vec<(usize, EntityId)> = Vec::new();
    let mut closed = true;
    let mut i: usize = 0;
    assert(all.take(0) =~= Seq::<ContourRecord<P>>::empty());
    while i < records.len()
        invariant
            0 <= i <= records.len(),
            all == records@,
            ids.wf(),
            path_id == EntityId::from_key((NO_PARENT_TYPE_ID, parent)),
            parent + 3 * all.len() + 1 < usize::MAX,
            points@ == records_points(all.take(i as int), parent, parent + 1),
            origins@ == record_origins(all.take(i as int), parent, parent + 1),
            points@.len() <= 3 * i,
            ids.next_point() == parent + 1 + points@.len(),
            closed == records_closed(all.take(i as int)),
        decreases records.len() - i,
    {
        let ghost before = points@;
        let ghost next = ids.next_point();
        let rec = records[i];
        proof {
            lemma_records_points_end_on_curve(all.take(i as int), parent, parent + 1);
            assert(all.take(i + 1).drop_last() =~= all.take(i as int));
            assert(all.take(i + 1).last() == rec);
        }
        if rec.kind == ContourPointKind::Move {
            closed = false;
            let start = PathPoint::on_curve(ids, path_id, rec.point);
            proof {
                lemma_child_key(start.id, path_id, parent, next);
            }
            points.push(start);
            origins.push((i, start.id));
        } else if rec.hyper_point {
            match rec.controls {
                Some(c) => {
                    let p1 = PathPoint::hyper_off_curve(ids, path_id, c.p1, c.auto1);
                    let p2 = PathPoint::hyper_off_curve(ids, path_id, c.p2, c.auto2);
                    proof {
                        lemma_child_key(p1.id, path_id, parent, next);
                        lemma_child_key(p2.id, path_id, parent, (next + 1) as usize);
                    }
                    points.push(p1);
                    points.push(p2);
                },
                None => {},
            }
            let ghost next_end = ids.next_point();
            let end = if rec.smooth {
                PathPoint::on_curve_smooth(ids, path_id, rec.point)
            } else {
                PathPoint::on_curve(ids, path_id, rec.point)
            };
            proof {
                lemma_child_key(end.id, path_id, parent, next_end);
            }
            points.push(end);
            origins.push((i, end.id));
        }
        proof {
            assert(points@ =~= before + record_points(rec, parent, next as int));
            if closed {
                assert forall|j: int| 0 <= j < i + 1 implies (#[trigger] all.take(i + 1)[j]).kind
                    != ContourPointKind::Move by {
                    if j < i {
                        assert(all.take(i as int)[j] == all.take(i + 1)[j]);
                    }
                }
            } else {
                if rec.kind != ContourPointKind::Move {
                    let k = choose|k: int| 0 <= k < i && (#[trigger] all.take(i as int)[k]).kind
                        == ContourPointKind::Move;
                    assert(all.take(i + 1)[k] == all.take(i as int)[k]);
                }
                assert(!records_closed(all.take(i + 1)));
            }
        }
        i += 1;
    }
    proof {
        assert(all.take(all.len() as int) =~= all);
        lemma_records_points_end_on_curve(all, parent, parent + 1);
    }
    if points.len() == 0 {
        return None;
    }
    if !closed && !points[0].is_on_curve() {
        return None;
    }
    proof {
        lemma_records_points_ids(all, parent, parent + 1);
        assert forall|j: int| 0 <= j < points@.len() implies (#[trigger] points@[j]).id.is_child_of_spec(
            path_id,
        ) && points@[j].id.point_raw() < ids.next_point() by {
            EntityId::lemma_from_key((parent, (parent + 1 + j) as usize));
        }
    }
    let path = PathPoints::from_raw_parts(path_id, points, None, closed);
    Some((path, origins))
}

/// A saved point that only draws the rendered contour.
pub open spec fn plain<P>(point: P, kind: ContourPointKind) -> ContourRecord<P> {
    ContourRecord { point, kind, smooth: false, hyper_point: false, controls: None, point_id: None }
}

/// The saved points that one rendered element draws.
pub open spec fn el_records<P>(e: RenderedEl<P>) -> Seq<ContourRecord<P>> {
    match e {
        RenderedEl::LineTo(p) => seq![plain(p, ContourPointKind::Curve)],
        RenderedEl::CurveTo(a, b, c) => seq![
            plain(a, ContourPointKind::OffCurve),
            plain(b, ContourPointKind::OffCurve),
            plain(c, ContourPointKind::Curve),
        ],
        RenderedEl::Other => Seq::empty(),
    }
}

/// The saved points that rendered elements draw, in order.
pub open spec fn els_records<P>(els: Seq<RenderedEl<P>>) -> Seq<ContourRecord<P>>
    decreases els.len(),
{
    if els.len() == 0 {
        Seq::empty()
    } else {
        els_records(els.drop_last()) + el_records(els.last())
    }
}

/// `s` with its last record marked as the hyperbezier point with this id,
/// with the given smoothness and control points.
pub open spec fn mark_last<P>(
    s: Seq<ContourRecord<P>>,
    smooth: bool,
    controls: Option<HyperControls<P>>,
    id: EntityId,
) -> Seq<ContourRecord<P>> {
    s.update(s.len() - 1, ContourRecord { smooth, hyper_point: true, controls, point_id: Some(id), ..s.last() })
}

/// Whether a path point is a smooth on-curve point.
pub open spec fn smooth_point<P>(p: PathPoint<P>) -> bool {
    p.typ == (PointType::OnCurve { smooth: true })
}

/// Whether a path point is an automatic control point.
pub open spec fn auto_point<P>(p: PathPoint<P>) -> bool {
    p.typ == (PointType::OffCurve { auto: true })
}

/// The saved points after one more segment: a line saves its end point; a
/// curve saves its rendering. The last saved point then marks the segment's
/// end, with the curve's control points.
pub open spec fn segment_step<P>(acc: Seq<ContourRecord<P>>, seg: Segment<P>, rendered: Seq<RenderedEl<P>>) -> Seq<
    ContourRecord<P>,
> {
    match seg {
        Segment::Line(_, end) => mark_last(
            acc.push(plain(end.point, ContourPointKind::Curve)),
            smooth_point(end),
            None,
            end.id,
        ),
        Segment::Cubic(_, p1, p2, p3) => mark_last(
            acc + els_records(rendered),
            smooth_point(p3),
            Some(HyperControls { p1: p1.point, p2: p2.point, auto1: auto_point(p1), auto2: auto_point(p2) }),
            p3.id,
        ),
    }
}

/// The move that starts a saved open contour, to its first point.
pub open spec fn move_record<P>(first: PathPoint<P>) -> ContourRecord<P> {
    ContourRecord {
        point: first.point,
        kind: ContourPointKind::Move,
        smooth: false,
        hyper_point: false,
        controls: None,
        point_id: Some(first.id),
    }
}

/// The saved points before any segment: an open contour starts with a move
/// to its first point.
pub open spec fn start_records<P>(v: PathPointsView<P>) -> Seq<ContourRecord<P>> {
    if v.closed {
        Seq::empty()
    } else {
        seq![move_record(v.points[0])]
    }
}

/// The saved points after the first `k` segments.
pub open spec fn records_through<P>(
    v: PathPointsView<P>,
    segs: Seq<Segment<P>>,
    rendered: Seq<Vec<RenderedEl<P>>>,
    k: nat,
) -> Seq<ContourRecord<P>>
    decreases k,
{
    if k == 0 {
        start_records(v)
    } else {
        segment_step(records_through(v, segs, rendered, (k - 1) as nat), segs[k - 1], rendered[k - 1]@)
    }
}

/// The number of segments that are saved: each segment is paired with its
/// rendering, and what has no partner is left out.
pub open spec fn paired_len<P>(segs: Seq<Segment<P>>, rendered: Seq<Vec<RenderedEl<P>>>) -> nat {
    if segs.len() <= rendered.len() {
        segs.len()
    } else {
        rendered.len()
    }
}

/// The saved points of a contour, given the rendering of each of its
/// segments. A contour of a single point saves no segment.
pub open spec fn contour_records_spec<P>(v: PathPointsView<P>, rendered: Seq<Vec<RenderedEl<P>>>) -> Seq<
    ContourRecord<P>,
> {
    if v.points.len() > 1 {
        let segs = contour_segments(v)->0;
        records_through(v, segs, rendered, paired_len(segs, rendered))
    } else {
        start_records(v)
    }
}

/// Whether the first segment of a closed contour would leave nothing to
/// mark: a curve whose rendering draws no point.
pub open spec fn first_curve_draws_nothing<P>(v: PathPointsView<P>, rendered: Seq<Vec<RenderedEl<P>>>) -> bool {
    &&& v.closed
    &&& v.points.len() > 1
    &&& contour_segments(v)->0.len() > 0
    &&& rendered.len() > 0
    &&& contour_segments(v)->0[0] is Cubic
    &&& els_records(rendered[0]@).len() == 0
}

/// The saved points that one rendered element draws.
fn push_el_records<P: Copy>(out: &mut Vec<ContourRecord<P>>, e: RenderedEl<P>)
    ensures
        final(out)@ == old(out)@ + el_records(e),
{
    match e {
        RenderedEl::LineTo(p) => {
            out.push(ContourRecord { point: p, kind: ContourPointKind::Curve, smooth: false, hyper_point: false, controls: None, point_id: None });
        },
        RenderedEl::CurveTo(a, b, c) => {
            out.push(ContourRecord { point: a, kind: ContourPointKind::OffCurve, smooth: false, hyper_point: false, controls: None, point_id: None });
            out.push(ContourRecord { point: b, kind: ContourPointKind::OffCurve, smooth: false, hyper_point: false, controls: None, point_id: None });
            out.push(ContourRecord { point: c, kind: ContourPointKind::Curve, smooth: false, hyper_point: false, controls: None, point_id: None });
        },
        RenderedEl::Other => {},
    }
    assert(final(out)@ =~= old(out)@ + el_records(e));
}

/// Marks the last saved point as a hyperbezier point.
fn mark_last_record<P: Copy>(
    out: &mut Vec<ContourRecord<P>>,
    smooth: bool,
    controls: Option<HyperControls<P>>,
    id: EntityId,
)
    requires
        old(out)@.len() > 0,
    ensures
        final(out)@ == mark_last(old(out)@, smooth, controls, id),
{
    let n = out.len();
    let last = out[n - 1];
    out.set(
        n - 1,
        ContourRecord { point: last.point, kind: last.kind, smooth, hyper_point: true, controls, point_id: Some(id) },
    );
}

/// The points a hyperbezier contour is saved as, given the rendering of each
/// of its segments, in order: an open contour's first point as a move, then
/// for each segment the points of its rendering (a line: its end point), the
/// last of which is marked as the segment's end, with its smoothness and, for
/// a curve, its control points.
pub fn contour_records<P: Copy>(path: &PathPoints<P>, rendered: &[Vec<RenderedEl<P>>]) -> (r: Vec<ContourRecord<P>>)
    requires
        path@.points.len() > 0,
        path@.points.len() > 1 ==> contour_segments(path@) is Some,
        !first_curve_draws_nothing(path@, rendered@),
    ensures
        r@ == contour_records_spec(path@, rendered@),
{
    let mut out: Vec<ContourRecord<P>> = Vec::new();
    if !path.closed() {
        let start = *path.start_point();
        out.push(ContourRecord {
            point: start.point,
            kind: ContourPointKind::Move,
            smooth: false,
            hyper_point: false,
            controls: None,
            point_id: Some(start.id),
        });
    }
    assert(out@ == start_records(path@));
    if path.len() > 1 {
        let segs = path.iter_segments();
        let n = if segs.len() <= rendered.len() {
            segs.len()
        } else {
            rendered.len()
        };
        let mut k: usize = 0;
        while k < n
            invariant
                0 <= k <= n,
                n == paired_len(segs@, rendered@),
                n <= segs@.len(),
                n <= rendered@.len(),
                Some(segs@) == contour_segments(path@),
                !first_curve_draws_nothing(path@, rendered@),
                path@.points.len() > 1,
                out@ == records_through(path@, segs@, rendered@, k as nat),
                (k > 0 || !path@.closed) ==> out@.len() > 0,
            decreases n - k,
        {
            match segs[k] {
                Segment::Line(_, end) => {
                    out.push(ContourRecord {
                        point: end.point,
                        kind: ContourPointKind::Curve,
                        smooth: false,
                        hyper_point: false,
                        controls: None,
                        point_id: None,
                    });
                    let smooth = end.is_smooth();
                    mark_last_record(&mut out, smooth, None, end.id);
                },
                Segment::Cubic(_, p1, p2, p3) => {
                    let ghost acc = out@;
                    let els = &rendered[k];
                    let mut j: usize = 0;
                    assert(els@.take(0) =~= Seq::<RenderedEl<P>>::empty());
                    while j < els.len()
                        invariant
                            0 <= j <= els@.len(),
                            out@ == acc + els_records(els@.take(j as int)),
                        decreases els.len() - j,
                    {
                        push_el_records(&mut out, els[j]);
                        assert(els@.take(j + 1).drop_last() =~= els@.take(j as int));
                        j += 1;
                    }
                    assert(els@.take(els@.len() as int) =~= els@);
                    let controls = HyperControls {
                        p1: p1.point,
                        p2: p2.point,
                        auto1: p1.is_auto(),
                        auto2: p2.is_auto(),
                    };
                    let smooth = p3.is_smooth();
                    mark_last_record(&mut out, smooth, Some(controls), p3.id);
                },
            }
            k += 1;
        }
    }
    out
}

/// The positions and types of points, without their ids.
pub open spec fn shape_of<P>(pts: Seq<PathPoint<P>>) -> Seq<(P, PointType)> {
    pts.map_values(|p: PathPoint<P>| (p.point, p.typ))
}

/// The points a segment adds after its start.
pub open spec fn seg_tail<P>(seg: Segment<P>) -> Seq<PathPoint<P>> {
    match seg {
        Segment::Line(_, e) => seq![e],
        Segment::Cubic(_, a, b, e) => seq![a, b, e],
    }
}

/// The points the segments add after their starts, in order.
pub open spec fn tails<P>(segs: Seq<Segment<P>>) -> Seq<PathPoint<P>>
    decreases segs.len(),
{
    if segs.len() == 0 {
        Seq::empty()
    } else {
        seg_tail(segs[0]) + tails(segs.skip(1))
    }
}

/// The points a contour reads back as after it is saved: all of them, but an
/// open contour's first point comes back as a corner.
pub open spec fn read_back_points<P>(v: PathPointsView<P>) -> Seq<PathPoint<P>> {
    if v.closed {
        v.points
    } else {
        v.points.update(0, PathPoint { typ: PointType::OnCurve { smooth: false }, ..v.points[0] })
    }
}

/// Whether the segments and their renderings save as they read back: the
/// middle points of each curve are control points, and the rendering of
/// each curve draws a point, the last of which is the curve's end.
pub open spec fn saves_faithfully<P>(segs: Seq<Segment<P>>, rendered: Seq<Vec<RenderedEl<P>>>) -> bool {
    &&& rendered.len() >= segs.len()
    &&& forall|i: int|
        0 <= i < segs.len() ==> match #[trigger] segs[i] {
            Segment::Cubic(_, a, b, e) => {
                &&& b.typ is OffCurve
                &&& els_records(rendered[i]@).len() > 0
                &&& els_records(rendered[i]@).last().point == e.point
            },
            Segment::Line(..) => true,
        }
}

proof fn lemma_tails_push<P>(segs: Seq<Segment<P>>, s: Segment<P>)
    ensures
        tails(segs.push(s)) == tails(segs) + seg_tail(s),
    decreases segs.len(),
{
    if segs.len() == 0 {
        let t = segs.push(s);
        assert(t[0] == s);
        assert(t.skip(1) =~= Seq::<Segment<P>>::empty());
        assert(tails(t.skip(1)) == Seq::<PathPoint<P>>::empty());
        assert(tails(t) == seg_tail(s) + tails(t.skip(1)));
        assert(tails(segs) == Seq::<PathPoint<P>>::empty());
        assert(seg_tail(s) + Seq::<PathPoint<P>>::empty() =~= Seq::<PathPoint<P>>::empty() + seg_tail(s));
    } else {
        lemma_tails_push(segs.skip(1), s);
        assert(segs.push(s).skip(1) =~= segs.skip(1).push(s));
        assert(segs.push(s)[0] == segs[0]);
        let h = seg_tail(segs[0]);
        let t = tails(segs.skip(1));
        assert(tails(segs.push(s)) == h + (t + seg_tail(s)));
        assert(tails(segs) == h + t);
        assert(h + (t + seg_tail(s)) =~= (h + t) + seg_tail(s));
    }
}

/// The segments from `idx` on add exactly the points from `idx` on.
proof fn lemma_tails_cover<P>(pts: Seq<PathPoint<P>>, idx: int, prev: PathPoint<P>)
    requires
        0 <= idx <= pts.len(),
        segments_from(pts, idx, prev) is Some,
    ensures
        tails(segments_from(pts, idx, prev)->0) == pts.skip(idx),
    decreases pts.len() - idx,
{
    let segs = segments_from(pts, idx, prev)->0;
    if idx == pts.len() {
        assert(pts.skip(idx) =~= Seq::<PathPoint<P>>::empty());
    } else if pts[idx].typ is OffCurve {
        let rest = segments_from(pts, idx + 3, pts[idx + 2])->0;
        lemma_tails_cover(pts, idx + 3, pts[idx + 2]);
        assert(segs.skip(1) =~= rest);
        assert(pts.skip(idx) =~= seq![pts[idx], pts[idx + 1], pts[idx + 2]] + pts.skip(idx + 3));
    } else {
        let rest = segments_from(pts, idx + 1, pts[idx])->0;
        lemma_tails_cover(pts, idx + 1, pts[idx]);
        assert(segs.skip(1) =~= rest);
        assert(pts.skip(idx) =~= seq![pts[idx]] + pts.skip(idx + 1));
    }
}

/// Records that only draw the rendered contour read back as nothing.
proof fn lemma_plain_records<P>(acc: Seq<ContourRecord<P>>, plains: Seq<ContourRecord<P>>, parent: usize, next: int)
    requires
        forall|i: int| 0 <= i < plains.len() ==> (#[trigger] plains[i]).kind != ContourPointKind::Move
            && !plains[i].hyper_point,
    ensures
        records_points(acc + plains, parent, next) == records_points(acc, parent, next),
    decreases plains.len(),
{
    if plains.len() > 0 {
        assert((acc + plains).drop_last() =~= acc + plains.drop_last());
        lemma_plain_records(acc, plains.drop_last(), parent, next);
        assert((acc + plains).last() == plains[plains.len() - 1]);
    } else {
        assert(acc + plains =~= acc);
    }
}

/// The records drawn by rendered elements only draw.
proof fn lemma_els_plain<P>(els: Seq<RenderedEl<P>>)
    ensures
        forall|i: int| 0 <= i < els_records(els).len() ==> (#[trigger] els_records(els)[i]).kind
            != ContourPointKind::Move && !els_records(els)[i].hyper_point,
    decreases els.len(),
{
    if els.len() > 0 {
        lemma_els_plain(els.drop_last());
        let a = els_records(els.drop_last());
        let b = el_records(els.last());
        assert forall|i: int| 0 <= i < els_records(els).len() implies (#[trigger] els_records(els)[i]).kind
            != ContourPointKind::Move && !els_records(els)[i].hyper_point by {
            if i >= a.len() {
                assert(els_records(els)[i] == b[i - a.len()]);
            } else {
                assert(els_records(els)[i] == a[i]);
            }
        }
    }
}

/// Saving one more segment adds its points to what reads back.
proof fn lemma_step_reads_back<P>(
    acc: Seq<ContourRecord<P>>,
    seg: Segment<P>,
    rendered: Seq<RenderedEl<P>>,
    parent: usize,
    next: int,
)
    requires
        match seg {
            Segment::Cubic(_, a, b, e) => {
                &&& a.typ is OffCurve
                &&& b.typ is OffCurve
                &&& e.typ is OnCurve
                &&& els_records(rendered).len() > 0
                &&& els_records(rendered).last().point == e.point
            },
            Segment::Line(_, e) => e.typ is OnCurve,
        },
    ensures
        shape_of(records_points(segment_step(acc, seg, rendered), parent, next)) == shape_of(
            records_points(acc, parent, next),
        ) + shape_of(seg_tail(seg)),
{
    let base = records_points(acc, parent, next);
    match seg {
        Segment::Line(_, e) => {
            let s = acc.push(plain(e.point, ContourPointKind::Curve));
            let m = mark_last(s, smooth_point(e), None, e.id);
            assert(m.drop_last() =~= acc);
            let tail = record_points(m.last(), parent, next + base.len());
            assert(records_points(m, parent, next) == base + tail);
            assert(shape_of(base + tail) =~= shape_of(base) + shape_of(tail));
            assert(shape_of(tail) =~= shape_of(seg_tail(seg)));
        },
        Segment::Cubic(_, a, b, e) => {
            let els = els_records(rendered);
            let s = acc + els;
            let controls = Some(HyperControls { p1: a.point, p2: b.point, auto1: auto_point(a), auto2: auto_point(b) });
            let m = mark_last(s, smooth_point(e), controls, e.id);
            assert(m.drop_last() =~= acc + els.drop_last());
            lemma_els_plain(rendered);
            assert forall|i: int| 0 <= i < els.drop_last().len() implies (#[trigger] els.drop_last()[i]).kind
                != ContourPointKind::Move && !els.drop_last()[i].hyper_point by {
                assert(els.drop_last()[i] == els[i]);
            }
            lemma_plain_records(acc, els.drop_last(), parent, next);
            assert(m.last().kind != ContourPointKind::Move) by {
                assert(els[els.len() - 1].kind != ContourPointKind::Move);
            }
            let tail = record_points(m.last(), parent, next + base.len());
            assert(records_points(m, parent, next) == base + tail);
            assert(shape_of(base + tail) =~= shape_of(base) + shape_of(tail));
            assert(shape_of(tail) =~= shape_of(seg_tail(seg)));
        },
    }
}

/// A curve of the segments starts with a control point.
proof fn lemma_cubics_start_off<P: Copy>(pts: Seq<PathPoint<P>>, idx: int, prev: PathPoint<P>)
    requires
        0 <= idx,
        segments_from(pts, idx, prev) is Some,
    ensures
        forall|i: int| 0 <= i < segments_from(pts, idx, prev)->0.len() ==> (#[trigger] segments_from(
            pts,
            idx,
            prev,
        )->0[i] is Cubic ==> segments_from(pts, idx, prev)->0[i].point_seq()[1].typ is OffCurve),
    decreases pts.len() - idx,
{
    if idx < pts.len() {
        let segs = segments_from(pts, idx, prev)->0;
        if pts[idx].typ is OffCurve {
            lemma_cubics_start_off(pts, idx + 3, pts[idx + 2]);
            let rest = segments_from(pts, idx + 3, pts[idx + 2])->0;
            assert forall|i: int| 0 <= i < segs.len() implies (#[trigger] segs[i] is Cubic ==> segs[i].point_seq()[1].typ is OffCurve) by {
                if i > 0 {
                    assert(segs[i] == rest[i - 1]);
                }
            }
        } else {
            lemma_cubics_start_off(pts, idx + 1, pts[idx]);
            let rest = segments_from(pts, idx + 1, pts[idx])->0;
            assert forall|i: int| 0 <= i < segs.len() implies (#[trigger] segs[i] is Cubic ==> segs[i].point_seq()[1].typ is OffCurve) by {
                if i > 0 {
                    assert(segs[i] == rest[i - 1]);
                }
            }
        }
    }
}

/// Saving the first `k` segments keeps an open contour's move first, and
/// gives a closed contour no move.
proof fn lemma_through_closed<P: Copy>(
    v: PathPointsView<P>,
    segs: Seq<Segment<P>>,
    rendered: Seq<Vec<RenderedEl<P>>>,
    k: nat,
)
    requires
        v.points.len() > 0,
        k <= segs.len(),
        saves_faithfully(segs, rendered),
    ensures
        ({
            let rs = records_through(v, segs, rendered, k);
            &&& !v.closed ==> rs.len() > 0 && rs[0] == move_record(v.points[0])
            &&& v.closed ==> records_closed(rs)
        }),
    decreases k,
{
    if k > 0 {
        lemma_through_closed(v, segs, rendered, (k - 1) as nat);
        let acc = records_through(v, segs, rendered, (k - 1) as nat);
        let rs = records_through(v, segs, rendered, k);
        let seg = segs[k - 1];
        let els = els_records(rendered[k - 1]@);
        lemma_els_plain(rendered[k - 1]@);
        match seg {
            Segment::Line(_, e) => {
                let t = acc.push(plain(e.point, ContourPointKind::Curve));
                assert(rs == mark_last(t, smooth_point(e), None, e.id));
                if !v.closed {
                    assert(rs[0] == t[0]);
                } else {
                    assert forall|j: int| 0 <= j < rs.len() implies (#[trigger] rs[j]).kind != ContourPointKind::Move by {
                        assert(rs[j].kind == t[j].kind);
                        if j < acc.len() {
                            assert(t[j] == acc[j]);
                        }
                    }
                }
            },
            Segment::Cubic(..) => {
                let t = acc + els;
                assert(els.len() > 0);
                if !v.closed {
                    assert(rs[0] == t[0]);
                } else {
                    assert forall|j: int| 0 <= j < rs.len() implies (#[trigger] rs[j]).kind != ContourPointKind::Move by {
                        assert(rs[j].kind == t[j].kind);
                        if j < acc.len() {
                            assert(t[j] == acc[j]);
                        } else {
                            assert(t[j] == els[j - acc.len()]);
                        }
                    }
                }
            },
        }
    }
}

/// Saving the first `k` segments reads back as the points they add.
proof fn lemma_through_reads_back<P: Copy>(
    v: PathPointsView<P>,
    segs: Seq<Segment<P>>,
    rendered: Seq<Vec<RenderedEl<P>>>,
    k: nat,
    parent: usize,
    next: int,
)
    requires
        k <= segs.len(),
        saves_faithfully(segs, rendered),
        forall|i: int| 0 <= i < segs.len() ==> (#[trigger] segs[i]).point_seq().last().typ is OnCurve,
        forall|i: int| 0 <= i < segs.len() ==> (#[trigger] segs[i] is Cubic ==> segs[i].point_seq()[1].typ is OffCurve),
    ensures
        shape_of(records_points(records_through(v, segs, rendered, k), parent, next)) == shape_of(
            records_points(start_records(v), parent, next),
        ) + shape_of(tails(segs.take(k as int))),
    decreases k,
{
    if k == 0 {
        assert(segs.take(0) =~= Seq::<Segment<P>>::empty());
        assert(shape_of(tails(segs.take(0))) =~= Seq::<(P, PointType)>::empty());
        assert(shape_of(records_points(start_records(v), parent, next)) + Seq::<(P, PointType)>::empty()
            =~= shape_of(records_points(start_records(v), parent, next)));
    } else {
        lemma_through_reads_back(v, segs, rendered, (k - 1) as nat, parent, next);
        let seg = segs[k - 1];
        assert(seg.point_seq().last().typ is OnCurve);
        assert(seg is Cubic ==> seg.point_seq()[1].typ is OffCurve);
        lemma_step_reads_back(records_through(v, segs, rendered, (k - 1) as nat), seg, rendered[k - 1]@, parent, next);
        assert(segs.take(k as int) =~= segs.take(k - 1).push(seg));
        lemma_tails_push(segs.take(k - 1), seg);
        let a = shape_of(records_points(start_records(v), parent, next));
        let b = tails(segs.take(k - 1));
        assert(shape_of(b + seg_tail(seg)) =~= shape_of(b) + shape_of(seg_tail(seg)));
        assert(a + shape_of(b) + shape_of(seg_tail(seg)) =~= a + (shape_of(b) + shape_of(seg_tail(seg))));
    }
}

/// Whether saving a contour and reading it back gives its points again: an
/// open contour of a single point, or a contour of several points whose
/// curves have control points in the middle and whose rendering ends at each
/// curve's end.
pub open spec fn round_trips<P: Copy>(v: PathPointsView<P>, rendered: Seq<Vec<RenderedEl<P>>>) -> bool {
    ||| v.points.len() == 1 && !v.closed
    ||| v.points.len() > 1 && contour_segments(v) is Some && saves_faithfully(contour_segments(v)->0, rendered)
}

/// Saving a contour and reading it back gives its points again, with new
/// ids: their positions and types, in order, and whether the contour is
/// closed; only an open contour's first point comes back as a corner. (A
/// closed contour of a single point saves no point.)
pub proof fn lemma_saved_contour_reads_back<P: Copy>(
    v: PathPointsView<P>,
    rendered: Seq<Vec<RenderedEl<P>>>,
    parent: usize,
    next: int,
)
    requires
        round_trips(v, rendered),
    ensures
        shape_of(records_points(contour_records_spec(v, rendered), parent, next)) == shape_of(read_back_points(v)),
        records_closed(contour_records_spec(v, rendered)) == v.closed,
{
    if v.points.len() == 1 {
        lemma_start_reads_back(v, parent, next);
        let first = PathPoint { typ: PointType::OnCurve { smooth: false }, ..v.points[0] };
        assert(read_back_points(v) =~= seq![first]);
        assert(shape_of(read_back_points(v)) =~= seq![(v.points[0].point, PointType::OnCurve { smooth: false })]);
        let rs = contour_records_spec(v, rendered);
        assert(rs[0].kind == ContourPointKind::Move);
    } else {
        lemma_reads_back_segments(v, rendered, parent, next);
    }
}

proof fn lemma_reads_back_segments<P: Copy>(
    v: PathPointsView<P>,
    rendered: Seq<Vec<RenderedEl<P>>>,
    parent: usize,
    next: int,
)
    requires
        v.points.len() > 1,
        contour_segments(v) is Some,
        saves_faithfully(contour_segments(v)->0, rendered),
    ensures
        shape_of(records_points(contour_records_spec(v, rendered), parent, next)) == shape_of(read_back_points(v)),
        records_closed(contour_records_spec(v, rendered)) == v.closed,
{
    let segs = contour_segments(v)->0;
    let idx = if v.closed { 0int } else { 1int };
    let prev = v.points[first_index(v.points.len() as int, v.closed)];
    lemma_segments_chain(v.points, idx, prev);
    lemma_cubics_start_off(v.points, idx, prev);
    lemma_through_reads_back(v, segs, rendered, segs.len(), parent, next);
    lemma_tails_cover(v.points, idx, prev);
    assert(segs.take(segs.len() as int) =~= segs);
    lemma_start_reads_back(v, parent, next);
    lemma_read_back_split(v);
    lemma_through_closed(v, segs, rendered, segs.len());
    if !v.closed {
        let rs = contour_records_spec(v, rendered);
        assert(rs[0].kind == ContourPointKind::Move);
    }
}

/// What an open contour's move reads back as.
proof fn lemma_start_reads_back<P>(v: PathPointsView<P>, parent: usize, next: int)
    requires
        v.points.len() > 0,
    ensures
        shape_of(records_points(start_records(v), parent, next)) == if v.closed {
            Seq::<(P, PointType)>::empty()
        } else {
            seq![(v.points[0].point, PointType::OnCurve { smooth: false })]
        },
{
    let rs = start_records(v);
    if v.closed {
        assert(records_points(rs, parent, next) =~= Seq::<PathPoint<P>>::empty());
        assert(shape_of(records_points(rs, parent, next)) =~= Seq::<(P, PointType)>::empty());
    } else {
        assert(rs.drop_last() =~= Seq::<ContourRecord<P>>::empty());
        assert(records_points(rs.drop_last(), parent, next) =~= Seq::<PathPoint<P>>::empty());
        let pts = records_points(rs, parent, next);
        assert(pts =~= record_points(rs.last(), parent, next));
        assert(shape_of(pts) =~= seq![(v.points[0].point, PointType::OnCurve { smooth: false })]);
    }
}

/// The points a contour reads back as: an open contour's corner first point,
/// then the points after it.
proof fn lemma_read_back_split<P>(v: PathPointsView<P>)
    requires
        v.points.len() > 0,
    ensures
        shape_of(read_back_points(v)) == if v.closed {
            shape_of(v.points.skip(0))
        } else {
            seq![(v.points[0].point, PointType::OnCurve { smooth: false })] + shape_of(v.points.skip(1))
        },
{
    if v.closed {
        assert(v.points.skip(0) =~= v.points);
    } else {
        let first = PathPoint { typ: PointType::OnCurve { smooth: false }, ..v.points[0] };
        assert(read_back_points(v) =~= seq![first] + v.points.skip(1));
        assert(shape_of(seq![first] + v.points.skip(1)) =~= seq![(v.points[0].point, PointType::OnCurve { smooth: false })]
            + shape_of(v.points.skip(1)));
    }
}

} // verus!
