//! The segments of a contour: straight lines and cubic curves, each running
//! from one on-curve point to the next.

use vstd::prelude::*;
use crate::point::{EntityId, PathPoint};

verus! {

/// A segment in a one-or-two parameter spline: part of a cubic bezier, or
/// part of a hyperbezier. Quadratics are not supported.
#[derive(Clone, Copy, PartialEq, Debug)]
pub enum Segment<P> {
    Line(PathPoint<P>, PathPoint<P>),
    Cubic(PathPoint<P>, PathPoint<P>, PathPoint<P>, PathPoint<P>),
}

impl<P: Copy> Segment<P> {
    /// The points of the segment, in order.
    pub open spec fn point_seq(self) -> Seq<PathPoint<P>> {
        match self {
            Segment::Line(p1, p2) => seq![p1, p2],
            Segment::Cubic(p1, p2, p3, p4) => seq![p1, p2, p3, p4],
        }
    }

    pub fn start(&self) -> (r: PathPoint<P>)
        ensures
            r == self.point_seq()[0],
    {
        match self {
            Segment::Line(p1, _) => *p1,
            Segment::Cubic(p1, ..) => *p1,
        }
    }

    pub fn end(&self) -> (r: PathPoint<P>)
        ensures
            r == self.point_seq().last(),
    {
        match self {
            Segment::Line(_, p2) => *p2,
            Segment::Cubic(.., p4) => *p4,
        }
    }

    pub fn start_id(&self) -> (r: EntityId)
        ensures
            r == self.point_seq()[0].id,
    {
        self.start().id
    }

    pub fn end_id(&self) -> (r: EntityId)
        ensures
            r == self.point_seq().last().id,
    {
        self.end().id
    }

    /// The points of the segment, in order.
    pub fn points(&self) -> (r: Vec<PathPoint<P>>)
        ensures
            r@ == self.point_seq(),
    {
        match self {
            Segment::Line(p1, p2) => vec![*p1, *p2],
            Segment::Cubic(p1, p2, p3, p4) => vec![*p1, *p2, *p3, *p4],
        }
    }

    /// The ids of the points of the segment, in order.
    pub fn ids(&self) -> (r: Vec<EntityId>)
        ensures
            r@ == self.point_seq().map_values(|p: PathPoint<P>| p.id),
    {
        let r = match self {
            Segment::Line(p1, p2) => vec![p1.id, p2.id],
            Segment::Cubic(p1, p2, p3, p4) => vec![p1.id, p2.id, p3.id, p4.id],
        };
        assert(r@ =~= self.point_seq().map_values(|p: PathPoint<P>| p.id));
        r
    }
}

/// The segments of the points from `idx` on, where the segment before them
/// ended at `prev`: an on-curve point closes a line, and an off-curve point
/// starts a cubic made of it, the point after it, and the on-curve point
/// after that. `None` where a cubic runs past the end of the points or does
/// not end on the curve.
pub open spec fn segments_from<P>(pts: Seq<PathPoint<P>>, idx: int, prev: PathPoint<P>) -> Option<
    Seq<Segment<P>>,
>
    decreases pts.len() - idx,
{
    if idx < 0 || idx >= pts.len() {
        Some(Seq::empty())
    } else if pts[idx].typ is OffCurve {
        if idx + 2 >= pts.len() || pts[idx + 2].typ is OffCurve {
            None
        } else {
            match segments_from(pts, idx + 3, pts[idx + 2]) {
                Some(rest) => Some(seq![Segment::Cubic(prev, pts[idx], pts[idx + 1], pts[idx + 2])] + rest),
                None => None,
            }
        }
    } else {
        match segments_from(pts, idx + 1, pts[idx]) {
            Some(rest) => Some(seq![Segment::Line(prev, pts[idx])] + rest),
            None => None,
        }
    }
}

/// The segments form a chain: the first starts at `prev`, each one starts
/// where the one before it ends, and each one ends on the curve.
pub proof fn lemma_segments_chain<P: Copy>(pts: Seq<PathPoint<P>>, idx: int, prev: PathPoint<P>)
    requires
        0 <= idx,
        segments_from(pts, idx, prev) is Some,
    ensures
        ({
            let segs = segments_from(pts, idx, prev)->0;
            &&& segs.len() > 0 ==> segs[0].point_seq()[0] == prev
            &&& forall|i: int|
                0 <= i < segs.len() - 1 ==> (#[trigger] segs[i]).point_seq().last() == segs[i
                    + 1].point_seq()[0]
            &&& forall|i: int| 0 <= i < segs.len() ==> (#[trigger] segs[i]).point_seq().last().typ is OnCurve
        }),
    decreases pts.len() - idx,
{
    if idx < pts.len() {
        let segs = segments_from(pts, idx, prev)->0;
        if pts[idx].typ is OffCurve {
            let next = pts[idx + 2];
            lemma_segments_chain(pts, idx + 3, next);
            let rest = segments_from(pts, idx + 3, next)->0;
            assert(segs == seq![Segment::Cubic(prev, pts[idx], pts[idx + 1], next)] + rest);
            assert forall|i: int| 0 <= i < segs.len() - 1 implies (#[trigger] segs[i]).point_seq().last()
                == segs[i + 1].point_seq()[0] by {
                if i > 0 {
                    assert(segs[i] == rest[i - 1] && segs[i + 1] == rest[i]);
                }
            }
            assert forall|i: int| 0 <= i < segs.len() implies (#[trigger] segs[i]).point_seq().last().typ is OnCurve by {
                if i > 0 {
                    assert(segs[i] == rest[i - 1]);
                }
            }
        } else {
            let next = pts[idx];
            lemma_segments_chain(pts, idx + 1, next);
            let rest = segments_from(pts, idx + 1, next)->0;
            assert(segs == seq![Segment::Line(prev, next)] + rest);
            assert forall|i: int| 0 <= i < segs.len() - 1 implies (#[trigger] segs[i]).point_seq().last()
                == segs[i + 1].point_seq()[0] by {
                if i > 0 {
                    assert(segs[i] == rest[i - 1] && segs[i + 1] == rest[i]);
                }
            }
            assert forall|i: int| 0 <= i < segs.len() implies (#[trigger] segs[i]).point_seq().last().typ is OnCurve by {
                if i > 0 {
                    assert(segs[i] == rest[i - 1]);
                }
            }
        }
    }
}

/// All the segments of `pts` from position `idx`, whose first segment starts
/// at `start`; `pts` must be well shaped from there on.
pub fn collect_segments<P: Copy>(pts: &[PathPoint<P>], idx: usize, start: PathPoint<P>) -> (r: Vec<Segment<P>>)
    requires
        segments_from(pts@, idx as int, start) is Some,
    ensures
        Some(r@) == segments_from(pts@, idx as int, start),
{
    let mut out: Vec<Segment<P>> = Vec::new();
    let mut i: usize = idx;
    let mut prev = start;
    while i < pts.len()
        invariant
            segments_from(pts@, i as int, prev) is Some,
            segments_from(pts@, idx as int, start) == Some(out@ + segments_from(pts@, i as int, prev)->0),
        decreases pts.len() - i,
    {
        let ghost rest = segments_from(pts@, i as int, prev)->0;
        if !pts[i].is_on_curve() {
            let p1 = pts[i];
            let p2 = pts[i + 1];
            let p3 = pts[i + 2];
            let seg = Segment::Cubic(prev, p1, p2, p3);
            proof {
                let tail = segments_from(pts@, i + 3, p3)->0;
                assert(rest == seq![seg] + tail);
                assert(out@ + rest =~= out@.push(seg) + tail);
            }
            out.push(seg);
            prev = p3;
            i = i + 3;
        } else {
            let p = pts[i];
            let seg = Segment::Line(prev, p);
            proof {
                let tail = segments_from(pts@, i + 1, p)->0;
                assert(rest == seq![seg] + tail);
                assert(out@ + rest =~= out@.push(seg) + tail);
            }
            out.push(seg);
            prev = p;
            i = i + 1;
        }
    }
    assert(segments_from(pts@, i as int, prev) == Some(Seq::<Segment<P>>::empty()));
    assert(out@ + Seq::<Segment<P>>::empty() =~= out@);
    out
}

} // verus!
