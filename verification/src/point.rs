//! Identifiers for the entities of a glyph, and the points that make up paths.
//!
//! A path point is agnostic to the kind of curve it belongs to (cubic bezier or
//! hyperbezier), and to the representation of its coordinates: the point type
//! is generic over the coordinate payload `P`.

use vstd::prelude::*;
use crate::glyph_names::same_chars;

verus! {

/// Ids below this value are reserved for entity kinds, and are never issued
/// for an entity itself.
pub const RESERVED_ID_COUNT: usize = 5;

/// The parent component of an id that has no parent.
pub const NO_PARENT_TYPE_ID: usize = 0;

/// The parent component of the id of a guide.
pub const GUIDE_TYPE_ID: usize = 1;

/// A unique identifier for some entity, such as a point or a component.
///
/// The entity has two parts; the first ('parent') identifies the type of the
/// entity or the identity of its containing path (for points) and the second
/// ('child') identifies the item itself.
///
/// A given id is unique among the ids issued by one [`IdCounter`].
#[derive(Clone, Copy, PartialEq, Eq, Structural, PartialOrd, Ord, Hash, Debug)]
pub struct EntityId {
    parent: usize,
    point: usize,
}

/// The source of fresh entity ids.
///
/// Every id issued by a counter has a child component that no earlier id from
/// the same counter had, and that is never one of the reserved values.
#[derive(Debug)]
pub struct IdCounter {
    next: usize,
}

impl IdCounter {
    /// The child component of the next id this counter will issue.
    pub closed spec fn next_point(self) -> usize {
        self.next
    }

    /// A counter is valid when it will never hand out a reserved value.
    pub closed spec fn wf(self) -> bool {
        self.next >= RESERVED_ID_COUNT
    }

    /// A new counter, which starts after the reserved ids.
    pub fn new() -> (c: IdCounter)
        ensures
            c.wf(),
            c.next_point() == RESERVED_ID_COUNT,
    {
        IdCounter { next: RESERVED_ID_COUNT }
    }

    /// Takes the next fresh child component.
    fn take(&mut self) -> (p: usize)
        requires
            old(self).wf(),
            old(self).next_point() < usize::MAX,
        ensures
            final(self).wf(),
            p == old(self).next_point(),
            p >= RESERVED_ID_COUNT,
            final(self).next_point() == old(self).next_point() + 1,
    {
        let p = self.next;
        self.next = self.next + 1;
        p
    }
}

impl EntityId {
    /// The parent component of this id.
    pub closed spec fn parent_raw(self) -> usize {
        self.parent
    }

    /// The child component of this id.
    pub closed spec fn point_raw(self) -> usize {
        self.point
    }

    /// The components of this id as a pair, ordered as ids are ordered.
    pub closed spec fn key(self) -> (usize, usize) {
        (self.parent, self.point)
    }

    /// The id with the given components.
    pub closed spec fn from_key(k: (usize, usize)) -> EntityId {
        EntityId { parent: k.0, point: k.1 }
    }

    /// An id is rebuilt from its key.
    pub broadcast proof fn lemma_key_roundtrip(e: EntityId)
        ensures
            #[trigger] EntityId::from_key(e.key()) == e,
            e.key() == (e.parent_raw(), e.point_raw()),
    {
    }

    /// The id built from a key has that key.
    pub broadcast proof fn lemma_from_key(k: (usize, usize))
        ensures
            (#[trigger] EntityId::from_key(k)).key() == k,
            EntityId::from_key(k).parent_raw() == k.0,
            EntityId::from_key(k).point_raw() == k.1,
    {
    }

    /// The key of this id, as an executable value.
    pub(crate) fn key_pair(self) -> (r: (usize, usize))
        ensures
            r == self.key(),
    {
        (self.parent, self.point)
    }

    /// The id with the components of `k`.
    pub(crate) fn from_key_pair(k: (usize, usize)) -> (r: EntityId)
        ensures
            r == EntityId::from_key(k),
    {
        EntityId { parent: k.0, point: k.1 }
    }

    /// Two ids are equal exactly when both of their components are.
    pub proof fn lemma_eq_components(a: EntityId, b: EntityId)
        ensures
            (a == b) <==> (a.parent_raw() == b.parent_raw() && a.point_raw() == b.point_raw()),
    {
    }

    /// Builds an id from its two components.
    pub(crate) fn from_raw_parts(parent: usize, point: usize) -> (id: EntityId)
        ensures
            id.parent_raw() == parent,
            id.point_raw() == point,
    {
        EntityId { parent, point }
    }

    /// The parent component, as an executable value.
    pub(crate) fn parent_component(self) -> (r: usize)
        ensures
            r == self.parent_raw(),
    {
        self.parent
    }

    /// Returns a new unique id, taken from `ids`.
    ///
    /// This id will have no associated parent. If you want a parent id,
    /// use [`EntityId::new_with_parent`].
    pub fn next(ids: &mut IdCounter) -> (id: EntityId)
        requires
            old(ids).wf(),
            old(ids).next_point() < usize::MAX,
        ensures
            final(ids).wf(),
            id.parent_raw() == NO_PARENT_TYPE_ID,
            id.point_raw() == old(ids).next_point(),
            final(ids).next_point() == old(ids).next_point() + 1,
    {
        let point = ids.take();
        EntityId { parent: NO_PARENT_TYPE_ID, point }
    }

    /// Returns a new unique id whose parent is `parent`.
    pub fn new_with_parent(ids: &mut IdCounter, parent: EntityId) -> (id: EntityId)
        requires
            old(ids).wf(),
            old(ids).next_point() < usize::MAX,
        ensures
            final(ids).wf(),
            id.parent_raw() == parent.point_raw(),
            id.point_raw() == old(ids).next_point(),
            final(ids).next_point() == old(ids).next_point() + 1,
            id.is_child_of_spec(parent),
    {
        let point = ids.take();
        EntityId { parent: parent.point, point }
    }

    /// Returns a new unique id for a guide.
    pub fn new_for_guide(ids: &mut IdCounter) -> (id: EntityId)
        requires
            old(ids).wf(),
            old(ids).next_point() < usize::MAX,
        ensures
            final(ids).wf(),
            id.parent_raw() == GUIDE_TYPE_ID,
            id.point_raw() == old(ids).next_point(),
            final(ids).next_point() == old(ids).next_point() + 1,
            id.is_guide_spec(),
    {
        let point = ids.take();
        EntityId { parent: GUIDE_TYPE_ID, point }
    }

    /// Return the `EntityId` representing this id's parent.
    ///
    /// If this entity's parent has its own parent, it will not be present.
    pub fn parent(self) -> (p: EntityId)
        ensures
            p == self.parent_spec(),
            p.parent_raw() == NO_PARENT_TYPE_ID,
            p.point_raw() == self.parent_raw(),
    {
        EntityId { parent: NO_PARENT_TYPE_ID, point: self.parent }
    }

    /// The id of this id's parent, which has no parent of its own.
    pub open spec fn parent_spec(self) -> EntityId {
        EntityId::from_key((NO_PARENT_TYPE_ID, self.parent_raw()))
    }

    pub open spec fn is_guide_spec(self) -> bool {
        self.parent_raw() == GUIDE_TYPE_ID
    }

    /// Whether this id belongs to a guide.
    pub fn is_guide(self) -> (r: bool)
        ensures
            r == self.is_guide_spec(),
    {
        self.parent == GUIDE_TYPE_ID
    }

    pub open spec fn parent_eq_spec(self, other: EntityId) -> bool {
        self.parent_raw() == other.parent_raw()
    }

    /// Whether two ids have the same parent.
    pub fn parent_eq(self, other: EntityId) -> (r: bool)
        ensures
            r == self.parent_eq_spec(other),
    {
        self.parent == other.parent
    }

    pub open spec fn is_child_of_spec(self, other: EntityId) -> bool {
        self.parent_raw() == other.point_raw()
    }

    /// Whether `other` is the parent of this id.
    pub fn is_child_of(self, other: EntityId) -> (r: bool)
        ensures
            r == self.is_child_of_spec(other),
    {
        self.parent == other.point
    }
}

/// An id issued by a valid counter is never one of the reserved ids, and every
/// id issued later by the same counter has a larger child component: ids from
/// one counter never repeat.
pub proof fn lemma_issued_ids_are_fresh(before: IdCounter, after: IdCounter, issued: EntityId)
    requires
        before.wf(),
        issued.point_raw() == before.next_point(),
        after.next_point() > before.next_point(),
    ensures
        issued.point_raw() >= RESERVED_ID_COUNT,
        forall|later: EntityId| #[trigger] later.point_raw() >= after.next_point()
            ==> later != issued,
{
    assert forall|later: EntityId| #[trigger] later.point_raw() >= after.next_point()
        implies later != issued by {
        EntityId::lemma_eq_components(later, issued);
    }
}

/// Two ids taken one after the other with [`EntityId::next`] from a valid
/// counter differ, are not guides, share the "no parent" parent, and differ
/// from every id the counter issued before them.
pub proof fn lemma_next_ids_are_distinct(c0: IdCounter, a: EntityId, c1: IdCounter, b: EntityId)
    requires
        c0.wf(),
        a.parent_raw() == NO_PARENT_TYPE_ID,
        a.point_raw() == c0.next_point(),
        c1.next_point() == c0.next_point() + 1,
        b.parent_raw() == NO_PARENT_TYPE_ID,
        b.point_raw() == c1.next_point(),
    ensures
        a != b,
        !a.is_guide_spec(),
        !b.is_guide_spec(),
        a.parent_eq_spec(b),
        a.parent_spec() == b.parent_spec(),
        forall|earlier: EntityId| #[trigger] earlier.point_raw() < c0.next_point()
            ==> earlier != a && earlier != b,
{
    EntityId::lemma_eq_components(a, b);
    assert forall|earlier: EntityId| #[trigger] earlier.point_raw() < c0.next_point()
        implies earlier != a && earlier != b by {
        EntityId::lemma_eq_components(earlier, a);
        EntityId::lemma_eq_components(earlier, b);
    }
}

/// Two children taken one after the other with [`EntityId::new_with_parent`]
/// for an id `p` that the same valid counter issued earlier both have `p` as
/// their parent, share it, differ from each other and from `p`, and are not
/// guides. Where `p` itself has no parent, it is what `parent` gives back.
pub proof fn lemma_children_share_parent(
    p: EntityId,
    c0: IdCounter,
    x: EntityId,
    c1: IdCounter,
    y: EntityId,
)
    requires
        c0.wf(),
        RESERVED_ID_COUNT <= p.point_raw() < c0.next_point(),
        x.parent_raw() == p.point_raw(),
        x.point_raw() == c0.next_point(),
        c1.next_point() == c0.next_point() + 1,
        y.parent_raw() == p.point_raw(),
        y.point_raw() == c1.next_point(),
    ensures
        x.is_child_of_spec(p),
        y.is_child_of_spec(p),
        x.parent_eq_spec(y),
        x != y,
        x != p,
        y != p,
        !x.is_guide_spec(),
        !y.is_guide_spec(),
        p.parent_raw() == NO_PARENT_TYPE_ID ==> x.parent_spec() == p && y.parent_spec() == p,
{
    EntityId::lemma_eq_components(x, y);
    EntityId::lemma_eq_components(x, p);
    EntityId::lemma_eq_components(y, p);
    EntityId::lemma_from_key((NO_PARENT_TYPE_ID, p.point_raw()));
    EntityId::lemma_eq_components(x.parent_spec(), p);
}

/// Only the ids made by [`EntityId::new_for_guide`] are guides: an id made by
/// [`EntityId::next`] is not, and neither is a child of any id that a valid
/// counter issued, a guide's own id included.
pub proof fn lemma_only_guide_ids_are_guides(g: EntityId, a: EntityId, p: EntityId, c: EntityId)
    requires
        g.parent_raw() == GUIDE_TYPE_ID,
        a.parent_raw() == NO_PARENT_TYPE_ID,
        p.point_raw() >= RESERVED_ID_COUNT,
        c.parent_raw() == p.point_raw(),
    ensures
        g.is_guide_spec(),
        !a.is_guide_spec(),
        !c.is_guide_spec(),
{
}

/// The type of a point: on the curve (possibly smooth), or a control point
/// off the curve (possibly placed automatically).
#[derive(Debug, Clone, Copy, PartialEq, Eq, Structural)]
pub enum PointType {
    OnCurve { smooth: bool },
    OffCurve { auto: bool },
}

/// The kinds of contour point in the UFO format.
#[derive(Debug, Clone, Copy, PartialEq, Eq, Structural)]
pub enum ContourPointKind {
    Move,
    Line,
    OffCurve,
    Curve,
    QCurve,
}

impl PointType {
    /// The type with its smooth or auto flag flipped.
    pub open spec fn toggled(self) -> PointType {
        match self {
            PointType::OnCurve { smooth } => PointType::OnCurve { smooth: !smooth },
            PointType::OffCurve { auto } => PointType::OffCurve { auto: !auto },
        }
    }

    /// The name a point type is saved under.
    pub open spec fn name(self) -> Seq<char> {
        match self {
            PointType::OnCurve { smooth: false } => "OnCurve"@,
            PointType::OnCurve { smooth: true } => "OnCurveSmooth"@,
            PointType::OffCurve { auto: true } => "OffCurveAuto"@,
            PointType::OffCurve { auto: false } => "OffCurve"@,
        }
    }

    /// The point type saved under a name, if any.
    pub open spec fn for_name(s: Seq<char>) -> Option<PointType> {
        if s == "OnCurveSmooth"@ {
            Some(PointType::OnCurve { smooth: true })
        } else if s == "OnCurve"@ {
            Some(PointType::OnCurve { smooth: false })
        } else if s == "OffCurve"@ {
            Some(PointType::OffCurve { auto: false })
        } else if s == "OffCurveAuto"@ {
            Some(PointType::OffCurve { auto: true })
        } else {
            None
        }
    }

    /// The name the point type is saved under.
    pub fn debug_name(self) -> (r: &'static str)
        ensures
            r@ == self.name(),
    {
        match self {
            PointType::OnCurve { smooth: false } => "OnCurve",
            PointType::OnCurve { smooth: true } => "OnCurveSmooth",
            PointType::OffCurve { auto: true } => "OffCurveAuto",
            PointType::OffCurve { auto: false } => "OffCurve",
        }
    }

    /// The point type saved under a name, or none for an unknown name.
    pub fn from_name(s: &str) -> (r: Option<PointType>)
        ensures
            r == PointType::for_name(s@),
    {
        if same_chars(s, "OnCurveSmooth") {
            Some(PointType::OnCurve { smooth: true })
        } else if same_chars(s, "OnCurve") {
            Some(PointType::OnCurve { smooth: false })
        } else if same_chars(s, "OffCurve") {
            Some(PointType::OffCurve { auto: false })
        } else if same_chars(s, "OffCurveAuto") {
            Some(PointType::OffCurve { auto: true })
        } else {
            None
        }
    }

    pub fn is_on_curve(self) -> (r: bool)
        ensures
            r == self is OnCurve,
    {
        matches!(self, PointType::OnCurve { .. })
    }

    pub fn is_off_curve(self) -> (r: bool)
        ensures
            r == self is OffCurve,
    {
        matches!(self, PointType::OffCurve { .. })
    }

    pub fn is_smooth(&self) -> (r: bool)
        ensures
            r == (*self == PointType::OnCurve { smooth: true }),
    {
        matches!(self, PointType::OnCurve { smooth: true })
    }

    /// Toggle smooth to corner and auto to non-auto
    pub fn toggle_type(&mut self)
        ensures
            *final(self) == old(self).toggled(),
    {
        match self {
            PointType::OnCurve { smooth } => *smooth = !*smooth,
            PointType::OffCurve { auto } => *auto = !*auto,
        }
    }

    /// The point type for a UFO contour point of the given kind, smoothness,
    /// and hyperbezier 'auto' flag.
    ///
    /// Quadratic points are not supported.
    pub fn from_contour_point(kind: ContourPointKind, smooth: bool, auto: bool) -> (r: PointType)
        requires
            kind != ContourPointKind::QCurve,
        ensures
            kind == ContourPointKind::OffCurve ==> r == (PointType::OffCurve { auto }),
            kind != ContourPointKind::OffCurve ==> r == (PointType::OnCurve { smooth }),
    {
        match kind {
            ContourPointKind::OffCurve => PointType::OffCurve { auto },
            _ => PointType::OnCurve { smooth },
        }
    }
}

/// Reading back the name a point type is saved under gives that type.
pub proof fn lemma_name_round_trip(t: PointType)
    ensures
        PointType::for_name(t.name()) == Some(t),
{
    reveal_strlit("OnCurve");
    reveal_strlit("OnCurveSmooth");
    reveal_strlit("OffCurve");
    reveal_strlit("OffCurveAuto");
    assert("OnCurve"@.len() == 7);
    assert("OnCurveSmooth"@.len() == 13);
    assert("OffCurve"@.len() == 8);
    assert("OffCurveAuto"@.len() == 12);
}

/// Toggling a point type twice gives back the type it started as, and toggling
/// never moves a point on or off the curve.
pub proof fn lemma_toggle_involution(t: PointType)
    ensures
        t.toggled().toggled() == t,
        (t.toggled() is OnCurve) == (t is OnCurve),
{
}

/// A point in a path: its id, its coordinates, and its type.
#[derive(Clone, Copy, PartialEq, Debug)]
pub struct PathPoint<P> {
    pub id: EntityId,
    pub point: P,
    pub typ: PointType,
}

impl<P: Copy> PathPoint<P> {
    /// A new manual off-curve point in `path`.
    pub fn off_curve(ids: &mut IdCounter, path: EntityId, point: P) -> (pp: PathPoint<P>)
        requires
            old(ids).wf(),
            old(ids).next_point() < usize::MAX,
        ensures
            final(ids).wf(),
            final(ids).next_point() == old(ids).next_point() + 1,
            pp.id.is_child_of_spec(path),
            pp.id.point_raw() == old(ids).next_point(),
            pp.point == point,
            pp.typ == (PointType::OffCurve { auto: false }),
    {
        let id = EntityId::new_with_parent(ids, path);
        PathPoint { id, point, typ: PointType::OffCurve { auto: false } }
    }

    /// A new corner point in `path`.
    pub fn on_curve(ids: &mut IdCounter, path: EntityId, point: P) -> (pp: PathPoint<P>)
        requires
            old(ids).wf(),
            old(ids).next_point() < usize::MAX,
        ensures
            final(ids).wf(),
            final(ids).next_point() == old(ids).next_point() + 1,
            pp.id.is_child_of_spec(path),
            pp.id.point_raw() == old(ids).next_point(),
            pp.point == point,
            pp.typ == (PointType::OnCurve { smooth: false }),
    {
        let id = EntityId::new_with_parent(ids, path);
        PathPoint { id, point, typ: PointType::OnCurve { smooth: false } }
    }

    /// A new smooth on-curve point in `path`.
    pub fn on_curve_smooth(ids: &mut IdCounter, path: EntityId, point: P) -> (pp: PathPoint<P>)
        requires
            old(ids).wf(),
            old(ids).next_point() < usize::MAX,
        ensures
            final(ids).wf(),
            final(ids).next_point() == old(ids).next_point() + 1,
            pp.id.is_child_of_spec(path),
            pp.id.point_raw() == old(ids).next_point(),
            pp.point == point,
            pp.typ == (PointType::OnCurve { smooth: true }),
    {
        let id = EntityId::new_with_parent(ids, path);
        PathPoint { id, point, typ: PointType::OnCurve { smooth: true } }
    }

    /// A new hyperbezier off-curve point in `path`.
    pub fn hyper_off_curve(ids: &mut IdCounter, path: EntityId, point: P, auto: bool) -> (pp:
        PathPoint<P>)
        requires
            old(ids).wf(),
            old(ids).next_point() < usize::MAX,
        ensures
            final(ids).wf(),
            final(ids).next_point() == old(ids).next_point() + 1,
            pp.id.is_child_of_spec(path),
            pp.id.point_raw() == old(ids).next_point(),
            pp.point == point,
            pp.typ == (PointType::OffCurve { auto }),
    {
        let id = EntityId::new_with_parent(ids, path);
        PathPoint { id, point, typ: PointType::OffCurve { auto } }
    }

    pub fn is_on_curve(&self) -> (r: bool)
        ensures
            r == self.typ is OnCurve,
    {
        self.typ.is_on_curve()
    }

    pub fn is_auto(&self) -> (r: bool)
        ensures
            r == (self.typ == PointType::OffCurve { auto: true }),
    {
        matches!(self.typ, PointType::OffCurve { auto: true })
    }

    pub fn is_off_curve(&self) -> (r: bool)
        ensures
            r == self.typ is OffCurve,
    {
        self.typ.is_off_curve()
    }

    pub fn is_smooth(&self) -> (r: bool)
        ensures
            r == (self.typ == PointType::OnCurve { smooth: true }),
    {
        self.typ.is_smooth()
    }

    pub fn toggle_type(&mut self)
        ensures
            final(self).typ == old(self).typ.toggled(),
            final(self).id == old(self).id,
            final(self).point == old(self).point,
    {
        self.typ.toggle_type();
    }

    /// Move this point to another path.
    pub fn reparent(&mut self, new_parent: EntityId)
        ensures
            final(self).id.parent_raw() == new_parent.point_raw(),
            final(self).id.point_raw() == old(self).id.point_raw(),
            final(self).typ == old(self).typ,
            final(self).point == old(self).point,
    {
        self.id.parent = new_parent.point;
    }
}

} // verus!
