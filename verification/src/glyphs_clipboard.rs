//! The text form of contour points on the Glyphs app's clipboard: each
//! node is written as `"x y TYPE"`, where TYPE is LINE, CURVE,
//! CURVE SMOOTH or OFFCURVE.

use vstd::prelude::*;
use vstd::string::StrSliceExecFns;
use crate::glyph_names::same_chars;
use crate::point::{PathPoint, PointType};
use crate::theme::{find_char, find_in, text_chars};

verus! {

/// The name of a node's type; a corner point is a CURVE when the point
/// before it is off the curve, and a LINE otherwise.
pub open spec fn node_type_name(t: PointType, prev_off_curve: bool) -> Seq<char> {
    match t {
        PointType::OnCurve { smooth: false } => if prev_off_curve {
            "CURVE"@
        } else {
            "LINE"@
        },
        PointType::OnCurve { smooth: true } => "CURVE SMOOTH"@,
        PointType::OffCurve { .. } => "OFFCURVE"@,
    }
}

/// The type names of the nodes of a contour; the point before the first
/// is the last.
pub open spec fn node_type_names<P>(pts: Seq<PathPoint<P>>) -> Seq<Seq<char>> {
    Seq::new(
        pts.len(),
        |i: int|
            node_type_name(
                pts[i].typ,
                if i == 0 {
                    pts.last().typ is OffCurve
                } else {
                    pts[i - 1].typ is OffCurve
                },
            ),
    )
}

/// The point type of a node type name.
pub open spec fn type_for_node_name(s: Seq<char>) -> Option<PointType> {
    if s == "CURVE"@ || s == "LINE"@ {
        Some(PointType::OnCurve { smooth: false })
    } else if s == "CURVE SMOOTH"@ {
        Some(PointType::OnCurve { smooth: true })
    } else if s == "OFFCURVE"@ {
        Some(PointType::OffCurve { auto: false })
    } else {
        None
    }
}

/// The type names of the nodes of a contour, in order.
pub fn node_types<P>(points: &[PathPoint<P>]) -> (r: Vec<&'static str>)
    ensures
        r@.map_values(|s: &'static str| s@) == node_type_names(points@),
{
    let mut out: Vec<&'static str> = Vec::new();
    let n = points.len();
    let mut next_is_curve = n > 0 && points[n - 1].typ.is_off_curve();
    let mut i: usize = 0;
    while i < n
        invariant
            n == points@.len(),
            0 <= i <= n,
            next_is_curve == if i == 0 {
                n > 0 && points@.last().typ is OffCurve
            } else {
                points@[i - 1].typ is OffCurve
            },
            out@.map_values(|s: &'static str| s@) == node_type_names(points@).take(i as int),
        decreases n - i,
    {
        let ptyp: &'static str = match points[i].typ {
            PointType::OnCurve { smooth: false } => if next_is_curve {
                "CURVE"
            } else {
                "LINE"
            },
            PointType::OnCurve { smooth: true } => "CURVE SMOOTH",
            PointType::OffCurve { .. } => "OFFCURVE",
        };
        assert(ptyp@ == node_type_name(points@[i as int].typ, next_is_curve));
        assert(node_type_names(points@)[i as int] == node_type_name(points@[i as int].typ, next_is_curve));
        next_is_curve = points[i].typ.is_off_curve();
        let ghost before = out@;
        out.push(ptyp);
        assert(out@.map_values(|s: &'static str| s@) =~= before.map_values(|s: &'static str| s@).push(ptyp@));
        assert(out@.map_values(|s: &'static str| s@) =~= node_type_names(points@).take(i + 1));
        i += 1;
    }
    assert(node_type_names(points@).take(n as int) =~= node_type_names(points@));
    out
}

/// The point type written under a node type name.
pub fn type_for_node(s: &str) -> (r: Option<PointType>)
    ensures
        r == type_for_node_name(s@),
{
    if same_chars(s, "CURVE") || same_chars(s, "LINE") {
        Some(PointType::OnCurve { smooth: false })
    } else if same_chars(s, "CURVE SMOOTH") {
        Some(PointType::OnCurve { smooth: true })
    } else if same_chars(s, "OFFCURVE") {
        Some(PointType::OffCurve { auto: false })
    } else {
        None
    }
}

/// Reading back the type name written for a point gives its type, except
/// that an off-curve point is read as placed by hand.
pub proof fn lemma_node_type_round_trip(t: PointType, prev_off_curve: bool)
    ensures
        type_for_node_name(node_type_name(t, prev_off_curve)) == Some(
            match t {
                PointType::OffCurve { .. } => PointType::OffCurve { auto: false },
                _ => t,
            },
        ),
{
    reveal_strlit("CURVE");
    reveal_strlit("LINE");
    reveal_strlit("CURVE SMOOTH");
    reveal_strlit("OFFCURVE");
    assert("CURVE"@.len() == 5);
    assert("LINE"@.len() == 4);
    assert("CURVE SMOOTH"@.len() == 12);
    assert("OFFCURVE"@.len() == 8);
}

/// The first position of the range that is not a quote mark, or its end.
pub open spec fn quote_lo(t: Seq<char>, a: int, b: int) -> int
    decreases b - a,
{
    if a >= b {
        b
    } else if t[a] == '"' {
        quote_lo(t, a + 1, b)
    } else {
        a
    }
}

/// The position after the last position of the range that is not a quote
/// mark, or its start.
pub open spec fn quote_hi(t: Seq<char>, a: int, b: int) -> int
    decreases b - a,
{
    if b <= a {
        a
    } else if t[b - 1] == '"' {
        quote_hi(t, a, b - 1)
    } else {
        b
    }
}

/// The parts of a node: with the quote marks at either end removed, the
/// text up to the first space, the text up to the second space, and the
/// type named by the rest; `None` when there are fewer than two spaces or
/// the rest names no type.
pub open spec fn node_parts(t: Seq<char>) -> Option<(Seq<char>, Seq<char>, PointType)> {
    let lo = quote_lo(t, 0, t.len() as int);
    let hi = quote_hi(t, lo, t.len() as int);
    let p1 = find_in(t, ' ', lo, hi);
    let p2 = find_in(t, ' ', p1 + 1, hi);
    if p1 >= hi || p2 >= hi {
        None
    } else {
        match type_for_node_name(t.subrange(p2 + 1, hi)) {
            Some(typ) => Some((t.subrange(lo, p1), t.subrange(p1 + 1, p2), typ)),
            None => None,
        }
    }
}

proof fn lemma_find_bounds(t: Seq<char>, c: char, i: int, end: int)
    requires
        i <= end,
    ensures
        i <= find_in(t, c, i, end) <= end,
    decreases end - i,
{
    if i < end && t[i] != c {
        lemma_find_bounds(t, c, i + 1, end);
    }
}

/// The coordinates (as text) and the type of a node.
pub fn node_parts_of(s: &str) -> (r: Option<(&str, &str, PointType)>)
    ensures
        r matches Some((x, y, typ)) ==> node_parts(s@) == Some((x@, y@, typ)),
        r is None ==> node_parts(s@) is None,
{
    let t = text_chars(s);
    let n = t.len();
    let mut lo: usize = 0;
    while lo < n && t[lo] == '"'
        invariant
            t@ == s@,
            n == t.len(),
            0 <= lo <= n,
            quote_lo(t@, 0, n as int) == quote_lo(t@, lo as int, n as int),
        decreases n - lo,
    {
        lo += 1;
    }
    let mut hi: usize = n;
    while hi > lo && t[hi - 1] == '"'
        invariant
            t@ == s@,
            n == t.len(),
            lo <= hi <= n,
            quote_lo(t@, 0, n as int) == lo,
            quote_hi(t@, lo as int, n as int) == quote_hi(t@, lo as int, hi as int),
        decreases hi - lo,
    {
        hi -= 1;
    }
    let p1 = find_char(&t, ' ', lo, hi);
    proof {
        lemma_find_bounds(t@, ' ', lo as int, hi as int);
    }
    if p1 >= hi {
        return None;
    }
    let p2 = find_char(&t, ' ', p1 + 1, hi);
    proof {
        lemma_find_bounds(t@, ' ', p1 + 1, hi as int);
    }
    if p2 >= hi {
        return None;
    }
    let rest = s.substring_char(p2 + 1, hi);
    match type_for_node(rest) {
        Some(typ) => Some((s.substring_char(lo, p1), s.substring_char(p1 + 1, p2), typ)),
        None => None,
    }
}

} // verus!
