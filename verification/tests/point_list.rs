use runebender::point::{EntityId, IdCounter, PathPoint, PointType};
use runebender::point_list::{PathPoints, PointStyle};
use runebender::segment::Segment;

type Pt = (i32, i32);

fn on(ids: &mut IdCounter, path: EntityId, x: i32) -> PathPoint<Pt> {
    PathPoint::on_curve(ids, path, (x, 0))
}

fn off(ids: &mut IdCounter, path: EntityId, x: i32) -> PathPoint<Pt> {
    PathPoint::off_curve(ids, path, (x, 1))
}

fn smooth(ids: &mut IdCounter, path: EntityId, x: i32) -> PathPoint<Pt> {
    PathPoint::on_curve_smooth(ids, path, (x, 0))
}

fn xs(path: &PathPoints<Pt>) -> Vec<i32> {
    path.as_slice().iter().map(|p| p.point.0).collect()
}

#[test]
fn new_path_has_one_corner() {
    let mut ids = IdCounter::new();
    let path = PathPoints::new(&mut ids, (3, 4));
    assert_eq!(path.len(), 1);
    assert!(!path.closed());
    assert_eq!(path.start_point().point, (3, 4));
    assert!(path.start_point().id.is_child_of(path.id()));
    assert_eq!(path.trailing(), None);
}

#[test]
fn push_and_close() {
    let mut ids = IdCounter::new();
    let mut path = PathPoints::new(&mut ids, (0, 0));
    let first = path.start_point().id;
    path.push_on_curve(&mut ids, (1, 0));
    path.push_on_curve(&mut ids, (2, 0));
    assert_eq!(xs(&path), vec![0, 1, 2]);
    let start = path.close();
    assert_eq!(start, first);
    assert!(path.closed());
    // the start point is stored last
    assert_eq!(xs(&path), vec![1, 2, 0]);
    assert_eq!(path.start_point().point, (0, 0));
    let in_order: Vec<i32> = path.iter_points().iter().map(|p| p.point.0).collect();
    assert_eq!(in_order, vec![0, 1, 2]);
}

#[test]
fn closed_path_is_rotated_to_end_on_curve() {
    let mut ids = IdCounter::new();
    let path_id = EntityId::next(&mut ids);
    let a = off(&mut ids, path_id, 1);
    let b = on(&mut ids, path_id, 2);
    let c = on(&mut ids, path_id, 3);
    let d = off(&mut ids, path_id, 4);
    let path = PathPoints::from_raw_parts(path_id, vec![a, b, c, d], None, true);
    assert_eq!(xs(&path), vec![3, 4, 1, 2]);
}

#[test]
fn segments_of_open_and_closed_paths() {
    let mut ids = IdCounter::new();
    let path_id = EntityId::next(&mut ids);
    let a = on(&mut ids, path_id, 0);
    let h1 = off(&mut ids, path_id, 1);
    let h2 = off(&mut ids, path_id, 2);
    let b = on(&mut ids, path_id, 3);
    let c = on(&mut ids, path_id, 4);
    let open = PathPoints::from_raw_parts(path_id, vec![a, h1, h2, b, c], None, false);
    assert_eq!(
        open.iter_segments(),
        vec![Segment::Cubic(a, h1, h2, b), Segment::Line(b, c)]
    );
    let closed = PathPoints::from_raw_parts(path_id, vec![h1, h2, b, c, a], None, true);
    assert_eq!(
        closed.iter_segments(),
        vec![
            Segment::Cubic(a, h1, h2, b),
            Segment::Line(b, c),
            Segment::Line(c, a)
        ]
    );
    let seg = Segment::Cubic(a, h1, h2, b);
    assert_eq!(seg.start_id(), a.id);
    assert_eq!(seg.end_id(), b.id);
    assert_eq!(seg.ids(), vec![a.id, h1.id, h2.id, b.id]);
    assert_eq!(seg.points(), vec![a, h1, h2, b]);
}

#[test]
fn reverse_keeps_start_point() {
    let mut ids = IdCounter::new();
    let path_id = EntityId::next(&mut ids);
    let pts: Vec<_> = (0..4).map(|x| on(&mut ids, path_id, x)).collect();
    let mut closed = PathPoints::from_raw_parts(path_id, pts.clone(), None, true);
    closed.reverse_contour();
    assert_eq!(xs(&closed), vec![2, 1, 0, 3]);
    let mut open = PathPoints::from_raw_parts(path_id, pts, None, false);
    open.reverse_contour();
    assert_eq!(xs(&open), vec![3, 2, 1, 0]);
}

#[test]
fn neighbours_wrap_around() {
    let mut ids = IdCounter::new();
    let path_id = EntityId::next(&mut ids);
    let pts: Vec<_> = (0..3).map(|x| on(&mut ids, path_id, x)).collect();
    let path = PathPoints::from_raw_parts(path_id, pts.clone(), None, true);
    assert_eq!(path.prev_point(pts[0].id).point.0, 2);
    assert_eq!(path.next_point(pts[2].id).point.0, 0);
    assert_eq!(path.path_point_for_id(pts[1].id).map(|p| p.point.0), Some(1));
    let mut cursor = path.cursor(Some(pts[2].id));
    assert_eq!(cursor.idx(), 2);
    assert_eq!(cursor.next(&path).map(|p| p.point.0), Some(0));
    cursor.move_to_start(&path);
    assert_eq!(cursor.idx(), 2);
    let open = PathPoints::from_raw_parts(path_id, pts, None, false);
    let cursor = open.cursor(None);
    assert_eq!(cursor.idx(), 0);
    assert_eq!(cursor.prev(&open), None);
}

#[test]
fn tangent_handles() {
    let mut ids = IdCounter::new();
    let path_id = EntityId::next(&mut ids);
    let a = on(&mut ids, path_id, 0);
    let h1 = off(&mut ids, path_id, 1);
    let h2 = off(&mut ids, path_id, 2);
    let s = smooth(&mut ids, path_id, 3);
    let h3 = off(&mut ids, path_id, 4);
    let h4 = off(&mut ids, path_id, 5);
    let b = on(&mut ids, path_id, 6);
    let path = PathPoints::from_raw_parts(path_id, vec![a, h1, h2, s, h3, h4, b], None, false);
    // h2 sits before the smooth point, whose other handle is h3
    assert_eq!(path.tangent_handle_opt(2), Some((3, Some(4))));
    assert_eq!(path.tangent_handle(2), Some((3, 4)));
    // h1 sits after a corner point
    assert_eq!(path.tangent_handle_opt(1), Some((0, None)));
    assert_eq!(path.tangent_handle(1), None);
}

#[test]
fn points_with_their_handles() {
    let mut ids = IdCounter::new();
    let path_id = EntityId::next(&mut ids);
    let a = on(&mut ids, path_id, 0);
    let h1 = off(&mut ids, path_id, 1);
    let h2 = off(&mut ids, path_id, 2);
    let b = on(&mut ids, path_id, 3);
    let path = PathPoints::from_raw_parts(path_id, vec![a, h1, h2, b], None, false);
    let mut idxs = path.points_for_points(&[b.id, b.id]);
    idxs.sort();
    assert_eq!(idxs, vec![2, 3]);
    let mut idxs = path.points_for_points(&[a.id, h2.id]);
    idxs.sort();
    assert_eq!(idxs, vec![0, 1, 2]);
}

#[test]
fn delete_line_point() {
    let mut ids = IdCounter::new();
    let path_id = EntityId::next(&mut ids);
    let pts: Vec<_> = (0..3).map(|x| on(&mut ids, path_id, x)).collect();
    let mut path = PathPoints::from_raw_parts(path_id, pts.clone(), None, false);
    path.delete_point(pts[1].id);
    assert_eq!(xs(&path), vec![0, 2]);
    assert!(!path.closed());
}

#[test]
fn delete_off_curve_takes_its_partner() {
    let mut ids = IdCounter::new();
    let path_id = EntityId::next(&mut ids);
    let p0 = on(&mut ids, path_id, 0);
    let p1 = off(&mut ids, path_id, 1);
    let p2 = off(&mut ids, path_id, 2);
    let p3 = on(&mut ids, path_id, 3);
    let p4 = on(&mut ids, path_id, 4);
    let mut path = PathPoints::from_raw_parts(path_id, vec![p0, p1, p2, p3, p4], None, true);
    path.delete_point(p1.id);
    assert_eq!(xs(&path), vec![0, 3, 4]);
    assert!(path.closed());
}

#[test]
fn delete_smooth_point_between_curves() {
    let mut ids = IdCounter::new();
    let path_id = EntityId::next(&mut ids);
    let h1 = off(&mut ids, path_id, 1);
    let h2 = off(&mut ids, path_id, 2);
    let s = smooth(&mut ids, path_id, 3);
    let h3 = off(&mut ids, path_id, 4);
    let h4 = off(&mut ids, path_id, 5);
    let a = on(&mut ids, path_id, 6);
    let mut path = PathPoints::from_raw_parts(path_id, vec![h1, h2, s, h3, h4, a], None, true);
    path.delete_point(s.id);
    assert_eq!(xs(&path), vec![6]);
    assert!(!path.closed());
}

#[test]
fn delete_makes_smooth_point_a_corner() {
    let mut ids = IdCounter::new();
    let path_id = EntityId::next(&mut ids);
    let a = on(&mut ids, path_id, 0);
    let h1 = off(&mut ids, path_id, 1);
    let h2 = off(&mut ids, path_id, 2);
    let s = smooth(&mut ids, path_id, 3);
    let c = on(&mut ids, path_id, 4);
    let d = on(&mut ids, path_id, 5);
    let mut path = PathPoints::from_raw_parts(path_id, vec![a, h1, h2, s, c, d], None, true);
    path.delete_point(h1.id);
    assert_eq!(xs(&path), vec![0, 3, 4, 5]);
    assert_eq!(path.as_slice()[1].typ, PointType::OnCurve { smooth: false });
    assert!(path.closed());
}

#[test]
fn delete_from_four_points_keeps_on_curve() {
    let mut ids = IdCounter::new();
    let path_id = EntityId::next(&mut ids);
    let a = on(&mut ids, path_id, 0);
    let h1 = off(&mut ids, path_id, 1);
    let h2 = off(&mut ids, path_id, 2);
    let b = on(&mut ids, path_id, 3);
    let mut path = PathPoints::from_raw_parts(path_id, vec![a, h1, h2, b], None, false);
    path.delete_points(&[b.id]);
    assert_eq!(xs(&path), vec![0]);
}

#[test]
fn delete_missing_point_changes_nothing() {
    let mut ids = IdCounter::new();
    let path_id = EntityId::next(&mut ids);
    let pts: Vec<_> = (0..3).map(|x| on(&mut ids, path_id, x)).collect();
    let stranger = EntityId::next(&mut ids);
    let mut path = PathPoints::from_raw_parts(path_id, pts, None, true);
    path.delete_point(stranger);
    assert_eq!(xs(&path), vec![0, 1, 2]);
    assert!(path.closed());
}

#[test]
fn trailing_and_moving_points() {
    let mut ids = IdCounter::new();
    let mut path = PathPoints::new(&mut ids, (0, 0));
    path.set_trailing((5, 5));
    assert_eq!(path.trailing(), Some(&(5, 5)));
    path.clear_trailing();
    assert_eq!(path.trailing(), None);
    path.push_on_curve(&mut ids, (1, 1));
    path.set_point(1, (7, 7));
    assert_eq!(path.point_at(1).point, (7, 7));
    assert_eq!(path.end_point().point, (7, 7));
    assert!(!path.last_segment_is_curve());
}

#[test]
fn point_styles() {
    let mut ids = IdCounter::new();
    let path_id = EntityId::next(&mut ids);
    let a = on(&mut ids, path_id, 0);
    let h1 = PathPoint::hyper_off_curve(&mut ids, path_id, (1, 1), true);
    let h2 = off(&mut ids, path_id, 2);
    let s = smooth(&mut ids, path_id, 3);
    let b = on(&mut ids, path_id, 4);
    let open = PathPoints::from_raw_parts(path_id, vec![a, h1, h2, s, b], None, false);
    assert_eq!(open.point_style(0, true), PointStyle::Open);
    assert_eq!(open.point_style(1, true), PointStyle::OffCurveAuto);
    assert_eq!(open.point_style(1, false), PointStyle::OffCurve);
    assert_eq!(open.point_style(2, true), PointStyle::OffCurve);
    assert_eq!(open.point_style(3, true), PointStyle::Smooth);
    assert_eq!(open.point_style(4, true), PointStyle::Close);
    let closed = PathPoints::from_raw_parts(path_id, vec![h1, h2, s, b, a], None, true);
    assert_eq!(closed.point_style(4, false), PointStyle::Corner);
    let single = PathPoints::from_raw_parts(path_id, vec![s], None, false);
    assert_eq!(single.point_style(0, false), PointStyle::Corner);
}

#[test]
fn point_type_names_round_trip() {
    for t in [
        PointType::OnCurve { smooth: false },
        PointType::OnCurve { smooth: true },
        PointType::OffCurve { auto: false },
        PointType::OffCurve { auto: true },
    ] {
        assert_eq!(PointType::from_name(t.debug_name()), Some(t));
    }
    assert_eq!(PointType::from_name("Curvy"), None);
    assert_eq!(PointType::OnCurve { smooth: true }.debug_name(), "OnCurveSmooth");
}

#[test]
fn reversing_twice_restores_the_points() {
    let mut ids = IdCounter::new();
    let path_id = EntityId::next(&mut ids);
    let a = on(&mut ids, path_id, 0);
    let h1 = off(&mut ids, path_id, 1);
    let h2 = off(&mut ids, path_id, 2);
    let b = on(&mut ids, path_id, 3);
    for closed in [true, false] {
        let mut path = PathPoints::from_raw_parts(path_id, vec![a, h1, h2, b], None, closed);
        let before = path.as_slice().to_vec();
        path.reverse_contour();
        assert_ne!(path.as_slice(), &before[..]);
        path.reverse_contour();
        assert_eq!(path.as_slice(), &before[..]);
    }
}

#[test]
fn ids_from_one_counter_are_unique() {
    let mut ids = IdCounter::new();
    let a = EntityId::next(&mut ids);
    let b = EntityId::next(&mut ids);
    assert_ne!(a, b);
    assert!(!a.is_guide() && !b.is_guide());
    assert!(a.parent_eq(b));
    assert_eq!(a.parent(), b.parent());
    let c1 = EntityId::new_with_parent(&mut ids, a);
    let c2 = EntityId::new_with_parent(&mut ids, a);
    assert_eq!(c1.parent(), a);
    assert!(c1.is_child_of(a) && c2.is_child_of(a));
    assert!(c1.parent_eq(c2));
    assert_ne!(c1, c2);
    assert_ne!(c1, a);
    assert!(!c1.is_guide());
    let g = EntityId::new_for_guide(&mut ids);
    let gc = EntityId::new_with_parent(&mut ids, g);
    assert!(g.is_guide());
    assert!(!gc.is_guide());
    assert!(![a, b, c1, c2].contains(&g));
}

#[test]
fn pushed_point_has_a_fresh_id() {
    let mut ids = IdCounter::new();
    let mut path = PathPoints::new(&mut ids, (0, 0));
    let first = path.push_on_curve(&mut ids, (1, 0));
    let second = path.push_on_curve(&mut ids, (2, 0));
    assert_ne!(first, second);
    assert_ne!(second, path.id());
    let all: Vec<EntityId> = path.as_slice().iter().map(|p| p.id).collect();
    for (i, x) in all.iter().enumerate() {
        for y in &all[i + 1..] {
            assert_ne!(x, y);
        }
        assert!(x.is_child_of(path.id()));
    }
    assert_eq!(path.end_point().id, second);
    assert_eq!(path.end_point().typ, PointType::OnCurve { smooth: false });
}

#[test]
fn toggling_on_curve_points_needs_a_control_point() {
    let mut ids = IdCounter::new();
    let path_id = EntityId::next(&mut ids);
    let points = vec![on(&mut ids, path_id, 0), off(&mut ids, path_id, 1), off(&mut ids, path_id, 2), on(&mut ids, path_id, 3)];
    let pids: Vec<EntityId> = points.iter().map(|p| p.id).collect();
    let mut path = PathPoints::from_raw_parts(path_id, points, None, false);
    path.toggle_on_curve_point_type(pids[3]);
    assert_eq!(path.as_slice()[3].typ, PointType::OnCurve { smooth: true });
    path.toggle_on_curve_point_type(pids[0]);
    assert_eq!(path.as_slice()[0].typ, PointType::OnCurve { smooth: true });
    path.toggle_on_curve_point_type(pids[3]);
    assert_eq!(path.as_slice()[3].typ, PointType::OnCurve { smooth: false });
    // control points are not toggled
    path.toggle_on_curve_point_type(pids[1]);
    assert_eq!(path.as_slice()[1].typ, PointType::OffCurve { auto: false });
    // a corner between lines stays a corner
    let mut line = PathPoints::new(&mut ids, (0, 0));
    let end = line.push_on_curve(&mut ids, (5, 0));
    line.toggle_on_curve_point_type(end);
    assert_eq!(line.as_slice()[1].typ, PointType::OnCurve { smooth: false });
    // an unknown id toggles the start point
    let stray = EntityId::next(&mut ids);
    path.toggle_on_curve_point_type(stray);
    assert_eq!(path.as_slice()[0].typ, PointType::OnCurve { smooth: false });
}

#[test]
fn toggling_a_point_type_by_id() {
    let mut ids = IdCounter::new();
    let path_id = EntityId::next(&mut ids);
    let points = vec![on(&mut ids, path_id, 0), off(&mut ids, path_id, 1), off(&mut ids, path_id, 2), smooth(&mut ids, path_id, 3)];
    let pids: Vec<EntityId> = points.iter().map(|p| p.id).collect();
    let mut path = PathPoints::from_raw_parts(path_id, points, None, false);
    path.toggle_point_type(pids[1]);
    assert_eq!(path.as_slice()[1].typ, PointType::OffCurve { auto: true });
    path.toggle_point_type(pids[3]);
    assert_eq!(path.as_slice()[3].typ, PointType::OnCurve { smooth: false });
    let stray = EntityId::next(&mut ids);
    path.toggle_point_type(stray);
    assert_eq!(path.as_slice()[0].typ, PointType::OnCurve { smooth: false });
}

#[test]
fn corner_between_a_line_and_a_curve_becomes_smooth() {
    let mut ids = IdCounter::new();
    let path_id = EntityId::next(&mut ids);
    let points = vec![
        on(&mut ids, path_id, 0),
        on(&mut ids, path_id, 10),
        off(&mut ids, path_id, 20),
        off(&mut ids, path_id, 30),
        on(&mut ids, path_id, 40),
    ];
    let b = points[1].id;
    let before: Vec<PointType> = points.iter().map(|p| p.typ).collect();
    let mut path = PathPoints::from_raw_parts(path_id, points, None, false);
    path.toggle_on_curve_point_type(b);
    assert_eq!(path.as_slice()[1].typ, PointType::OnCurve { smooth: true });
    for (i, p) in path.as_slice().iter().enumerate() {
        if i != 1 {
            assert_eq!(p.typ, before[i]);
        }
    }
}
