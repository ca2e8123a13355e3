use runebender::cubic_contour::{cubic_points_from_records, cubic_records, paths_for_elements, CubicRecord, PathEl};
use runebender::point::{ContourPointKind, EntityId, IdCounter, PathPoint, PointType};
use runebender::point_list::PathPoints;

type Pt = (i32, i32);

fn rec(point: Pt, kind: ContourPointKind, smooth: bool) -> CubicRecord<Pt> {
    CubicRecord { point, kind, smooth, auto: false, point_id: None }
}

fn shape(path: &PathPoints<Pt>) -> Vec<(Pt, PointType)> {
    path.as_slice().iter().map(|p| (p.point, p.typ)).collect()
}

#[test]
fn saving_an_open_cubic_contour() {
    let mut ids = IdCounter::new();
    let path_id = EntityId::next(&mut ids);
    let points = vec![
        PathPoint::on_curve_smooth(&mut ids, path_id, (0, 0)),
        PathPoint::on_curve(&mut ids, path_id, (5, 0)),
        PathPoint::off_curve(&mut ids, path_id, (6, 1)),
        PathPoint::hyper_off_curve(&mut ids, path_id, (7, 1), true),
        PathPoint::on_curve_smooth(&mut ids, path_id, (8, 0)),
    ];
    let pids: Vec<EntityId> = points.iter().map(|p| p.id).collect();
    let path = PathPoints::from_raw_parts(path_id, points, None, false);
    let records = cubic_records(&path);
    let kinds: Vec<(ContourPointKind, bool)> = records.iter().map(|r| (r.kind, r.smooth)).collect();
    assert_eq!(
        kinds,
        vec![
            (ContourPointKind::Move, true),
            (ContourPointKind::Line, false),
            (ContourPointKind::OffCurve, false),
            (ContourPointKind::OffCurve, false),
            (ContourPointKind::Curve, true),
        ]
    );
    let ids_saved: Vec<Option<EntityId>> = records.iter().map(|r| r.point_id).collect();
    assert_eq!(ids_saved, pids.iter().map(|id| Some(*id)).collect::<Vec<_>>());
    let (back, origins) = cubic_points_from_records(&mut ids, &records);
    assert!(!back.closed());
    let back_ids: Vec<EntityId> = back.as_slice().iter().map(|p| p.id).collect();
    assert_eq!(origins, back_ids.iter().enumerate().map(|(i, id)| (i, *id)).collect::<Vec<_>>());
    // the automatic flag is not saved
    let mut expected = shape(&path);
    expected[3].1 = PointType::OffCurve { auto: false };
    assert_eq!(shape(&back), expected);
}

#[test]
fn a_closed_cubic_contour_saves_its_start_first() {
    let mut ids = IdCounter::new();
    let path_id = EntityId::next(&mut ids);
    let points = vec![
        PathPoint::off_curve(&mut ids, path_id, (1, 1)),
        PathPoint::off_curve(&mut ids, path_id, (2, 1)),
        PathPoint::on_curve(&mut ids, path_id, (3, 0)),
        PathPoint::on_curve(&mut ids, path_id, (0, 0)),
    ];
    let path = PathPoints::from_raw_parts(path_id, points, None, true);
    let records = cubic_records(&path);
    let saved: Vec<(Pt, ContourPointKind)> = records.iter().map(|r| (r.point, r.kind)).collect();
    assert_eq!(
        saved,
        vec![
            ((0, 0), ContourPointKind::Line),
            ((1, 1), ContourPointKind::OffCurve),
            ((2, 1), ContourPointKind::OffCurve),
            ((3, 0), ContourPointKind::Curve),
        ]
    );
    let (back, origins) = cubic_points_from_records(&mut ids, &records);
    assert!(back.closed());
    // the saved first point, the start point, is stored last
    assert_eq!(origins[0].1, back.as_slice()[3].id);
    assert_eq!(shape(&back), shape(&path));
}

#[test]
fn reading_a_closed_contour_ending_with_a_control_point() {
    let mut ids = IdCounter::new();
    let records = vec![
        rec((1, 1), ContourPointKind::OffCurve, false),
        rec((3, 0), ContourPointKind::Curve, true),
        rec((4, 4), ContourPointKind::OffCurve, false),
        rec((5, 5), ContourPointKind::OffCurve, false),
    ];
    let (path, _) = cubic_points_from_records(&mut ids, &records);
    assert!(path.closed());
    // stored as (3,0) (4,4) (5,5) (1,1) before turning; turned to end on the curve
    let points: Vec<Pt> = path.as_slice().iter().map(|p| p.point).collect();
    assert_eq!(points, vec![(4, 4), (5, 5), (1, 1), (3, 0)]);
    assert_eq!(path.as_slice()[3].typ, PointType::OnCurve { smooth: true });
}

#[test]
fn splitting_drawn_elements_into_contours() {
    let mut ids = IdCounter::new();
    let els = vec![
        PathEl::MoveTo((0, 0)),
        PathEl::LineTo((10, 0)),
        PathEl::CurveTo((12, 2), (14, 4), (10, 10)),
        PathEl::ClosePath,
        PathEl::MoveTo((50, 50)),
        PathEl::QuadTo((55, 55), (60, 50)),
        PathEl::LineTo((60, 60)),
        PathEl::MoveTo((99, 99)),
        PathEl::MoveTo((70, 70)),
    ];
    let paths = paths_for_elements(&mut ids, &els);
    assert_eq!(paths.len(), 4);
    assert!(paths[0].closed());
    assert_eq!(
        shape(&paths[0]),
        vec![
            ((0, 0), PointType::OnCurve { smooth: false }),
            ((10, 0), PointType::OnCurve { smooth: false }),
            ((12, 2), PointType::OffCurve { auto: false }),
            ((14, 4), PointType::OffCurve { auto: false }),
            ((10, 10), PointType::OnCurve { smooth: false }),
        ]
    );
    assert!(!paths[1].closed());
    assert_eq!(
        shape(&paths[1]),
        vec![((50, 50), PointType::OnCurve { smooth: false }), ((60, 60), PointType::OnCurve { smooth: false })]
    );
    assert_eq!(shape(&paths[2]), vec![((99, 99), PointType::OnCurve { smooth: false })]);
    assert_eq!(shape(&paths[3]), vec![((70, 70), PointType::OnCurve { smooth: false })]);
    for p in &paths {
        for q in p.as_slice() {
            assert!(q.id.is_child_of(p.id()));
        }
    }
    assert_ne!(paths[0].id(), paths[1].id());
    // nothing drawn, no contour
    assert!(paths_for_elements::<Pt>(&mut ids, &[PathEl::ClosePath]).is_empty());
}
