use runebender::hyper_contour::{contour_records, points_from_records, ContourRecord, HyperControls, RenderedEl};
use runebender::point::{ContourPointKind, EntityId, IdCounter, PathPoint, PointType};
use runebender::point_list::PathPoints;

type Pt = (i32, i32);

fn rec(point: Pt, kind: ContourPointKind, smooth: bool, hyper_point: bool, controls: Option<HyperControls<Pt>>) -> ContourRecord<Pt> {
    ContourRecord { point, kind, smooth, hyper_point, controls, point_id: None }
}

fn with_id(r: ContourRecord<Pt>, id: EntityId) -> ContourRecord<Pt> {
    ContourRecord { point_id: Some(id), ..r }
}

fn shape(path: &PathPoints<Pt>) -> Vec<(Pt, PointType)> {
    path.as_slice().iter().map(|p| (p.point, p.typ)).collect()
}

#[test]
fn reading_back_keeps_only_marked_points() {
    let controls = HyperControls { p1: (3, 1), p2: (7, 1), auto1: true, auto2: false };
    let records = vec![
        rec((0, 0), ContourPointKind::Move, true, false, None),
        rec((2, 2), ContourPointKind::OffCurve, false, false, None),
        rec((10, 0), ContourPointKind::Curve, true, true, Some(controls)),
        rec((20, 0), ContourPointKind::Line, false, true, None),
    ];
    let mut ids = IdCounter::new();
    let (path, origins) = points_from_records(&mut ids, &records).expect("a contour");
    assert!(!path.closed());
    let pts = path.as_slice();
    assert_eq!(origins, vec![(0, pts[0].id), (2, pts[3].id), (3, pts[4].id)]);
    assert_eq!(
        shape(&path),
        vec![
            ((0, 0), PointType::OnCurve { smooth: false }),
            ((3, 1), PointType::OffCurve { auto: true }),
            ((7, 1), PointType::OffCurve { auto: false }),
            ((10, 0), PointType::OnCurve { smooth: true }),
            ((20, 0), PointType::OnCurve { smooth: false }),
        ]
    );
    for p in path.as_slice() {
        assert!(p.id.is_child_of(path.id()));
    }
    // the ids were taken in order: the path's, then one per point
    let next = EntityId::next(&mut ids);
    assert_ne!(next, path.id());
}

#[test]
fn contour_without_a_move_is_closed() {
    let records = vec![rec((5, 5), ContourPointKind::Curve, false, true, None)];
    let mut ids = IdCounter::new();
    let (path, origins) = points_from_records(&mut ids, &records).expect("a contour");
    assert!(path.closed());
    assert_eq!(origins, vec![(0, path.as_slice()[0].id)]);
    assert_eq!(shape(&path), vec![((5, 5), PointType::OnCurve { smooth: false })]);
}

#[test]
fn nothing_to_read_back() {
    let mut ids = IdCounter::new();
    let plain = vec![rec((1, 1), ContourPointKind::Line, false, false, None)];
    assert!(points_from_records(&mut ids, &plain).is_none());
    assert!(points_from_records::<Pt>(&mut ids, &[]).is_none());
    // an open contour may not start with a control point
    let controls = HyperControls { p1: (1, 0), p2: (2, 0), auto1: false, auto2: false };
    let bad = vec![
        rec((3, 0), ContourPointKind::Curve, false, true, Some(controls)),
        rec((0, 0), ContourPointKind::Move, false, false, None),
    ];
    assert!(points_from_records(&mut ids, &bad).is_none());
}

#[test]
fn saving_a_line() {
    let mut ids = IdCounter::new();
    let mut path = PathPoints::new(&mut ids, (0, 0));
    let end = path.push_on_curve(&mut ids, (10, 0));
    let start = path.as_slice()[0].id;
    let records = contour_records(&path, &[vec![RenderedEl::LineTo((99, 99))]]);
    assert_eq!(
        records,
        vec![
            with_id(rec((0, 0), ContourPointKind::Move, false, false, None), start),
            with_id(rec((10, 0), ContourPointKind::Curve, false, true, None), end),
        ]
    );
}

#[test]
fn saving_a_curve_and_reading_it_back() {
    let mut ids = IdCounter::new();
    let path_id = EntityId::next(&mut ids);
    let points = vec![
        PathPoint::on_curve(&mut ids, path_id, (0, 0)),
        PathPoint::hyper_off_curve(&mut ids, path_id, (3, 1), true),
        PathPoint::hyper_off_curve(&mut ids, path_id, (7, 1), false),
        PathPoint::on_curve_smooth(&mut ids, path_id, (10, 0)),
    ];
    let first = points[0].id;
    let last = points[3].id;
    let path = PathPoints::from_raw_parts(path_id, points, None, false);
    let rendered = vec![vec![
        RenderedEl::CurveTo((3, 2), (5, 2), (6, 1)),
        RenderedEl::Other,
        RenderedEl::LineTo((10, 0)),
    ]];
    let records = contour_records(&path, &rendered);
    let controls = HyperControls { p1: (3, 1), p2: (7, 1), auto1: true, auto2: false };
    assert_eq!(
        records,
        vec![
            with_id(rec((0, 0), ContourPointKind::Move, false, false, None), first),
            rec((3, 2), ContourPointKind::OffCurve, false, false, None),
            rec((5, 2), ContourPointKind::OffCurve, false, false, None),
            rec((6, 1), ContourPointKind::Curve, false, false, None),
            with_id(rec((10, 0), ContourPointKind::Curve, true, true, Some(controls)), last),
        ]
    );
    let (back, _) = points_from_records(&mut ids, &records).expect("a contour");
    assert_eq!(shape(&back), shape(&path));
    assert_eq!(back.closed(), path.closed());
}

#[test]
fn a_single_point_round_trips() {
    let mut ids = IdCounter::new();
    let path = PathPoints::new(&mut ids, (4, 4));
    let records = contour_records(&path, &[]);
    let (back, _) = points_from_records(&mut ids, &records).expect("a contour");
    assert_eq!(shape(&back), shape(&path));
    assert!(!back.closed());
}
