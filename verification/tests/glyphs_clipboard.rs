use runebender::glyphs_clipboard::{node_parts_of, node_types, type_for_node};
use runebender::point::{EntityId, IdCounter, PathPoint, PointType};

#[test]
fn node_type_names() {
    let mut ids = IdCounter::new();
    let path = EntityId::next(&mut ids);
    let a = PathPoint::on_curve(&mut ids, path, 0);
    let h1 = PathPoint::off_curve(&mut ids, path, 1);
    let h2 = PathPoint::off_curve(&mut ids, path, 2);
    let b = PathPoint::on_curve(&mut ids, path, 3);
    let s = PathPoint::on_curve_smooth(&mut ids, path, 4);
    assert_eq!(
        node_types(&[a, h1, h2, b, s]),
        vec!["LINE", "OFFCURVE", "OFFCURVE", "CURVE", "CURVE SMOOTH"]
    );
    // the point before the first is the last
    assert_eq!(node_types(&[a, h1, h2]), vec!["CURVE", "OFFCURVE", "OFFCURVE"]);
    assert!(node_types::<i32>(&[]).is_empty());
}

#[test]
fn node_parts() {
    assert_eq!(
        node_parts_of("\"12 -5 CURVE SMOOTH\""),
        Some(("12", "-5", PointType::OnCurve { smooth: true }))
    );
    assert_eq!(
        node_parts_of("1.5 2 OFFCURVE"),
        Some(("1.5", "2", PointType::OffCurve { auto: false }))
    );
    assert_eq!(
        node_parts_of("0 0 LINE"),
        Some(("0", "0", PointType::OnCurve { smooth: false }))
    );
    assert_eq!(node_parts_of("0 0 QCURVE"), None);
    assert_eq!(node_parts_of("0 LINE"), None);
    assert_eq!(type_for_node("CURVE"), Some(PointType::OnCurve { smooth: false }));
    assert_eq!(type_for_node("curve"), None);
}
