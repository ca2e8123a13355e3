use runebender::point::{EntityId, IdCounter, PathPoint, PointType};
use runebender::point_list::PathPoints;
use runebender::segment::Segment;
use runebender::select::{left_down, Item, PressAction, SelectState};
use runebender::session::EditSession;
use runebender::tools::EditType;

type Pt = (i32, i32);
type State = SelectState<Pt, u8, ()>;

fn square(ids: &mut IdCounter) -> (PathPoints<Pt>, Vec<PathPoint<Pt>>) {
    let path_id = EntityId::next(ids);
    let pts: Vec<PathPoint<Pt>> = (0..4).map(|x| PathPoint::on_curve(ids, path_id, (x, x))).collect();
    (PathPoints::from_raw_parts(path_id, pts.clone(), None, true), pts)
}

fn selected(session: &EditSession<Pt>) -> Vec<EntityId> {
    session.selection.iter()
}

#[test]
fn clicking_points_selects_or_toggles() {
    let mut ids = IdCounter::new();
    let (path, pts) = square(&mut ids);
    let mut session = EditSession::new(vec![path]);
    let (state, edit, action) = left_down(State::Idle(Some(Item::Point(pts[1].id))), &mut session, false, false, 1);
    assert!(matches!(state, SelectState::Down(Some(Item::Point(id))) if id == pts[1].id));
    assert_eq!(edit, None);
    assert!(matches!(action, PressAction::Nothing));
    assert_eq!(selected(&session), vec![pts[1].id]);
    // appending toggles
    let _ = left_down(State::Idle(Some(Item::Point(pts[2].id))), &mut session, true, false, 1);
    assert_eq!(selected(&session), vec![pts[1].id, pts[2].id]);
    let _ = left_down(State::Idle(Some(Item::Point(pts[1].id))), &mut session, true, false, 1);
    assert_eq!(selected(&session), vec![pts[2].id]);
    // a plain click on a selected point keeps the selection
    session.selection.insert(pts[3].id);
    let _ = left_down(State::Idle(Some(Item::Point(pts[3].id))), &mut session, false, false, 1);
    assert_eq!(selected(&session), vec![pts[2].id, pts[3].id]);
    // a click on nothing
    let (state, _, _) = left_down(State::Idle(None), &mut session, false, false, 1);
    assert!(matches!(state, SelectState::Down(None)));
    assert_eq!(selected(&session), vec![pts[2].id, pts[3].id]);
}

#[test]
fn clicking_segments() {
    let mut ids = IdCounter::new();
    let (path, pts) = square(&mut ids);
    let mut session = EditSession::new(vec![path]);
    let seg = Segment::Line(pts[0], pts[1]);
    let (state, _, _) = left_down(State::Idle(Some(Item::Segment(seg))), &mut session, false, false, 1);
    assert!(matches!(state, SelectState::Down(Some(Item::Segment(_)))));
    assert_eq!(selected(&session), vec![pts[0].id, pts[1].id]);
    // appending a fully selected segment removes it, and suppresses the drag
    let (state, _, _) = left_down(State::Idle(Some(Item::Segment(seg))), &mut session, true, false, 1);
    assert!(matches!(state, SelectState::SuppressDrag));
    assert!(selected(&session).is_empty());
    // appending a segment adds its points
    session.selection.insert(pts[1].id);
    let seg2 = Segment::Line(pts[1], pts[2]);
    let (state, _, _) = left_down(State::WaitDoubleClick(Item::Segment(seg2)), &mut session, true, false, 1);
    assert!(matches!(state, SelectState::Down(Some(Item::Segment(_)))));
    assert_eq!(selected(&session), vec![pts[1].id, pts[2].id]);
    // with alt, a line is to be turned into a curve
    let (state, edit, action) = left_down(State::Idle(Some(Item::Segment(seg))), &mut session, false, true, 1);
    assert!(matches!(state, SelectState::SuppressDrag));
    assert_eq!(edit, Some(EditType::Normal));
    assert!(matches!(action, PressAction::UpgradeLine(0, _)));
    assert_eq!(selected(&session), vec![pts[1].id, pts[2].id]);
}

#[test]
fn double_clicks() {
    let mut ids = IdCounter::new();
    let (path, pts) = square(&mut ids);
    let mut session = EditSession::new(vec![path]);
    let (state, edit, _) = left_down(State::WaitDoubleClick(Item::Point(pts[2].id)), &mut session, false, false, 2);
    assert!(matches!(state, SelectState::WaitDoubleClick(Item::Point(_))));
    assert_eq!(edit, Some(EditType::Normal));
    assert_eq!(session.paths[0].as_slice()[2].typ, PointType::OnCurve { smooth: true });
    assert_eq!(session.paths[0].as_slice()[1].typ, PointType::OnCurve { smooth: false });
    // a double-click on a segment selects its path
    let seg = Segment::Line(pts[0], pts[1]);
    let _ = left_down(State::WaitDoubleClick(Item::Segment(seg)), &mut session, false, false, 2);
    assert_eq!(selected(&session).len(), 4);
    // a double-click on a guide is left to the editor
    let guide = EntityId::new_for_guide(&mut ids);
    let (_, edit, action) = left_down(State::WaitDoubleClick(Item::Guide(guide)), &mut session, false, false, 2);
    assert_eq!(edit, Some(EditType::Normal));
    assert!(matches!(action, PressAction::ToggleGuide(g) if g == guide));
    // a double-click with nothing waiting suppresses the drag
    let (state, edit, _) = left_down(State::Idle(None), &mut session, false, false, 2);
    assert!(matches!(state, SelectState::SuppressDrag));
    assert_eq!(edit, None);
    // other counts change nothing
    let (state, _, _) = left_down(State::Idle(Some(Item::SelectionHandle(7))), &mut session, false, false, 3);
    assert!(matches!(state, SelectState::Idle(Some(Item::SelectionHandle(7)))));
}

#[test]
fn toggling_a_point_type_in_a_session() {
    let mut ids = IdCounter::new();
    let (path, pts) = square(&mut ids);
    let mut session = EditSession::new(vec![path]);
    session.toggle_point_type(pts[0].id);
    assert_eq!(session.paths[0].as_slice()[0].typ, PointType::OnCurve { smooth: true });
    session.toggle_point_type(pts[0].id);
    assert_eq!(session.paths[0].as_slice()[0].typ, PointType::OnCurve { smooth: false });
    // an id that no path holds changes nothing
    let stray = EntityId::next(&mut ids);
    session.toggle_point_type(stray);
    assert!(session.paths[0].as_slice().iter().all(|p| p.typ == PointType::OnCurve { smooth: false }));
}

#[test]
fn deleting_the_selection() {
    let mut ids = IdCounter::new();
    let (path, pts) = square(&mut ids);
    let (other, others) = square(&mut ids);
    let mut session = EditSession::new(vec![path, other]);
    let guide = EntityId::new_for_guide(&mut ids);
    session.selection.insert(pts[1].id);
    session.selection.insert(guide);
    let guides = session.delete_selection();
    assert_eq!(guides, vec![guide]);
    assert!(session.selection.is_empty());
    assert_eq!(session.paths.len(), 2);
    let left: Vec<EntityId> = session.paths[0].as_slice().iter().map(|p| p.id).collect();
    assert_eq!(left, vec![pts[0].id, pts[2].id, pts[3].id]);
    assert_eq!(session.paths[1].len(), 4);
    // deleting every point of a path drops the path
    for p in &others {
        session.selection.insert(p.id);
    }
    let guides = session.delete_selection();
    assert!(guides.is_empty());
    assert_eq!(session.paths.len(), 1);
    assert_eq!(session.paths[0].len(), 3);
    assert!(session.selection.is_empty());
    // deleting a single point selects a point of its path
    session.selection.insert(pts[2].id);
    let guides = session.delete_selection();
    assert!(guides.is_empty());
    let left: Vec<EntityId> = session.paths[0].as_slice().iter().map(|p| p.id).collect();
    assert_eq!(left, vec![pts[0].id, pts[3].id]);
    assert_eq!(session.selection.iter(), vec![pts[3].id]);
}

#[test]
fn trailing_handle_is_drawn_for_one_point_or_a_curve() {
    let mut ids = IdCounter::new();
    let mut path = PathPoints::new(&mut ids, (0, 0));
    assert!(path.should_draw_trailing());
    path.push_on_curve(&mut ids, (5, 5));
    assert!(!path.should_draw_trailing());
    let path_id = EntityId::next(&mut ids);
    let points = vec![
        PathPoint::on_curve(&mut ids, path_id, (0, 0)),
        PathPoint::off_curve(&mut ids, path_id, (1, 1)),
        PathPoint::off_curve(&mut ids, path_id, (2, 1)),
        PathPoint::on_curve(&mut ids, path_id, (3, 0)),
    ];
    let curve = PathPoints::from_raw_parts(path_id, points, None, false);
    assert!(curve.should_draw_trailing());
}
