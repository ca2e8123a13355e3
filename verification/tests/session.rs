use runebender::point::{EntityId, IdCounter, PathPoint};
use runebender::point_list::PathPoints;
use runebender::session::{EditSession, SessionCounter, SessionId};

fn square(ids: &mut IdCounter) -> (PathPoints<(i32, i32)>, Vec<EntityId>) {
    let path_id = EntityId::next(ids);
    let pts: Vec<PathPoint<(i32, i32)>> =
        (0..4).map(|x| PathPoint::on_curve(ids, path_id, (x, x))).collect();
    let point_ids = pts.iter().map(|p| p.id).collect();
    (PathPoints::from_raw_parts(path_id, pts, None, true), point_ids)
}

#[test]
fn session_ids_count_up() {
    let mut counter = SessionCounter::new();
    assert_eq!(SessionId::next(&mut counter), SessionId(0));
    assert_eq!(SessionId::next(&mut counter), SessionId(1));
}

#[test]
fn select_next_and_prev_wrap() {
    let mut ids = IdCounter::new();
    let (path, pts) = square(&mut ids);
    let mut session = EditSession::new(vec![path]);
    session.selection.select_one(pts[3]);
    session.select_next();
    assert_eq!(session.selection.iter(), vec![pts[0]]);
    session.select_prev();
    session.select_prev();
    assert_eq!(session.selection.iter(), vec![pts[2]]);
    assert_eq!(session.active_path_idx(), Some(0));
    // with two points selected nothing moves
    session.selection.insert(pts[0]);
    session.select_next();
    assert_eq!(session.selection.iter(), vec![pts[0], pts[2]]);
    assert_eq!(session.active_path_idx(), None);
}

#[test]
fn select_whole_paths() {
    let mut ids = IdCounter::new();
    let (a, a_pts) = square(&mut ids);
    let (b, b_pts) = square(&mut ids);
    let b_id = b.id();
    let mut session = EditSession::new(vec![a, b]);
    session.selection.select_one(b_pts[0]);
    assert!(session.select_path(b_id, true));
    // the one selected point is toggled off, the others on
    assert_eq!(session.selection.iter(), b_pts[1..].to_vec());
    assert!(session.select_path(b_id, false));
    assert_eq!(session.selection.iter(), b_pts.clone());
    let stranger = EntityId::next(&mut ids);
    assert!(!session.select_path(stranger, true));
    session.select_all();
    assert_eq!(session.selection.len(), 8);
    assert!(session.selection.contains(&a_pts[2]));
    assert_eq!(session.path_idx_for_point(b_pts[1]), Some(1));
    assert_eq!(
        session.path_point_for_id(a_pts[1]).map(|p| p.point),
        Some((1, 1))
    );
}

#[test]
fn adding_and_pasting_paths() {
    let mut ids = IdCounter::new();
    let (a, a_pts) = square(&mut ids);
    let (b, b_pts) = square(&mut ids);
    let mut session = EditSession::new(Vec::new());
    session.add_path(a);
    assert_eq!(session.selection.iter(), vec![a_pts[0]]);
    session.paste_paths(vec![b]);
    assert_eq!(session.paths.len(), 2);
    assert_eq!(session.selection.iter(), b_pts);
}

#[test]
fn reversing_selected_contours() {
    let mut ids = IdCounter::new();
    let (a, a_pts) = square(&mut ids);
    let (b, _) = square(&mut ids);
    let mut session = EditSession::new(vec![a, b]);
    let xs = |s: &EditSession<(i32, i32)>, i: usize| -> Vec<i32> {
        s.paths[i].as_slice().iter().map(|p| p.point.0).collect()
    };
    // only the path holding the selection
    session.selection.select_one(a_pts[1]);
    session.reverse_contours();
    assert_eq!(xs(&session, 0), vec![2, 1, 0, 3]);
    assert_eq!(xs(&session, 1), vec![0, 1, 2, 3]);
    // with nothing selected, every path
    session.selection.clear();
    session.reverse_contours();
    assert_eq!(xs(&session, 0), vec![0, 1, 2, 3]);
    assert_eq!(xs(&session, 1), vec![2, 1, 0, 3]);
}
