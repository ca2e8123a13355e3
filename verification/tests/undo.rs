use runebender::point::PointType;
use runebender::tools::{EditType, HyperPen};
use runebender::undo::UndoState;

#[test]
fn undo_and_redo() {
    let mut undo = UndoState::new(1);
    assert_eq!(undo.undo(), None);
    undo.add_undo_group(2);
    undo.add_undo_group(3);
    assert_eq!(undo.undo(), Some(&2));
    assert_eq!(undo.undo(), Some(&1));
    assert_eq!(undo.undo(), None);
    assert_eq!(undo.redo(), Some(&2));
    // adding a group drops the states after the current one
    undo.add_undo_group(4);
    assert_eq!(undo.redo(), None);
    assert_eq!(undo.undo(), Some(&2));
}

#[test]
fn bounded_stack() {
    let mut undo = UndoState::new_sized(2, 1);
    undo.add_undo_group(2);
    undo.add_undo_group(3);
    assert_eq!(undo.undo(), Some(&2));
    assert_eq!(undo.undo(), None);
}

#[test]
fn update_current_undo() {
    let mut undo = UndoState::new(10);
    undo.add_undo_group(20);
    undo.update_current_undo(|x| x + 1);
    assert_eq!(undo.undo(), Some(&10));
    assert_eq!(undo.redo(), Some(&21));
}

#[test]
fn undo_groups() {
    assert!(!EditType::NudgeLeft.needs_new_undo_group(EditType::NudgeLeft));
    assert!(EditType::NudgeLeft.needs_new_undo_group(EditType::NudgeRight));
    assert!(!EditType::Drag.needs_new_undo_group(EditType::DragUp));
    assert!(EditType::DragUp.needs_new_undo_group(EditType::DragUp));
    assert!(EditType::Normal.needs_new_undo_group(EditType::Normal));
    let pen = HyperPen::default();
    assert_eq!(pen.this_edit_type, None);
    assert!(!pen.is_draggable);
}

#[test]
fn point_types() {
    let mut t = PointType::OnCurve { smooth: true };
    assert!(t.is_on_curve() && t.is_smooth() && !t.is_off_curve());
    t.toggle_type();
    assert_eq!(t, PointType::OnCurve { smooth: false });
    let mut o = PointType::OffCurve { auto: false };
    o.toggle_type();
    assert_eq!(o, PointType::OffCurve { auto: true });
    assert!(o.is_off_curve());
}
