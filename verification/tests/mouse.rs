use runebender::mouse::{ButtonClass, Event, Gesture, Mouse, MouseButton, MouseState, TaggedEvent};

fn ev(id: u32, button: MouseButton) -> Event<u32> {
    Event { event: id, button }
}

#[test]
fn press_and_release_is_a_click() {
    let mouse = Mouse::new(ev(0, MouseButton::NoButton));
    let (mouse, g) = mouse.mouse_down(ev(1, MouseButton::Left));
    assert_eq!(g, vec![Gesture::Down(ButtonClass::Left)]);
    let (mouse, g) = mouse.mouse_up(ev(2, MouseButton::Left));
    assert_eq!(
        g,
        vec![Gesture::Click(ButtonClass::Left), Gesture::Up(ButtonClass::Left)]
    );
    assert!(matches!(mouse.state(), MouseState::Up(Event { event: 2, .. })));
}

#[test]
fn drag_gestures() {
    let mouse = Mouse::new(ev(0, MouseButton::NoButton));
    let (mouse, _) = mouse.mouse_down(ev(1, MouseButton::Right));
    let (mouse, g) = mouse.mouse_moved(ev(2, MouseButton::Right), false);
    assert_eq!(g, vec![Gesture::Moved]);
    match mouse.state() {
        MouseState::Down { press, current } => {
            assert_eq!(press.event, 1);
            assert_eq!(current.as_ref().map(|c| c.event), Some(2));
        }
        _ => panic!("expected a press"),
    }
    let (mouse, g) = mouse.mouse_moved(ev(3, MouseButton::Right), true);
    assert_eq!(g, vec![Gesture::Moved, Gesture::DragBegan(ButtonClass::Right)]);
    let (mouse, g) = mouse.mouse_moved(ev(4, MouseButton::Right), true);
    assert_eq!(g, vec![Gesture::Moved, Gesture::DragChanged(ButtonClass::Right)]);
    match mouse.state() {
        MouseState::Drag { start, current } => {
            assert_eq!(start.event, 1);
            assert_eq!(current.event, 4);
        }
        _ => panic!("expected a drag"),
    }
    // releasing another button is not reported, and the drag keeps its last move
    let (mouse, g) = mouse.mouse_up(ev(5, MouseButton::Left));
    assert!(g.is_empty());
    match mouse.state() {
        MouseState::Drag { start, current } => {
            assert_eq!(start.event, 1);
            assert_eq!(current.event, 4);
        }
        _ => panic!("expected a drag"),
    }
    let (mouse, g) = mouse.mouse_up(ev(6, MouseButton::Right));
    assert_eq!(
        g,
        vec![
            Gesture::DragEnded(ButtonClass::Right),
            Gesture::Up(ButtonClass::Right)
        ]
    );
    assert!(matches!(mouse.state(), MouseState::Up(Event { event: 6, .. })));
}

#[test]
fn moves_with_no_button_and_cancel() {
    let mouse = Mouse::new(ev(0, MouseButton::NoButton));
    let (mouse, g) = mouse.mouse_event(TaggedEvent::Moved(ev(1, MouseButton::NoButton)), false);
    assert_eq!(g, vec![Gesture::Moved]);
    let (mouse, _) = mouse.mouse_event(TaggedEvent::Down(ev(2, MouseButton::Middle)), false);
    let (mouse, g) = mouse.mouse_down(ev(3, MouseButton::Left));
    assert!(g.is_empty());
    assert!(matches!(
        mouse.state(),
        MouseState::Down { press: Event { event: 2, .. }, current: Some(Event { event: 3, .. }) }
    ));
    let (mouse, g) = mouse.cancel();
    assert_eq!(g, vec![Gesture::Cancel]);
    assert!(matches!(mouse.state(), MouseState::Up(Event { event: 3, .. })));
}

#[test]
fn position_follows_a_small_move_with_a_button_down() {
    let mouse = Mouse::new(ev(0, MouseButton::NoButton));
    let (mouse, _) = mouse.mouse_down(ev(10, MouseButton::Left));
    assert!(matches!(mouse.state(), MouseState::Down { press: Event { event: 10, .. }, current: None }));
    assert_eq!(mouse.current().event, 10);
    let (mouse, g) = mouse.mouse_moved(ev(11, MouseButton::Left), false);
    assert_eq!(g, vec![Gesture::Moved]);
    assert_eq!(mouse.current().event, 11);
    let (mouse, g) = mouse.cancel();
    assert_eq!(g, vec![Gesture::Cancel]);
    assert!(matches!(mouse.state(), MouseState::Up(Event { event: 11, .. })));
}
