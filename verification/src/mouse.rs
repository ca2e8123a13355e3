//! A state machine that turns raw mouse events into gestures: presses,
//! releases, clicks and drags.
//!
//! The machine keeps the events it needs in its state; each step takes an
//! event and returns the gestures it recognized, in the order in which a
//! delegate should hear of them. Which events a gesture refers to follows
//! from the state before the step and the event given to it.

use vstd::prelude::*;

verus! {

/// A mouse button.
#[derive(Clone, Copy, PartialEq, Eq, Debug, Structural)]
pub enum MouseButton {
    NoButton,
    Left,
    Right,
    Middle,
    X1,
    X2,
}

/// The buttons as gestures tell them apart.
#[derive(Clone, Copy, PartialEq, Eq, Debug, Structural)]
pub enum ButtonClass {
    Left,
    Right,
    Other,
}

/// The class of a button.
pub open spec fn class_of(b: MouseButton) -> ButtonClass {
    match b {
        MouseButton::Left => ButtonClass::Left,
        MouseButton::Right => ButtonClass::Right,
        _ => ButtonClass::Other,
    }
}

/// The class of a button.
pub fn button_class(b: MouseButton) -> (r: ButtonClass)
    ensures
        r == class_of(b),
{
    match b {
        MouseButton::Left => ButtonClass::Left,
        MouseButton::Right => ButtonClass::Right,
        _ => ButtonClass::Other,
    }
}

/// A recognized gesture.
///
/// - `Moved`: the mouse moved (the event given); reported on every move,
///   whatever buttons are down.
/// - `Down`, `Up`: a button was pressed or released (the event given).
/// - `Click`: a button was released without a drag (the event given).
/// - `DragBegan`: the mouse moved far enough with a button down; the drag
///   starts at the press, whose event is also the previous one, and the
///   event given is the current one.
/// - `DragChanged`: the mouse moved during a drag; from the drag's start,
///   via its previous current event, to the event given.
/// - `DragEnded`: the button of a drag was released; the drag's start, its
///   last current event as the previous one, and the event given.
/// - `Cancel`: the gesture in progress was abandoned.
#[derive(Clone, Copy, PartialEq, Eq, Debug, Structural)]
pub enum Gesture {
    Moved,
    Down(ButtonClass),
    Up(ButtonClass),
    Click(ButtonClass),
    DragBegan(ButtonClass),
    DragChanged(ButtonClass),
    DragEnded(ButtonClass),
    Cancel,
}

/// An event with the button it concerns.
pub struct Event<E> {
    pub event: E,
    pub button: MouseButton,
}

/// A mouse event, tagged with its kind.
pub enum TaggedEvent<E> {
    Down(Event<E>),
    Up(Event<E>),
    Moved(Event<E>),
}

/// Where the machine is.
pub enum MouseState<E> {
    /// No mouse buttons are active; the last event seen.
    Up(Event<E>),
    /// A mouse button has been pressed: the event that pressed it, and the
    /// last event seen since, if there was one.
    Down { press: Event<E>, current: Option<Event<E>> },
    /// The mouse has moved some distance with a button pressed: the press
    /// that started the drag, and the last event seen since.
    Drag { start: Event<E>, current: Event<E> },
}

/// The last event the machine has seen; its position is the mouse's.
pub open spec fn last_event<E>(s: MouseState<E>) -> Event<E> {
    match s {
        MouseState::Up(e) => e,
        MouseState::Down { press, current } => match current {
            Some(c) => c,
            None => press,
        },
        MouseState::Drag { current, .. } => current,
    }
}

/// The state and gestures after a move. `far` says whether the event is
/// farther than the drag distance from the event that pressed the button.
/// Every move is reported as `Moved`, followed by the drag gesture it makes.
pub open spec fn moved_step<E>(s: MouseState<E>, ev: Event<E>, far: bool) -> (MouseState<E>, Seq<Gesture>) {
    match s {
        MouseState::Up(_) => (MouseState::Up(ev), seq![Gesture::Moved]),
        MouseState::Down { press, current } => if far {
            (
                MouseState::Drag { start: press, current: ev },
                seq![Gesture::Moved, Gesture::DragBegan(class_of(press.button))],
            )
        } else {
            (MouseState::Down { press, current: Some(ev) }, seq![Gesture::Moved])
        },
        MouseState::Drag { start, current } => (
            MouseState::Drag { start, current: ev },
            seq![Gesture::Moved, Gesture::DragChanged(class_of(start.button))],
        ),
    }
}

/// The state and gestures after a press. A second button pressed while one
/// is down is not reported; the event is still the last one seen.
pub open spec fn down_step<E>(s: MouseState<E>, ev: Event<E>) -> (MouseState<E>, Seq<Gesture>) {
    match s {
        MouseState::Up(_) => (
            MouseState::Down { press: ev, current: None },
            seq![Gesture::Down(class_of(ev.button))],
        ),
        MouseState::Down { press, current } => (MouseState::Down { press, current: Some(ev) }, Seq::empty()),
        MouseState::Drag { start, current } => (MouseState::Drag { start, current: ev }, Seq::empty()),
    }
}

/// The state and gestures after a release. Releasing a button other than
/// the one that is down is not reported: with a button pressed, the event is
/// still the last one seen; during a drag, the drag keeps its last move, so
/// that the drag's next gesture runs on from that move.
pub open spec fn up_step<E>(s: MouseState<E>, ev: Event<E>) -> (MouseState<E>, Seq<Gesture>) {
    match s {
        MouseState::Up(_) => (MouseState::Up(ev), Seq::empty()),
        MouseState::Down { press, current } => if ev.button == press.button {
            (
                MouseState::Up(ev),
                seq![Gesture::Click(class_of(press.button)), Gesture::Up(class_of(press.button))],
            )
        } else {
            (MouseState::Down { press, current: Some(ev) }, Seq::empty())
        },
        MouseState::Drag { start, current } => if ev.button == start.button {
            (
                MouseState::Up(ev),
                seq![Gesture::DragEnded(class_of(start.button)), Gesture::Up(class_of(start.button))],
            )
        } else {
            (MouseState::Drag { start, current }, Seq::empty())
        },
    }
}

/// The state after a cancel: no button down, and the last event seen kept.
pub open spec fn cancel_step<E>(s: MouseState<E>) -> MouseState<E> {
    MouseState::Up(last_event(s))
}

/// A press that the machine accepts: the button already down may not be
/// pressed again.
pub open spec fn down_allowed<E>(s: MouseState<E>, ev: Event<E>) -> bool {
    s matches MouseState::Down { press, .. } ==> press.button != ev.button
}

/// Whatever the state, the event given to a move, a press or a release is
/// the last event seen after it, and a cancel keeps the last event seen: the
/// mouse's position is that of the latest event. The one exception is the
/// release of a button other than the one dragging, which leaves the drag
/// as it was.
pub proof fn lemma_last_event_is_latest<E>(s: MouseState<E>, ev: Event<E>, far: bool)
    ensures
        last_event(moved_step(s, ev, far).0) == ev,
        last_event(down_step(s, ev).0) == ev,
        !(s matches MouseState::Drag { start, .. } && start.button != ev.button) ==> last_event(
            up_step(s, ev).0,
        ) == ev,
        (s matches MouseState::Drag { start, .. } && start.button != ev.button) ==> up_step(s, ev).0 == s,
        last_event(cancel_step(s)) == last_event(s),
{
}

/// Every move is reported, whatever buttons are down: the first gesture of
/// a move is `Moved`, and the drag gesture it makes, if any, follows.
pub proof fn lemma_every_move_is_reported<E>(s: MouseState<E>, ev: Event<E>, far: bool)
    ensures
        moved_step(s, ev, far).1.len() >= 1,
        moved_step(s, ev, far).1[0] == Gesture::Moved,
        s is Up ==> moved_step(s, ev, far).1.len() == 1,
{
}

/// Pressing a button with none down, then releasing it without a drag, is
/// reported as a press, then a click followed by a release, and leaves no
/// button down.
pub proof fn lemma_press_release_clicks<E>(s: MouseState<E>, press: Event<E>, release: Event<E>)
    requires
        s is Up,
        press.button == release.button,
    ensures
        down_step(s, press).1 == seq![Gesture::Down(class_of(press.button))],
        up_step(down_step(s, press).0, release).1 == seq![
            Gesture::Click(class_of(press.button)),
            Gesture::Up(class_of(press.button)),
        ],
        up_step(down_step(s, press).0, release).0 == MouseState::Up(release),
{
}

/// Pressing a button, moving far enough, and releasing it is reported as a
/// press, a move with the start of a drag, and the end of that drag
/// followed by a release; no click is reported.
pub proof fn lemma_drag_is_not_click<E>(
    s: MouseState<E>,
    press: Event<E>,
    moved: Event<E>,
    release: Event<E>,
)
    requires
        s is Up,
        press.button == release.button,
    ensures
        ({
            let (s1, g1) = down_step(s, press);
            let (s2, g2) = moved_step(s1, moved, true);
            let (s3, g3) = up_step(s2, release);
            let c = class_of(press.button);
            &&& g1 == seq![Gesture::Down(c)]
            &&& g2 == seq![Gesture::Moved, Gesture::DragBegan(c)]
            &&& g3 == seq![Gesture::DragEnded(c), Gesture::Up(c)]
            &&& s3 == MouseState::Up(release)
        }),
{
}

/// A move that is not far enough never starts a drag: the press is kept,
/// the move becomes the last event, and only the move is reported.
pub proof fn lemma_small_move_keeps_press<E>(press: Event<E>, current: Option<Event<E>>, ev: Event<E>)
    ensures
        moved_step(MouseState::Down { press, current }, ev, false) == (
            MouseState::Down { press, current: Some(ev) },
            seq![Gesture::Moved],
        ),
{
}

/// Handles raw mouse events, parsing them into gestures. Each step takes
/// the machine by value and gives back the next one, with the gestures.
pub struct Mouse<E> {
    state: MouseState<E>,
}

impl<E> Mouse<E> {
    pub closed spec fn view_state(self) -> MouseState<E> {
        self.state
    }

    /// A machine with no button down, whose last event is `initial`.
    pub fn new(initial: Event<E>) -> (r: Self)
        ensures
            r.view_state() == MouseState::Up(initial),
    {
        Mouse { state: MouseState::Up(initial) }
    }

    /// The current state.
    pub fn state(&self) -> (r: &MouseState<E>)
        ensures
            *r == self.view_state(),
    {
        &self.state
    }

    /// The last event seen: where the mouse currently is.
    pub fn current(&self) -> (r: &Event<E>)
        ensures
            *r == last_event(self.view_state()),
    {
        match &self.state {
            MouseState::Up(e) => e,
            MouseState::Down { press, current } => match current {
                Some(c) => c,
                None => press,
            },
            MouseState::Drag { start: _, current } => current,
        }
    }

    /// A move of the mouse. `far` says whether the event is farther than the
    /// drag distance from the event that pressed the button, when one is
    /// down.
    pub fn mouse_moved(self, ev: Event<E>, far: bool) -> (r: (Self, Vec<Gesture>))
        ensures
            (r.0.view_state(), r.1@) == moved_step(self.view_state(), ev, far),
    {
        let mut gestures: Vec<Gesture> = Vec::new();
        gestures.push(Gesture::Moved);
        let state = match self.state {
            MouseState::Up(_) => MouseState::Up(ev),
            MouseState::Down { press, current: _ } => {
                if far {
                    gestures.push(Gesture::DragBegan(button_class(press.button)));
                    MouseState::Drag { start: press, current: ev }
                } else {
                    MouseState::Down { press, current: Some(ev) }
                }
            },
            MouseState::Drag { start, current: _ } => {
                gestures.push(Gesture::DragChanged(button_class(start.button)));
                MouseState::Drag { start, current: ev }
            },
        };
        assert(gestures@ == moved_step(self.view_state(), ev, far).1);
        (Mouse { state }, gestures)
    }

    /// A press of a button. The button that is already down may not be
    /// pressed again.
    pub fn mouse_down(self, ev: Event<E>) -> (r: (Self, Vec<Gesture>))
        requires
            down_allowed(self.view_state(), ev),
        ensures
            (r.0.view_state(), r.1@) == down_step(self.view_state(), ev),
    {
        let mut gestures: Vec<Gesture> = Vec::new();
        let state = match self.state {
            MouseState::Up(_) => {
                gestures.push(Gesture::Down(button_class(ev.button)));
                MouseState::Down { press: ev, current: None }
            },
            // a second button pressed while one is down is not reported
            MouseState::Down { press, current: _ } => MouseState::Down { press, current: Some(ev) },
            MouseState::Drag { start, current: _ } => MouseState::Drag { start, current: ev },
        };
        assert(gestures@ == down_step(self.view_state(), ev).1);
        (Mouse { state }, gestures)
    }

    /// A release of a button.
    pub fn mouse_up(self, ev: Event<E>) -> (r: (Self, Vec<Gesture>))
        ensures
            (r.0.view_state(), r.1@) == up_step(self.view_state(), ev),
    {
        let mut gestures: Vec<Gesture> = Vec::new();
        let state = match self.state {
            MouseState::Up(_) => MouseState::Up(ev),
            MouseState::Down { press, current: _ } => {
                if ev.button == press.button {
                    let c = button_class(press.button);
                    gestures.push(Gesture::Click(c));
                    gestures.push(Gesture::Up(c));
                    MouseState::Up(ev)
                } else {
                    MouseState::Down { press, current: Some(ev) }
                }
            },
            MouseState::Drag { start, current } => {
                if ev.button == start.button {
                    let c = button_class(start.button);
                    gestures.push(Gesture::DragEnded(c));
                    gestures.push(Gesture::Up(c));
                    MouseState::Up(ev)
                } else {
                    MouseState::Drag { start, current }
                }
            },
        };
        assert(gestures@ == up_step(self.view_state(), ev).1);
        (Mouse { state }, gestures)
    }

    /// Any of the three kinds of event.
    pub fn mouse_event(self, event: TaggedEvent<E>, far: bool) -> (r: (Self, Vec<Gesture>))
        requires
            event matches TaggedEvent::Down(ev) ==> down_allowed(self.view_state(), ev),
        ensures
            event matches TaggedEvent::Down(ev) ==> (r.0.view_state(), r.1@) == down_step(self.view_state(), ev),
            event matches TaggedEvent::Up(ev) ==> (r.0.view_state(), r.1@) == up_step(self.view_state(), ev),
            event matches TaggedEvent::Moved(ev) ==> (r.0.view_state(), r.1@) == moved_step(self.view_state(), ev, far),
    {
        match event {
            TaggedEvent::Up(ev) => self.mouse_up(ev),
            TaggedEvent::Down(ev) => self.mouse_down(ev),
            TaggedEvent::Moved(ev) => self.mouse_moved(ev, far),
        }
    }

    /// Abandons the gesture in progress.
    pub fn cancel(self) -> (r: (Self, Vec<Gesture>))
        ensures
            r.0.view_state() == cancel_step(self.view_state()),
            r.1@ == seq![Gesture::Cancel],
    {
        let last = match self.state {
            MouseState::Down { press, current } => match current {
                Some(c) => c,
                None => press,
            },
            MouseState::Up(e) => e,
            MouseState::Drag { start: _, current } => current,
        };
        let mut gestures: Vec<Gesture> = Vec::new();
        gestures.push(Gesture::Cancel);
        (Mouse { state: MouseState::Up(last) }, gestures)
    }
}

} // verus!
