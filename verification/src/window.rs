//! The window's input decisions: what each window event asks of the
//! application. Running the event loop, drawing, and keeping the view offset
//! and the scale factor are the caller's work; a cursor position is carried
//! through as the caller's type `P`.
use vstd::prelude::*;

verus! {

/// The keys the window reacts to, by logical key.
#[derive(Clone, Copy, Debug, PartialEq, Eq, Structural)]
pub enum Key {
    ArrowLeft,
    ArrowRight,
    ArrowUp,
    ArrowDown,
    Escape,
    Other,
}

/// A window event, as far as the decisions below read it.
#[derive(Clone, Copy, Debug)]
pub enum WindowEvent<P> {
    Resized,
    ScaleFactorChanged,
    /// A keyboard event, pressed or released.
    Keyboard(Key),
    /// The left mouse button went down.
    LeftButtonPressed,
    /// The cursor moved to a position in logical coordinates.
    CursorMoved(P),
    RedrawRequested,
    CloseRequested,
    Other,
}

/// What the window remembers between events.
#[derive(Clone, Copy, Debug)]
pub struct InputState<P> {
    /// The last cursor position, once the cursor has moved over the window.
    pub cursor: Option<P>,
}

/// What the application does in answer to one event.
#[derive(Clone, Copy, Debug)]
pub struct Reaction<P> {
    /// Report the window's logical size to the layout.
    pub resize: bool,
    /// Move the view by this many logical pixels.
    pub pan_x: i32,
    pub pan_y: i32,
    pub request_redraw: bool,
    /// Report a click at this position.
    pub click: Option<P>,
    pub render: bool,
    pub exit: bool,
}

/// How far an arrow key moves the view.
pub const PAN_STEP: i32 = 10;

/// Doing nothing.
pub open spec fn no_reaction<P>() -> Reaction<P> {
    Reaction {
        resize: false,
        pan_x: 0,
        pan_y: 0,
        request_redraw: false,
        click: None,
        render: false,
        exit: false,
    }
}

/// The answer to a keyboard event: an arrow moves the view by `PAN_STEP`
/// (up is positive y) and asks for a redraw; Escape quits and asks for a
/// redraw; other keys are ignored.
pub open spec fn key_reaction<P>(key: Key) -> Reaction<P> {
    match key {
        Key::ArrowLeft => Reaction { pan_x: (-PAN_STEP) as i32, request_redraw: true, ..no_reaction() },
        Key::ArrowRight => Reaction { pan_x: PAN_STEP, request_redraw: true, ..no_reaction() },
        Key::ArrowUp => Reaction { pan_y: PAN_STEP, request_redraw: true, ..no_reaction() },
        Key::ArrowDown => Reaction { pan_y: (-PAN_STEP) as i32, request_redraw: true, ..no_reaction() },
        Key::Escape => Reaction { exit: true, request_redraw: true, ..no_reaction() },
        Key::Other => no_reaction(),
    }
}

/// The next state and the reaction to `event`. A resize or a change of scale
/// factor is always reported; any other event that the rendering backend
/// has already handled is left alone. A left click is reported at the last
/// cursor position, and not at all before the cursor has moved.
pub open spec fn window_step_spec<P>(state: InputState<P>, event: WindowEvent<P>, backend_handled: bool) -> (
    InputState<P>,
    Reaction<P>,
) {
    match event {
        WindowEvent::Resized => (state, Reaction { resize: true, ..no_reaction() }),
        WindowEvent::ScaleFactorChanged => (state, Reaction { resize: true, ..no_reaction() }),
        _ => if backend_handled {
            (state, no_reaction())
        } else {
            match event {
                WindowEvent::Keyboard(key) => (state, key_reaction(key)),
                WindowEvent::LeftButtonPressed => (
                    state,
                    Reaction { click: state.cursor, ..no_reaction() },
                ),
                WindowEvent::CursorMoved(p) => (InputState { cursor: Some(p) }, no_reaction()),
                WindowEvent::RedrawRequested => (state, Reaction { render: true, ..no_reaction() }),
                WindowEvent::CloseRequested => (state, Reaction { exit: true, ..no_reaction() }),
                _ => (state, no_reaction()),
            }
        },
    }
}

impl<P: Copy> InputState<P> {
    /// No cursor position yet.
    pub fn new() -> (r: Self)
        ensures
            r.cursor is None,
    {
        InputState { cursor: None }
    }
}

fn nothing<P>() -> (r: Reaction<P>)
    ensures
        r == no_reaction::<P>(),
{
    Reaction {
        resize: false,
        pan_x: 0,
        pan_y: 0,
        request_redraw: false,
        click: None,
        render: false,
        exit: false,
    }
}

fn react_to_key<P>(key: Key) -> (r: Reaction<P>)
    ensures
        r == key_reaction::<P>(key),
{
    let none = nothing();
    match key {
        Key::ArrowLeft => Reaction { pan_x: -PAN_STEP, request_redraw: true, ..none },
        Key::ArrowRight => Reaction { pan_x: PAN_STEP, request_redraw: true, ..none },
        Key::ArrowUp => Reaction { pan_y: PAN_STEP, request_redraw: true, ..none },
        Key::ArrowDown => Reaction { pan_y: -PAN_STEP, request_redraw: true, ..none },
        Key::Escape => Reaction { exit: true, request_redraw: true, ..none },
        Key::Other => none,
    }
}

/// Take one window event: update the input state and say what to do.
pub fn window_step<P: Copy>(state: &mut InputState<P>, event: WindowEvent<P>, backend_handled: bool) -> (r: Reaction<P>)
    ensures
        (*final(state), r) == window_step_spec(*old(state), event, backend_handled),
{
    match event {
        WindowEvent::Resized | WindowEvent::ScaleFactorChanged => {
            return Reaction { resize: true, ..nothing() };
        },
        _ => {},
    }
    if backend_handled {
        return nothing();
    }
    match event {
        WindowEvent::Keyboard(key) => react_to_key(key),
        WindowEvent::LeftButtonPressed => Reaction { click: state.cursor, ..nothing() },
        WindowEvent::CursorMoved(p) => {
            state.cursor = Some(p);
            nothing()
        },
        WindowEvent::RedrawRequested => Reaction { render: true, ..nothing() },
        WindowEvent::CloseRequested => Reaction { exit: true, ..nothing() },
        _ => nothing(),
    }
}

/// A click is reported at the position of the last cursor move, whatever
/// events came between them that the backend did not take.
pub proof fn lemma_click_at_last_cursor<P>(state: InputState<P>, p: P, between: Seq<WindowEvent<P>>)
    requires
        forall|i: int| 0 <= i < between.len() ==> !(#[trigger] between[i] is CursorMoved),
    ensures
        ({
            let s1 = window_step_spec(state, WindowEvent::CursorMoved(p), false).0;
            let s2 = steps_without_backend(s1, between);
            window_step_spec(s2, WindowEvent::LeftButtonPressed, false).1.click == Some(p)
        }),
{
    let s1 = window_step_spec(state, WindowEvent::CursorMoved(p), false).0;
    lemma_cursor_kept(s1, between);
}

/// The state after a run of events, none of them taken by the backend.
pub open spec fn steps_without_backend<P>(state: InputState<P>, events: Seq<WindowEvent<P>>) -> InputState<P>
    decreases events.len(),
{
    if events.len() == 0 {
        state
    } else {
        window_step_spec(steps_without_backend(state, events.drop_last()), events.last(), false).0
    }
}

proof fn lemma_cursor_kept<P>(state: InputState<P>, events: Seq<WindowEvent<P>>)
    requires
        forall|i: int| 0 <= i < events.len() ==> !(#[trigger] events[i] is CursorMoved),
    ensures
        steps_without_backend(state, events).cursor == state.cursor,
    decreases events.len(),
{
    if events.len() > 0 {
        let rest = events.drop_last();
        assert forall|i: int| 0 <= i < rest.len() implies !(#[trigger] rest[i] is CursorMoved) by {
            assert(rest[i] == events[i]);
        }
        lemma_cursor_kept(state, rest);
        assert(!(events[events.len() - 1] is CursorMoved));
    }
}

} // verus!
