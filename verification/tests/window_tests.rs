use sonate::window::{window_step, InputState, Key, WindowEvent, PAN_STEP};

#[test]
fn arrows_pan_and_ask_for_redraw() {
    let mut st: InputState<(f64, f64)> = InputState::new();
    let r = window_step(&mut st, WindowEvent::Keyboard(Key::ArrowLeft), false);
    assert_eq!((r.pan_x, r.pan_y, r.request_redraw), (-10, 0, true));
    let r = window_step(&mut st, WindowEvent::Keyboard(Key::ArrowRight), false);
    assert_eq!((r.pan_x, r.pan_y, r.request_redraw), (10, 0, true));
    let r = window_step(&mut st, WindowEvent::Keyboard(Key::ArrowUp), false);
    assert_eq!((r.pan_x, r.pan_y, r.request_redraw), (0, PAN_STEP, true));
    let r = window_step(&mut st, WindowEvent::Keyboard(Key::ArrowDown), false);
    assert_eq!((r.pan_x, r.pan_y, r.request_redraw), (0, -PAN_STEP, true));
    assert!(!r.exit);
}

#[test]
fn escape_and_close_exit() {
    let mut st: InputState<(f64, f64)> = InputState::new();
    let r = window_step(&mut st, WindowEvent::Keyboard(Key::Escape), false);
    assert!(r.exit && r.request_redraw);
    let r = window_step(&mut st, WindowEvent::CloseRequested, false);
    assert!(r.exit && !r.request_redraw);
    let r = window_step(&mut st, WindowEvent::Keyboard(Key::Other), false);
    assert!(!r.exit && !r.request_redraw && r.pan_x == 0);
}

#[test]
fn click_uses_last_cursor_position() {
    let mut st: InputState<(f64, f64)> = InputState::new();
    let r = window_step(&mut st, WindowEvent::LeftButtonPressed, false);
    assert_eq!(r.click, None);
    window_step(&mut st, WindowEvent::CursorMoved((3.0, 4.0)), false);
    window_step(&mut st, WindowEvent::CursorMoved((12.5, 7.0)), false);
    window_step(&mut st, WindowEvent::RedrawRequested, false);
    let r = window_step(&mut st, WindowEvent::LeftButtonPressed, false);
    assert_eq!(r.click, Some((12.5, 7.0)));
}

#[test]
fn backend_handled_events_are_left_alone_but_resizes_are_reported() {
    let mut st: InputState<(f64, f64)> = InputState::new();
    let r = window_step(&mut st, WindowEvent::CursorMoved((1.0, 1.0)), true);
    assert_eq!(r.click, None);
    assert_eq!(st.cursor, None);
    let r = window_step(&mut st, WindowEvent::Keyboard(Key::ArrowLeft), true);
    assert_eq!((r.pan_x, r.request_redraw), (0, false));
    let r = window_step(&mut st, WindowEvent::Resized, true);
    assert!(r.resize);
    let r = window_step(&mut st, WindowEvent::ScaleFactorChanged, false);
    assert!(r.resize && !r.render);
    let r = window_step(&mut st, WindowEvent::RedrawRequested, false);
    assert!(r.render);
}
