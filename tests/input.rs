use cubeworld::input::{match_keycode_num, Color, InputState, Keycode, WindowEvent};

#[test]
fn key_down_marks_held_and_pressed_once() {
    let mut input = InputState::new();
    input.key_down_event(Keycode::A);
    input.key_down_event(Keycode::A);
    assert_eq!(input.keys_held, vec![Keycode::A]);
    assert_eq!(input.keys_pressed, vec![Keycode::A]);
    input.clear_frame();
    input.key_down_event(Keycode::A);
    assert!(input.keys_pressed.is_empty());
    assert_eq!(input.keys_held, vec![Keycode::A]);
}

#[test]
fn key_up_releases_only_that_key() {
    let mut input = InputState::new();
    input.key_down_event(Keycode::A);
    input.key_down_event(Keycode::D);
    input.key_down_event(Keycode::W);
    input.key_up_event(Keycode::D);
    assert_eq!(input.keys_held, vec![Keycode::A, Keycode::W]);
    assert_eq!(input.keys_pressed, vec![Keycode::A, Keycode::D, Keycode::W]);
    input.key_up_event(Keycode::S);
    assert_eq!(input.keys_held, vec![Keycode::A, Keycode::W]);
    input.key_up_event(Keycode::A);
    input.key_down_event(Keycode::A);
    assert_eq!(input.keys_held, vec![Keycode::W, Keycode::A]);
}

#[test]
fn numeric_key_codes() {
    assert_eq!(match_keycode_num(0), Keycode::A);
    assert_eq!(match_keycode_num(3), Keycode::D);
    assert_eq!(match_keycode_num(4), Keycode::E);
    assert_eq!(match_keycode_num(16), Keycode::Q);
    assert_eq!(match_keycode_num(18), Keycode::S);
    assert_eq!(match_keycode_num(22), Keycode::W);
    assert_eq!(match_keycode_num(100), Keycode::Escape);
    assert_eq!(match_keycode_num(7), Keycode::Unknown);
}

#[test]
fn colors_and_events() {
    let c = Color::rgb(1, 2, 3);
    assert_eq!((c.r, c.g, c.b), (1, 2, 3));
    assert_eq!(WindowEvent::KeyDown(Keycode::Q), WindowEvent::KeyDown(Keycode::Q));
    assert_ne!(WindowEvent::KeyUp(Keycode::Q), WindowEvent::Quit);
}
