use radiant_rs::input::{
    mouse_button_to_id, CursorState, Event, InputAction, InputData, InputId, InputState, MouseButton,
};

#[test]
fn id_codes() {
    assert_eq!(InputId::Key1.as_usize(), 0);
    assert_eq!(InputId::A.as_usize(), 10);
    assert_eq!(InputId::Escape.as_usize(), 36);
    assert_eq!(InputId::NavigateBackward.as_usize(), 149);
    assert_eq!(InputId::Mouse1.as_usize(), 256);
    assert_eq!(InputId::Mouse16.as_usize(), 271);
    assert_eq!(InputId::Unsupported.as_usize(), 272);
}

#[test]
fn from_usize_round_trips() {
    assert_eq!(InputId::from_usize(0), Some(InputId::Key1));
    assert_eq!(InputId::from_usize(36), Some(InputId::Escape));
    assert_eq!(InputId::from_usize(149), Some(InputId::NavigateBackward));
    assert_eq!(InputId::from_usize(150), None);
    assert_eq!(InputId::from_usize(255), None);
    assert_eq!(InputId::from_usize(256), Some(InputId::Mouse1));
    assert_eq!(InputId::from_usize(272), Some(InputId::Unsupported));
    assert_eq!(InputId::from_usize(273), None);
    for code in 0..300usize {
        if let Some(id) = InputId::from_usize(code) {
            assert_eq!(id.as_usize(), code);
        }
    }
}

#[test]
fn button_ids() {
    assert_eq!(InputId::button(1), InputId::Mouse1);
    assert_eq!(InputId::button(3), InputId::Mouse3);
    assert_eq!(InputId::button(16), InputId::Mouse16);
    assert_eq!(InputId::button(0), InputId::Unsupported);
    assert_eq!(InputId::button(17), InputId::Unsupported);
}

#[test]
fn new_input_data_is_all_up() {
    let data = InputData::new();
    assert_eq!(data.mouse, (0, 0));
    assert_eq!(data.mouse_delta, (0, 0));
    assert!(!data.should_close);
    assert!(!data.cursor_grabbed);
    assert_eq!(data.dimensions, (0, 0));
    assert_eq!(data.state(InputId::A), InputState::Up);
    assert_eq!(data.state(InputId::Mouse2), InputState::Up);
    assert!(data.up(InputId::Space));
    assert!(!data.down(InputId::Space));
}

#[test]
fn key_press_cycle() {
    let mut data = InputData::new();
    let key = InputId::A.as_usize();
    assert_eq!(data.apply_event(Event::KeyboardInput(key, true)), None);
    assert_eq!(data.state(InputId::A), InputState::Pressed);
    assert!(data.pressed(InputId::A, false));
    assert!(data.down(InputId::A));
    data.begin_poll();
    assert_eq!(data.state(InputId::A), InputState::Down);
    assert!(!data.pressed(InputId::A, true));
    data.apply_event(Event::KeyboardInput(key, true));
    assert_eq!(data.state(InputId::A), InputState::Repeat);
    assert!(data.pressed(InputId::A, true));
    assert!(!data.pressed(InputId::A, false));
    assert!(data.down(InputId::A));
    data.apply_event(Event::KeyboardInput(key, false));
    assert_eq!(data.state(InputId::A), InputState::Released);
    assert!(data.released(InputId::A));
    assert!(data.up(InputId::A));
    data.begin_poll();
    assert_eq!(data.state(InputId::A), InputState::Up);
    assert!(!data.released(InputId::A));
}

#[test]
fn release_of_up_key_changes_nothing() {
    let mut data = InputData::new();
    data.apply_event(Event::KeyboardInput(InputId::B.as_usize(), false));
    assert_eq!(data.state(InputId::B), InputState::Up);
}

#[test]
fn button_press_cycle() {
    let mut data = InputData::new();
    data.apply_event(Event::MouseInput(0, true));
    assert_eq!(data.state(InputId::Mouse1), InputState::Pressed);
    assert!(data.pressed(InputId::Mouse1, true));
    data.apply_event(Event::MouseInput(0, true));
    assert_eq!(data.state(InputId::Mouse1), InputState::Pressed);
    data.begin_poll();
    assert_eq!(data.state(InputId::Mouse1), InputState::Down);
    data.apply_event(Event::MouseInput(0, true));
    assert_eq!(data.state(InputId::Mouse1), InputState::Down);
    data.apply_event(Event::MouseInput(0, false));
    assert_eq!(data.state(InputId::Mouse1), InputState::Released);
    data.begin_poll();
    assert_eq!(data.state(InputId::Mouse1), InputState::Up);
}

#[test]
fn button_repeat_state_is_neither_down_nor_up() {
    let mut data = InputData::new();
    data.button[2] = InputState::Repeat;
    assert!(!data.down(InputId::Mouse3));
    assert!(!data.up(InputId::Mouse3));
    data.key[5] = InputState::Repeat;
    assert!(data.down(InputId::Key6));
    assert!(!data.up(InputId::Key6));
}

#[test]
fn mouse_moves_without_grab() {
    let mut data = InputData::new();
    assert_eq!(data.apply_event(Event::MouseMoved(12, -7)), None);
    assert_eq!(data.mouse, (12, -7));
    assert_eq!(data.mouse_delta, (0, 0));
}

#[test]
fn mouse_moves_with_grab_recenter() {
    let mut data = InputData::new();
    data.cursor_grabbed = true;
    data.dimensions = (640, 481);
    data.mouse = (5, 5);
    let action = data.apply_event(Event::MouseMoved(330, 230));
    assert_eq!(action, Some(InputAction::SetCursorPosition(320, 240)));
    assert_eq!(data.mouse_delta, (10, -10));
    assert_eq!(data.mouse, (15, -5));
}

#[test]
fn focus_restores_grab() {
    let mut data = InputData::new();
    assert_eq!(data.apply_event(Event::Focused), None);
    data.cursor_grabbed = true;
    assert_eq!(data.apply_event(Event::Focused), Some(InputAction::RestoreGrab));
}

#[test]
fn close_is_reported_once() {
    let mut data = InputData::new();
    assert!(!data.was_closed());
    data.apply_event(Event::Closed);
    assert!(data.was_closed());
    assert!(!data.was_closed());
}

#[test]
fn iterator_visits_keys_then_buttons() {
    let mut data = InputData::new();
    data.key[3] = InputState::Down;
    data.button[1] = InputState::Pressed;
    let mut it = data.iter();
    assert_eq!(it.next(), Some((InputId::Key1, InputState::Up)));
    let mut count = 1;
    let mut last = None;
    while let Some(entry) = it.next() {
        count += 1;
        last = Some(entry);
    }
    assert_eq!(count, 272);
    assert_eq!(last, Some((InputId::Mouse16, InputState::Up)));
    let mut it = data.iter();
    for _ in 0..150 {
        it.next();
    }
    assert_eq!(it.next(), Some((InputId::Unsupported, InputState::Up)));
}

#[test]
fn down_iterator_lists_held_entries() {
    let mut data = InputData::new();
    data.key[3] = InputState::Down;
    data.key[7] = InputState::Repeat;
    data.key[10] = InputState::Pressed;
    data.button[1] = InputState::Pressed;
    let mut down = data.iter().down();
    assert_eq!(down.next(), Some(InputId::Key4));
    assert_eq!(down.next(), Some(InputId::Key8));
    assert_eq!(down.next(), Some(InputId::A));
    assert_eq!(down.next(), Some(InputId::Mouse2));
    assert_eq!(down.next(), None);
    assert_eq!(down.next(), None);
}

#[test]
fn up_iterator_skips_held_entries() {
    let mut data = InputData::new();
    for i in 0..256 {
        data.key[i] = InputState::Down;
    }
    for i in 0..16 {
        data.button[i] = InputState::Down;
    }
    data.key[0] = InputState::Released;
    data.button[15] = InputState::Up;
    let mut up = data.iter().up();
    assert_eq!(up.next(), Some(InputId::Key1));
    assert_eq!(up.next(), Some(InputId::Mouse16));
    assert_eq!(up.next(), None);
}

#[test]
fn mouse_button_slots() {
    assert_eq!(mouse_button_to_id(MouseButton::Left), Some(0));
    assert_eq!(mouse_button_to_id(MouseButton::Right), Some(1));
    assert_eq!(mouse_button_to_id(MouseButton::Middle), Some(2));
    assert_eq!(mouse_button_to_id(MouseButton::Back), Some(3));
    assert_eq!(mouse_button_to_id(MouseButton::Forward), Some(4));
    assert_eq!(mouse_button_to_id(MouseButton::Other(0)), Some(5));
    assert_eq!(mouse_button_to_id(MouseButton::Other(10)), Some(15));
    assert_eq!(mouse_button_to_id(MouseButton::Other(11)), None);
    assert_eq!(mouse_button_to_id(MouseButton::Other(u16::MAX)), None);
}

#[test]
fn cursor_state_sets_and_releases_grab() {
    let mut data = InputData::new();
    assert!(!data.cursor_grabbed);
    assert_eq!(data.set_cursor_state(CursorState::Grab), Some((100, 100)));
    assert!(data.cursor_grabbed);
    assert_eq!(data.set_cursor_state(CursorState::Hide), None);
    assert!(!data.cursor_grabbed);
    data.set_cursor_state(CursorState::Grab);
    assert_eq!(data.set_cursor_state(CursorState::Normal), None);
    assert!(!data.cursor_grabbed);
}

#[test]
fn can_apply_checks_ranges_and_grabbed_mouse_arithmetic() {
    let mut data = InputData::new();
    assert!(data.can_apply(Event::KeyboardInput(255, true)));
    assert!(!data.can_apply(Event::KeyboardInput(256, true)));
    assert!(data.can_apply(Event::MouseInput(15, true)));
    assert!(!data.can_apply(Event::MouseInput(16, false)));
    assert!(data.can_apply(Event::MouseMoved(i32::MIN, i32::MAX)));
    assert!(data.can_apply(Event::Focused));
    assert!(data.can_apply(Event::Closed));
    data.dimensions = (200, 100);
    data.set_cursor_state(CursorState::Grab);
    // the center is (100, 50); moving to (110, 40) gives a delta of (10, -10)
    assert!(data.can_apply(Event::MouseMoved(110, 40)));
    data.mouse = (i32::MAX - 5, 0);
    assert!(!data.can_apply(Event::MouseMoved(110, 40)));
    assert!(data.can_apply(Event::MouseMoved(105, 40)));
    data.mouse = (0, 0);
    assert!(!data.can_apply(Event::MouseMoved(i32::MIN, 50)));
}

#[test]
fn repeating_keys_are_listed_as_down_and_not_as_up() {
    let mut data = InputData::new();
    data.key[0] = InputState::Repeat;
    assert!(data.down(InputId::Key1));
    assert_eq!(data.iter().down().next(), Some(InputId::Key1));
    assert_eq!(data.iter().up().next(), Some(InputId::Key2));
}

#[test]
fn a_close_is_reported_once() {
    let mut data = InputData::new();
    data.begin_poll();
    data.apply_event(Event::Closed);
    data.apply_event(Event::KeyboardInput(3, true));
    assert!(data.was_closed());
    assert!(!data.was_closed());
    data.begin_poll();
    data.apply_event(Event::Focused);
    assert!(!data.was_closed());
}
