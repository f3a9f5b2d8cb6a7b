use nz_rust::input::{
    click_at, current_backend, key_down, mouse_scroll, move_left, press_key_sequence, take_events,
    tap_key, InputBackend, InputEvent, InputQueue, KeyAction, ScrollDirection,
};
use nz_rust::keys::{get_vk_code, resolve_key, vk_code_of_upper};
use nz_rust::logitech::{correction_step, MouseButton, SendError};

#[test]
fn key_sequence_releases_held_keys() {
    let mut q = InputQueue::new(InputBackend::SendInput);
    let actions = vec![
        KeyAction::Hold(0x57, 0),
        KeyAction::Hold(0x41, 0),
        KeyAction::Tap(0x20, 2),
        KeyAction::Release(0x41),
    ];
    press_key_sequence(&mut q, &actions);
    let ev = take_events(&mut q);
    assert_eq!(
        ev,
        vec![
            InputEvent::KeyDown(0x57),
            InputEvent::KeyDown(0x41),
            InputEvent::KeyDown(0x20),
            InputEvent::Sleep(50),
            InputEvent::KeyUp(0x20),
            InputEvent::Sleep(100),
            InputEvent::KeyDown(0x20),
            InputEvent::Sleep(50),
            InputEvent::KeyUp(0x20),
            InputEvent::KeyUp(0x41),
            InputEvent::KeyUp(0x57),
        ]
    );
}

#[test]
fn key_sequence_timed_hold_and_zero_tap_count() {
    let mut q = InputQueue::new(InputBackend::Logitech);
    press_key_sequence(&mut q, &vec![KeyAction::Hold(0x44, 1500), KeyAction::Tap(0x47, 0)]);
    assert_eq!(current_backend(&q), InputBackend::Logitech);
    assert_eq!(
        take_events(&mut q),
        vec![
            InputEvent::KeyDown(0x44),
            InputEvent::Sleep(1500),
            InputEvent::KeyUp(0x44),
            InputEvent::KeyDown(0x47),
            InputEvent::Sleep(50),
            InputEvent::KeyUp(0x47),
        ]
    );
}

#[test]
fn primitive_events() {
    let mut q = InputQueue::new(InputBackend::SendInput);
    click_at(&mut q, 5, 6);
    tap_key(&mut q, 0x4E);
    key_down(&mut q, 0x10);
    move_left(&mut q, 22);
    mouse_scroll(&mut q, ScrollDirection::Down, 2, 250);
    assert_eq!(
        take_events(&mut q),
        vec![
            InputEvent::MoveTo { x: 5, y: 6 },
            InputEvent::Sleep(100),
            InputEvent::LeftClick,
            InputEvent::KeyDown(0x4E),
            InputEvent::Sleep(50),
            InputEvent::KeyUp(0x4E),
            InputEvent::KeyDown(0x10),
            InputEvent::MoveRelative { dx: -22, dy: 0 },
            InputEvent::Wheel(-120),
            InputEvent::Sleep(250),
            InputEvent::Wheel(-120),
        ]
    );
}

#[test]
fn key_names_any_case() {
    assert_eq!(get_vk_code("a"), Some(0x41));
    assert_eq!(get_vk_code("Z"), Some(0x5A));
    assert_eq!(get_vk_code("5"), Some(0x35));
    assert_eq!(get_vk_code("space"), Some(0x20));
    assert_eq!(get_vk_code("Ctrl"), Some(0x11));
    assert_eq!(get_vk_code("f12"), Some(0x7B));
    assert_eq!(get_vk_code("F13"), None);
    assert_eq!(get_vk_code(""), None);
    assert_eq!(vk_code_of_upper("esc"), None);
    assert_eq!(vk_code_of_upper("ESC"), Some(0x1B));
}

#[test]
fn unknown_key_is_an_error() {
    match resolve_key("banana") {
        Err(e) => assert_eq!(e.key, "banana"),
        Ok(_) => panic!("expected an error"),
    }
    assert!(matches!(resolve_key("enter"), Ok(0x0D)));
}

#[test]
fn correction_converges_and_steps() {
    assert_eq!(correction_step(0, (100, 100), (102, 98)), None);
    assert_eq!(correction_step(0, (0, 0), (30, -30)), Some((10, -10)));
    assert_eq!(correction_step(0, (0, 0), (1000, 0)), Some((200, 0)));
    assert_eq!(correction_step(4, (0, 0), (5, 0)), Some((2, 0)));
    assert_eq!(correction_step(7, (0, 0), (5, -5)), Some((3, -3)));
    assert_eq!(correction_step(12, (0, 0), (3, 0)), Some((2, 0)));
    assert_eq!(correction_step(0, (0, 0), (1, 4)), Some((1, 1)));
}

#[test]
fn driver_codes() {
    assert_eq!(SendError::from_code(6), Some(SendError::DeviceNotFound));
    assert_eq!(SendError::from_code(8), None);
    assert_eq!(SendError::DeviceOpenFailed.code(), 7);
    assert_eq!(MouseButton::Right.code(), 0x18);
}
