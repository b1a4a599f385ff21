use scene_core::input::{camera_move_for, CameraMove, Key, KeyState, PressedKeys};

#[test]
fn starts_with_nothing_held() {
    let pressed = PressedKeys::new();
    assert_eq!(pressed.len(), 0);
    assert!(pressed.keys().is_empty());
    assert!(pressed.moves().is_empty());
}

#[test]
fn arrows_map_to_moves() {
    assert_eq!(camera_move_for(Some(Key::Up)), Some(CameraMove::Forwards));
    assert_eq!(camera_move_for(Some(Key::Down)), Some(CameraMove::Backwards));
    assert_eq!(camera_move_for(Some(Key::Right)), Some(CameraMove::Clockwise));
    assert_eq!(camera_move_for(Some(Key::Left)), Some(CameraMove::Counterclockwise));
    assert_eq!(camera_move_for(Some(Key::Other(30))), None);
    assert_eq!(camera_move_for(None), None);
}

#[test]
fn key_repeat_is_ignored() {
    let mut pressed = PressedKeys::new();
    pressed.press(Some(Key::Up));
    pressed.press(Some(Key::Up));
    pressed.press(Some(Key::Up));
    assert_eq!(pressed.keys(), &[Some(Key::Up)]);
    assert_eq!(pressed.moves(), vec![CameraMove::Forwards]);
}

#[test]
fn keys_stay_in_press_order() {
    let mut pressed = PressedKeys::new();
    pressed.press(Some(Key::Left));
    pressed.press(Some(Key::Other(57)));
    pressed.press(None);
    pressed.press(Some(Key::Up));
    pressed.press(Some(Key::Left));
    assert_eq!(pressed.keys(), &[Some(Key::Left), Some(Key::Other(57)), None, Some(Key::Up)]);
    assert_eq!(pressed.moves(), vec![CameraMove::Counterclockwise, CameraMove::Forwards]);
    assert_eq!(pressed.len(), 4);
}

#[test]
fn release_removes_only_that_key() {
    let mut pressed = PressedKeys::new();
    pressed.press(Some(Key::Up));
    pressed.press(Some(Key::Right));
    pressed.press(Some(Key::Down));
    pressed.release(Some(Key::Right));
    assert_eq!(pressed.keys(), &[Some(Key::Up), Some(Key::Down)]);
    assert!(!pressed.contains(Some(Key::Right)));
    assert!(pressed.contains(Some(Key::Up)));
    assert_eq!(pressed.moves(), vec![CameraMove::Forwards, CameraMove::Backwards]);
}

#[test]
fn releasing_an_unheld_key_changes_nothing() {
    let mut pressed = PressedKeys::new();
    pressed.press(Some(Key::Up));
    pressed.release(Some(Key::Down));
    pressed.release(None);
    assert_eq!(pressed.keys(), &[Some(Key::Up)]);
}

#[test]
fn press_then_release_restores() {
    let mut pressed = PressedKeys::new();
    pressed.press(Some(Key::Other(1)));
    pressed.press(Some(Key::Left));
    let before: Vec<Option<Key>> = pressed.keys().to_vec();
    pressed.press(Some(Key::Right));
    pressed.release(Some(Key::Right));
    assert_eq!(pressed.keys(), before.as_slice());
}

#[test]
fn other_keys_differ_by_code() {
    let mut pressed = PressedKeys::new();
    pressed.press(Some(Key::Other(1)));
    pressed.press(Some(Key::Other(2)));
    assert_eq!(pressed.len(), 2);
    pressed.release(Some(Key::Other(1)));
    assert_eq!(pressed.keys(), &[Some(Key::Other(2))]);
    assert!(pressed.moves().is_empty());
}

#[test]
fn keyless_events_are_tracked_like_a_key() {
    let mut pressed = PressedKeys::new();
    pressed.record(KeyState::Pressed, None);
    pressed.record(KeyState::Pressed, None);
    assert_eq!(pressed.keys(), &[None]);
    pressed.record(KeyState::Released, None);
    assert!(pressed.keys().is_empty());
}

#[test]
fn record_dispatches_on_state() {
    let mut pressed = PressedKeys::new();
    pressed.record(KeyState::Pressed, Some(Key::Down));
    assert!(pressed.contains(Some(Key::Down)));
    assert_eq!(pressed.moves(), vec![CameraMove::Backwards]);
    pressed.record(KeyState::Released, Some(Key::Down));
    assert!(!pressed.contains(Some(Key::Down)));
    assert!(pressed.moves().is_empty());
}

#[test]
fn no_key_is_ever_listed_twice() {
    let mut pressed = PressedKeys::new();
    let events = [
        (KeyState::Pressed, Some(Key::Up)),
        (KeyState::Pressed, Some(Key::Left)),
        (KeyState::Pressed, Some(Key::Up)),
        (KeyState::Released, Some(Key::Left)),
        (KeyState::Pressed, Some(Key::Left)),
        (KeyState::Pressed, None),
        (KeyState::Pressed, Some(Key::Left)),
    ];
    for (state, key) in events.iter() {
        pressed.record(*state, *key);
        let keys = pressed.keys();
        for i in 0..keys.len() {
            for j in 0..i {
                assert_ne!(keys[i], keys[j]);
            }
        }
    }
    assert_eq!(pressed.keys(), &[Some(Key::Up), Some(Key::Left), None]);
}
