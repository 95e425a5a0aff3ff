use emu8::input::{key_of, key_press_of, InputReceiver, Key, KeyEvent, PhysicalKey};

fn ev(key: Option<PhysicalKey>, pressed: bool) -> KeyEvent {
    KeyEvent { key, pressed }
}

#[test]
fn press_and_release_update_the_mask() {
    let mut rx = InputReceiver::new();
    rx.process_key_events(&vec![ev(Some(PhysicalKey::W), true)]);
    assert!(rx.is_key_pressed(Key::Key5));
    assert!(!rx.is_key_pressed(Key::Key4));
    rx.process_key_events(&vec![ev(Some(PhysicalKey::W), false)]);
    assert!(!rx.is_key_pressed(Key::Key5));
}

#[test]
fn unmapped_events_are_ignored() {
    let mut rx = InputReceiver::new();
    rx.process_key_events(&vec![ev(None, true), ev(None, false)]);
    assert_eq!(rx.key_states, 0);
}

#[test]
fn events_apply_in_order() {
    let mut rx = InputReceiver::new();
    rx.process_key_events(&vec![
        ev(Some(PhysicalKey::X), true),
        ev(Some(PhysicalKey::Digit1), true),
        ev(Some(PhysicalKey::X), false),
    ]);
    assert!(!rx.is_key_pressed(Key::Key0));
    assert!(rx.is_key_pressed(Key::Key1));
}

#[test]
fn keypad_table_matches_the_conventional_layout() {
    assert_eq!(key_of(PhysicalKey::Digit1), Key::Key1);
    assert_eq!(key_of(PhysicalKey::Digit2), Key::Key2);
    assert_eq!(key_of(PhysicalKey::Digit3), Key::Key3);
    assert_eq!(key_of(PhysicalKey::Digit4), Key::KeyC);
    assert_eq!(key_of(PhysicalKey::Q), Key::Key4);
    assert_eq!(key_of(PhysicalKey::W), Key::Key5);
    assert_eq!(key_of(PhysicalKey::E), Key::Key6);
    assert_eq!(key_of(PhysicalKey::R), Key::KeyD);
    assert_eq!(key_of(PhysicalKey::A), Key::Key7);
    assert_eq!(key_of(PhysicalKey::S), Key::Key8);
    assert_eq!(key_of(PhysicalKey::D), Key::Key9);
    assert_eq!(key_of(PhysicalKey::F), Key::KeyE);
    assert_eq!(key_of(PhysicalKey::Z), Key::KeyA);
    assert_eq!(key_of(PhysicalKey::X), Key::Key0);
    assert_eq!(key_of(PhysicalKey::C), Key::KeyB);
    assert_eq!(key_of(PhysicalKey::V), Key::KeyF);
}

#[test]
fn key_values_run_zero_through_fifteen() {
    let keys = [
        Key::Key0,
        Key::Key1,
        Key::Key2,
        Key::Key3,
        Key::Key4,
        Key::Key5,
        Key::Key6,
        Key::Key7,
        Key::Key8,
        Key::Key9,
        Key::KeyA,
        Key::KeyB,
        Key::KeyC,
        Key::KeyD,
        Key::KeyE,
        Key::KeyF,
    ];
    for (i, k) in keys.iter().enumerate() {
        assert_eq!(k.value() as usize, i);
    }
}

#[test]
fn out_of_range_values_are_never_held() {
    let mut rx = InputReceiver::new();
    rx.process_key_events(&vec![ev(Some(PhysicalKey::V), true)]);
    assert!(rx.is_value_pressed(15));
    assert!(!rx.is_value_pressed(16));
    assert!(!rx.is_value_pressed(200));
}

#[test]
fn waiter_takes_only_mapped_presses() {
    assert_eq!(key_press_of(&ev(Some(PhysicalKey::Q), true)), Some(Key::Key4));
    assert_eq!(key_press_of(&ev(Some(PhysicalKey::Q), false)), None);
    assert_eq!(key_press_of(&ev(None, true)), None);
    assert_eq!(key_press_of(&ev(None, false)), None);
}

#[test]
fn single_event_entry_point_updates_the_mask() {
    let mut rx = InputReceiver::new();
    rx.on_key_event(Some(PhysicalKey::Digit4), true);
    assert!(rx.is_key_pressed(Key::KeyC));
    rx.on_key_event(Some(PhysicalKey::Digit4), false);
    assert!(!rx.is_key_pressed(Key::KeyC));
    rx.on_key_event(None, true);
    assert_eq!(rx.key_states, 0);
}
