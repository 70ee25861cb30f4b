use shoop_egui::key_input::{
    script_key, script_modifiers, translate_events, InputEvent, Key, KeyEventType, Modifiers,
    PressedKeys,
};

fn modifiers(shift: bool, ctrl: bool) -> Modifiers {
    Modifiers { alt: false, ctrl, shift, mac_cmd: false, command: ctrl }
}

const NONE: Modifiers = Modifiers { alt: false, ctrl: false, shift: false, mac_cmd: false, command: false };

fn key(key: Key, pressed: bool, repeat: bool, modifiers: Modifiers) -> InputEvent {
    InputEvent::Key { key, pressed, repeat, modifiers }
}

#[test]
fn translates_script_values_modifiers_and_suppresses_repeats() {
    let mut pressed = PressedKeys::new();
    let modifiers = modifiers(true, true);
    let events = translate_events(
        &[
            key(Key::Space, true, false, modifiers),
            key(Key::Space, true, true, modifiers),
            key(Key::Space, false, false, modifiers),
        ],
        false,
        &mut pressed,
    );
    assert_eq!(events.len(), 2);
    assert_eq!(events[0].key, 32);
    assert_eq!(events[0].modifiers, 33_554_432 | 67_108_864);
    assert_eq!(events[0].event_type, KeyEventType::Pressed);
    assert_eq!(events[1].event_type, KeyEventType::Released);
}

#[test]
fn text_entry_suppresses_new_keys_and_focus_loss_releases_held_keys() {
    let mut pressed = PressedKeys::new();
    assert!(translate_events(&[key(Key::R, true, false, NONE)], true, &mut pressed).is_empty());
    translate_events(&[key(Key::R, true, false, NONE)], false, &mut pressed);
    let released = translate_events(&[InputEvent::WindowFocused(false)], false, &mut pressed);
    assert_eq!(released.len(), 1);
    assert_eq!(released[0].key, 82);
    assert_eq!(released[0].event_type, KeyEventType::Released);
    assert!(pressed.is_empty());
}

#[test]
fn focus_loss_releases_in_key_order_with_press_modifiers() {
    let mut pressed = PressedKeys::new();
    let shift = modifiers(true, false);
    translate_events(
        &[
            key(Key::Z, true, false, shift),
            key(Key::Escape, true, false, NONE),
            key(Key::ArrowDown, true, false, NONE),
            key(Key::Other, true, false, NONE),
        ],
        false,
        &mut pressed,
    );
    assert_eq!(pressed.len(), 3);
    let released = translate_events(&[InputEvent::WindowFocused(true), InputEvent::WindowFocused(false)], false, &mut pressed);
    let keys: Vec<(i64, i64)> = released.iter().map(|e| (e.key, e.modifiers)).collect();
    assert_eq!(keys, [(16_777_237, 0), (16_777_216, 0), (90, 33_554_432)]);
    assert!(released.iter().all(|e| e.event_type == KeyEventType::Released));
    assert_eq!(pressed.len(), 0);
}

#[test]
fn releases_of_keys_not_held_are_dropped() {
    let mut pressed = PressedKeys::new();
    let events = translate_events(&[key(Key::A, false, false, NONE), InputEvent::Other], false, &mut pressed);
    assert!(events.is_empty());
    let events = translate_events(&[key(Key::A, true, false, NONE)], false, &mut pressed);
    assert_eq!(events.len(), 1);
    let events = translate_events(&[key(Key::A, true, false, NONE)], false, &mut pressed);
    assert!(events.is_empty());
    let events = translate_events(&[key(Key::A, false, false, modifiers(false, true))], true, &mut pressed);
    assert_eq!(events.len(), 1);
    assert_eq!(events[0].modifiers, 67_108_864);
}

#[test]
fn key_values_follow_the_script_key_table() {
    assert_eq!(script_key(Key::Period), Some(46));
    assert_eq!(script_key(Key::Num7), Some(55));
    assert_eq!(script_key(Key::Enter), Some(16_777_220));
    assert_eq!(script_key(Key::PageDown), Some(16_777_239));
    assert_eq!(script_key(Key::Other), None);
    let all = Modifiers { alt: true, ctrl: true, shift: true, mac_cmd: true, command: true };
    assert_eq!(script_modifiers(all), 33_554_432 | 67_108_864 | 134_217_728 | 268_435_456);
    assert_eq!(script_modifiers(NONE), 0);
}
