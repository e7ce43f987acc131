use koharu::input::{
    cef_modifiers, cef_mouse_button, ime_selection, key_event_plan, CefButton, KeyStep, character, character_virtual_key, virtual_key_code, ButtonState,
    InputModifiers, InputState, KeyLocation, KeyState, KeyValue, MouseButton, NamedKey,
};

#[test]
fn cef_flags_preserve_mouse_state_repeat_and_key_location() {
    let flags = cef_modifiers(
        InputModifiers {
            control: true,
            left_mouse: true,
            ..InputModifiers::default()
        },
        true,
        KeyLocation::Numpad,
    );
    assert_ne!(flags & (1 << 2), 0);
    assert_ne!(flags & (1 << 4), 0);
    assert_ne!(flags & (1 << 9), 0);
    assert_ne!(flags & (1 << 13), 0);
}

#[test]
fn virtual_keys_cover_shortcuts_navigation_and_punctuation() {
    assert_eq!(virtual_key_code(&KeyValue::Character("a".into())), 0x41);
    assert_eq!(virtual_key_code(&KeyValue::Named(NamedKey::ArrowLeft)), 0x25);
    assert_eq!(character_virtual_key('?'), 0xBF);
}

#[test]
fn click_count_is_bounded_by_time_position_and_button() {
    let mut input = InputState::new();
    assert_eq!(
        input.click_count(ButtonState::Pressed, MouseButton::Left, 0, true),
        1
    );
    assert_eq!(
        input.click_count(ButtonState::Pressed, MouseButton::Left, 100, true),
        2
    );
    assert_eq!(
        input.click_count(ButtonState::Pressed, MouseButton::Right, 100, true),
        1
    );
}

#[test]
fn fourth_nearby_click_starts_a_new_double_click_sequence() {
    let mut input = InputState::new();
    let counts = (0..4)
        .map(|index| {
            input.click_count(
                ButtonState::Pressed,
                MouseButton::Left,
                if index == 0 { 0 } else { 50 },
                true,
            )
        })
        .collect::<Vec<_>>();
    assert_eq!(counts, [1, 2, 3, 2]);
}

#[test]
fn pointer_modifiers_follow_pressed_mouse_buttons() {
    let mut input = InputState::new();
    input.apply_mouse_button(MouseButton::Left, ButtonState::Pressed);
    assert!(input.modifiers.left_mouse);
    input.apply_mouse_button(MouseButton::Left, ButtonState::Released);
    assert!(!input.modifiers.left_mouse);
}

#[test]
fn slow_or_distant_clicks_start_again() {
    let mut input = InputState::new();
    assert_eq!(input.click_count(ButtonState::Pressed, MouseButton::Left, 0, true), 1);
    assert_eq!(input.click_count(ButtonState::Pressed, MouseButton::Left, 501, true), 1);
    assert_eq!(input.click_count(ButtonState::Pressed, MouseButton::Left, 10, false), 1);
    assert_eq!(input.click_count(ButtonState::Pressed, MouseButton::Left, 500, true), 2);
    assert_eq!(input.click_count(ButtonState::Released, MouseButton::Left, 0, true), 2);
    assert_eq!(input.click_count(ButtonState::Released, MouseButton::Right, 0, true), 1);
}

#[test]
fn modifier_keys_update_the_modifier_state() {
    let mut input = InputState::new();
    input.apply_modifier_key(&KeyValue::Named(NamedKey::Shift), KeyState::Pressed);
    assert!(input.modifiers.shift);
    input.apply_modifier_key(&KeyValue::Named(NamedKey::Shift), KeyState::Released);
    assert!(!input.modifiers.shift);
    input.apply_keyboard_modifiers(false, true, false, true);
    assert!(input.modifiers.control && input.modifiers.meta);
    assert!(!input.modifiers.shift && !input.modifiers.alt);
}

#[test]
fn characters_report_their_first_utf16_unit() {
    assert_eq!(character(&KeyValue::Character("a".into())), 0x61);
    assert_eq!(character(&KeyValue::Named(NamedKey::Enter)), 0x0D);
    assert_eq!(character(&KeyValue::Named(NamedKey::ArrowLeft)), 0);
    assert_eq!(character(&KeyValue::Unidentified), 0);
}

#[test]
fn plain_modifiers_set_no_flags() {
    assert_eq!(
        cef_modifiers(InputModifiers::default(), false, KeyLocation::Standard),
        0
    );
}

#[test]
fn a_press_sends_key_down_then_each_text_unit() {
    assert_eq!(
        key_event_plan(KeyState::Pressed, &vec![0x61, 0xD83D, 0xDE00]),
        vec![
            KeyStep::RawKeyDown,
            KeyStep::Char(0x61),
            KeyStep::Char(0xD83D),
            KeyStep::Char(0xDE00)
        ]
    );
    assert_eq!(key_event_plan(KeyState::Pressed, &vec![]), vec![KeyStep::RawKeyDown]);
}

#[test]
fn a_release_sends_only_key_up() {
    assert_eq!(key_event_plan(KeyState::Released, &vec![0x61]), vec![KeyStep::KeyUp]);
}

#[test]
fn only_left_right_and_middle_clicks_reach_the_browser() {
    assert_eq!(cef_mouse_button(MouseButton::Left), Some(CefButton::Left));
    assert_eq!(cef_mouse_button(MouseButton::Right), Some(CefButton::Right));
    assert_eq!(cef_mouse_button(MouseButton::Middle), Some(CefButton::Middle));
    assert_eq!(cef_mouse_button(MouseButton::Back), None);
    assert_eq!(cef_mouse_button(MouseButton::Forward), None);
    assert_eq!(cef_mouse_button(MouseButton::Other(7)), None);
}

#[test]
fn composition_cursors_are_capped_at_the_browser_range() {
    assert_eq!(ime_selection(None), (0, 0));
    assert_eq!(ime_selection(Some((2, 5))), (2, 5));
    assert_eq!(
        ime_selection(Some((usize::MAX, 3))),
        (if usize::BITS > 32 { u32::MAX } else { usize::MAX as u32 }, 3)
    );
}
