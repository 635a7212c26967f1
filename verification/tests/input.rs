use tui_input::Input;
use turmy::input::{
    horizontal_scroll_amount, mouse_wheel_direction, mouse_wheel_scroll_multiplier,
    signal_index_for_digit, time_limit, KeyCode, KeyEvent, KeyEventKind, KeyModifiers,
    MouseButton, MouseEventKind, MouseWheelDirection,
};
use turmy::line_edit::{edit, validated_time_limit};

fn none() -> KeyModifiers {
    KeyModifiers::default()
}

fn shift() -> KeyModifiers {
    KeyModifiers { shift: true, ..none() }
}

fn control() -> KeyModifiers {
    KeyModifiers { control: true, ..none() }
}

fn key(code: KeyCode, modifiers: KeyModifiers) -> KeyEvent {
    KeyEvent { code, modifiers, kind: KeyEventKind::Press }
}

#[test]
fn test_mouse_wheel_direction() {
    assert_eq!(
        mouse_wheel_direction(MouseEventKind::ScrollUp, none()),
        Some(MouseWheelDirection::Up)
    );
    assert_eq!(
        mouse_wheel_direction(MouseEventKind::ScrollDown, shift()),
        Some(MouseWheelDirection::Right)
    );
    assert_eq!(
        mouse_wheel_direction(MouseEventKind::ScrollLeft, none()),
        Some(MouseWheelDirection::Left)
    );
    assert_eq!(
        mouse_wheel_direction(MouseEventKind::Down(MouseButton::Left), none()),
        None
    );
}

#[test]
fn control_but_not_shift_accelerates_horizontal_keyboard_scrolling() {
    assert_eq!(horizontal_scroll_amount(key(KeyCode::Right, none())), 1);
    assert_eq!(horizontal_scroll_amount(key(KeyCode::Right, shift())), 1);
    assert_eq!(horizontal_scroll_amount(key(KeyCode::Right, control())), 10);
    assert_eq!(
        horizontal_scroll_amount(key(
            KeyCode::Right,
            KeyModifiers { control: true, ..shift() },
        )),
        10
    );
}

#[test]
fn only_shift_wheel_gets_the_horizontal_scroll_multiplier() {
    assert_eq!(
        mouse_wheel_scroll_multiplier(MouseEventKind::ScrollDown, shift()),
        3
    );
    assert_eq!(
        mouse_wheel_scroll_multiplier(MouseEventKind::ScrollRight, none()),
        1
    );
}

#[test]
fn test_validated_time_limit() {
    assert_eq!(validated_time_limit(&Input::new("".to_string())), None);
    assert_eq!(validated_time_limit(&Input::new("   ".to_string())), None);
    assert_eq!(
        validated_time_limit(&Input::new(" 01:00:00 ".to_string())),
        Some("01:00:00".to_string())
    );
}

#[test]
fn a_time_limit_loses_the_white_space_around_it() {
    assert_eq!(time_limit("\t1-00:00:00\u{a0}\n"), Some("1-00:00:00".to_string()));
    assert_eq!(time_limit(" \u{3000}\r\n"), None);
}

#[test]
fn alt_accelerates_horizontal_scrolling_too() {
    let alt = KeyModifiers { alt: true, ..none() };
    assert_eq!(horizontal_scroll_amount(key(KeyCode::Left, alt)), 10);
}

#[test]
fn shift_leaves_the_horizontal_wheel_alone() {
    assert_eq!(
        mouse_wheel_direction(MouseEventKind::ScrollRight, shift()),
        Some(MouseWheelDirection::Right)
    );
    assert_eq!(mouse_wheel_scroll_multiplier(MouseEventKind::ScrollRight, shift()), 1);
    assert_eq!(mouse_wheel_scroll_multiplier(MouseEventKind::ScrollUp, none()), 1);
    assert_eq!(
        mouse_wheel_direction(MouseEventKind::ScrollUp, shift()),
        Some(MouseWheelDirection::Left)
    );
}

#[test]
fn digits_name_signals_from_one_on() {
    assert_eq!(signal_index_for_digit('1'), Some(0));
    assert_eq!(signal_index_for_digit('9'), Some(8));
    assert_eq!(signal_index_for_digit('0'), None);
    assert_eq!(signal_index_for_digit('x'), None);
}

#[test]
fn typed_characters_go_in_front_of_the_cursor() {
    let mut field = Input::new("12".to_string());
    edit(&mut field, key(KeyCode::Left, none()));
    edit(&mut field, key(KeyCode::Char(':'), none()));
    assert_eq!(field.value(), "1:2");
    edit(&mut field, key(KeyCode::Char('A'), shift()));
    assert_eq!(field.value(), "1:A2");
    edit(&mut field, key(KeyCode::Backspace, none()));
    edit(&mut field, key(KeyCode::Delete, none()));
    assert_eq!(field.value(), "1:");
}

#[test]
fn control_keys_edit_the_field() {
    let mut field = Input::new("one two".to_string());
    edit(&mut field, key(KeyCode::Char('w'), control()));
    assert_eq!(field.value(), "one ");
    edit(&mut field, key(KeyCode::Home, none()));
    edit(&mut field, key(KeyCode::Char('y'), control()));
    assert_eq!(field.value(), "twoone ");
    edit(&mut field, key(KeyCode::End, none()));
    edit(&mut field, key(KeyCode::Char('u'), control()));
    assert_eq!(field.value(), "");
}

#[test]
fn releases_and_other_keys_leave_the_field_alone() {
    let mut field = Input::new("ab".to_string());
    edit(
        &mut field,
        KeyEvent { code: KeyCode::Char('x'), modifiers: none(), kind: KeyEventKind::Release },
    );
    edit(&mut field, key(KeyCode::Tab, none()));
    edit(&mut field, key(KeyCode::Other, none()));
    edit(&mut field, key(KeyCode::PageUp, none()));
    assert_eq!(field.value(), "ab");
    edit(
        &mut field,
        KeyEvent { code: KeyCode::Char('x'), modifiers: none(), kind: KeyEventKind::Repeat },
    );
    assert_eq!(field.value(), "abx");
}

#[test]
fn keys_that_mean_nothing_to_a_field_leave_it_alone() {
    let keys = [
        KeyCode::Enter,
        KeyCode::Esc,
        KeyCode::Up,
        KeyCode::Down,
        KeyCode::Tab,
        KeyCode::BackTab,
        KeyCode::PageUp,
        KeyCode::PageDown,
        KeyCode::Other,
    ];
    for code in keys {
        for modifiers in [none(), shift(), control()] {
            let mut field = Input::new("1:00".to_string());
            edit(&mut field, key(KeyCode::Left, none()));
            edit(&mut field, key(code, modifiers));
            assert_eq!((field.value(), field.cursor()), ("1:00", 3));
        }
    }
}
