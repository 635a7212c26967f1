//! Key presses and mouse events, and what they ask for.
use vstd::prelude::*;

use crate::formatting;

verus! {

/// A key.
#[derive(Clone, Copy, Debug, PartialEq, Eq, Structural)]
pub enum KeyCode {
    Char(char),
    Enter,
    Esc,
    Up,
    Down,
    Left,
    Right,
    Tab,
    BackTab,
    PageUp,
    PageDown,
    Home,
    End,
    Backspace,
    Delete,
    /// Any other key.
    Other,
}

/// The modifier keys that are held.
#[derive(Clone, Copy, Debug, PartialEq, Eq, Structural)]
pub struct KeyModifiers {
    pub shift: bool,
    pub control: bool,
    pub alt: bool,
    pub super_key: bool,
    pub hyper: bool,
    pub meta: bool,
}

impl KeyModifiers {
    /// Whether no modifier key is held.
    pub open spec fn none(self) -> bool {
        !self.shift && !self.control && !self.alt && !self.super_key && !self.hyper && !self.meta
    }

    /// Whether no modifier key is held.
    pub fn is_empty(self) -> (r: bool)
        ensures
            r == self.none(),
    {
        !self.shift && !self.control && !self.alt && !self.super_key && !self.hyper && !self.meta
    }
}

impl Default for KeyModifiers {
    fn default() -> (r: Self)
        ensures
            r.none(),
    {
        KeyModifiers {
            shift: false,
            control: false,
            alt: false,
            super_key: false,
            hyper: false,
            meta: false,
        }
    }
}

/// What happened to a key.
#[derive(Clone, Copy, Debug, PartialEq, Eq, Structural)]
pub enum KeyEventKind {
    Press,
    Repeat,
    Release,
}

/// A key event.
#[derive(Clone, Copy, Debug, PartialEq, Eq, Structural)]
pub struct KeyEvent {
    pub code: KeyCode,
    pub modifiers: KeyModifiers,
    pub kind: KeyEventKind,
}

/// A mouse button.
#[derive(Clone, Copy, Debug, PartialEq, Eq, Structural)]
pub enum MouseButton {
    Left,
    Right,
    Middle,
}

/// What happened to the mouse.
#[derive(Clone, Copy, Debug, PartialEq, Eq, Structural)]
pub enum MouseEventKind {
    Down(MouseButton),
    Up(MouseButton),
    Drag(MouseButton),
    Moved,
    ScrollUp,
    ScrollDown,
    ScrollLeft,
    ScrollRight,
}

/// A mouse event, and where it happened.
#[derive(Clone, Copy, Debug, PartialEq, Eq, Structural)]
pub struct MouseEvent {
    pub kind: MouseEventKind,
    pub column: u16,
    pub row: u16,
    pub modifiers: KeyModifiers,
}

/// A terminal event.
#[derive(Clone, Copy, Debug, PartialEq, Eq, Structural)]
pub enum Event {
    Key(KeyEvent),
    Mouse(MouseEvent),
    Paste,
    Resize,
    /// Any other event.
    Other,
}

/// Where the mouse wheel scrolls to.
#[derive(Clone, Copy, Debug, PartialEq, Eq, Structural)]
pub enum MouseWheelDirection {
    Up,
    Down,
    Left,
    Right,
}

/// Lines or columns that one step of the wheel scrolls by while shift is held.
pub const SHIFT_WHEEL_SCROLL_MULTIPLIER: u16 = 3;

/// Where a wheel event scrolls to: shift turns up and down into left and right.
/// `None` for any other event.
pub open spec fn wheel_direction(kind: MouseEventKind, shift: bool) -> Option<
    MouseWheelDirection,
> {
    match kind {
        MouseEventKind::ScrollUp => Some(
            if shift {
                MouseWheelDirection::Left
            } else {
                MouseWheelDirection::Up
            },
        ),
        MouseEventKind::ScrollDown => Some(
            if shift {
                MouseWheelDirection::Right
            } else {
                MouseWheelDirection::Down
            },
        ),
        MouseEventKind::ScrollLeft => Some(MouseWheelDirection::Left),
        MouseEventKind::ScrollRight => Some(MouseWheelDirection::Right),
        _ => None,
    }
}

/// How much one wheel event counts: more where shift turned its direction.
pub open spec fn wheel_multiplier(kind: MouseEventKind, shift: bool) -> u16 {
    if shift && (kind == MouseEventKind::ScrollUp || kind == MouseEventKind::ScrollDown) {
        SHIFT_WHEEL_SCROLL_MULTIPLIER
    } else {
        1
    }
}

/// Columns that a key scrolls by.
pub open spec fn horizontal_step(modifiers: KeyModifiers) -> usize {
    if modifiers.control || modifiers.alt {
        10
    } else {
        1
    }
}

/// The position that a digit names, counted from 1.
pub open spec fn digit_index(digit: char) -> Option<int> {
    if '1' <= digit && digit <= '9' {
        Some(digit as int - '1' as int)
    } else {
        None
    }
}

/// Where a wheel event scrolls to.
pub fn mouse_wheel_direction(kind: MouseEventKind, modifiers: KeyModifiers) -> (r: Option<
    MouseWheelDirection,
>)
    ensures
        r == wheel_direction(kind, modifiers.shift),
{
    match kind {
        MouseEventKind::ScrollUp => Some(
            if modifiers.shift {
                MouseWheelDirection::Left
            } else {
                MouseWheelDirection::Up
            },
        ),
        MouseEventKind::ScrollDown => Some(
            if modifiers.shift {
                MouseWheelDirection::Right
            } else {
                MouseWheelDirection::Down
            },
        ),
        MouseEventKind::ScrollLeft => Some(MouseWheelDirection::Left),
        MouseEventKind::ScrollRight => Some(MouseWheelDirection::Right),
        _ => None,
    }
}

/// How much one wheel event counts.
pub fn mouse_wheel_scroll_multiplier(kind: MouseEventKind, modifiers: KeyModifiers) -> (r: u16)
    ensures
        r == wheel_multiplier(kind, modifiers.shift),
{
    match kind {
        MouseEventKind::ScrollUp | MouseEventKind::ScrollDown => if modifiers.shift {
            SHIFT_WHEEL_SCROLL_MULTIPLIER
        } else {
            1
        },
        _ => 1,
    }
}

/// Columns that a key scrolls by.
pub fn horizontal_scroll_amount(key: KeyEvent) -> (r: usize)
    ensures
        r == horizontal_step(key.modifiers),
{
    if key.modifiers.control || key.modifiers.alt {
        10
    } else {
        1
    }
}

/// The position that a digit names, counted from 1; `None` for `0` and for
/// what is no digit.
pub fn signal_index_for_digit(digit: char) -> (r: Option<usize>)
    ensures
        match r {
            Some(index) => digit_index(digit) == Some(index as int),
            None => digit_index(digit) is None,
        },
{
    if '1' <= digit && digit <= '9' {
        let value: u32 = digit as u32;
        Some((value - 49) as usize)
    } else {
        None
    }
}

/// What a user entered as a time limit, without the white space around it;
/// `None` where nothing is left.
pub open spec fn entered_limit(value: Seq<char>) -> Option<Seq<char>> {
    let limit = formatting::trimmed(value);
    if limit.len() == 0 {
        None
    } else {
        Some(limit)
    }
}

/// What a user entered as a time limit.
pub fn time_limit(value: &str) -> (r: Option<String>)
    ensures
        match r {
            Some(limit) => entered_limit(value@) == Some(limit@),
            None => entered_limit(value@) is None,
        },
{
    let limit: &str = formatting::trim(value);
    if limit.is_empty() {
        None
    } else {
        Some(limit.to_owned())
    }
}

} // verus!
