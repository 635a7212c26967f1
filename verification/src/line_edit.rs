//! The one-line text field of a dialog.
use crossterm::event::KeyCode::{
    BackTab, Backspace, Char, Delete, Down, End, Enter, Esc, Home, Left, Null, PageDown, PageUp,
    Right, Tab, Up,
};
use crossterm::event::KeyEventKind::{Press, Release, Repeat};
use crossterm::event::{
    Event as TerminalEvent, KeyEvent as TerminalKey, KeyModifiers as TerminalModifiers,
};
use tui_input::backend::crossterm::EventHandler;
use vstd::prelude::*;

use crate::geometry;
use crate::input;
use crate::input::{KeyCode, KeyEvent, KeyEventKind, KeyModifiers};
use crate::viewport;

verus! {

/// A line of text that is being edited.
#[verifier::external_type_specification]
#[verifier::external_body]
pub struct ExInput(tui_input::Input);

/// The text of a field.
pub uninterp spec fn field_text(field: tui_input::Input) -> Seq<char>;

/// The number of characters in front of a field's cursor.
pub uninterp spec fn field_cursor(field: tui_input::Input) -> nat;

/// What was last cut from a field.
pub uninterp spec fn field_cut(field: tui_input::Input) -> Seq<char>;

/// Whether the last edit of a field was a cut.
pub uninterp spec fn field_cutting(field: tui_input::Input) -> bool;

/// The state of a field.
pub struct FieldView {
    pub text: Seq<char>,
    /// Number of characters in front of the cursor.
    pub cursor: nat,
    /// What was last cut.
    pub cut: Seq<char>,
    /// Whether the last edit was a cut.
    pub cutting: bool,
}

/// The state of a field.
pub open spec fn field_view(field: tui_input::Input) -> FieldView {
    FieldView {
        text: field_text(field),
        cursor: field_cursor(field),
        cut: field_cut(field),
        cutting: field_cutting(field),
    }
}

/// The field with that text, before any edit: the cursor stands at its end.
pub open spec fn new_field(text: Seq<char>) -> FieldView {
    FieldView { text, cursor: text.len(), cut: Seq::empty(), cutting: false }
}

/// What a key makes of a field.
pub uninterp spec fn edited(field: FieldView, key: KeyEvent) -> FieldView;

/// Whether a key types a character: no modifier but shift is held.
pub open spec fn types(key: KeyEvent, c: char) -> bool {
    &&& key.code == KeyCode::Char(c)
    &&& key.kind != KeyEventKind::Release
    &&& (KeyModifiers { shift: false, ..key.modifiers }).none()
}

/// `tui_input::Input::new` makes a field with that text, whose cursor stands at
/// its end and from which nothing was cut.
pub assume_specification[ tui_input::Input::new ](value: String) -> (r: tui_input::Input)
    ensures
        field_text(r) == value@,
        field_cursor(r) == value@.len(),
        field_cut(r) == Seq::<char>::empty(),
        field_cutting(r) == false,
;

/// `tui_input::Input::value` is the text of the field.
pub assume_specification[ tui_input::Input::value ](field: &tui_input::Input) -> (r: &str)
    ensures
        r@ == field_text(*field),
;

/// The number of columns of a text, cell by cell.
pub open spec fn cells_width(cells: Seq<Seq<char>>, n: int) -> nat
    decreases n,
{
    if n <= 0 {
        0
    } else {
        cells_width(cells, n - 1) + viewport::text_width(cells[n - 1])
    }
}

/// The number of columns in front of the cursor.
pub open spec fn cursor_column(text: Seq<char>, cursor: nat) -> nat {
    let cells = viewport::clusters(
        text.take(geometry::least(cursor as int, text.len() as int)),
    );
    cells_width(cells, cells.len() as int)
}

/// The number of columns of the fewest cells, from the first one on, that fill
/// `columns` columns, or of all of them where they do not; the first `n` are
/// too few.
pub open spec fn columns_covering(cells: Seq<Seq<char>>, columns: int, n: int) -> nat
    decreases cells.len() - n,
{
    if n >= cells.len() || cells_width(cells, n) >= columns {
        cells_width(cells, n)
    } else {
        columns_covering(cells, columns, n + 1)
    }
}

/// How many columns of a field are scrolled out where `width` are visible: as
/// many whole cells as leave the cursor at the end of the visible part.
pub open spec fn scrolled_columns(text: Seq<char>, cursor: nat, width: int) -> nat {
    columns_covering(
        viewport::clusters(text),
        geometry::floor0(cursor_column(text, cursor) - width),
        0,
    )
}

/// `tui_input::Input::visual_cursor` is the number of columns in front of the
/// cursor, summed up over whole cells.
pub assume_specification[ tui_input::Input::visual_cursor ](field: &tui_input::Input) -> (r: usize)
    ensures
        r == cursor_column(field_text(*field), field_cursor(*field)),
;

/// `tui_input::Input::visual_scroll` is the number of columns that are scrolled
/// out where `width` are visible.
pub assume_specification[ tui_input::Input::visual_scroll ](
    field: &tui_input::Input,
    width: usize,
) -> (r: usize)
    ensures
        r == scrolled_columns(field_text(*field), field_cursor(*field), width as int),
;

/// A set of modifier keys as `crossterm` numbers them.
pub open spec fn modifier_number(modifiers: KeyModifiers) -> int {
    (if modifiers.shift { 1int } else { 0 }) + (if modifiers.control { 2int } else { 0 })
        + (if modifiers.alt { 4int } else { 0 }) + (if modifiers.super_key { 8int } else { 0 })
        + (if modifiers.hyper { 16int } else { 0 }) + (if modifiers.meta { 32int } else { 0 })
}

/// `handle_event` of `tui_input::backend::crossterm`, on a key event: the edit
/// that the key stands for. A key that types a character puts it in front of
/// the cursor, and a release changes nothing; of the other keys it is only
/// claimed that what they do depends on the field and the key. `modifiers` is
/// the number of the modifier keys. A key that the library has no name for is
/// handed on as the null key; neither means anything to a field.
#[verifier::external_body]
fn handle_event(field: &mut tui_input::Input, key: KeyEvent, modifiers: u8)
    requires
        modifiers == modifier_number(key.modifiers),
    ensures
        field_view(*final(field)) == edited(field_view(*old(field)), key),
        key.kind == KeyEventKind::Release ==> field_view(*final(field)) == field_view(*old(field)),
        forall|c: char| #[trigger]
            types(key, c) && field_cursor(*old(field)) <= field_text(*old(field)).len()
                ==> field_view(*final(field)) == typed(field_view(*old(field)), c),
{
    let code = match key.code {
        KeyCode::Char(c) => Char(c), KeyCode::Enter => Enter, KeyCode::Esc => Esc,
        KeyCode::Up => Up, KeyCode::Down => Down, KeyCode::Left => Left, KeyCode::Right => Right,
        KeyCode::Tab => Tab, KeyCode::BackTab => BackTab, KeyCode::PageUp => PageUp,
        KeyCode::PageDown => PageDown, KeyCode::Home => Home, KeyCode::End => End,
        KeyCode::Backspace => Backspace, KeyCode::Delete => Delete, KeyCode::Other => Null,
    };
    let kind = match key.kind {
        KeyEventKind::Press => Press, KeyEventKind::Repeat => Repeat,
        KeyEventKind::Release => Release,
    };
    let held = TerminalModifiers::from_bits_truncate(modifiers);
    let key = TerminalKey::new_with_kind(code, held, kind);
    EventHandler::handle_event(field, &TerminalEvent::Key(key));
}

/// The edit that a key stands for.
pub fn edit(field: &mut tui_input::Input, key: KeyEvent)
    ensures
        field_view(*final(field)) == edited(field_view(*old(field)), key),
        key.kind == KeyEventKind::Release ==> field_view(*final(field)) == field_view(*old(field)),
        forall|c: char| #[trigger]
            types(key, c) && field_cursor(*old(field)) <= field_text(*old(field)).len()
                ==> field_view(*final(field)) == typed(field_view(*old(field)), c),
{
    let held: KeyModifiers = key.modifiers;
    let mut number: u8 = 0;
    if held.shift {
        number = number + 1;
    }
    if held.control {
        number = number + 2;
    }
    if held.alt {
        number = number + 4;
    }
    if held.super_key {
        number = number + 8;
    }
    if held.hyper {
        number = number + 16;
    }
    if held.meta {
        number = number + 32;
    }
    handle_event(field, key, number);
}

/// What a user entered as a time limit, without the white space around it;
/// `None` where nothing is left.
pub fn validated_time_limit(input: &tui_input::Input) -> (r: Option<String>)
    ensures
        match r {
            Some(limit) => input::entered_limit(field_text(*input)) == Some(limit@),
            None => input::entered_limit(field_text(*input)) is None,
        },
{
    input::time_limit(input.value())
}

/// A field after a character was typed: it stands in front of the cursor.
pub open spec fn typed(field: FieldView, c: char) -> FieldView {
    FieldView {
        text: field.text.insert(field.cursor as int, c),
        cursor: field.cursor + 1,
        cut: field.cut,
        cutting: false,
    }
}

} // verus!
