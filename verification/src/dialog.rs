//! Dialogs: what they show and what their keys do is decided by their state.
use vstd::prelude::*;

use crate::command;
use crate::command::{CommandRequest, RequestView};
use crate::geometry;
use crate::input;
use crate::input::{KeyCode, KeyEvent};
use crate::line_edit;
use crate::line_edit::FieldView;

verus! {

/// Number of signals that can be sent to a job.
pub const SIGNAL_COUNT: usize = 8;

/// The signals that can be sent to a job.
pub open spec fn signals() -> Seq<Seq<char>> {
    seq!["TERM"@, "INT"@, "HUP"@, "USR1"@, "USR2"@, "STOP"@, "CONT"@, "KILL"@]
}

/// The name of a signal.
pub fn signal_name(index: usize) -> (r: &'static str)
    requires
        index < SIGNAL_COUNT,
    ensures
        r@ == signals()[index as int],
{
    match index {
        0 => "TERM",
        1 => "INT",
        2 => "HUP",
        3 => "USR1",
        4 => "USR2",
        5 => "STOP",
        6 => "CONT",
        _ => "KILL",
    }
}

/// A dialog.
#[derive(Debug)]
pub enum Dialog {
    Help,
    /// Whether to cancel the job with that identifier.
    ConfirmCancelJob(String),
    /// Which signal to send to a job.
    SelectCancelSignal { id: String, selected_signal: usize },
    /// A new time limit for a job.
    EditTimeLimit { id: String, input: tui_input::Input },
    /// A command that failed.
    CommandError { command: String, output: String },
}

/// The value of a [`Dialog`].
#[verifier::ext_equal]
pub enum DialogView {
    Help,
    ConfirmCancelJob { id: Seq<char> },
    SelectCancelSignal { id: Seq<char>, selected_signal: int },
    EditTimeLimit { id: Seq<char>, field: FieldView },
    CommandError { command: Seq<char>, output: Seq<char> },
}

impl View for Dialog {
    type V = DialogView;

    open spec fn view(&self) -> DialogView {
        match self {
            Dialog::Help => DialogView::Help,
            Dialog::ConfirmCancelJob(id) => DialogView::ConfirmCancelJob { id: id@ },
            Dialog::SelectCancelSignal { id, selected_signal } => DialogView::SelectCancelSignal {
                id: id@,
                selected_signal: *selected_signal as int,
            },
            Dialog::EditTimeLimit { id, input } => DialogView::EditTimeLimit {
                id: id@,
                field: line_edit::field_view(*input),
            },
            Dialog::CommandError { command, output } => DialogView::CommandError {
                command: command@,
                output: output@,
            },
        }
    }
}

impl DialogView {
    /// A selected signal is one of the signals.
    pub open spec fn wf(self) -> bool {
        self matches DialogView::SelectCancelSignal { id, selected_signal } ==> 0
            <= selected_signal < SIGNAL_COUNT
    }
}

/// The value of an optional dialog.
pub open spec fn dialog_view(dialog: Option<Dialog>) -> Option<DialogView> {
    match dialog {
        Some(dialog) => Some(dialog@),
        None => None,
    }
}

/// The value of an optional command.
pub open spec fn request_view(request: Option<CommandRequest>) -> Option<RequestView> {
    match request {
        Some(request) => Some(request@),
        None => None,
    }
}

/// Which signal is selected after a key: the keys up and down move, and a
/// digit names one.
pub open spec fn signal_after(selected: int, code: KeyCode) -> int {
    match code {
        KeyCode::Up => geometry::floor0(selected - 1),
        KeyCode::Down => geometry::least(selected + 1, SIGNAL_COUNT - 1),
        KeyCode::Char(c) => if c == 'k' {
            geometry::floor0(selected - 1)
        } else if c == 'j' {
            geometry::least(selected + 1, SIGNAL_COUNT - 1)
        } else {
            match input::digit_index(c) {
                Some(index) if index < SIGNAL_COUNT => index,
                _ => selected,
            }
        },
        _ => selected,
    }
}

/// The command that a key gives in a dialog.
pub open spec fn dialog_request(dialog: DialogView, key: KeyEvent) -> Option<RequestView> {
    match dialog {
        DialogView::ConfirmCancelJob { id } => if key.code == KeyCode::Enter || key.code
            == KeyCode::Char('y') {
            Some(command::scancel(id, None))
        } else {
            None
        },
        DialogView::SelectCancelSignal { id, selected_signal } => if key.code == KeyCode::Enter {
            Some(command::scancel(id, Some(signals()[selected_signal])))
        } else {
            None
        },
        DialogView::EditTimeLimit { id, field } => match input::entered_limit(field.text) {
            Some(limit) if key.code == KeyCode::Enter => Some(
                command::scontrol_timelimit(id, limit),
            ),
            _ => None,
        },
        _ => None,
    }
}

/// What a key leaves of a dialog: escape and a command close it.
pub open spec fn dialog_after(dialog: DialogView, key: KeyEvent) -> Option<DialogView> {
    if key.code == KeyCode::Esc || dialog_request(dialog, key) is Some {
        None
    } else {
        match dialog {
            DialogView::Help => if key.code == KeyCode::Enter || key.code == KeyCode::Char('?') {
                None
            } else {
                Some(dialog)
            },
            DialogView::CommandError { command, output } => if key.code == KeyCode::Enter {
                None
            } else {
                Some(dialog)
            },
            DialogView::ConfirmCancelJob { id } => Some(dialog),
            DialogView::SelectCancelSignal { id, selected_signal } => Some(
                DialogView::SelectCancelSignal {
                    id,
                    selected_signal: signal_after(selected_signal, key.code),
                },
            ),
            DialogView::EditTimeLimit { id, field } => Some(
                DialogView::EditTimeLimit {
                    id,
                    field: if key.code == KeyCode::Enter {
                        field
                    } else {
                        line_edit::edited(field, key)
                    },
                },
            ),
        }
    }
}

/// Which signal is selected after a key.
fn move_signal(selected: usize, code: KeyCode) -> (r: usize)
    requires
        selected < SIGNAL_COUNT,
    ensures
        r == signal_after(selected as int, code),
        r < SIGNAL_COUNT,
{
    let up: usize = selected.saturating_sub(1);
    let down: usize = if selected + 1 < SIGNAL_COUNT {
        selected + 1
    } else {
        SIGNAL_COUNT - 1
    };
    match code {
        KeyCode::Up => up,
        KeyCode::Down => down,
        KeyCode::Char(c) => {
            if c == 'k' {
                up
            } else if c == 'j' {
                down
            } else {
                match input::signal_index_for_digit(c) {
                    Some(index) => if index < SIGNAL_COUNT {
                        index
                    } else {
                        selected
                    },
                    None => selected,
                }
            }
        },
        _ => selected,
    }
}

/// What a key leaves of a dialog, and the command that it gives.
pub fn dialog_key(dialog: Dialog, key: KeyEvent) -> (r: (Option<Dialog>, Option<CommandRequest>))
    requires
        dialog@.wf(),
    ensures
        dialog_view(r.0) == dialog_after(dialog@, key),
        request_view(r.1) == dialog_request(dialog@, key),
        r.0 is Some ==> r.0->0@.wf(),
{
    let enter: bool = key.code == KeyCode::Enter;
    let escape: bool = key.code == KeyCode::Esc;
    match dialog {
        Dialog::Help => {
            if enter || escape || key.code == KeyCode::Char('?') {
                (None, None)
            } else {
                (Some(Dialog::Help), None)
            }
        },
        Dialog::ConfirmCancelJob(id) => {
            if enter || key.code == KeyCode::Char('y') {
                (None, Some(command::scancel_command(id.as_str(), None)))
            } else if escape {
                (None, None)
            } else {
                (Some(Dialog::ConfirmCancelJob(id)), None)
            }
        },
        Dialog::SelectCancelSignal { id, selected_signal } => {
            if enter {
                let signal: &str = signal_name(selected_signal);
                (None, Some(command::scancel_command(id.as_str(), Some(signal))))
            } else if escape {
                (None, None)
            } else {
                let selected_signal: usize = move_signal(selected_signal, key.code);
                (Some(Dialog::SelectCancelSignal { id, selected_signal }), None)
            }
        },
        Dialog::EditTimeLimit { id, input } => {
            if enter {
                match line_edit::validated_time_limit(&input) {
                    Some(limit) => (
                        None,
                        Some(
                            command::scontrol_update_timelimit_command(id.as_str(), limit.as_str()),
                        ),
                    ),
                    None => (Some(Dialog::EditTimeLimit { id, input }), None),
                }
            } else if escape {
                (None, None)
            } else {
                let mut input: tui_input::Input = input;
                line_edit::edit(&mut input, key);
                (Some(Dialog::EditTimeLimit { id, input }), None)
            }
        },
        Dialog::CommandError { command, output } => {
            if enter || escape {
                (None, None)
            } else {
                (Some(Dialog::CommandError { command, output }), None)
            }
        },
    }
}

/// Escape closes every dialog without a command.
pub proof fn law_escape_closes(dialog: DialogView, key: KeyEvent)
    requires
        key.code == KeyCode::Esc,
    ensures
        dialog_after(dialog, key) is None,
        dialog_request(dialog, key) is None,
{
}

/// A command is only given where its dialog closes, and only for the job that
/// the dialog is about.
pub proof fn law_commands_close_their_dialog(dialog: DialogView, key: KeyEvent)
    requires
        dialog_request(dialog, key) is Some,
    ensures
        dialog_after(dialog, key) is None,
        match dialog {
            DialogView::ConfirmCancelJob { id } => dialog_request(dialog, key)->0
                == command::scancel(id, None),
            DialogView::SelectCancelSignal { id, selected_signal } => dialog_request(dialog, key)->0
                == command::scancel(id, Some(signals()[selected_signal])),
            DialogView::EditTimeLimit { id, field } => exists|limit: Seq<char>|
                limit.len() > 0 && dialog_request(dialog, key)->0 == #[trigger]
                command::scontrol_timelimit(id, limit),
            _ => false,
        },
{
    if let DialogView::EditTimeLimit { id, field } = dialog {
        let limit = input::entered_limit(field.text)->0;
        assert(dialog_request(dialog, key)->0 == command::scontrol_timelimit(id, limit));
    }
}

} // verus!
