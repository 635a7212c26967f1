//! What each key does where no dialog is open, pane by pane.
use vstd::prelude::*;

use crate::app::{AppView, CopyKind, CopyView, FeedbackView};
use crate::dialog::DialogView;
use crate::input::{KeyCode, KeyEvent, KeyModifiers};
use crate::job;
use crate::list::ListState;
use crate::output::{OutputFileView, ScrollAnchor};
use crate::viewport::{Pane, PaneViewport};

verus! {

/// The state without a selection of output, and without feedback on a copy.
pub open spec fn unselected(state: AppView) -> AppView {
    AppView {
        selection: None,
        selection_anchor: None,
        dragged: false,
        feedback: None,
        ..state
    }
}

/// Whether all that changed is which job is selected. Where another one is, the
/// selection of output is given up.
pub open spec fn only_reselects(before: AppView, after: AppView) -> bool {
    if after.list.selected == before.list.selected {
        after == AppView { list: after.list, ..before }
    } else {
        after == AppView { list: after.list, ..unselected(before) }
    }
}

/// Whether the selection of the job list goes from `before` to `to`, and shows
/// the same jobs until it is drawn.
pub open spec fn selects(before: AppView, after: AppView, to: int) -> bool {
    &&& only_reselects(before, after)
    &&& after.list.selected == Some(to as usize)
    &&& after.list.offset == before.list.offset
}

/// `n`, brought into the positions that a list can have.
pub open spec fn position(n: int) -> int {
    if n < 0 {
        0
    } else if n > usize::MAX {
        usize::MAX as int
    } else {
        n
    }
}

/// Whether control or alt is held.
pub open spec fn far(modifiers: KeyModifiers) -> bool {
    modifiers.control || modifiers.alt
}

/// By how many lines a key scrolls a pane that shows `height` lines, down, or up
/// where the number is negative: an arrow by one line, or by ten with control or
/// alt; `j` and `k` by one; a page key by one line less than the pane shows, or
/// by fifty with a modifier; `d` and `u` with control by half of what it shows.
pub open spec fn lines_of_key(key: KeyEvent, height: int) -> Option<int> {
    let held = key.modifiers;
    let page = if held.shift || held.control || held.alt {
        50
    } else if height > 0 {
        height - 1
    } else {
        0
    };
    match key.code {
        KeyCode::Down => Some(
            if far(held) {
                10
            } else {
                1
            },
        ),
        KeyCode::Up => Some(
            if far(held) {
                -10
            } else {
                -1
            },
        ),
        KeyCode::PageDown => Some(page),
        KeyCode::PageUp => Some(-page),
        KeyCode::Char(c) => if c == 'j' {
            Some(1)
        } else if c == 'k' {
            Some(-1)
        } else if c == 'd' && held.control {
            Some(height / 2)
        } else if c == 'u' && held.control {
            Some(-(height / 2))
        } else {
            None
        },
        _ => None,
    }
}

/// In the job list, the keys that scroll move the selection by their lines, but
/// not in front of the first job. Without a selection they count from the first
/// job, and one step selects the first or the last.
#[verifier::spinoff_prover]
pub proof fn law_keys_move_through_the_jobs(state: AppView, key: KeyEvent)
    requires
        state.dialog is None,
        state.focus == Pane::Jobs,
    ensures
        match lines_of_key(key, state.list_height as int) {
            Some(lines) => match state.list.selected {
                Some(i) => selects(state, state.after_key(key), position(i + lines)),
                None => selects(
                    state,
                    state.after_key(key),
                    if key.code == KeyCode::Down && !far(key.modifiers) || key.code
                        == KeyCode::Char('j') {
                        0
                    } else if key.code == KeyCode::Up && !far(key.modifiers) || key.code
                        == KeyCode::Char('k') {
                        usize::MAX as int
                    } else {
                        position(lines)
                    },
                ),
            },
            None => true,
        },
{
    let after = state.after_key(key);
    if let Some(lines) = lines_of_key(key, state.list_height as int) {
        let list = list_of_key(state, key, lines);
        assert(after == state.with_list(list));
        lemma_with_list(state, list);
    }
}

/// The list that a key that scrolls leaves.
spec fn list_of_key(state: AppView, key: KeyEvent, lines: int) -> ListState {
    if lines == 1 && (key.code == KeyCode::Char('j') || key.code == KeyCode::Down) {
        state.list.after()
    } else if lines == -1 && (key.code == KeyCode::Char('k') || key.code == KeyCode::Up) {
        state.list.before()
    } else {
        state.list.moved(lines)
    }
}

proof fn lemma_with_list(state: AppView, list: ListState)
    requires
        list.offset == state.list.offset,
        list.selected is Some,
    ensures
        selects(state, state.with_list(list), list.selected->0 as int),
{
}

/// Home and `g` select the first job, End and `G` the last one, however many
/// there are.
pub proof fn law_first_and_last_job(state: AppView, key: KeyEvent)
    requires
        state.dialog is None,
        state.focus == Pane::Jobs,
    ensures
        key.code == KeyCode::Home || key.code == KeyCode::Char('g') ==> selects(
            state,
            state.after_key(key),
            0,
        ),
        key.code == KeyCode::End || key.code == KeyCode::Char('G') ==> selects(
            state,
            state.after_key(key),
            usize::MAX as int,
        ),
{
}

/// How far the output is scrolled from the end that it is scrolled from, once it
/// was scrolled down by `lines`, or up where the number is negative: further from
/// the top, or nearer to the bottom, but not beyond either.
pub open spec fn offset_after(anchor: ScrollAnchor, offset: int, lines: int) -> int {
    let moved = if anchor == ScrollAnchor::Top {
        offset + lines
    } else {
        offset - lines
    };
    if moved < 0 {
        0
    } else if moved > 65535 {
        65535
    } else {
        moved
    }
}

/// In the output, the keys that scroll move by their lines, and change nothing
/// else.
#[verifier::spinoff_prover]
pub proof fn law_keys_scroll_the_output(state: AppView, key: KeyEvent)
    requires
        state.dialog is None,
        state.focus == Pane::Output,
    ensures
        match lines_of_key(key, state.output_height as int) {
            Some(lines) => state.after_key(key) == (AppView {
                offset: offset_after(state.anchor, state.offset as int, lines) as u16,
                ..state
            }),
            None => true,
        },
{
}

/// Home and `g` show the start of the output, and End and `G` its end, which is
/// then followed.
pub proof fn law_start_and_end_of_the_output(state: AppView, key: KeyEvent)
    requires
        state.dialog is None,
        state.focus == Pane::Output,
    ensures
        key.code == KeyCode::Home || key.code == KeyCode::Char('g') ==> state.after_key(key) == (
        AppView { offset: 0, anchor: ScrollAnchor::Top, ..state }),
        key.code == KeyCode::End || key.code == KeyCode::Char('G') ==> state.after_key(key) == (
        AppView { offset: 0, anchor: ScrollAnchor::Bottom, ..state }),
{
}

/// The details are not scrolled by lines. Home and `g` show their first column,
/// End and `G` their last one.
#[verifier::spinoff_prover]
pub proof fn law_keys_in_the_details(state: AppView, key: KeyEvent)
    requires
        state.dialog is None,
        state.focus == Pane::Details,
        state.wf(),
    ensures
        lines_of_key(key, 0) is Some ==> state.after_key(key) == state,
        key.code == KeyCode::Home || key.code == KeyCode::Char('g') ==> state.after_key(key) == (
        AppView {
            details_pane: PaneViewport { horizontal_offset: 0, ..state.details_pane },
            ..state
        }),
        key.code == KeyCode::End || key.code == KeyCode::Char('G') ==> {
            let after = state.after_key(key);
            let pane = after.details_pane;
            let visible = if pane.area.width >= 2 {
                pane.area.width - 2
            } else {
                0
            };
            &&& after == (AppView { details_pane: pane, ..state })
            &&& pane == (PaneViewport {
                horizontal_offset: pane.horizontal_offset,
                ..state.details_pane
            })
            &&& pane.content_width > visible ==> pane.horizontal_offset == pane.content_width
                - visible
            &&& pane.content_width <= visible ==> pane.horizontal_offset == 0
        },
{
}

/// By how many columns a key scrolls: an arrow to the side, or `h` or `l`, by
/// one, or by ten with control or alt; to the right, or to the left where the
/// number is negative.
pub open spec fn columns_of_key(key: KeyEvent) -> Option<int> {
    let step = if far(key.modifiers) {
        10int
    } else {
        1
    };
    if key.code == KeyCode::Right || key.code == KeyCode::Char('l') {
        Some(step)
    } else if key.code == KeyCode::Left || key.code == KeyCode::Char('h') {
        Some(-step)
    } else {
        None
    }
}

/// Whether a pane was scrolled by columns: by as many as were asked for, or until
/// the first or the last column of the content was in view.
pub open spec fn pane_scrolled(before: PaneViewport, after: PaneViewport, columns: int) -> bool {
    let visible = if before.area.width >= 2 {
        before.area.width - 2
    } else {
        0
    };
    let end = if before.content_width > visible {
        before.content_width - visible
    } else {
        0
    };
    let to = before.horizontal_offset + columns;
    &&& after == (PaneViewport { horizontal_offset: after.horizontal_offset, ..before })
    &&& after.horizontal_offset == if to < 0 {
        0
    } else if to > end {
        end
    } else {
        to
    }
}

/// The keys to the side scroll the focused pane by their columns, and change
/// nothing else. Wrapped output has no columns to scroll by.
#[verifier::spinoff_prover]
pub proof fn law_keys_scroll_columns(state: AppView, key: KeyEvent)
    requires
        state.dialog is None,
        state.wf(),
        columns_of_key(key) is Some,
    ensures
        ({
            let after = state.after_key(key);
            let columns = columns_of_key(key)->0;
            match state.focus {
                Pane::Jobs => {
                    &&& after == (AppView { jobs_pane: after.jobs_pane, ..state })
                    &&& pane_scrolled(state.jobs_pane, after.jobs_pane, columns)
                },
                Pane::Details => {
                    &&& after == (AppView { details_pane: after.details_pane, ..state })
                    &&& pane_scrolled(state.details_pane, after.details_pane, columns)
                },
                Pane::Output => {
                    &&& after == (AppView { output_pane: after.output_pane, ..state })
                    &&& !state.wrap ==> pane_scrolled(
                        state.output_pane,
                        after.output_pane,
                        columns,
                    )
                    &&& state.wrap ==> after.output_pane == state.output_pane
                },
            }
        }),
{
}

/// Tab moves the focus from the jobs to the details, to the output, and back to
/// the jobs; the key back moves it the other way. Nothing else changes.
pub proof fn law_keys_move_the_focus(state: AppView, key: KeyEvent)
    requires
        state.dialog is None,
    ensures
        key.code == KeyCode::Tab ==> state.after_key(key) == (AppView {
            focus: match state.focus {
                Pane::Jobs => Pane::Details,
                Pane::Details => Pane::Output,
                Pane::Output => Pane::Jobs,
            },
            ..state
        }),
        key.code == KeyCode::BackTab ==> state.after_key(key) == (AppView {
            focus: match state.focus {
                Pane::Jobs => Pane::Output,
                Pane::Details => Pane::Jobs,
                Pane::Output => Pane::Details,
            },
            ..state
        }),
{
}

/// The job that is selected, where it is listed and has not finished.
pub open spec fn controlled(state: AppView) -> Option<job::JobView> {
    match state.list.selected {
        Some(i) => if i < state.jobs.len() && !state.jobs[i as int].finished {
            Some(state.jobs[i as int])
        } else {
            None
        },
        None => None,
    }
}

/// `?` opens the help. `c` without a modifier asks whether to cancel the selected
/// job, `C` without control which signal to send to it, starting with the first,
/// and `t` for its time limit, starting with the one that it has. The last three
/// do nothing where no job is selected, or it has finished. Nothing but the
/// dialog changes.
#[verifier::spinoff_prover]
pub proof fn law_keys_open_dialogs(state: AppView, key: KeyEvent)
    requires
        state.dialog is None,
    ensures
        ({
            let after = state.after_key(key);
            let held = key.modifiers;
            let unheld = !held.shift && !held.control && !held.alt && !held.super_key && !held.hyper
                && !held.meta;
            &&& key.code == KeyCode::Char('?') ==> after == (AppView {
                dialog: Some(DialogView::Help),
                ..state
            })
            &&& key.code == KeyCode::Char('c') && unheld ==> after == (AppView {
                dialog: match controlled(state) {
                    Some(job) => Some(DialogView::ConfirmCancelJob { id: job.id() }),
                    None => None,
                },
                ..state
            })
            &&& key.code == KeyCode::Char('C') && !held.control ==> after == (AppView {
                dialog: match controlled(state) {
                    Some(job) => Some(
                        DialogView::SelectCancelSignal { id: job.id(), selected_signal: 0 },
                    ),
                    None => None,
                },
                ..state
            })
            &&& key.code == KeyCode::Char('t') ==> {
                &&& after == (AppView { dialog: after.dialog, ..state })
                &&& match controlled(state) {
                    Some(job) => after.dialog matches Some(
                        DialogView::EditTimeLimit { id, field },
                    ) && id == job.id() && field.text == job.time_limit && field.cursor
                        == job.time_limit.len(),
                    None => after.dialog is None,
                }
            }
        }),
{
}

/// `o` shows the other file of the job, from its first column, and gives up the
/// selection of output. The rest of the state stays.
pub proof fn law_the_other_file(state: AppView, key: KeyEvent)
    requires
        state.dialog is None,
        key.code == KeyCode::Char('o'),
    ensures
        state.after_key(key) == (AppView {
            file_view: if state.file_view == OutputFileView::Stdout {
                OutputFileView::Stderr
            } else {
                OutputFileView::Stdout
            },
            output_pane: PaneViewport { horizontal_offset: 0, ..state.output_pane },
            ..unselected(state)
        }),
{
}

/// `w` turns the wrapping of output on or off, and gives up the selection of
/// output. Wrapped output is shown from its first column.
pub proof fn law_wrapping_is_toggled(state: AppView, key: KeyEvent)
    requires
        state.dialog is None,
        key.code == KeyCode::Char('w'),
    ensures
        state.after_key(key) == (AppView {
            wrap: !state.wrap,
            output_pane: if state.wrap {
                state.output_pane
            } else {
                PaneViewport { horizontal_offset: 0, ..state.output_pane }
            },
            ..unselected(state)
        }),
{
}

/// `f` shows the finished jobs, or hides them: what is remembered stays, and what
/// is listed is all of it, or what has not finished.
pub proof fn law_finished_jobs_are_toggled(state: AppView, key: KeyEvent)
    requires
        state.dialog is None,
        key.code == KeyCode::Char('f'),
    ensures
        ({
            let after = state.after_key(key);
            &&& after.show_finished == !state.show_finished
            &&& after.remembered == state.remembered
            &&& after.jobs == state.remembered.filter(
                |j: job::JobView| after.show_finished || !j.finished,
            )
            &&& after.focus == state.focus
            &&& after.screen == state.screen
            &&& after.dialog is None
        }),
{
    let after = state.after_key(key);
    assert(after.jobs =~= state.remembered.filter(
        |j: job::JobView| after.show_finished || !j.finished,
    ));
}

/// `y`, and `c` with control, take the selected text to copy; `Y` takes the whole
/// output. Where there is no such text, they say so. Nothing else changes.
pub proof fn law_keys_that_copy(state: AppView, key: KeyEvent)
    requires
        state.dialog is None,
    ensures
        ({
            let after = state.after_key(key);
            let selection = key.code == KeyCode::Char('y') || key.modifiers.control && (key.code
                == KeyCode::Char('c') || key.code == KeyCode::Char('C'));
            &&& selection ==> match state.selected_text() {
                Some(content) if content.len() > 0 => after == (AppView {
                    copy: Some(CopyView { content, kind: CopyKind::Selection }),
                    ..state
                }),
                _ => after == (AppView {
                    copy: None,
                    feedback: Some(FeedbackView { message: "Nothing selected"@, error: true }),
                    ..state
                }),
            }
            &&& key.code == KeyCode::Char('Y') ==> if state.error is None
                && state.screen.text.len() > 0 {
                after == (AppView {
                    copy: Some(
                        CopyView { content: state.screen.text, kind: CopyKind::FullOutput },
                    ),
                    ..state
                })
            } else {
                after == (AppView {
                    copy: None,
                    feedback: Some(FeedbackView { message: "No output to copy"@, error: true }),
                    ..state
                })
            }
        }),
{
}

/// Whether a letter does something, with these modifier keys.
pub open spec fn is_bound(c: char, held: KeyModifiers) -> bool {
    ||| c == '?' || c == 'y' || c == 'Y' || c == 'f' || c == 'h' || c == 'l' || c == 'k'
    ||| c == 'j' || c == 'g' || c == 'G' || c == 'C' || c == 't' || c == 'o' || c == 'w'
    ||| (c == 'u' || c == 'd') && held.control
    ||| c == 'c' && (held.control || held.none())
}

/// Any other key does nothing.
pub proof fn law_other_keys_do_nothing(state: AppView, key: KeyEvent)
    requires
        state.dialog is None,
        match key.code {
            KeyCode::Char(c) => !is_bound(c, key.modifiers),
            KeyCode::Enter => true,
            KeyCode::Esc => true,
            KeyCode::Backspace => true,
            KeyCode::Delete => true,
            KeyCode::Other => true,
            _ => false,
        },
    ensures
        state.after_key(key) == state,
        state.key_request(key) is None,
{
}

/// What is said of a copy: how many characters were copied, and whether it was
/// the whole output; or why it failed. Without a copy nothing is said.
pub proof fn law_what_is_said_of_a_copy(
    state: AppView,
    content: Seq<char>,
    kind: CopyKind,
    reason: Seq<char>,
)
    ensures
        ({
            let pending = AppView { copy: Some(CopyView { content, kind }), ..state };
            let length = crate::formatting::decimal(content.len() as int);
            let done = pending.copy_done(None);
            let failed = pending.copy_done(Some(reason));
            &&& done == (AppView { copy: None, feedback: done.feedback, ..state })
            &&& failed == (AppView { copy: None, feedback: failed.feedback, ..state })
            &&& done.feedback == Some(
                FeedbackView {
                    message: if kind == CopyKind::Selection {
                        "Copied "@ + length + " chars"@
                    } else {
                        "Copied all ("@ + length + " chars)"@
                    },
                    error: false,
                },
            )
            &&& failed.feedback == Some(
                FeedbackView { message: "Copy failed: "@ + reason, error: true },
            )
        }),
        state.copy is None ==> state.copy_done(None) == state && state.copy_done(Some(reason))
            == state,
{
}

} // verus!
