//! Laws of the application: what holds of its state over several messages.
use vstd::prelude::*;

use crate::app;
use crate::app::{AppMessage, AppView};
use crate::dialog::DialogView;
use crate::file_watcher::FileWatcherUpdate;
use crate::geometry::Rect;
use crate::input::{Event, KeyCode, KeyEvent, MouseEvent, MouseWheelDirection};
use crate::job;
use crate::job::JobView;
use crate::list::ListState;
use crate::log_decoder;
use crate::output;
use crate::viewport;
use crate::viewport::Pane;

verus! {

/// The application ends on the key `q`, and on nothing else.
pub proof fn law_only_q_quits(state: AppView, event: Event)
    ensures
        state.event_outcome(event) is Quit <==> (event matches Event::Key(key) && key.code
            == KeyCode::Char('q')),
{
}

/// While a dialog is open, the mouse does nothing.
pub proof fn law_dialog_blocks_the_mouse(state: AppView, mouse: MouseEvent)
    requires
        state.dialog is Some,
    ensures
        state.after_event(Event::Mouse(mouse)) == state,
        state.event_outcome(Event::Mouse(mouse)) is Idle,
{
}

/// While a dialog is open, a key changes nothing but the dialog.
pub proof fn law_dialog_takes_the_keys(state: AppView, key: KeyEvent)
    requires
        state.dialog is Some,
    ensures
        state.after_key(key) == (AppView { dialog: state.after_key(key).dialog, ..state }),
{
}

/// Where no dialog is open, no key gives a command.
pub proof fn law_commands_need_a_dialog(state: AppView, key: KeyEvent)
    requires
        state.dialog is None,
    ensures
        state.key_request(key) is None,
{
}

/// Job control is disabled for a job that has finished: no key opens a dialog
/// but the help, so none gives it a command.
pub proof fn law_finished_jobs_are_not_controlled(state: AppView, key: KeyEvent)
    requires
        state.dialog is None,
        state.selected_job() is Some,
        state.selected_job()->0.finished,
    ensures
        state.after_key(key).dialog is None || state.after_key(key).dialog == Some(
            DialogView::Help,
        ),
{
}

/// The keys `c`, `C` and `t` open the dialogs that are about the selected job,
/// where it has not finished.
pub proof fn law_control_dialogs_are_about_the_selected_job(state: AppView, key: KeyEvent)
    requires
        state.dialog is None,
    ensures
        match state.after_key(key).dialog {
            Some(DialogView::ConfirmCancelJob { id }) => state.selected_id() == Some(id)
                && !state.selected_job()->0.finished,
            Some(DialogView::SelectCancelSignal { id, selected_signal }) => state.selected_id()
                == Some(id) && !state.selected_job()->0.finished,
            Some(DialogView::EditTimeLimit { id, field }) => state.selected_id() == Some(id)
                && !state.selected_job()->0.finished && field.text
                == state.selected_job()->0.time_limit,
            Some(DialogView::CommandError { command, output }) => false,
            _ => true,
        },
{
}

/// With control or alt, an arrow key scrolls the focused pane by ten lines or
/// columns.
pub proof fn law_control_scrolls_by_ten(state: AppView, key: KeyEvent)
    requires
        state.dialog is None,
        key.modifiers.control || key.modifiers.alt,
    ensures
        key.code == KeyCode::Up ==> state.after_key(key) == state.scrolled(state.focus, -10),
        key.code == KeyCode::Down ==> state.after_key(key) == state.scrolled(state.focus, 10),
        key.code == KeyCode::Left ==> state.after_key(key) == state.scrolled_left(state.focus, 10),
        key.code == KeyCode::Right ==> state.after_key(key) == state.scrolled_right(
            state.focus,
            10,
        ),
{
}

/// Whether a letter stands for another key.
pub open spec fn stands_for(c: char, code: KeyCode) -> bool {
    ||| c == 'h' && code == KeyCode::Left
    ||| c == 'l' && code == KeyCode::Right
    ||| c == 'k' && code == KeyCode::Up
    ||| c == 'j' && code == KeyCode::Down
    ||| c == 'g' && code == KeyCode::Home
    ||| c == 'G' && code == KeyCode::End
}

/// Without control and alt, the letters `h`, `j`, `k`, `l`, `g` and `G` do what
/// the arrow keys, home and end do.
pub proof fn law_letters_stand_for_keys(state: AppView, c: char, key: KeyEvent)
    requires
        state.dialog is None,
        stands_for(c, key.code),
        !key.modifiers.control,
        !key.modifiers.alt,
    ensures
        state.after_key(KeyEvent { code: KeyCode::Char(c), ..key }) == state.after_key(key),
{
}

/// Whether a key scrolls horizontally.
pub open spec fn horizontal(code: KeyCode) -> bool {
    code == KeyCode::Left || code == KeyCode::Right || code == KeyCode::Char('h') || code
        == KeyCode::Char('l')
}

/// While output is wrapped, neither a key nor the wheel scrolls it
/// horizontally, and it is drawn from its first column.
pub proof fn law_wrapped_output_is_not_scrolled(
    state: AppView,
    key: KeyEvent,
    amount: u16,
    area: Rect,
)
    requires
        state.wrap,
    ensures
        state.dialog is None && state.focus == Pane::Output && horizontal(key.code)
            ==> state.after_key(key) == state,
        state.wheeled(Pane::Output, MouseWheelDirection::Left, amount) == state,
        state.wheeled(Pane::Output, MouseWheelDirection::Right, amount) == state,
        state.log_placed(area).output_pane.horizontal_offset == 0,
{
}

/// Turning wrapping on and off again leaves the output at its first column, and
/// without a selection.
pub proof fn law_wrapping_twice(state: AppView)
    ensures
        !state.wrap ==> state.rewrapped().rewrapped() == (AppView {
            output_pane: state.output_pane.at_start(),
            ..state.deselected()
        }),
        state.rewrapped().wrap != state.wrap,
{
}

/// Tab and shift-tab undo each other, and three tabs go round.
pub proof fn law_tab_cycles_the_focus(state: AppView, tab: KeyEvent, back: KeyEvent)
    requires
        state.dialog is None,
        tab.code == KeyCode::Tab,
        back.code == KeyCode::BackTab,
    ensures
        state.after_key(tab).after_key(back) == state,
        state.after_key(back).after_key(tab) == state,
        state.after_key(tab).after_key(tab).after_key(tab) == state,
{
}

/// Finished jobs are hidden until they are asked for.
pub proof fn law_finished_jobs_are_hidden(state: AppView, k: int)
    requires
        !state.show_finished,
        0 <= k < state.relisted().jobs.len(),
    ensures
        !state.relisted().jobs[k].finished,
        !app::initial().show_finished,
{
    let keep = |j: JobView| state.show_finished || !j.finished;
    state.remembered.lemma_filter_pred(keep, k);
    let shown = state.remembered.filter(keep);
    assert(state.relisted().jobs =~= shown);
    assert(keep(shown[k]));
}

/// Showing the finished jobs and hiding them again lists the jobs that were
/// listed before.
pub proof fn law_showing_finished_jobs_is_undone(state: AppView, key: KeyEvent)
    requires
        state.dialog is None,
        key.code == KeyCode::Char('f'),
        state.jobs == job::shown(state.remembered, state.show_finished),
    ensures
        ({
            let twice = state.after_key(key).after_key(key);
            &&& twice.jobs == state.jobs
            &&& twice.show_finished == state.show_finished
            &&& twice.remembered == state.remembered
        }),
{
}

proof fn lemma_position(jobs: Seq<JobView>, id: Seq<char>, i: int, k: int)
    requires
        0 <= i <= k < jobs.len(),
        jobs[k].id() == id,
    ensures
        i <= app::job_position(jobs, id, i) <= k,
        jobs[app::job_position(jobs, id, i)].id() == id,
    decreases k - i,
{
    if jobs[i].id() != id {
        lemma_position(jobs, id, i + 1, k);
    }
}

/// The selection follows its job: where the selected job is still listed after
/// the list was brought up to date, it is still selected.
pub proof fn law_selection_follows_its_job(state: AppView, k: int)
    requires
        state.selected_id() is Some,
        0 <= k < state.relisted().jobs.len() <= usize::MAX,
        state.relisted().jobs[k].id() == state.selected_id()->0,
    ensures
        state.relisted().selected_id() == state.selected_id(),
        state.relisted().selection == state.selection,
{
    lemma_position(state.relisted().jobs, state.selected_id()->0, 0, k);
}

/// A list that is not empty has a selected job once it was brought up to date.
pub proof fn law_some_job_is_selected(state: AppView)
    requires
        0 < state.relisted().jobs.len() <= usize::MAX,
    ensures
        state.relisted().selected_job() is Some,
{
    if state.selected_id() is Some {
        let jobs = state.relisted().jobs;
        let at = app::job_position(jobs, state.selected_id()->0, 0);
        lemma_position_bound(jobs, state.selected_id()->0, 0);
    }
}

proof fn lemma_position_bound(jobs: Seq<JobView>, id: Seq<char>, i: int)
    requires
        0 <= i <= jobs.len(),
    ensures
        i <= app::job_position(jobs, id, i) <= jobs.len(),
    decreases jobs.len() - i,
{
    if i < jobs.len() && jobs[i].id() != id {
        lemma_position_bound(jobs, id, i + 1);
    }
}

/// Whether a selection of output that one state has is given up where another
/// job is selected in the next.
pub open spec fn selection_kept_with_job(before: AppView, after: AppView) -> bool {
    after.selected_id() != before.selected_id() ==> after.selection is None
}

proof fn lemma_list_and_selection(state: AppView, list: ListState)
    ensures
        selection_kept_with_job(state, state.with_list(list)),
{
}

proof fn lemma_relisting_and_selection(state: AppView)
    ensures
        selection_kept_with_job(state, state.relisted()),
{
}

proof fn lemma_unlisted(before: AppView, after: AppView)
    requires
        before.jobs == after.jobs,
        before.list == after.list,
    ensures
        selection_kept_with_job(before, after),
{
}

#[verifier::spinoff_prover]
proof fn lemma_char_and_selection(state: AppView, key: KeyEvent, c: char)
    requires
        state.dialog is None,
        key.code == KeyCode::Char(c),
    ensures
        selection_kept_with_job(state, state.after_key(key)),
{
    let after = state.after_key(key);
    if c == 'f' {
        let toggled = AppView { show_finished: !state.show_finished, ..state };
        lemma_relisting_and_selection(toggled);
        assert(after == toggled.relisted());
        assert(toggled.selected_id() == state.selected_id());
    } else if c == 'k' && state.focus == Pane::Jobs {
        lemma_list_and_selection(state, state.list.before());
    } else if c == 'j' && state.focus == Pane::Jobs {
        lemma_list_and_selection(state, state.list.after());
    } else if c == 'g' && state.focus == Pane::Jobs {
        lemma_list_and_selection(state, state.list.with(Some(0)));
    } else if c == 'G' && state.focus == Pane::Jobs {
        lemma_list_and_selection(state, state.list.with(Some(usize::MAX)));
    } else if c == 'd' && key.modifiers.control && state.focus == Pane::Jobs {
        lemma_list_and_selection(state, state.list.moved(state.half_page()));
    } else if c == 'u' && key.modifiers.control && state.focus == Pane::Jobs {
        lemma_list_and_selection(state, state.list.moved(-state.half_page()));
    } else {
        assert(after.jobs == state.jobs && after.list == state.list);
        lemma_unlisted(state, after);
    }
}

proof fn lemma_key_and_selection(state: AppView, key: KeyEvent)
    ensures
        selection_kept_with_job(state, state.after_key(key)),
{
    if state.dialog is None {
        match key.code {
            KeyCode::Char(c) => lemma_char_and_selection(state, key, c),
            _ => {
                lemma_list_and_selection(state, state.list.before());
                lemma_list_and_selection(state, state.list.after());
                lemma_list_and_selection(state, state.list.with(Some(0)));
                lemma_list_and_selection(state, state.list.with(Some(usize::MAX)));
                lemma_list_and_selection(state, state.list.moved(10));
                lemma_list_and_selection(state, state.list.moved(-10));
                lemma_list_and_selection(state, state.list.moved(state.page(key.modifiers)));
                lemma_list_and_selection(state, state.list.moved(-state.page(key.modifiers)));
            },
        }
    }
}

/// A selection of output belongs to the job that was selected when it was made:
/// no message keeps it while it changes which job is selected.
pub proof fn law_selection_belongs_to_its_job(state: AppView, message: AppMessage)
    requires
        state.after_message(message).selected_id() != state.selected_id(),
    ensures
        state.after_message(message).selection is None,
{
    match message {
        AppMessage::Key(key) => lemma_key_and_selection(state, key),
        AppMessage::MouseClick(index) => lemma_list_and_selection(
            state,
            state.list.with(Some(index)),
        ),
        AppMessage::MouseWheel { target, direction, amount } => {
            lemma_list_and_selection(state, state.list.moved(amount as int));
            lemma_list_and_selection(state, state.list.moved(-(amount as int)));
        },
        _ => {},
    }
}

/// Whether `found` is the one of the `count` coordinates from `first` on that
/// is nearest to `n`.
pub open spec fn nearest(n: int, found: int, first: int, count: int) -> bool {
    let distance = |m: int| if m < n { n - m } else { m - n };
    &&& first <= found < first + count && found <= u16::MAX
    &&& forall|m: int|
        #![trigger distance(m)]
        first <= m < first + count && m <= u16::MAX ==> distance(found) <= distance(m)
}

/// A place beside the output shows what the nearest place in it shows: that
/// place lies in the output, and no place in it is nearer.
pub proof fn law_beside_the_output(state: AppView, column: u16, row: u16)
    ensures
        state.cell_at(column, row) == state.cell_at(
            state.nearest_column(column as int) as u16,
            state.nearest_row(row as int) as u16,
        ),
        state.inner_area.width > 0 ==> nearest(
            column as int,
            state.nearest_column(column as int),
            state.inner_area.x as int,
            state.inner_area.width as int,
        ),
        state.inner_area.height > 0 ==> nearest(
            row as int,
            state.nearest_row(row as int),
            state.inner_area.y as int,
            state.inner_area.height as int,
        ),
{
}

/// A place shows no part of the output exactly where the output is not on the
/// screen, there is an error in its place, or the nearest row shows no line.
pub proof fn law_places_without_output(state: AppView, column: u16, row: u16)
    ensures
        ({
            let shown = state.nearest_row(row as int) - state.inner_area.y;
            state.cell_at(column, row) is None <==> {
                ||| state.inner_area.width == 0
                ||| state.inner_area.height == 0
                ||| state.error is Some
                ||| shown >= state.rows.len()
                ||| state.rows[shown].source_line >= output::source_lines(state.screen.text).len()
            }
        }),
        state.cell_at(column, row) is None <==> state.shown_near(row as int) is None,
        state.cell_at(column, row) matches Some(found) ==> found.start.line == found.end.line
            && Some(found.start.line) == (match state.shown_near(row as int) {
            Some(shown) => Some(shown.0),
            None => None,
        }),
{
}

/// A click on the output selects nothing.
pub proof fn law_click_selects_nothing(state: AppView, column: u16, row: u16)
    ensures
        state.selection_started(column, row).selection_ended(column, row).selection is None,
{
}

/// A selection that is drawn starts at the earlier of the two cells that it was
/// drawn between, and is not empty.
pub proof fn law_selection_is_ordered(state: AppView, column: u16, row: u16)
    requires
        state.selection_anchor is Some,
        state.cell_at(column, row) is Some,
        state.selected_to(column, row).selection is Some,
    ensures
        ({
            let selection = state.selected_to(column, row).selection->0;
            let anchor = state.selection_anchor->0;
            let active = state.cell_at(column, row)->0;
            &&& selection.start.lt(selection.end)
            &&& !anchor.start.lt(selection.start)
            &&& !active.start.lt(selection.start)
            &&& selection.start == anchor.start || selection.start == active.start
        }),
{
}

proof fn lemma_list_steps(state: AppView, m: int, n: int)
    requires
        (0 <= m && 0 <= n) || (m <= 0 && n <= 0),
    ensures
        state.with_list(state.list.moved(m)).with_list(state.list.moved(m).moved(n))
            == state.with_list(state.list.moved(m + n)),
{
    let first = state.list.moved(m);
    let second = first.moved(n);
    let whole = state.list.moved(m + n);
    assert(second == whole);
    if state.list.selected is Some {
        assert(first.selected == state.list.selected && second.selected == first.selected
            <==> whole.selected == state.list.selected);
    }
}

proof fn lemma_output_steps(state: AppView, m: int, n: int)
    requires
        (0 <= m && 0 <= n) || (m <= 0 && n <= 0),
    ensures
        state.output_scrolled(m).output_scrolled(n) == state.output_scrolled(m + n),
{
}

proof fn lemma_pane_steps(pane: viewport::PaneViewport, m: usize, n: usize)
    requires
        pane.wf(),
        m + n <= usize::MAX,
    ensures
        pane.scrolled_left(m).scrolled_left(n) == pane.scrolled_left((m + n) as usize),
        pane.scrolled_right(m).scrolled_right(n) == pane.scrolled_right((m + n) as usize),
{
}

#[verifier::spinoff_prover]
proof fn lemma_horizontal_steps(state: AppView, target: Pane, m: usize, n: usize)
    requires
        state.wf(),
        m + n <= usize::MAX,
    ensures
        state.scrolled_left(target, m).scrolled_left(target, n) == state.scrolled_left(
            target,
            (m + n) as usize,
        ),
        state.scrolled_right(target, m).scrolled_right(target, n) == state.scrolled_right(
            target,
            (m + n) as usize,
        ),
{
    match target {
        Pane::Jobs => lemma_pane_steps(state.jobs_pane, m, n),
        Pane::Details => lemma_pane_steps(state.details_pane, m, n),
        Pane::Output => lemma_pane_steps(state.output_pane, m, n),
    }
}

#[verifier::spinoff_prover]
proof fn lemma_vertical_steps(state: AppView, target: Pane, m: int, n: int)
    requires
        (0 <= m && 0 <= n) || (m <= 0 && n <= 0),
    ensures
        state.scrolled(target, m).scrolled(target, n) == state.scrolled(target, m + n),
{
    match target {
        Pane::Jobs => {
            lemma_list_steps(state, m, n);
            assert(state.scrolled(target, m).list == state.list.moved(m));
        },
        Pane::Details => {},
        Pane::Output => lemma_output_steps(state, m, n),
    }
}

/// Scrolling by the wheel in two steps is scrolling in one: a run of wheel
/// events may be handled at once.
pub proof fn law_wheel_steps_add_up(
    state: AppView,
    target: Pane,
    direction: MouseWheelDirection,
    m: u16,
    n: u16,
)
    requires
        state.wf(),
        m + n <= u16::MAX,
    ensures
        state.wheeled(target, direction, m).wheeled(target, direction, n) == state.wheeled(
            target,
            direction,
            (m + n) as u16,
        ),
{
    match direction {
        MouseWheelDirection::Down => lemma_vertical_steps(state, target, m as int, n as int),
        MouseWheelDirection::Up => lemma_vertical_steps(state, target, -(m as int), -(n as int)),
        _ => lemma_horizontal_steps(state, target, m as usize, n as usize),
    }
}

/// Output may arrive in any pieces: two appends make the state that one append
/// of both makes.
pub proof fn law_output_in_pieces(state: AppView, first: Vec<u8>, second: Vec<u8>, both: Vec<u8>)
    requires
        both@ == first@ + second@,
    ensures
        state.output_updated(FileWatcherUpdate::Append(first)).output_updated(
            FileWatcherUpdate::Append(second),
        ) == state.output_updated(FileWatcherUpdate::Append(both)),
{
    log_decoder::law_push_in_pieces(state.screen, state.pending, first@, second@);
    assert(state.pending + both@ =~= state.pending + first@ + second@);
    assert(state.pending + (first@ + second@) =~= state.pending + first@ + second@);
}

/// A report of an error, and then of bytes, shows the bytes as if there had been
/// no error.
pub proof fn law_errors_pass(state: AppView, error: FileWatcherUpdate, bytes: Vec<u8>)
    requires
        error is Error,
    ensures
        state.output_updated(error).output_updated(FileWatcherUpdate::Append(bytes))
            == state.output_updated(FileWatcherUpdate::Append(bytes)),
{
}

/// A new file starts from nothing: whatever was shown, the output, its error and
/// its selection are gone.
pub proof fn law_reset_forgets_the_output(state: AppView)
    ensures
        ({
            let fresh = state.output_updated(FileWatcherUpdate::Reset);
            &&& fresh.screen == log_decoder::blank()
            &&& fresh.pending == Seq::<u8>::empty()
            &&& fresh.error is None
            &&& fresh.selection is None
            &&& fresh.jobs == state.jobs
            &&& fresh.list == state.list
        }),
{
}

/// What is to be copied is the whole output, character by character, where it
/// was read and is not empty.
pub proof fn law_copy_takes_the_whole_output(state: AppView)
    requires
        state.error is None,
        state.screen.text.len() > 0,
    ensures
        state.copying_output().copy is Some,
        state.copying_output().copy->0.content == state.screen.text,
{
}

} // verus!
