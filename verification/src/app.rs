//! The state of the application, and what messages make of it.
use vstd::prelude::*;

use crate::clipboard;
use crate::command;
use crate::command::{CommandOutcome, CommandRequest, RequestView};
use crate::decode;
use crate::dialog;
use crate::dialog::{Dialog, DialogView};
use crate::file_watcher;
use crate::file_watcher::{FileWatcherError, FileWatcherUpdate};
use crate::formatting;
use crate::geometry;
use crate::geometry::Rect;
use crate::input;
use crate::input::{
    Event, KeyCode, KeyEvent, KeyModifiers, MouseButton, MouseEvent, MouseEventKind,
    MouseWheelDirection,
};
use crate::job;
use crate::job::{Job, JobView};
use crate::line_edit;
use crate::list::ListState;
use crate::log_decoder;
use crate::log_decoder::{LogTextDecoder, Screen};
use crate::output;
use crate::output::{
    OutputCell, OutputFileView, OutputPoint, OutputSelection, RenderedOutputLine, ScrollAnchor,
};
use crate::text;
use crate::viewport;
use crate::viewport::{Pane, PaneViewport};

verus! {

/// What is copied.
#[derive(Clone, Copy, Debug, PartialEq, Eq, Structural)]
pub enum CopyKind {
    Selection,
    FullOutput,
}

/// A text that is to be copied.
#[derive(Debug)]
pub struct PendingCopy {
    pub content: String,
    pub kind: CopyKind,
}

/// The value of a [`PendingCopy`].
pub struct CopyView {
    pub content: Seq<char>,
    pub kind: CopyKind,
}

/// The value of an optional copy.
pub open spec fn copy_view(copy: Option<PendingCopy>) -> Option<CopyView> {
    match copy {
        Some(copy) => Some(CopyView { content: copy.content@, kind: copy.kind }),
        None => None,
    }
}

/// What became of a copy.
#[derive(Debug)]
pub struct CopyFeedback {
    pub message: String,
    pub error: bool,
}

/// The value of a [`CopyFeedback`].
pub struct FeedbackView {
    pub message: Seq<char>,
    pub error: bool,
}

/// The value of an optional feedback.
pub open spec fn feedback_view(feedback: Option<CopyFeedback>) -> Option<FeedbackView> {
    match feedback {
        Some(feedback) => Some(FeedbackView { message: feedback.message@, error: feedback.error }),
        None => None,
    }
}

/// The reason of an optional read error.
pub open spec fn error_view(error: Option<FileWatcherError>) -> Option<Seq<char>> {
    match error {
        Some(error) => Some(error->File_0@),
        None => None,
    }
}

/// What the application is told.
#[derive(Debug)]
pub enum AppMessage {
    Jobs(Vec<Job>),
    JobOutput(FileWatcherUpdate),
    Key(KeyEvent),
    MouseFocus(Pane),
    MouseClick(usize),
    MouseSelectionStart { column: u16, row: u16 },
    MouseSelectionUpdate { column: u16, row: u16 },
    MouseSelectionEnd { column: u16, row: u16 },
    MouseWheel { target: Pane, direction: MouseWheelDirection, amount: u16 },
}

/// The state of the application.
#[derive(Debug)]
pub struct App {
    pub focus: Pane,
    pub dialog: Option<Dialog>,
    pub remembered_jobs: Vec<Job>,
    /// The jobs that are listed.
    pub jobs: Vec<Job>,
    pub show_finished_jobs: bool,
    pub job_list_state: ListState,
    pub job_output: String,
    pub job_output_error: Option<FileWatcherError>,
    pub job_output_decoder: LogTextDecoder,
    pub job_output_anchor: ScrollAnchor,
    pub job_output_offset: u16,
    pub job_output_wrap: bool,
    pub output_file_view: OutputFileView,
    pub job_list_height: u16,
    pub job_output_height: u16,
    pub jobs_viewport: PaneViewport,
    pub details_viewport: PaneViewport,
    pub output_viewport: PaneViewport,
    pub job_output_content_width: usize,
    pub output_inner_area: Rect,
    pub rendered_output_lines: Vec<RenderedOutputLine>,
    pub output_selection: Option<OutputSelection>,
    pub selection_anchor: Option<OutputCell>,
    pub selection_dragged: bool,
    pub pending_copy: Option<PendingCopy>,
    pub copy_feedback: Option<CopyFeedback>,
}

/// The value of an [`App`].
#[verifier::ext_equal]
pub struct AppView {
    pub focus: Pane,
    pub dialog: Option<DialogView>,
    pub remembered: Seq<JobView>,
    pub jobs: Seq<JobView>,
    pub show_finished: bool,
    pub list: ListState,
    /// The output, and where its next character goes.
    pub screen: Screen,
    /// Bytes of a character whose end has not arrived.
    pub pending: Seq<u8>,
    /// Why the output could not be read.
    pub error: Option<Seq<char>>,
    pub anchor: ScrollAnchor,
    pub offset: u16,
    pub wrap: bool,
    pub file_view: OutputFileView,
    pub list_height: u16,
    pub output_height: u16,
    pub jobs_pane: PaneViewport,
    pub details_pane: PaneViewport,
    pub output_pane: PaneViewport,
    pub content_width: usize,
    pub inner_area: Rect,
    pub rows: Seq<RenderedOutputLine>,
    pub selection: Option<OutputSelection>,
    pub selection_anchor: Option<OutputCell>,
    pub dragged: bool,
    pub copy: Option<CopyView>,
    pub feedback: Option<FeedbackView>,
}

impl View for App {
    type V = AppView;

    open spec fn view(&self) -> AppView {
        AppView {
            focus: self.focus,
            dialog: dialog::dialog_view(self.dialog),
            remembered: job::job_views(self.remembered_jobs@),
            jobs: job::job_views(self.jobs@),
            show_finished: self.show_finished_jobs,
            list: self.job_list_state,
            screen: self.job_output_decoder.screen(self.job_output@),
            pending: self.job_output_decoder.pending(),
            error: error_view(self.job_output_error),
            anchor: self.job_output_anchor,
            offset: self.job_output_offset,
            wrap: self.job_output_wrap,
            file_view: self.output_file_view,
            list_height: self.job_list_height,
            output_height: self.job_output_height,
            jobs_pane: self.jobs_viewport,
            details_pane: self.details_viewport,
            output_pane: self.output_viewport,
            content_width: self.job_output_content_width,
            inner_area: self.output_inner_area,
            rows: self.rendered_output_lines@,
            selection: self.output_selection,
            selection_anchor: self.selection_anchor,
            dragged: self.selection_dragged,
            copy: copy_view(self.pending_copy),
            feedback: feedback_view(self.copy_feedback),
        }
    }
}

impl AppView {
    /// No pane is scrolled beyond its end, and a selected signal is one of the
    /// signals.
    pub open spec fn wf(self) -> bool {
        &&& self.jobs_pane.wf()
        &&& self.details_pane.wf()
        &&& self.output_pane.wf()
        &&& self.dialog is Some ==> self.dialog->0.wf()
    }

    /// The rows that were drawn last are parts of the output. Where lines are
    /// not wrapped, only their numbers count, and those may be out of date.
    pub open spec fn drawn(self) -> bool {
        let sources = output::source_lines(self.screen.text);
        self.wrap && self.error is None ==> forall|k: int|
            0 <= k < self.rows.len() && (#[trigger] self.rows[k]).source_line < sources.len()
                ==> output::row_fits(self.rows[k]@, sources)
    }

    /// The selected job.
    pub open spec fn selected_job(self) -> Option<JobView> {
        match self.list.selected {
            Some(i) if i < self.jobs.len() => Some(self.jobs[i as int]),
            _ => None,
        }
    }

    /// What the selected job is called.
    pub open spec fn selected_id(self) -> Option<Seq<char>> {
        match self.selected_job() {
            Some(job) => Some(job.id()),
            None => None,
        }
    }

    /// The state without a selection of output, and without feedback on a copy.
    pub open spec fn deselected(self) -> AppView {
        AppView {
            selection: None,
            selection_anchor: None,
            dragged: false,
            feedback: None,
            ..self
        }
    }

    /// The state with another list selection. Where it changes, the selection
    /// of output is void.
    pub open spec fn with_list(self, list: ListState) -> AppView {
        let moved = AppView { list, ..self };
        if list.selected != self.list.selected {
            moved.deselected()
        } else {
            moved
        }
    }
}

impl App {
    /// The decoder writes at a position of the output, and the state is well
    /// formed.
    pub open spec fn wf(self) -> bool {
        self.job_output_decoder.fits(self.job_output@) && self@.wf()
    }
}

/// The state before anything is known.
pub open spec fn initial() -> AppView {
    let pane = PaneViewport {
        area: geometry::empty_rect(),
        content_width: 0,
        horizontal_offset: 0,
    };
    AppView {
        focus: Pane::Jobs,
        dialog: None,
        remembered: Seq::empty(),
        jobs: Seq::empty(),
        show_finished: false,
        list: ListState { selected: None, offset: 0 },
        screen: log_decoder::blank(),
        pending: Seq::empty(),
        error: None,
        anchor: ScrollAnchor::Bottom,
        offset: 0,
        wrap: false,
        file_view: OutputFileView::Stdout,
        list_height: 0,
        output_height: 0,
        jobs_pane: pane,
        details_pane: pane,
        output_pane: pane,
        content_width: 0,
        inner_area: geometry::empty_rect(),
        rows: Seq::empty(),
        selection: None,
        selection_anchor: None,
        dragged: false,
        copy: None,
        feedback: None,
    }
}

impl App {
    /// The state before anything is known.
    pub fn new() -> (r: Self)
        ensures
            r@ == initial(),
            r.wf(),
    {
        let r: App = App {
            focus: Pane::Jobs,
            dialog: None,
            remembered_jobs: Vec::new(),
            jobs: Vec::new(),
            show_finished_jobs: false,
            job_list_state: ListState::default(),
            job_output: String::new(),
            job_output_error: None,
            job_output_decoder: LogTextDecoder::default(),
            job_output_anchor: ScrollAnchor::Bottom,
            job_output_offset: 0,
            job_output_wrap: false,
            output_file_view: OutputFileView::default(),
            job_list_height: 0,
            job_output_height: 0,
            jobs_viewport: PaneViewport::default(),
            details_viewport: PaneViewport::default(),
            output_viewport: PaneViewport::default(),
            job_output_content_width: 0,
            output_inner_area: Rect::default(),
            rendered_output_lines: Vec::new(),
            output_selection: None,
            selection_anchor: None,
            selection_dragged: false,
            pending_copy: None,
            copy_feedback: None,
        };
        assert(r.job_output@ =~= Seq::<char>::empty());
        assert(r@ =~= initial());
        r
    }

    /// Gives up the selection of output, and the feedback on a copy.
    fn clear_output_selection(&mut self)
        requires
            old(self).wf(),
        ensures
            final(self)@ == old(self)@.deselected(),
            final(self).wf(),
    {
        self.output_selection = None;
        self.selection_anchor = None;
        self.selection_dragged = false;
        self.copy_feedback = None;
    }

    /// Takes over another list selection.
    fn set_list(&mut self, list: ListState)
        requires
            old(self).wf(),
        ensures
            final(self)@ == old(self)@.with_list(list),
            final(self).wf(),
    {
        let changed: bool = self.job_list_state.selected != list.selected;
        self.job_list_state = list;
        if changed {
            self.clear_output_selection();
        }
    }

    /// The selected job.
    pub fn selected_job(&self) -> (r: Option<&Job>)
        ensures
            match r {
                Some(job) => self@.selected_job() == Some(job@),
                None => self@.selected_job() is None,
            },
    {
        match self.job_list_state.selected {
            Some(i) => if i < self.jobs.len() {
                Some(&self.jobs[i])
            } else {
                None
            },
            None => None,
        }
    }
}

/// The position of the first job that is called `id`, from position `i` on, or
/// the number of jobs where none is.
pub open spec fn job_position(jobs: Seq<JobView>, id: Seq<char>, i: int) -> int
    decreases jobs.len() - i,
{
    if i >= jobs.len() {
        jobs.len() as int
    } else if jobs[i].id() == id {
        i
    } else {
        job_position(jobs, id, i + 1)
    }
}

/// The selection in a new list of jobs: the job that was selected before,
/// wherever it stands now, or what stands in its place; the first job where
/// none was selected.
pub open spec fn reselected(list: ListState, id: Option<Seq<char>>, jobs: Seq<JobView>) -> ListState {
    if jobs.len() == 0 {
        list.with(None)
    } else {
        match id {
            Some(id) => {
                let at = job_position(jobs, id, 0);
                list.with(
                    Some(
                        (if at < jobs.len() {
                            at
                        } else {
                            geometry::least(list.position(), jobs.len() - 1)
                        }) as usize,
                    ),
                )
            },
            None => list.with(Some(0)),
        }
    }
}

impl AppView {
    /// The state with the listed jobs brought up to date. Where another job is
    /// selected then, the selection of output is void.
    pub open spec fn relisted(self) -> AppView {
        let jobs = job::shown(self.remembered, self.show_finished);
        let id = self.selected_id();
        let listed = AppView { jobs, list: reselected(self.list, id, jobs), ..self };
        if listed.selected_id() != id {
            listed.deselected()
        } else {
            listed
        }
    }
}

impl App {
    /// What the selected job is called.
    fn selected_job_id(&self) -> (r: Option<String>)
        ensures
            text::option_view(r) == self@.selected_id(),
    {
        match self.selected_job() {
            Some(job) => Some(job.id()),
            None => None,
        }
    }

    /// The selected job, unless it has finished.
    fn selected_active_job(&self) -> (r: Option<&Job>)
        ensures
            match r {
                Some(job) => self@.selected_active_job() == Some(job@),
                None => self@.selected_active_job() is None,
            },
    {
        match self.selected_job() {
            Some(job) => if job.finished {
                None
            } else {
                Some(job)
            },
            None => None,
        }
    }

    /// The position of the first listed job that is called `id`.
    fn position_of(&self, id: &str) -> (r: usize)
        ensures
            r == job_position(self@.jobs, id@, 0),
            r <= self.jobs@.len(),
    {
        let mut i: usize = 0;
        while i < self.jobs.len()
            invariant
                i <= self.jobs@.len(),
                job_position(self@.jobs, id@, 0) == job_position(self@.jobs, id@, i as int),
            decreases self.jobs@.len() - i,
        {
            assert(self@.jobs[i as int] == self.jobs@[i as int]@);
            let other: String = self.jobs[i].id();
            if text::same_text(other.as_str(), id) {
                return i;
            }
            i += 1;
        }
        i
    }

    /// Brings the listed jobs up to date.
    fn rebuild_visible_jobs(&mut self)
        requires
            old(self).wf(),
        ensures
            final(self)@ == old(self)@.relisted(),
            final(self).wf(),
    {
        let previous: Option<String> = self.selected_job_id();
        let ghost before = self@;
        self.jobs = job::visible_jobs(self.remembered_jobs.as_slice(), self.show_finished_jobs);
        let count: usize = self.jobs.len();
        if count == 0 {
            self.job_list_state.select(None);
        } else {
            match &previous {
                Some(id) => {
                    let at: usize = self.position_of(id.as_str());
                    let place: usize = match self.job_list_state.selected {
                        Some(i) => i,
                        None => 0,
                    };
                    let index: usize = if at < count {
                        at
                    } else if place < count - 1 {
                        place
                    } else {
                        count - 1
                    };
                    self.job_list_state.select(Some(index));
                },
                None => self.job_list_state.select_first(),
            }
        }
        let current: Option<String> = self.selected_job_id();
        if !same_option_text(&previous, &current) {
            self.clear_output_selection();
        }
    }
}

/// Whether two optional texts are equal.
fn same_option_text(a: &Option<String>, b: &Option<String>) -> (r: bool)
    ensures
        r == (text::option_view(*a) == text::option_view(*b)),
{
    match (a, b) {
        (Some(a), Some(b)) => text::same_text(a.as_str(), b.as_str()),
        (None, None) => true,
        _ => false,
    }
}

impl AppView {
    /// The selected job, unless it has finished.
    pub open spec fn selected_active_job(self) -> Option<JobView> {
        match self.selected_job() {
            Some(job) if !job.finished => Some(job),
            _ => None,
        }
    }

    /// The state with a pane scrolled to the left. Wrapped output has no
    /// columns to scroll by.
    pub open spec fn scrolled_left(self, pane: Pane, amount: usize) -> AppView {
        match pane {
            Pane::Jobs => AppView { jobs_pane: self.jobs_pane.scrolled_left(amount), ..self },
            Pane::Details => AppView {
                details_pane: self.details_pane.scrolled_left(amount),
                ..self
            },
            Pane::Output => if self.wrap {
                self
            } else {
                AppView { output_pane: self.output_pane.scrolled_left(amount), ..self }
            },
        }
    }

    /// The state with a pane scrolled to the right. Wrapped output has no
    /// columns to scroll by.
    pub open spec fn scrolled_right(self, pane: Pane, amount: usize) -> AppView {
        match pane {
            Pane::Jobs => AppView { jobs_pane: self.jobs_pane.scrolled_right(amount), ..self },
            Pane::Details => AppView {
                details_pane: self.details_pane.scrolled_right(amount),
                ..self
            },
            Pane::Output => if self.wrap {
                self
            } else {
                AppView { output_pane: self.output_pane.scrolled_right(amount), ..self }
            },
        }
    }

    /// The state with the output scrolled down by `delta` lines, or up where
    /// `delta` is negative. The offset counts from the anchor.
    pub open spec fn output_scrolled(self, delta: int) -> AppView {
        let offset = match self.anchor {
            ScrollAnchor::Top => self.offset + delta,
            ScrollAnchor::Bottom => self.offset - delta,
        };
        AppView { offset: geometry::clamp16(geometry::floor0(offset)) as u16, ..self }
    }

    /// The state with a pane scrolled down by `delta` lines, or up where
    /// `delta` is negative: the job list by its selection, the output by its
    /// lines, and the details not at all.
    pub open spec fn scrolled(self, pane: Pane, delta: int) -> AppView {
        match pane {
            Pane::Jobs => self.with_list(self.list.moved(delta)),
            Pane::Details => self,
            Pane::Output => self.output_scrolled(delta),
        }
    }
}

impl App {
    /// Scrolls a pane to the left.
    fn scroll_left(&mut self, pane: Pane, amount: usize)
        requires
            old(self).wf(),
        ensures
            final(self)@ == old(self)@.scrolled_left(pane, amount),
            final(self).wf(),
    {
        match pane {
            Pane::Jobs => {
                let _ = self.jobs_viewport.scroll_left_by(amount);
            },
            Pane::Details => {
                let _ = self.details_viewport.scroll_left_by(amount);
            },
            Pane::Output => {
                if !self.job_output_wrap {
                    let _ = self.output_viewport.scroll_left_by(amount);
                }
            },
        }
    }

    /// Scrolls a pane to the right.
    fn scroll_right(&mut self, pane: Pane, amount: usize)
        requires
            old(self).wf(),
        ensures
            final(self)@ == old(self)@.scrolled_right(pane, amount),
            final(self).wf(),
    {
        match pane {
            Pane::Jobs => {
                let _ = self.jobs_viewport.scroll_right_by(amount);
            },
            Pane::Details => {
                let _ = self.details_viewport.scroll_right_by(amount);
            },
            Pane::Output => {
                if !self.job_output_wrap {
                    let _ = self.output_viewport.scroll_right_by(amount);
                }
            },
        }
    }

    /// Scrolls the output down.
    fn scroll_job_output_down_by(&mut self, delta: u16)
        requires
            old(self).wf(),
        ensures
            final(self)@ == old(self)@.output_scrolled(delta as int),
            final(self).wf(),
    {
        self.job_output_offset = match self.job_output_anchor {
            ScrollAnchor::Top => self.job_output_offset.saturating_add(delta),
            ScrollAnchor::Bottom => self.job_output_offset.saturating_sub(delta),
        };
    }

    /// Scrolls the output up.
    fn scroll_job_output_up_by(&mut self, delta: u16)
        requires
            old(self).wf(),
        ensures
            final(self)@ == old(self)@.output_scrolled(-(delta as int)),
            final(self).wf(),
    {
        self.job_output_offset = match self.job_output_anchor {
            ScrollAnchor::Top => self.job_output_offset.saturating_sub(delta),
            ScrollAnchor::Bottom => self.job_output_offset.saturating_add(delta),
        };
    }

    /// Scrolls a pane down.
    fn scroll_down(&mut self, pane: Pane, delta: u16)
        requires
            old(self).wf(),
        ensures
            final(self)@ == old(self)@.scrolled(pane, delta as int),
            final(self).wf(),
    {
        match pane {
            Pane::Jobs => {
                let mut list: ListState = self.job_list_state;
                list.scroll_down_by(delta);
                self.set_list(list);
            },
            Pane::Details => {},
            Pane::Output => self.scroll_job_output_down_by(delta),
        }
    }

    /// Scrolls a pane up.
    fn scroll_up(&mut self, pane: Pane, delta: u16)
        requires
            old(self).wf(),
        ensures
            final(self)@ == old(self)@.scrolled(pane, -(delta as int)),
            final(self).wf(),
    {
        match pane {
            Pane::Jobs => {
                let mut list: ListState = self.job_list_state;
                list.scroll_up_by(delta);
                self.set_list(list);
            },
            Pane::Details => {},
            Pane::Output => self.scroll_job_output_up_by(delta),
        }
    }
}

/// The width of the widest of the first `n` lines.
pub open spec fn widest(lines: Seq<Seq<char>>, n: int) -> usize
    decreases n,
{
    if n <= 0 {
        0
    } else {
        let before = widest(lines, n - 1);
        let width = viewport::clamp(viewport::text_width(lines[n - 1]));
        if width > before {
            width
        } else {
            before
        }
    }
}

/// The width of what the output pane shows: of the read error, where there is
/// one, or of the widest line.
pub open spec fn output_width(error: Option<Seq<char>>, output: Seq<char>) -> usize {
    match error {
        Some(reason) => viewport::clamp(viewport::text_width(file_watcher::read_error(reason))),
        None => {
            let lines = output::lines(output, 0);
            widest(lines, lines.len() as int)
        },
    }
}

/// The width of the widest line of a text.
fn widest_line(output: &str) -> (r: usize)
    ensures
        r == output_width(None, output@),
{
    let lines: Vec<&str> = output::text_lines(output);
    let ghost all = output::lines(output@, 0);
    let mut width: usize = 0;
    let mut i: usize = 0;
    while i < lines.len()
        invariant
            i <= lines@.len(),
            viewport::str_views(lines@) == all,
            width == widest(all, i as int),
        decreases lines@.len() - i,
    {
        assert(lines@[i as int]@ == all[i as int]);
        let next: usize = viewport::display_width(lines[i]);
        if next > width {
            width = next;
        }
        i += 1;
    }
    width
}

impl AppView {
    /// The state after a report on the output file. A new file starts an empty
    /// output; bytes are decoded, and show that the file can be read; an error
    /// leaves what was read.
    pub open spec fn output_updated(self, update: FileWatcherUpdate) -> AppView {
        let next = match update {
            FileWatcherUpdate::Reset => AppView {
                screen: log_decoder::blank(),
                pending: Seq::empty(),
                error: None,
                ..self.deselected()
            },
            FileWatcherUpdate::Append(bytes) => AppView {
                screen: log_decoder::write_all(
                    self.screen,
                    decode::decoded(self.pending + bytes@),
                ),
                pending: decode::pending(self.pending + bytes@),
                error: None,
                ..self
            },
            FileWatcherUpdate::Error(error) => AppView { error: Some(error->File_0@), ..self },
        };
        AppView { content_width: output_width(next.error, next.screen.text), ..next }
    }
}

impl App {
    /// Takes over a report on the output file.
    fn update_output(&mut self, update: FileWatcherUpdate)
        requires
            old(self).wf(),
        ensures
            final(self)@ == old(self)@.output_updated(update),
            final(self).wf(),
    {
        match update {
            FileWatcherUpdate::Reset => {
                self.job_output = String::new();
                self.job_output_error = None;
                self.job_output_decoder.reset();
                assert(self.job_output@ =~= Seq::<char>::empty());
                self.clear_output_selection();
            },
            FileWatcherUpdate::Append(bytes) => {
                self.job_output_decoder.push(bytes.as_slice(), &mut self.job_output);
                self.job_output_error = None;
            },
            FileWatcherUpdate::Error(error) => {
                self.job_output_error = Some(error);
            },
        }
        proof {
            self.job_output_decoder.lemma_screen_text(self.job_output@);
        }
        self.job_output_content_width = match &self.job_output_error {
            Some(error) => {
                let message: String = error.message();
                viewport::display_width(message.as_str())
            },
            None => widest_line(self.job_output.as_str()),
        };
    }
}

/// `n` brought into the range from `low` to `high`.
pub open spec fn within(n: int, low: int, high: int) -> int {
    if n < low {
        low
    } else if n > high {
        high
    } else {
        n
    }
}

/// `n` brought into the range from `low` to `high`.
fn brought_within(n: u16, low: u16, high: u16) -> (r: u16)
    requires
        low <= high,
    ensures
        r == within(n as int, low as int, high as int),
{
    if n < low {
        low
    } else if n > high {
        high
    } else {
        n
    }
}

/// The part of line `line` from byte `bytes.0` to byte `bytes.1`.
pub open spec fn cell(line: usize, bytes: (int, int)) -> OutputCell {
    OutputCell {
        start: OutputPoint { line, byte: bytes.0 as usize },
        end: OutputPoint { line, byte: bytes.1 as usize },
    }
}

impl AppView {
    /// The column of the output that is nearest to a column of the screen.
    pub open spec fn nearest_column(self, column: int) -> int {
        let area = self.inner_area;
        within(column, area.x as int, geometry::clamp16(area.x + area.width - 1))
    }

    /// The row of the output that is nearest to a row of the screen.
    pub open spec fn nearest_row(self, row: int) -> int {
        let area = self.inner_area;
        within(row, area.y as int, geometry::clamp16(area.y + area.height - 1))
    }

    /// The line of the output that the row nearest to a row of the screen shows,
    /// and the bytes of that line that belong to the row: all of them, where
    /// lines are not wrapped.
    pub open spec fn shown_near(self, row: int) -> Option<(usize, int, int)> {
        let area = self.inner_area;
        let sources = output::source_lines(self.screen.text);
        let index = self.nearest_row(row) - area.y;
        let shown = self.rows[index];
        if area.width == 0 || area.height == 0 || self.error is Some || index >= self.rows.len()
            || shown.source_line >= sources.len() {
            None
        } else if self.wrap {
            Some((shown.source_line, shown.start_byte as int, shown.end_byte as int))
        } else {
            Some(
                (
                    shown.source_line,
                    0,
                    text::byte_len(sources[shown.source_line as int]) as int,
                ),
            )
        }
    }

    /// The part of the output that is shown at a place on the screen; a place
    /// beside the output counts as the nearest one in it. The mark in front of
    /// a continuation row shows nothing, at the start of that row.
    pub open spec fn cell_at(self, column: u16, row: u16) -> Option<OutputCell> {
        let area = self.inner_area;
        let x = self.nearest_column(column as int);
        let y = self.nearest_row(row as int);
        let sources = output::source_lines(self.screen.text);
        let index = y - area.y;
        let shown = self.rows[index];
        let source = sources[shown.source_line as int];
        let mark = if shown.continuation { 2int } else { 0 };
        if area.width == 0 || area.height == 0 || index >= self.rows.len() || self.error is Some
            || shown.source_line >= sources.len() {
            None
        } else if !self.wrap {
            Some(
                cell(
                    shown.source_line,
                    output::cell_bytes(
                        source,
                        0,
                        text::byte_len(source) as int,
                        viewport::capped_sum(x - area.x, self.output_pane.horizontal_offset as int),
                    ),
                ),
            )
        } else if x - area.x < mark {
            Some(cell(shown.source_line, (shown.start_byte as int, shown.start_byte as int)))
        } else {
            Some(
                cell(
                    shown.source_line,
                    output::cell_bytes(
                        source,
                        shown.start_byte as int,
                        shown.end_byte as int,
                        x - area.x - mark,
                    ),
                ),
            )
        }
    }

    /// The state with the selection drawn from the cell where it started to a
    /// place on the screen. Both cells belong to it, in whichever order.
    pub open spec fn selected_to(self, column: u16, row: u16) -> AppView {
        match (self.selection_anchor, self.cell_at(column, row)) {
            (Some(anchor), Some(active)) => {
                let (start, end) = if active.start.lt(anchor.start) {
                    (active.start, anchor.end)
                } else {
                    (anchor.start, active.end)
                };
                AppView {
                    selection: if start.lt(end) {
                        Some(OutputSelection { start, end })
                    } else {
                        None
                    },
                    ..self
                }
            },
            _ => self,
        }
    }
}

impl App {
    /// The part of the output that is shown at a place on the screen: one whole
    /// cluster of what the nearest row shows, or nothing, between two characters.
    pub fn output_cell_at(&self, column: u16, row: u16) -> (r: Option<OutputCell>)
        requires
            self.wf(),
            self@.drawn(),
        ensures
            r == self@.cell_at(column, row),
            match (r, self@.shown_near(row as int)) {
                (Some(found), Some((line, start, end))) => {
                    let source = output::source_lines(self@.screen.text)[line as int];
                    let bytes = (found.start.byte as int, found.end.byte as int);
                    &&& found.start.line == line && found.end.line == line
                    &&& start <= bytes.0 <= bytes.1 <= end
                    &&& text::on_boundary(source, bytes.0) && text::on_boundary(source, bytes.1)
                    &&& bytes.0 < bytes.1 ==> output::whole_cluster(source, start, end, bytes)
                },
                (None, None) => true,
                _ => false,
            },
    {
        let area: Rect = self.output_inner_area;
        if area.width == 0 || area.height == 0 {
            return None;
        }
        let x: u16 = brought_within(column, area.x, area.x.saturating_add(area.width - 1));
        let y: u16 = brought_within(row, area.y, area.y.saturating_add(area.height - 1));
        let index: usize = (y - area.y) as usize;
        if index >= self.rendered_output_lines.len() || self.job_output_error.is_some() {
            return None;
        }
        let shown: RenderedOutputLine = self.rendered_output_lines[index];
        let sources: Vec<&str> = output::output_lines(self.job_output.as_str());
        proof {
            self.job_output_decoder.lemma_screen_text(self.job_output@);
        }
        if shown.source_line >= sources.len() {
            return None;
        }
        let source: &str = sources[shown.source_line];
        let screen_column: usize = (x - area.x) as usize;
        let start_byte: usize;
        let end_byte: usize;
        let display_column: usize;
        let ghost all = output::source_lines(self@.screen.text);
        assert(source@ == all[shown.source_line as int]);
        if self.job_output_wrap {
            assert(output::row_fits(self@.rows[index as int]@, all));
            let mark: usize = if shown.continuation {
                2
            } else {
                0
            };
            if screen_column < mark {
                let point: OutputPoint = OutputPoint {
                    line: shown.source_line,
                    byte: shown.start_byte,
                };
                return Some(OutputCell { start: point, end: point });
            }
            start_byte = shown.start_byte;
            end_byte = shown.end_byte;
            display_column = screen_column - mark;
        } else {
            start_byte = 0;
            end_byte = source.as_bytes().len();
            display_column = screen_column.saturating_add(self.output_viewport.horizontal_offset);
            proof {
                text::lemma_ends_on_boundary(source@);
            }
        }
        let (from, to) = output::grapheme_cell_at_display_column(
            source,
            start_byte,
            end_byte,
            display_column,
        );
        Some(
            OutputCell {
                start: OutputPoint { line: shown.source_line, byte: from },
                end: OutputPoint { line: shown.source_line, byte: to },
            },
        )
    }

    /// Draws the selection to a place on the screen.
    fn update_output_selection(&mut self, column: u16, row: u16)
        requires
            old(self).wf(),
            old(self)@.drawn(),
        ensures
            final(self)@ == old(self)@.selected_to(column, row),
            final(self).wf(),
    {
        let active: OutputCell = match self.output_cell_at(column, row) {
            Some(active) => active,
            None => return,
        };
        let anchor: OutputCell = match self.selection_anchor {
            Some(anchor) => anchor,
            None => return,
        };
        let start: OutputPoint;
        let end: OutputPoint;
        if active.start.is_before(anchor.start) {
            start = active.start;
            end = anchor.end;
        } else {
            start = anchor.start;
            end = active.end;
        }
        self.output_selection = if start.is_before(end) {
            Some(OutputSelection { start, end })
        } else {
            None
        };
    }
}

impl AppView {
    /// The selected text, where there is one.
    pub open spec fn selected_text(self) -> Option<Seq<char>> {
        let sources = output::source_lines(self.screen.text);
        match self.selection {
            Some(selection) if self.error is None && output::selection_fits(sources, selection) =>
            Some(output::selected_until(sources, selection, selection.end.line + 1)),
            _ => None,
        }
    }

    /// The state with a copy of that text pending, or with the feedback that
    /// there is nothing to copy.
    pub open spec fn copying(
        self,
        content: Option<Seq<char>>,
        kind: CopyKind,
        nothing: Seq<char>,
    ) -> AppView {
        match content {
            Some(content) if content.len() > 0 => AppView {
                copy: Some(CopyView { content, kind }),
                ..self
            },
            _ => AppView {
                copy: None,
                feedback: Some(FeedbackView { message: nothing, error: true }),
                ..self
            },
        }
    }

    /// The state with a copy of the selection pending.
    pub open spec fn copying_selection(self) -> AppView {
        self.copying(self.selected_text(), CopyKind::Selection, "Nothing selected"@)
    }

    /// The state with a copy of the whole output pending.
    pub open spec fn copying_output(self) -> AppView {
        self.copying(
            if self.error is None {
                Some(self.screen.text)
            } else {
                None
            },
            CopyKind::FullOutput,
            "No output to copy"@,
        )
    }

    /// What is said of a copy of `length` characters.
    pub open spec fn copied(kind: CopyKind, length: int) -> Seq<char> {
        match kind {
            CopyKind::Selection => "Copied "@ + formatting::decimal(length) + " chars"@,
            CopyKind::FullOutput => "Copied all ("@ + formatting::decimal(length) + " chars)"@,
        }
    }

    /// The state after the pending copy was handed to the terminal, or could
    /// not be, for a reason.
    pub open spec fn copy_done(self, failure: Option<Seq<char>>) -> AppView {
        match self.copy {
            Some(copy) => AppView {
                copy: None,
                feedback: Some(
                    match failure {
                        None => FeedbackView {
                            message: Self::copied(copy.kind, copy.content.len() as int),
                            error: false,
                        },
                        Some(reason) => FeedbackView {
                            message: "Copy failed: "@ + reason,
                            error: true,
                        },
                    },
                ),
                ..self
            },
            None => self,
        }
    }
}

impl App {
    /// Takes a text to copy, or says that there is none.
    fn copy(&mut self, content: Option<String>, kind: CopyKind, nothing: &str)
        requires
            old(self).wf(),
        ensures
            final(self)@ == old(self)@.copying(text::option_view(content), kind, nothing@),
            final(self).wf(),
    {
        match content {
            Some(content) => {
                if !content.as_str().is_empty() {
                    self.pending_copy = Some(PendingCopy { content, kind });
                    return;
                }
            },
            None => {},
        }
        self.pending_copy = None;
        self.copy_feedback = Some(CopyFeedback { message: nothing.to_owned(), error: true });
    }

    /// Takes the selection to copy.
    pub fn copy_selected_output(&mut self)
        requires
            old(self).wf(),
        ensures
            final(self)@ == old(self)@.copying_selection(),
            final(self).wf(),
    {
        proof {
            self.job_output_decoder.lemma_screen_text(self.job_output@);
        }
        let content: Option<String> = match self.output_selection {
            Some(selection) => if self.job_output_error.is_some() {
                None
            } else {
                output::selected_output_text(self.job_output.as_str(), selection)
            },
            None => None,
        };
        self.copy(content, CopyKind::Selection, "Nothing selected");
    }

    /// Takes the whole output to copy.
    pub fn copy_full_output(&mut self)
        requires
            old(self).wf(),
        ensures
            final(self)@ == old(self)@.copying_output(),
            final(self).wf(),
    {
        proof {
            self.job_output_decoder.lemma_screen_text(self.job_output@);
        }
        let content: Option<String> = if self.job_output_error.is_some() {
            None
        } else {
            Some(self.job_output.clone())
        };
        self.copy(content, CopyKind::FullOutput, "No output to copy");
    }

    /// The sequence that hands the pending copy to the terminal.
    pub fn pending_copy_sequence(&self) -> (r: Option<String>)
        ensures
            text::option_view(r) == (match self@.copy {
                Some(copy) => Some(clipboard::copy_sequence(vstd::utf8::encode_utf8(copy.content))),
                None => None,
            }),
    {
        match &self.pending_copy {
            Some(copy) => Some(clipboard::osc52_clipboard(copy.content.as_str().as_bytes())),
            None => None,
        }
    }

    /// Takes over that the pending copy was handed to the terminal, or why it
    /// was not.
    pub fn finish_copy(&mut self, failure: Option<String>)
        requires
            old(self).wf(),
        ensures
            final(self)@ == old(self)@.copy_done(text::option_view(failure)),
            final(self).wf(),
    {
        let copy: PendingCopy = match self.pending_copy.take() {
            Some(copy) => copy,
            None => return,
        };
        let feedback: CopyFeedback = match failure {
            None => {
                let length: usize = text::char_count(copy.content.as_str());
                let mut message: String = match copy.kind {
                    CopyKind::Selection => "Copied ".to_owned(),
                    CopyKind::FullOutput => "Copied all (".to_owned(),
                };
                formatting::push_decimal(&mut message, length as u64);
                match copy.kind {
                    CopyKind::Selection => message.append(" chars"),
                    CopyKind::FullOutput => message.append(" chars)"),
                }
                CopyFeedback { message, error: false }
            },
            Some(reason) => {
                let mut message: String = "Copy failed: ".to_owned();
                message.append(reason.as_str());
                CopyFeedback { message, error: true }
            },
        };
        self.copy_feedback = Some(feedback);
    }
}

impl AppView {
    /// The state with that dialog open.
    pub open spec fn asking(self, dialog: DialogView) -> AppView {
        AppView { dialog: Some(dialog), ..self }
    }

    /// The state with the focused pane at its start: the first job, the first
    /// column of the details, or the first line of the output.
    pub open spec fn at_start(self) -> AppView {
        match self.focus {
            Pane::Jobs => self.with_list(self.list.with(Some(0))),
            Pane::Details => AppView { details_pane: self.details_pane.at_start(), ..self },
            Pane::Output => AppView { offset: 0, anchor: ScrollAnchor::Top, ..self },
        }
    }

    /// The state with the focused pane at its end.
    pub open spec fn at_end(self) -> AppView {
        match self.focus {
            Pane::Jobs => self.with_list(self.list.with(Some(usize::MAX))),
            Pane::Details => AppView {
                details_pane: self.details_pane.scrolled_right(usize::MAX),
                ..self
            },
            Pane::Output => AppView { offset: 0, anchor: ScrollAnchor::Bottom, ..self },
        }
    }

    /// The state with the focused pane one line up.
    pub open spec fn line_up(self) -> AppView {
        match self.focus {
            Pane::Jobs => self.with_list(self.list.before()),
            Pane::Details => self,
            Pane::Output => self.output_scrolled(-1),
        }
    }

    /// The state with the focused pane one line down.
    pub open spec fn line_down(self) -> AppView {
        match self.focus {
            Pane::Jobs => self.with_list(self.list.after()),
            Pane::Details => self,
            Pane::Output => self.output_scrolled(1),
        }
    }

    /// Half of the height of the focused pane.
    pub open spec fn half_page(self) -> int {
        match self.focus {
            Pane::Jobs => self.list_height as int / 2,
            Pane::Details => 0,
            Pane::Output => self.output_height as int / 2,
        }
    }

    /// Lines that a page key scrolls by: one less than the focused pane shows,
    /// or fifty with a modifier key.
    pub open spec fn page(self, modifiers: KeyModifiers) -> int {
        if modifiers.shift || modifiers.control || modifiers.alt {
            50
        } else {
            match self.focus {
                Pane::Jobs => geometry::floor0(self.list_height - 1),
                Pane::Details => 0,
                Pane::Output => geometry::floor0(self.output_height - 1),
            }
        }
    }

    /// The state with the other output file shown.
    pub open spec fn other_file(self) -> AppView {
        AppView {
            file_view: match self.file_view {
                OutputFileView::Stdout => OutputFileView::Stderr,
                OutputFileView::Stderr => OutputFileView::Stdout,
            },
            output_pane: self.output_pane.at_start(),
            ..self.deselected()
        }
    }

    /// The state with the wrapping of output turned on or off.
    pub open spec fn rewrapped(self) -> AppView {
        AppView {
            wrap: !self.wrap,
            output_pane: if self.wrap {
                self.output_pane
            } else {
                self.output_pane.at_start()
            },
            ..self.deselected()
        }
    }

    /// The state after a character key, where no dialog is open.
    pub open spec fn after_char(self, c: char, modifiers: KeyModifiers) -> AppView {
        let control = modifiers.control;
        let step = input::horizontal_step(modifiers);
        let job = self.selected_active_job();
        if c == '?' {
            self.asking(DialogView::Help)
        } else if c == 'y' || ((c == 'c' || c == 'C') && control) {
            self.copying_selection()
        } else if c == 'Y' {
            self.copying_output()
        } else if c == 'f' {
            AppView { show_finished: !self.show_finished, ..self }.relisted()
        } else if c == 'h' {
            self.scrolled_left(self.focus, step)
        } else if c == 'l' {
            self.scrolled_right(self.focus, step)
        } else if c == 'k' {
            self.line_up()
        } else if c == 'j' {
            self.line_down()
        } else if c == 'g' {
            self.at_start()
        } else if c == 'G' {
            self.at_end()
        } else if c == 'u' && control {
            self.scrolled(self.focus, -self.half_page())
        } else if c == 'd' && control {
            self.scrolled(self.focus, self.half_page())
        } else if c == 'c' && modifiers.none() && job is Some {
            self.asking(DialogView::ConfirmCancelJob { id: job->0.id() })
        } else if c == 'C' && job is Some {
            self.asking(DialogView::SelectCancelSignal { id: job->0.id(), selected_signal: 0 })
        } else if c == 't' && job is Some {
            self.asking(
                DialogView::EditTimeLimit {
                    id: job->0.id(),
                    field: line_edit::new_field(job->0.time_limit),
                },
            )
        } else if c == 'o' {
            self.other_file()
        } else if c == 'w' {
            self.rewrapped()
        } else {
            self
        }
    }

    /// The state after a key, where no dialog is open. With control or alt, an
    /// arrow key scrolls ten lines or columns at a time.
    pub open spec fn after_pane_key(self, key: KeyEvent) -> AppView {
        let step = input::horizontal_step(key.modifiers);
        let far = key.modifiers.control || key.modifiers.alt;
        match key.code {
            KeyCode::Char(c) => self.after_char(c, key.modifiers),
            KeyCode::Tab => AppView { focus: self.focus.after(), ..self },
            KeyCode::BackTab => AppView { focus: self.focus.before(), ..self },
            KeyCode::Left => self.scrolled_left(self.focus, step),
            KeyCode::Right => self.scrolled_right(self.focus, step),
            KeyCode::Up => if far {
                self.scrolled(self.focus, -10)
            } else {
                self.line_up()
            },
            KeyCode::Down => if far {
                self.scrolled(self.focus, 10)
            } else {
                self.line_down()
            },
            KeyCode::PageUp => self.scrolled(self.focus, -self.page(key.modifiers)),
            KeyCode::PageDown => self.scrolled(self.focus, self.page(key.modifiers)),
            KeyCode::Home => self.at_start(),
            KeyCode::End => self.at_end(),
            _ => self,
        }
    }

    /// The state after a key: an open dialog gets it, else the panes do.
    pub open spec fn after_key(self, key: KeyEvent) -> AppView {
        match self.dialog {
            Some(open) => AppView { dialog: dialog::dialog_after(open, key), ..self },
            None => self.after_pane_key(key),
        }
    }

    /// The command that a key gives.
    pub open spec fn key_request(self, key: KeyEvent) -> Option<RequestView> {
        match self.dialog {
            Some(open) => dialog::dialog_request(open, key),
            None => None,
        }
    }
}

impl App {
    /// Takes over a character key.
    fn char_key(&mut self, c: char, modifiers: KeyModifiers, step: usize)
        requires
            old(self).wf(),
            old(self).dialog is None,
            step == input::horizontal_step(modifiers),
        ensures
            final(self)@ == old(self)@.after_char(c, modifiers),
            final(self).wf(),
    {
        let focus: Pane = self.focus;
        let half: u16 = match focus {
            Pane::Jobs => self.job_list_height / 2,
            Pane::Details => 0,
            Pane::Output => self.job_output_height / 2,
        };
        if c == '?' {
            self.dialog = Some(Dialog::Help);
        } else if c == 'y' || ((c == 'c' || c == 'C') && modifiers.control) {
            self.copy_selected_output();
        } else if c == 'Y' {
            self.copy_full_output();
        } else if c == 'f' {
            self.show_finished_jobs = !self.show_finished_jobs;
            self.rebuild_visible_jobs();
        } else if c == 'h' {
            self.scroll_left(focus, step);
        } else if c == 'l' {
            self.scroll_right(focus, step);
        } else if c == 'k' {
            self.line_up();
        } else if c == 'j' {
            self.line_down();
        } else if c == 'g' {
            self.go_to_start();
        } else if c == 'G' {
            self.go_to_end();
        } else if c == 'u' && modifiers.control {
            self.scroll_up(focus, half);
        } else if c == 'd' && modifiers.control {
            self.scroll_down(focus, half);
        } else if c == 'c' && modifiers.is_empty() {
            let asked: Option<Dialog> = match self.selected_active_job() {
                Some(job) => Some(Dialog::ConfirmCancelJob(job.id())),
                None => None,
            };
            self.dialog = asked;
        } else if c == 'C' {
            let asked: Option<Dialog> = match self.selected_active_job() {
                Some(job) => Some(Dialog::SelectCancelSignal { id: job.id(), selected_signal: 0 }),
                None => None,
            };
            self.dialog = asked;
        } else if c == 't' {
            let asked: Option<Dialog> = match self.selected_active_job() {
                Some(job) => Some(
                    Dialog::EditTimeLimit {
                        id: job.id(),
                        input: tui_input::Input::new(job.time_limit.clone()),
                    },
                ),
                None => None,
            };
            self.dialog = asked;
        } else if c == 'o' {
            self.clear_output_selection();
            self.output_file_view = match self.output_file_view {
                OutputFileView::Stdout => OutputFileView::Stderr,
                OutputFileView::Stderr => OutputFileView::Stdout,
            };
            let _ = self.output_viewport.reset_horizontal();
        } else if c == 'w' {
            self.clear_output_selection();
            self.job_output_wrap = !self.job_output_wrap;
            if self.job_output_wrap {
                let _ = self.output_viewport.reset_horizontal();
            }
        }
    }

    /// Moves the focused pane to its start.
    fn go_to_start(&mut self)
        requires
            old(self).wf(),
        ensures
            final(self)@ == old(self)@.at_start(),
            final(self).wf(),
    {
        match self.focus {
            Pane::Jobs => {
                let mut list: ListState = self.job_list_state;
                list.select_first();
                self.set_list(list);
            },
            Pane::Details => {
                let _ = self.details_viewport.reset_horizontal();
            },
            Pane::Output => {
                self.job_output_offset = 0;
                self.job_output_anchor = ScrollAnchor::Top;
            },
        }
    }

    /// Moves the focused pane to its end.
    fn go_to_end(&mut self)
        requires
            old(self).wf(),
        ensures
            final(self)@ == old(self)@.at_end(),
            final(self).wf(),
    {
        match self.focus {
            Pane::Jobs => {
                let mut list: ListState = self.job_list_state;
                list.select_last();
                self.set_list(list);
            },
            Pane::Details => {
                let _ = self.details_viewport.scroll_right_by(usize::MAX);
            },
            Pane::Output => {
                self.job_output_offset = 0;
                self.job_output_anchor = ScrollAnchor::Bottom;
            },
        }
    }

    /// Moves the focused pane one line up.
    fn line_up(&mut self)
        requires
            old(self).wf(),
        ensures
            final(self)@ == old(self)@.line_up(),
            final(self).wf(),
    {
        match self.focus {
            Pane::Jobs => {
                let mut list: ListState = self.job_list_state;
                list.select_previous();
                self.set_list(list);
            },
            Pane::Details => {},
            Pane::Output => self.scroll_job_output_up_by(1),
        }
    }

    /// Moves the focused pane one line down.
    fn line_down(&mut self)
        requires
            old(self).wf(),
        ensures
            final(self)@ == old(self)@.line_down(),
            final(self).wf(),
    {
        match self.focus {
            Pane::Jobs => {
                let mut list: ListState = self.job_list_state;
                list.select_next();
                self.set_list(list);
            },
            Pane::Details => {},
            Pane::Output => self.scroll_job_output_down_by(1),
        }
    }

    /// Takes over a key, where no dialog is open.
    fn pane_key(&mut self, key: KeyEvent)
        requires
            old(self).wf(),
            old(self).dialog is None,
        ensures
            final(self)@ == old(self)@.after_pane_key(key),
            final(self).wf(),
    {
        let focus: Pane = self.focus;
        let held: KeyModifiers = key.modifiers;
        let step: usize = input::horizontal_scroll_amount(key);
        let far: bool = held.control || held.alt;
        let page: u16 = if held.shift || held.control || held.alt {
            50
        } else {
            match focus {
                Pane::Jobs => self.job_list_height.saturating_sub(1),
                Pane::Details => 0,
                Pane::Output => self.job_output_height.saturating_sub(1),
            }
        };
        match key.code {
            KeyCode::Char(c) => self.char_key(c, held, step),
            KeyCode::Tab => {
                self.focus = focus.next();
            },
            KeyCode::BackTab => {
                self.focus = focus.previous();
            },
            KeyCode::Left => self.scroll_left(focus, step),
            KeyCode::Right => self.scroll_right(focus, step),
            KeyCode::Up => {
                if far {
                    self.scroll_up(focus, 10);
                } else {
                    self.line_up();
                }
            },
            KeyCode::Down => {
                if far {
                    self.scroll_down(focus, 10);
                } else {
                    self.line_down();
                }
            },
            KeyCode::PageUp => self.scroll_up(focus, page),
            KeyCode::PageDown => self.scroll_down(focus, page),
            KeyCode::Home => self.go_to_start(),
            KeyCode::End => self.go_to_end(),
            _ => {},
        }
    }

    /// Takes over a key, and says which command it gives.
    fn key(&mut self, key: KeyEvent) -> (r: Option<CommandRequest>)
        requires
            old(self).wf(),
        ensures
            final(self)@ == old(self)@.after_key(key),
            dialog::request_view(r) == old(self)@.key_request(key),
            final(self).wf(),
    {
        match self.dialog.take() {
            Some(open) => {
                let (next, request) = dialog::dialog_key(open, key);
                self.dialog = next;
                request
            },
            None => {
                self.pane_key(key);
                None
            },
        }
    }
}

impl AppView {
    /// The state after the button was pressed on the output: a new selection
    /// starts there.
    pub open spec fn selection_started(self, column: u16, row: u16) -> AppView {
        AppView {
            selection: None,
            selection_anchor: self.cell_at(column, row),
            dragged: false,
            feedback: None,
            ..self
        }
    }

    /// The state after the mouse was dragged with the button held: the
    /// selection reaches to that place.
    pub open spec fn selection_moved(self, column: u16, row: u16) -> AppView {
        AppView { dragged: true, ..self }.selected_to(column, row)
    }

    /// The state after the button was released: what was selected by dragging
    /// stays, and a mere click selects nothing.
    pub open spec fn selection_ended(self, column: u16, row: u16) -> AppView {
        AppView {
            selection_anchor: None,
            dragged: false,
            ..if self.dragged {
                self.selected_to(column, row)
            } else {
                AppView { selection: None, ..self }
            }
        }
    }

    /// The state after the wheel scrolled a pane.
    pub open spec fn wheeled(
        self,
        target: Pane,
        direction: MouseWheelDirection,
        amount: u16,
    ) -> AppView {
        match direction {
            MouseWheelDirection::Up => self.scrolled(target, -(amount as int)),
            MouseWheelDirection::Down => self.scrolled(target, amount as int),
            MouseWheelDirection::Left => self.scrolled_left(target, amount as usize),
            MouseWheelDirection::Right => self.scrolled_right(target, amount as usize),
        }
    }

    /// The state after a message.
    pub open spec fn after_message(self, message: AppMessage) -> AppView {
        match message {
            AppMessage::Jobs(jobs) => AppView {
                remembered: job::refreshed(self.remembered, job::job_views(jobs@)),
                ..self
            }.relisted(),
            AppMessage::JobOutput(update) => self.output_updated(update),
            AppMessage::Key(key) => self.after_key(key),
            AppMessage::MouseFocus(pane) => if self.dialog is None {
                AppView { focus: pane, ..self }
            } else {
                self
            },
            AppMessage::MouseClick(index) => if self.dialog is None && index < self.jobs.len() {
                self.with_list(self.list.with(Some(index)))
            } else {
                self
            },
            AppMessage::MouseSelectionStart { column, row } => self.selection_started(column, row),
            AppMessage::MouseSelectionUpdate { column, row } => self.selection_moved(column, row),
            AppMessage::MouseSelectionEnd { column, row } => self.selection_ended(column, row),
            AppMessage::MouseWheel { target, direction, amount } => if self.dialog is None {
                self.wheeled(target, direction, amount)
            } else {
                self
            },
        }
    }

    /// The command that a message gives.
    pub open spec fn message_request(self, message: AppMessage) -> Option<RequestView> {
        match message {
            AppMessage::Key(key) => self.key_request(key),
            _ => None,
        }
    }

    /// The file to follow: the one of the selected job that is to be shown.
    pub open spec fn watched_file(self) -> Option<Seq<char>> {
        match self.selected_job() {
            Some(job) => match self.file_view {
                OutputFileView::Stdout => job.stdout,
                OutputFileView::Stderr => job.stderr,
            },
            None => None,
        }
    }

    /// The state after the command that was given last has ended: its dialog is
    /// closed, or replaced by the report of its failure.
    pub open spec fn command_done(self, failure: Option<(Seq<char>, Seq<char>)>) -> AppView {
        match failure {
            Some((command, output)) => self.asking(DialogView::CommandError { command, output }),
            None => self,
        }
    }
}

/// What is reported of a command that ended with that outcome: its label and
/// what went wrong, or nothing where it succeeded.
pub open spec fn failure_of(label: Seq<char>, outcome: CommandOutcome) -> Option<
    (Seq<char>, Seq<char>),
> {
    match outcome {
        CommandOutcome::NotRun { reason } => Some((label, reason@)),
        CommandOutcome::Ended { success, code, stdout, stderr } => if success {
            None
        } else {
            Some((label, command::failure_report(code, stdout@, stderr@)))
        },
    }
}

impl App {
    /// Selects a listed job.
    fn select_job(&mut self, index: usize)
        requires
            old(self).wf(),
        ensures
            final(self)@ == old(self)@.with_list(old(self)@.list.with(Some(index))),
            final(self).wf(),
    {
        let mut list: ListState = self.job_list_state;
        list.select(Some(index));
        self.set_list(list);
    }

    /// Starts a selection of output.
    fn start_selection(&mut self, column: u16, row: u16)
        requires
            old(self).wf(),
            old(self)@.drawn(),
        ensures
            final(self)@ == old(self)@.selection_started(column, row),
            final(self).wf(),
    {
        let start: Option<OutputCell> = self.output_cell_at(column, row);
        self.output_selection = None;
        self.copy_feedback = None;
        self.selection_anchor = start;
        self.selection_dragged = false;
    }

    /// Draws the selection of output on.
    fn move_selection(&mut self, column: u16, row: u16)
        requires
            old(self).wf(),
            old(self)@.drawn(),
        ensures
            final(self)@ == old(self)@.selection_moved(column, row),
            final(self).wf(),
    {
        self.selection_dragged = true;
        self.update_output_selection(column, row);
    }

    /// Ends the selection of output.
    fn end_selection(&mut self, column: u16, row: u16)
        requires
            old(self).wf(),
            old(self)@.drawn(),
        ensures
            final(self)@ == old(self)@.selection_ended(column, row),
            final(self).wf(),
    {
        if self.selection_dragged {
            self.update_output_selection(column, row);
        } else {
            self.output_selection = None;
        }
        self.selection_anchor = None;
        self.selection_dragged = false;
    }

    /// Scrolls a pane by the wheel.
    fn wheel(&mut self, target: Pane, direction: MouseWheelDirection, amount: u16)
        requires
            old(self).wf(),
        ensures
            final(self)@ == old(self)@.wheeled(target, direction, amount),
            final(self).wf(),
    {
        match direction {
            MouseWheelDirection::Up => self.scroll_up(target, amount),
            MouseWheelDirection::Down => self.scroll_down(target, amount),
            MouseWheelDirection::Left => self.scroll_left(target, amount as usize),
            MouseWheelDirection::Right => self.scroll_right(target, amount as usize),
        }
    }

    /// Takes over a message, and says which command it gives.
    pub fn handle(&mut self, message: AppMessage) -> (r: Option<CommandRequest>)
        requires
            old(self).wf(),
            message is MouseSelectionStart || message is MouseSelectionUpdate
                || message is MouseSelectionEnd ==> old(self)@.drawn(),
        ensures
            final(self)@ == old(self)@.after_message(message),
            dialog::request_view(r) == old(self)@.message_request(message),
            final(self).wf(),
    {
        match message {
            AppMessage::Jobs(jobs) => {
                let mut previous: Vec<Job> = Vec::new();
                std::mem::swap(&mut previous, &mut self.remembered_jobs);
                self.remembered_jobs = job::remember_finished_jobs(previous, jobs);
                self.rebuild_visible_jobs();
                None
            },
            AppMessage::JobOutput(update) => {
                self.update_output(update);
                None
            },
            AppMessage::Key(key) => self.key(key),
            AppMessage::MouseFocus(pane) => {
                if self.dialog.is_none() {
                    self.focus = pane;
                }
                None
            },
            AppMessage::MouseClick(index) => {
                if self.dialog.is_none() && index < self.jobs.len() {
                    self.select_job(index);
                }
                None
            },
            AppMessage::MouseSelectionStart { column, row } => {
                self.start_selection(column, row);
                None
            },
            AppMessage::MouseSelectionUpdate { column, row } => {
                self.move_selection(column, row);
                None
            },
            AppMessage::MouseSelectionEnd { column, row } => {
                self.end_selection(column, row);
                None
            },
            AppMessage::MouseWheel { target, direction, amount } => {
                if self.dialog.is_none() {
                    self.wheel(target, direction, amount);
                }
                None
            },
        }
    }

    /// The file to follow.
    pub fn watched_file(&self) -> (r: Option<String>)
        ensures
            text::option_view(r) == self@.watched_file(),
    {
        match self.selected_job() {
            Some(job) => match self.output_file_view {
                OutputFileView::Stdout => text::clone_option(&job.stdout),
                OutputFileView::Stderr => text::clone_option(&job.stderr),
            },
            None => None,
        }
    }

    /// Takes over how a command ended.
    pub fn command_finished(&mut self, label: String, outcome: CommandOutcome)
        requires
            old(self).wf(),
        ensures
            final(self)@ == old(self)@.command_done(failure_of(label@, outcome)),
            final(self).wf(),
    {
        match command::command_failure(label, outcome) {
            Some(failure) => {
                self.dialog = Some(
                    Dialog::CommandError { command: failure.command, output: failure.output },
                );
            },
            None => {},
        }
    }
}

/// A run of wheel events that scroll the same pane the same way.
#[derive(Clone, Copy, Debug, PartialEq, Eq, Structural)]
pub struct WheelRun {
    pub target: Pane,
    pub direction: MouseWheelDirection,
    /// How much one event counts.
    pub multiplier: u16,
    /// Number of events.
    pub count: u16,
}

impl WheelRun {
    /// The run with one more event, or the same where it counts no more.
    pub open spec fn longer(self) -> WheelRun {
        WheelRun { count: geometry::clamp16(self.count + 1) as u16, ..self }
    }
}

/// What follows from a terminal event.
#[derive(Debug)]
pub enum InputOutcome {
    /// The application ends.
    Quit,
    /// Nothing changed.
    Idle,
    /// Something may have changed, and a command may have been given.
    Draw(Option<CommandRequest>),
    /// A wheel event, which may be the first of a run.
    Wheel(WheelRun),
}

/// The value of an [`InputOutcome`].
pub enum OutcomeView {
    Quit,
    Idle,
    Draw { request: Option<RequestView> },
    Wheel { run: WheelRun },
}

impl View for InputOutcome {
    type V = OutcomeView;

    open spec fn view(&self) -> OutcomeView {
        match self {
            InputOutcome::Quit => OutcomeView::Quit,
            InputOutcome::Idle => OutcomeView::Idle,
            InputOutcome::Draw(request) => OutcomeView::Draw {
                request: dialog::request_view(*request),
            },
            InputOutcome::Wheel(run) => OutcomeView::Wheel { run: *run },
        }
    }
}

impl AppView {
    /// The pane at a place on the screen.
    pub open spec fn pane_at(self, column: u16, row: u16) -> Option<Pane> {
        if self.jobs_pane.area.holds(column as int, row as int) {
            Some(Pane::Jobs)
        } else if self.details_pane.area.holds(column as int, row as int) {
            Some(Pane::Details)
        } else if self.output_pane.area.holds(column as int, row as int) {
            Some(Pane::Output)
        } else {
            None
        }
    }

    /// The rows of the job list: the pane without its border.
    pub open spec fn list_area(self) -> Rect {
        let area = self.jobs_pane.area;
        Rect {
            x: geometry::clamp16(area.x + 1) as u16,
            y: geometry::clamp16(area.y + 1) as u16,
            width: geometry::floor0(area.width - 2) as u16,
            height: geometry::floor0(area.height - 2) as u16,
        }
    }

    /// The listed job at a place on the screen.
    pub open spec fn job_at(self, column: u16, row: u16) -> Option<usize> {
        let inner = self.list_area();
        let index = self.list.offset + (row - inner.y);
        if inner.holds(column as int, row as int) && index < self.jobs.len() {
            Some(index as usize)
        } else {
            None
        }
    }

    /// The wheel run that a mouse event starts, where it is a wheel event over
    /// a pane.
    pub open spec fn wheel_run(self, mouse: MouseEvent) -> Option<WheelRun> {
        let shift = mouse.modifiers.shift;
        match (input::wheel_direction(mouse.kind, shift), self.pane_at(mouse.column, mouse.row)) {
            (Some(direction), Some(target)) => Some(
                WheelRun {
                    target,
                    direction,
                    multiplier: input::wheel_multiplier(mouse.kind, shift),
                    count: 1,
                },
            ),
            _ => None,
        }
    }

    /// Whether an event goes on with a wheel run.
    pub open spec fn continues(self, run: WheelRun, event: Event) -> bool {
        event matches Event::Mouse(mouse) && self.wheel_run(mouse) == Some(
            WheelRun { count: 1, ..run },
        )
    }

    /// The state after the left button was pressed at a place on the screen:
    /// the pane there is focused, and a job there is selected, or a selection
    /// of output starts there.
    pub open spec fn pressed(self, column: u16, row: u16) -> AppView {
        match self.pane_at(column, row) {
            Some(pane) => {
                let focused = AppView { focus: pane, ..self };
                if pane == Pane::Jobs {
                    match self.job_at(column, row) {
                        Some(index) => focused.with_list(self.list.with(Some(index))),
                        None => focused,
                    }
                } else if pane == Pane::Output && self.inner_area.holds(
                    column as int,
                    row as int,
                ) {
                    focused.selection_started(column, row)
                } else {
                    focused
                }
            },
            None => self,
        }
    }

    /// Whether anything may have changed when the left button was pressed at a
    /// place on the screen.
    pub open spec fn press_counts(self, column: u16, row: u16) -> bool {
        match self.pane_at(column, row) {
            Some(pane) => {
                ||| self.focus != pane
                ||| pane == Pane::Jobs && self.job_at(column, row) is Some && self.list.selected
                    != self.job_at(column, row)
                ||| pane == Pane::Output && self.inner_area.holds(column as int, row as int)
            },
            None => false,
        }
    }

    /// The state after a terminal event. An open dialog keeps the mouse from
    /// everything.
    pub open spec fn after_event(self, event: Event) -> AppView {
        match event {
            Event::Key(key) => if key.code == KeyCode::Char('q') {
                self
            } else {
                self.after_key(key)
            },
            Event::Mouse(mouse) => if self.dialog is Some {
                self
            } else {
                let column = mouse.column;
                let row = mouse.row;
                match mouse.kind {
                    MouseEventKind::Down(MouseButton::Left) => self.pressed(column, row),
                    MouseEventKind::Drag(MouseButton::Left) if self.selection_anchor is Some =>
                    self.selection_moved(column, row),
                    MouseEventKind::Up(MouseButton::Left) if self.selection_anchor is Some =>
                    self.selection_ended(column, row),
                    _ => self,
                }
            },
            _ => self,
        }
    }

    /// What follows from a terminal event.
    pub open spec fn event_outcome(self, event: Event) -> OutcomeView {
        match event {
            Event::Key(key) => if key.code == KeyCode::Char('q') {
                OutcomeView::Quit
            } else {
                OutcomeView::Draw { request: self.key_request(key) }
            },
            Event::Mouse(mouse) => if self.dialog is Some {
                OutcomeView::Idle
            } else {
                let dragging = self.selection_anchor is Some;
                match mouse.kind {
                    MouseEventKind::Down(MouseButton::Left) if self.press_counts(
                        mouse.column,
                        mouse.row,
                    ) => OutcomeView::Draw { request: None },
                    MouseEventKind::Drag(MouseButton::Left) if dragging => OutcomeView::Draw {
                        request: None,
                    },
                    MouseEventKind::Up(MouseButton::Left) if dragging => OutcomeView::Draw {
                        request: None,
                    },
                    _ => match self.wheel_run(mouse) {
                        Some(run) => OutcomeView::Wheel { run },
                        None => OutcomeView::Idle,
                    },
                }
            },
            Event::Resize => OutcomeView::Draw { request: None },
            _ => OutcomeView::Idle,
        }
    }

    /// The state after a wheel run: the pane is scrolled by as much as its
    /// events count together.
    pub open spec fn after_run(self, run: WheelRun) -> AppView {
        if self.dialog is None {
            self.wheeled(
                run.target,
                run.direction,
                geometry::clamp16(run.count * run.multiplier) as u16,
            )
        } else {
            self
        }
    }
}

/// The product of two numbers, or the largest `u16`.
fn capped_product(a: u16, b: u16) -> (r: u16)
    ensures
        r == geometry::clamp16(a * b),
{
    assert(0 <= a * b <= 0xffff * 0xffff) by (nonlinear_arith)
        requires
            0 <= a <= 0xffff,
            0 <= b <= 0xffff,
    ;
    let product: u32 = a as u32 * b as u32;
    if product > 0xffff {
        u16::MAX
    } else {
        product as u16
    }
}

impl App {
    /// The pane at a place on the screen.
    pub fn pane_at(&self, column: u16, row: u16) -> (r: Option<Pane>)
        ensures
            r == self@.pane_at(column, row),
    {
        if self.jobs_viewport.contains(column, row) {
            Some(Pane::Jobs)
        } else if self.details_viewport.contains(column, row) {
            Some(Pane::Details)
        } else if self.output_viewport.contains(column, row) {
            Some(Pane::Output)
        } else {
            None
        }
    }

    /// The listed job at a place on the screen.
    pub fn job_index_at(&self, column: u16, row: u16) -> (r: Option<usize>)
        ensures
            r == self@.job_at(column, row),
    {
        let area: Rect = self.jobs_viewport.area;
        let inner: Rect = Rect {
            x: area.x.saturating_add(1),
            y: area.y.saturating_add(1),
            width: area.width.saturating_sub(2),
            height: area.height.saturating_sub(2),
        };
        if !geometry::rect_contains(inner, column, row) {
            return None;
        }
        let row_in_list: usize = (row - inner.y) as usize;
        let index: usize = self.job_list_state.offset.saturating_add(row_in_list);
        if index < self.jobs.len() {
            Some(index)
        } else {
            None
        }
    }

    /// Takes over that the left button was pressed, and says whether anything
    /// may have changed.
    fn press(&mut self, column: u16, row: u16) -> (changed: bool)
        requires
            old(self).wf(),
            old(self)@.drawn(),
            old(self).dialog is None,
        ensures
            final(self)@ == old(self)@.pressed(column, row),
            changed == old(self)@.press_counts(column, row),
            final(self).wf(),
    {
        let pane: Pane = match self.pane_at(column, row) {
            Some(pane) => pane,
            None => return false,
        };
        let mut changed: bool = false;
        if self.focus != pane {
            self.focus = pane;
            changed = true;
        }
        if pane == Pane::Jobs {
            match self.job_index_at(column, row) {
                Some(index) => {
                    if self.job_list_state.selected != Some(index) {
                        self.select_job(index);
                        changed = true;
                    }
                },
                None => {},
            }
        }
        if pane == Pane::Output && geometry::rect_contains(self.output_inner_area, column, row) {
            self.start_selection(column, row);
            changed = true;
        }
        changed
    }

    /// The wheel run that a mouse event starts.
    fn wheel_run(&self, mouse: MouseEvent) -> (r: Option<WheelRun>)
        ensures
            r == self@.wheel_run(mouse),
    {
        let direction: MouseWheelDirection = match input::mouse_wheel_direction(
            mouse.kind,
            mouse.modifiers,
        ) {
            Some(direction) => direction,
            None => return None,
        };
        match self.pane_at(mouse.column, mouse.row) {
            Some(target) => Some(
                WheelRun {
                    target,
                    direction,
                    multiplier: input::mouse_wheel_scroll_multiplier(mouse.kind, mouse.modifiers),
                    count: 1,
                },
            ),
            None => None,
        }
    }

    /// Takes over a terminal event.
    pub fn handle_input_event(&mut self, event: Event) -> (r: InputOutcome)
        requires
            old(self).wf(),
            event is Mouse ==> old(self)@.drawn(),
        ensures
            final(self)@ == old(self)@.after_event(event),
            r@ == old(self)@.event_outcome(event),
            final(self).wf(),
    {
        match event {
            Event::Key(key) => {
                if key.code == KeyCode::Char('q') {
                    InputOutcome::Quit
                } else {
                    InputOutcome::Draw(self.key(key))
                }
            },
            Event::Mouse(mouse) => {
                if self.dialog.is_some() {
                    return InputOutcome::Idle;
                }
                let column: u16 = mouse.column;
                let row: u16 = mouse.row;
                match mouse.kind {
                    MouseEventKind::Down(MouseButton::Left) => {
                        if self.press(column, row) {
                            InputOutcome::Draw(None)
                        } else {
                            InputOutcome::Idle
                        }
                    },
                    MouseEventKind::Drag(MouseButton::Left) => {
                        if self.selection_anchor.is_some() {
                            self.move_selection(column, row);
                            InputOutcome::Draw(None)
                        } else {
                            InputOutcome::Idle
                        }
                    },
                    MouseEventKind::Up(MouseButton::Left) => {
                        if self.selection_anchor.is_some() {
                            self.end_selection(column, row);
                            InputOutcome::Draw(None)
                        } else {
                            InputOutcome::Idle
                        }
                    },
                    _ => match self.wheel_run(mouse) {
                        Some(run) => InputOutcome::Wheel(run),
                        None => InputOutcome::Idle,
                    },
                }
            },
            Event::Resize => InputOutcome::Draw(None),
            _ => InputOutcome::Idle,
        }
    }

    /// Adds an event to a wheel run, where it goes on with it, and says whether
    /// it does.
    pub fn merge_wheel(&self, run: &mut WheelRun, event: Event) -> (merged: bool)
        ensures
            merged == self@.continues(*old(run), event),
            *final(run) == (if merged {
                WheelRun { count: geometry::clamp16(old(run).count + 1) as u16, ..*old(run) }
            } else {
                *old(run)
            }),
            merged ==> *final(run) == old(run).longer(),
    {
        match event {
            Event::Mouse(mouse) => match self.wheel_run(mouse) {
                Some(next) => {
                    if next.target == run.target && next.direction == run.direction
                        && next.multiplier == run.multiplier {
                        run.count = run.count.saturating_add(1);
                        true
                    } else {
                        false
                    }
                },
                None => false,
            },
            _ => false,
        }
    }

    /// Scrolls by a wheel run that is complete.
    pub fn finish_wheel(&mut self, run: WheelRun)
        requires
            old(self).wf(),
        ensures
            final(self)@ == old(self)@.after_run(run),
            final(self).wf(),
    {
        if self.dialog.is_none() {
            let amount: u16 = capped_product(run.count, run.multiplier);
            self.wheel(run.target, run.direction, amount);
        }
    }
}

} // verus!
