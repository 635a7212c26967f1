//! The whole screen: which part of it shows what.
use vstd::prelude::*;

use crate::app::{App, AppView};
use crate::dialog_box;
use crate::dialog_box::DialogBox;
use crate::geometry::Rect;
use crate::layout;
use crate::layout::Areas;
use crate::list::ListState;
use crate::output;
use crate::panes;
use crate::panes::{LogPanel, Panel};
use crate::styled::Line;
use crate::viewport::Pane;

verus! {

/// The help line as it is drawn.
#[derive(Debug)]
pub struct HelpBar {
    pub area: Rect,
    pub line: Line,
}

impl AppView {
    /// The state once the job list was laid out with that selection and that
    /// many jobs scrolled out, and then the details were drawn in an area.
    pub open spec fn details_shown(
        self,
        details: Rect,
        selected: Option<usize>,
        offset: usize,
    ) -> AppView {
        let listed = AppView { list: ListState { selected, offset }, ..self };
        listed.details_drawn(details)
    }

    /// The state once the details and the log were drawn in their areas as
    /// well, but for the rows of the log.
    pub open spec fn log_shown(
        self,
        details: Rect,
        log: Rect,
        selected: Option<usize>,
        offset: usize,
    ) -> AppView {
        self.details_shown(details, selected, offset).log_placed(log)
    }

    /// The state once the job list was drawn on a screen.
    pub open spec fn first_on(self, screen: Rect) -> AppView {
        self.jobs_drawn(layout::parts_of(screen).jobs)
    }

    /// The state once the rest was drawn on a screen, but for the rows of the
    /// log.
    pub open spec fn rest_on(
        self,
        screen: Rect,
        selected: Option<usize>,
        offset: usize,
    ) -> AppView {
        let parts = layout::parts_of(screen);
        self.log_shown(parts.details, parts.log, selected, offset)
    }

    /// Whether the dialog that is open, if any, can be drawn on a screen.
    pub open spec fn dialog_fits(self, screen: Rect) -> bool {
        self.dialog matches Some(dialog) ==> layout::dialog_fits(
            dialog_box::dialog_height(dialog),
            screen,
        )
    }
}

impl App {
    /// Draws what comes before the list of jobs is laid out: the help line, and
    /// the job list with all of its jobs. How far the list is scrolled for the
    /// selected job to be visible is decided where it is laid out.
    pub fn draw_first(&mut self, screen: Rect) -> (r: (HelpBar, Panel))
        requires
            old(self).wf(),
        ensures
            layout::on_screen(screen) ==> {
                let parts = layout::parts_of(screen);
                r.0.area == parts.help && r.1.area == parts.jobs
            },
            layout::on_screen(screen) ==> final(self)@ == old(self)@.first_on(screen),
            r.0.line@ == panes::help(),
            final(self)@ == old(self)@.jobs_drawn(r.1.area),
            r.1@ == old(self)@.jobs_drawn(r.1.area).jobs_panel(),
            final(self).wf(),
    {
        let parts: Areas = layout::areas(screen);
        let help: HelpBar = HelpBar { area: parts.help, line: panes::help_line() };
        let jobs: Panel = self.draw_jobs(parts.jobs);
        (help, jobs)
    }

    /// Draws the rest, once the list of jobs was laid out with that selection
    /// and that many jobs scrolled out: the details, the log, and on top of
    /// everything the dialog that is open, if any.
    pub fn draw_rest(&mut self, screen: Rect, selected: Option<usize>, offset: usize) -> (r: (
        Panel,
        LogPanel,
        Option<DialogBox>,
    ))
        requires
            old(self).wf(),
            old(self)@.dialog_fits(screen),
        ensures
            layout::on_screen(screen) ==> {
                let parts = layout::parts_of(screen);
                r.0.area == parts.details && r.1.panel.area == parts.log
            },
            layout::on_screen(screen) ==> final(self)@ == (AppView {
                rows: final(self)@.rows,
                ..old(self)@.rest_on(screen, selected, offset)
            }),
            ({
                let details = old(self)@.details_shown(r.0.area, selected, offset);
                let log = old(self)@.log_shown(r.0.area, r.1.panel.area, selected, offset);
                &&& final(self)@ == (AppView { rows: final(self)@.rows, ..log })
                &&& output::rows_view(final(self)@.rows) == log.visible_rows()
                &&& r.0@ == details.details_panel()
                &&& r.1.panel@ == log.log_panel()
                &&& r.1.error == (log.error is Some)
            }),
            match (r.2, old(self)@.dialog) {
                (Some(shown), Some(dialog)) => shown@ == dialog_box::box_of(dialog, screen),
                (None, None) => true,
                _ => false,
            },
            final(self)@.drawn(),
            final(self).wf(),
    {
        let parts: Areas = layout::areas(screen);
        self.list_drawn(selected, offset);
        let details: Panel = self.draw_details(parts.details);
        let log: LogPanel = self.draw_log(parts.log);
        let dialog: Option<DialogBox> = match &self.dialog {
            Some(dialog) => Some(dialog_box::dialog_box(dialog, screen)),
            None => None,
        };
        (details, log, dialog)
    }
}

/// Once a screen was drawn, a place on it belongs to the pane that is drawn
/// there, and to none where the help line is drawn or beside the screen.
pub proof fn law_places_belong_to_what_is_drawn(
    state: AppView,
    screen: Rect,
    selected: Option<usize>,
    offset: usize,
    column: u16,
    row: u16,
)
    requires
        layout::on_screen(screen),
    ensures
        ({
            let parts = layout::parts_of(screen);
            let first = state.jobs_drawn(parts.jobs);
            let drawn = first.log_shown(parts.details, parts.log, selected, offset);
            let found = drawn.pane_at(column, row);
            let on = |part: Rect| part.holds(column as int, row as int);
            &&& on(parts.jobs) <==> found == Some(Pane::Jobs)
            &&& on(parts.details) <==> found == Some(Pane::Details)
            &&& on(parts.log) <==> found == Some(Pane::Output)
            &&& on(parts.help) || !on(screen) <==> found is None
        }),
{
    layout::law_parts_fill_the_screen(screen, column as int, row as int);
}

/// A screen whose cells have coordinates has room for every dialog.
pub proof fn law_every_dialog_can_be_drawn(state: AppView, screen: Rect)
    requires
        layout::on_screen(screen),
    ensures
        state.dialog_fits(screen),
{
}

/// On a screen, the job list is drawn in the part of the jobs, the details in the
/// part of the details, and the log in the part of the log. A place belongs to
/// the pane in whose part it lies; one on the help line, or beside the screen, to
/// none. Which jobs are listed, what was read, and what is focused, open and
/// selected stay as they are.
pub proof fn law_everything_is_drawn_in_its_part(
    state: AppView,
    screen: Rect,
    selected: Option<usize>,
    offset: usize,
    column: u16,
    row: u16,
)
    requires
        layout::on_screen(screen),
    ensures
        ({
            let parts = layout::parts_of(screen);
            let drawn = state.first_on(screen).rest_on(screen, selected, offset);
            let found = drawn.pane_at(column, row);
            let on = |part: Rect| part.holds(column as int, row as int);
            &&& drawn.jobs_pane.area == parts.jobs
            &&& drawn.details_pane.area == parts.details
            &&& drawn.output_pane.area == parts.log
            &&& drawn.inner_area == layout::bordered(parts.log)
            &&& drawn.list == (ListState { selected, offset })
            &&& on(parts.jobs) <==> found == Some(Pane::Jobs)
            &&& on(parts.details) <==> found == Some(Pane::Details)
            &&& on(parts.log) <==> found == Some(Pane::Output)
            &&& on(parts.help) || !on(screen) <==> found is None
            &&& drawn == (AppView {
                list: drawn.list,
                list_height: drawn.list_height,
                output_height: drawn.output_height,
                jobs_pane: drawn.jobs_pane,
                details_pane: drawn.details_pane,
                output_pane: drawn.output_pane,
                inner_area: drawn.inner_area,
                ..state
            })
        }),
{
    layout::law_parts_fill_the_screen(screen, column as int, row as int);
}

} // verus!
