//! What the panes show.
use vstd::prelude::*;

use crate::app::{App, AppView};
use crate::file_watcher;
use crate::formatting;
use crate::geometry;
use crate::geometry::Rect;
use crate::job;
use crate::job::{Job, JobView};
use crate::layout;
use crate::layout::ScrollbarView;
use crate::list::ListState;
use crate::output;
use crate::output::{OutputFileView, OutputRenderOptions, ScrollAnchor};
use crate::styled;
use crate::styled::{Color, Line, LineView, Span, SpanView, Style};
use crate::text;
use crate::viewport;
use crate::viewport::{Pane, PaneViewport};

verus! {

/// A pane as it is drawn.
#[derive(Debug)]
pub struct Panel {
    pub area: Rect,
    pub title: Line,
    pub border: Style,
    pub lines: Vec<Line>,
    pub scrollbar: Option<ScrollbarView>,
}

/// The value of a [`Panel`].
pub struct PanelView {
    pub area: Rect,
    pub title: LineView,
    pub border: Style,
    pub lines: Seq<LineView>,
    pub scrollbar: Option<ScrollbarView>,
}

impl View for Panel {
    type V = PanelView;

    open spec fn view(&self) -> PanelView {
        PanelView {
            area: self.area,
            title: self.title@,
            border: self.border,
            lines: styled::line_views(self.lines@),
            scrollbar: self.scrollbar,
        }
    }
}

/// A span in the style of the text around it.
pub open spec fn raw(content: Seq<char>) -> SpanView {
    SpanView { content, style: styled::plain() }
}

/// A span in a colour.
pub open spec fn coloured(content: Seq<char>, color: Color) -> SpanView {
    SpanView { content, style: Style { fg: Some(color), ..styled::plain() } }
}

/// A dimmed span.
pub open spec fn dimmed(content: Seq<char>) -> SpanView {
    SpanView { content, style: Style { dim: true, ..styled::plain() } }
}

/// A span in the style of the text around it.
fn raw_span(content: &str) -> (r: Span)
    ensures
        r@ == raw(content@),
{
    Span::raw(content.to_owned())
}

/// A span in a colour.
fn coloured_span(content: &str, color: Color) -> (r: Span)
    ensures
        r@ == coloured(content@, color),
{
    Span::styled(content.to_owned(), Style::default().fg(color))
}

/// Appends a span to others.
fn push_span(spans: &mut Vec<Span>, span: Span)
    ensures
        styled::span_views(final(spans)@) == styled::span_views(old(spans)@).push(span@),
{
    let ghost before = styled::span_views(spans@);
    spans.push(span);
    assert(styled::span_views(spans@) =~= before.push(span@));
}

/// The style of a pane's border: only the focused pane stands out, and none
/// while a dialog is open.
pub open spec fn border_style(focused: Pane, pane: Pane, dialog_open: bool) -> Style {
    if !dialog_open && focused == pane {
        Style { fg: Some(Color::Green), ..styled::plain() }
    } else {
        styled::plain()
    }
}

/// The style of a pane's border.
pub fn pane_border_style(focused: Pane, pane: Pane, dialog_open: bool) -> (r: Style)
    ensures
        r == border_style(focused, pane, dialog_open),
{
    if !dialog_open && focused == pane {
        Style::default().fg(Color::Green)
    } else {
        Style::default()
    }
}

/// How far a pane is scrolled, where it can be.
pub open spec fn indicator(pane: PaneViewport) -> Option<Seq<char>> {
    if pane.max_offset() > 0 {
        Some(
            "[X+"@ + formatting::decimal(pane.horizontal_offset as int) + "/"@
                + formatting::decimal(pane.max_offset()) + "]"@,
        )
    } else {
        None
    }
}

/// How far a pane is scrolled, where it can be.
pub fn horizontal_indicator(pane: PaneViewport) -> (r: Option<String>)
    ensures
        text::option_view(r) == indicator(pane),
{
    let max: usize = pane.max_horizontal_offset();
    if max > 0 {
        let mut out: String = "[X+".to_owned();
        formatting::push_decimal(&mut out, pane.horizontal_offset as u64);
        out.append("/");
        formatting::push_decimal(&mut out, max as u64);
        out.append("]");
        Some(out)
    } else {
        None
    }
}

/// The title of a pane.
pub open spec fn titled(label: Seq<char>, pane: PaneViewport) -> Seq<char> {
    "─"@ + label + (match indicator(pane) {
        Some(shown) => shown,
        None => Seq::empty(),
    })
}

/// The title of a pane.
pub fn pane_title(label: &str, pane: PaneViewport) -> (r: String)
    ensures
        r@ == titled(label@, pane),
{
    let mut out: String = "─".to_owned();
    out.append(label);
    match horizontal_indicator(pane) {
        Some(shown) => out.append(shown.as_str()),
        None => {
            assert(out@ =~= titled(label@, pane));
        },
    }
    out
}

/// The help line.
pub open spec fn help() -> LineView {
    styled::plain_line(
        seq![
            coloured("?"@, Color::Blue),
            raw(": "@),
            coloured("help"@, Color::LightBlue),
            raw(" | "@),
            coloured("f"@, Color::Blue),
            raw(": "@),
            coloured("finished"@, Color::LightBlue),
            raw(" | "@),
            coloured("tab"@, Color::Blue),
            raw(": "@),
            coloured("pane"@, Color::LightBlue),
            raw(" | "@),
            coloured("q"@, Color::Blue),
            raw(": "@),
            coloured("quit"@, Color::LightBlue),
        ],
    )
}

/// Appends a key and what it does.
fn push_option(spans: &mut Vec<Span>, key: &str, description: &str)
    ensures
        styled::span_views(final(spans)@) == styled::span_views(old(spans)@) + (if old(
            spans,
        )@.len() > 0 {
            seq![
                raw(" | "@),
                coloured(key@, Color::Blue),
                raw(": "@),
                coloured(description@, Color::LightBlue),
            ]
        } else {
            seq![
                coloured(key@, Color::Blue),
                raw(": "@),
                coloured(description@, Color::LightBlue),
            ]
        }),
{
    if spans.len() > 0 {
        push_span(spans, raw_span(" | "));
    }
    push_span(spans, coloured_span(key, Color::Blue));
    push_span(spans, raw_span(": "));
    push_span(spans, coloured_span(description, Color::LightBlue));
}

/// The help line.
pub fn help_line() -> (r: Line)
    ensures
        r@ == help(),
{
    let mut spans: Vec<Span> = Vec::new();
    push_option(&mut spans, "?", "help");
    push_option(&mut spans, "f", "finished");
    push_option(&mut spans, "tab", "pane");
    push_option(&mut spans, "q", "quit");
    assert(styled::span_views(spans@) =~= help().spans);
    Line::from_spans(spans)
}

/// The number of bytes of the longest of the first `n` texts.
pub open spec fn longest(texts: Seq<Seq<char>>, n: int) -> int
    decreases n,
{
    if n <= 0 {
        0
    } else {
        let before = longest(texts, n - 1);
        let bytes = text::byte_len(texts[n - 1]) as int;
        if bytes > before {
            bytes
        } else {
            before
        }
    }
}

/// The widths of the columns of the job list.
pub struct ColumnWidths {
    pub state: int,
    pub id: int,
    pub partition: int,
    pub user: int,
    pub time: int,
}

/// The widths of the columns that the first `n` jobs need.
pub open spec fn column_widths(jobs: Seq<JobView>, n: int) -> ColumnWidths {
    ColumnWidths {
        state: longest(jobs.map_values(|j: JobView| j.state_compact), n),
        id: longest(jobs.map_values(|j: JobView| j.id()), n),
        partition: longest(jobs.map_values(|j: JobView| j.partition), n),
        user: longest(jobs.map_values(|j: JobView| j.user), n),
        time: longest(jobs.map_values(|j: JobView| j.time), n),
    }
}

/// A job in the job list. One that has finished is dimmed.
pub open spec fn job_line(job: JobView, widths: ColumnWidths) -> LineView {
    LineView {
        spans: seq![
            raw(formatting::padded_right(job.state_compact, widths.state)),
            raw(" "@),
            coloured(formatting::padded_right(job.id(), widths.id), Color::Yellow),
            raw(" "@),
            coloured(formatting::padded_right(job.partition, widths.partition), Color::Blue),
            raw(" "@),
            coloured(formatting::padded_right(job.user, widths.user), Color::Green),
            raw(" "@),
            coloured(formatting::padded_left(job.time, widths.time), Color::Red),
            raw(" "@),
            raw(job.name),
        ],
        style: Style { dim: job.finished, ..styled::plain() },
        alignment: None,
    }
}

/// The jobs in the job list.
pub open spec fn job_lines(jobs: Seq<JobView>) -> Seq<LineView> {
    let widths = column_widths(jobs, jobs.len() as int);
    jobs.map_values(|j: JobView| job_line(j, widths))
}

/// The width of the widest of the first `n` lines.
pub open spec fn content_width(lines: Seq<LineView>, n: int) -> usize
    decreases n,
{
    if n <= 0 {
        0
    } else {
        let before = content_width(lines, n - 1);
        let spans = lines[n - 1].spans;
        let width = viewport::clamp(styled::spans_width(spans, spans.len() as int));
        if width > before {
            width
        } else {
            before
        }
    }
}

/// The part of some lines that a pane shows.
pub open spec fn clipped_to(lines: Seq<LineView>, pane: PaneViewport) -> Seq<LineView> {
    lines.map_values(
        |l: LineView| viewport::clipped(l, pane.horizontal_offset as int, pane.visible()),
    )
}

/// The number of jobs that have finished, among the first `n`.
pub open spec fn finished_count(jobs: Seq<JobView>, n: int) -> int
    decreases n,
{
    if n <= 0 {
        0
    } else if jobs[n - 1].finished {
        finished_count(jobs, n - 1) + 1
    } else {
        finished_count(jobs, n - 1)
    }
}

/// The label of the job list: how many jobs it shows, and how many have
/// finished.
pub open spec fn jobs_label(listed: int, finished: int, show_finished: bool) -> Seq<char> {
    "Jobs ("@ + formatting::decimal(listed) + (if finished == 0 {
        ")"@
    } else {
        ", "@ + formatting::decimal(finished) + (if show_finished {
            " finished)"@
        } else {
            " finished hidden)"@
        })
    })
}

/// The larger of two numbers.
fn larger(a: usize, b: usize) -> (r: usize)
    ensures
        r == (if b > a {
            b
        } else {
            a
        }),
{
    if b > a {
        b
    } else {
        a
    }
}

/// The jobs in the job list.
fn list_lines(jobs: &Vec<Job>) -> (r: Vec<Line>)
    ensures
        styled::line_views(r@) == job_lines(job::job_views(jobs@)),
{
    let ghost all = job::job_views(jobs@);
    let ghost n = all.len() as int;
    let mut state: usize = 0;
    let mut id: usize = 0;
    let mut partition: usize = 0;
    let mut user: usize = 0;
    let mut time: usize = 0;
    let mut i: usize = 0;
    while i < jobs.len()
        invariant
            i <= jobs@.len(),
            all == job::job_views(jobs@),
            column_widths(all, i as int) == (ColumnWidths {
                state: state as int,
                id: id as int,
                partition: partition as int,
                user: user as int,
                time: time as int,
            }),
        decreases jobs@.len() - i,
    {
        let job: &Job = &jobs[i];
        assert(all[i as int] == job@);
        let name: String = job.id();
        state = larger(state, job.state_compact.as_str().as_bytes().len());
        id = larger(id, name.as_str().as_bytes().len());
        partition = larger(partition, job.partition.as_str().as_bytes().len());
        user = larger(user, job.user.as_str().as_bytes().len());
        time = larger(time, job.time.as_str().as_bytes().len());
        i += 1;
    }
    let ghost widths = column_widths(all, n);
    let mut lines: Vec<Line> = Vec::new();
    let mut k: usize = 0;
    assert(styled::line_views(lines@) =~= job_lines(all).take(0));
    while k < jobs.len()
        invariant
            k <= jobs@.len(),
            all == job::job_views(jobs@),
            n == all.len(),
            widths == column_widths(all, n),
            widths == (ColumnWidths {
                state: state as int,
                id: id as int,
                partition: partition as int,
                user: user as int,
                time: time as int,
            }),
            styled::line_views(lines@) == job_lines(all).take(k as int),
        decreases jobs@.len() - k,
    {
        let job: &Job = &jobs[k];
        let ghost before = styled::line_views(lines@);
        assert(all[k as int] == job@);
        let name: String = job.id();
        let mut spans: Vec<Span> = Vec::new();
        push_span(
            &mut spans,
            Span::raw(formatting::pad_right(job.state_compact.as_str(), state)),
        );
        push_span(&mut spans, raw_span(" "));
        push_span(
            &mut spans,
            coloured_span(formatting::pad_right(name.as_str(), id).as_str(), Color::Yellow),
        );
        push_span(&mut spans, raw_span(" "));
        push_span(
            &mut spans,
            coloured_span(
                formatting::pad_right(job.partition.as_str(), partition).as_str(),
                Color::Blue,
            ),
        );
        push_span(&mut spans, raw_span(" "));
        push_span(
            &mut spans,
            coloured_span(formatting::pad_right(job.user.as_str(), user).as_str(), Color::Green),
        );
        push_span(&mut spans, raw_span(" "));
        push_span(
            &mut spans,
            coloured_span(formatting::pad_left(job.time.as_str(), time).as_str(), Color::Red),
        );
        push_span(&mut spans, raw_span(" "));
        push_span(&mut spans, raw_span(job.name.as_str()));
        let mut line: Line = Line::from_spans(spans);
        if job.finished {
            line.style = Style::default().dim();
        }
        proof {
            assert(line@.spans =~= job_line(all[k as int], widths).spans);
            assert(line@ == job_line(all[k as int], widths));
        }
        let ghost shown = line@;
        lines.push(line);
        proof {
            assert(styled::line_views(lines@) =~= before.push(shown));
            assert(styled::line_views(lines@) =~= job_lines(all).take(k + 1));
        }
        k += 1;
    }
    assert(job_lines(all).take(k as int) =~= job_lines(all));
    lines
}

/// The width of the widest line.
fn lines_width(lines: &Vec<Line>) -> (r: usize)
    ensures
        r == content_width(styled::line_views(lines@), lines@.len() as int),
{
    let ghost all = styled::line_views(lines@);
    let mut width: usize = 0;
    let mut i: usize = 0;
    while i < lines.len()
        invariant
            i <= lines@.len(),
            all == styled::line_views(lines@),
            width == content_width(all, i as int),
        decreases lines@.len() - i,
    {
        assert(all[i as int] == lines@[i as int]@);
        width = larger(width, lines[i].width());
        i += 1;
    }
    width
}

/// The part of some lines that a pane shows.
fn clip_lines(lines: &Vec<Line>, pane: PaneViewport) -> (r: Vec<Line>)
    ensures
        styled::line_views(r@) == clipped_to(styled::line_views(lines@), pane),
{
    let ghost all = styled::line_views(lines@);
    let ghost goal = clipped_to(all, pane);
    let mut out: Vec<Line> = Vec::new();
    let mut i: usize = 0;
    assert(styled::line_views(out@) =~= goal.take(0));
    while i < lines.len()
        invariant
            i <= lines@.len(),
            all == styled::line_views(lines@),
            goal == clipped_to(all, pane),
            styled::line_views(out@) == goal.take(i as int),
        decreases lines@.len() - i,
    {
        let ghost before = styled::line_views(out@);
        assert(all[i as int] == lines@[i as int]@);
        let line: Line = viewport::clip_line(
            &lines[i],
            pane.horizontal_offset(),
            pane.visible_width(),
        );
        let ghost shown = line@;
        out.push(line);
        proof {
            assert(styled::line_views(out@) =~= before.push(shown));
            assert(styled::line_views(out@) =~= goal.take(i + 1));
        }
        i += 1;
    }
    assert(goal.take(i as int) =~= goal);
    out
}

/// The number of jobs that have finished.
fn count_finished(jobs: &Vec<Job>) -> (r: usize)
    ensures
        r == finished_count(job::job_views(jobs@), jobs@.len() as int),
{
    let ghost all = job::job_views(jobs@);
    let mut count: usize = 0;
    let mut i: usize = 0;
    while i < jobs.len()
        invariant
            i <= jobs@.len(),
            all == job::job_views(jobs@),
            count <= i,
            count == finished_count(all, i as int),
        decreases jobs@.len() - i,
    {
        assert(all[i as int] == jobs@[i as int]@);
        if jobs[i].finished {
            count += 1;
        }
        i += 1;
    }
    count
}

impl AppView {
    /// The state after the job list was drawn in an area.
    pub open spec fn jobs_drawn(self, area: Rect) -> AppView {
        let lines = job_lines(self.jobs);
        AppView {
            jobs_pane: self.jobs_pane.fitted(area, content_width(lines, lines.len() as int)),
            list_height: geometry::floor0(area.height - 2) as u16,
            ..self
        }
    }

    /// The job list, where it was drawn last.
    pub open spec fn jobs_panel(self) -> PanelView {
        let border = border_style(self.focus, Pane::Jobs, self.dialog is Some);
        let label = jobs_label(
            self.jobs.len() as int,
            finished_count(self.remembered, self.remembered.len() as int),
            self.show_finished,
        );
        PanelView {
            area: self.jobs_pane.area,
            title: styled::plain_line(seq![raw(titled(label, self.jobs_pane))]),
            border,
            lines: clipped_to(job_lines(self.jobs), self.jobs_pane),
            scrollbar: layout::scrollbar_of(self.jobs_pane, border),
        }
    }
}

impl App {
    /// Draws the job list in an area.
    pub fn draw_jobs(&mut self, area: Rect) -> (r: Panel)
        requires
            old(self).wf(),
        ensures
            final(self)@ == old(self)@.jobs_drawn(area),
            r@ == old(self)@.jobs_drawn(area).jobs_panel(),
            final(self).wf(),
    {
        let lines: Vec<Line> = list_lines(&self.jobs);
        let width: usize = lines_width(&lines);
        self.jobs_viewport.update(area, width);
        self.job_list_height = area.height.saturating_sub(2);
        let pane: PaneViewport = self.jobs_viewport;
        let shown: Vec<Line> = clip_lines(&lines, pane);
        let finished: usize = count_finished(&self.remembered_jobs);
        let mut label: String = "Jobs (".to_owned();
        formatting::push_decimal(&mut label, self.jobs.len() as u64);
        if finished == 0 {
            label.append(")");
        } else {
            label.append(", ");
            formatting::push_decimal(&mut label, finished as u64);
            if self.show_finished_jobs {
                label.append(" finished)");
            } else {
                label.append(" finished hidden)");
            }
        }
        assert(label@ =~= jobs_label(
            self@.jobs.len() as int,
            finished as int,
            self.show_finished_jobs,
        ));
        let border: Style = pane_border_style(self.focus, Pane::Jobs, self.dialog.is_some());
        Panel {
            area,
            title: Line::raw(pane_title(label.as_str(), pane)),
            border,
            lines: shown,
            scrollbar: layout::horizontal_scrollbar(pane, border),
        }
    }

    /// Takes over which job is selected, and which is the first one on the
    /// screen, after the list was drawn.
    pub fn list_drawn(&mut self, selected: Option<usize>, offset: usize)
        requires
            old(self).wf(),
        ensures
            final(self)@ == (AppView { list: ListState { selected, offset }, ..old(self)@ }),
            final(self).wf(),
    {
        self.job_list_state = ListState { selected, offset };
    }
}

/// A line of the details: a label and a value.
pub open spec fn detail(label: Seq<char>, value: Seq<char>) -> LineView {
    styled::plain_line(seq![coloured(label, Color::Yellow), raw(" "@), raw(value)])
}

/// The line of a job's state, with the start of one that is pending, and with
/// the reason where there is one.
pub open spec fn state_line(job: JobView) -> LineView {
    let start = if job.state == "PENDING"@ {
        seq![coloured(" Start "@, Color::Yellow), raw(job.start_time)]
    } else {
        Seq::empty()
    };
    let reason = match job.reason {
        Some(reason) => seq![coloured(" Reason "@, Color::Yellow), raw(reason)],
        None => Seq::empty(),
    };
    styled::plain_line(
        seq![coloured("State  "@, Color::Yellow), raw(" "@), raw(job.state)] + start + reason,
    )
}

/// An optional text, or nothing.
pub open spec fn or_nothing(text: Option<Seq<char>>) -> Seq<char> {
    match text {
        Some(text) => text,
        None => Seq::empty(),
    }
}

/// The details of a job.
pub open spec fn detail_lines(job: JobView, file_view: OutputFileView) -> Seq<LineView> {
    seq![
        state_line(job),
        detail("Name   "@, job.name),
        detail("Command"@, job.command),
        detail("Nodes  "@, job.nodelist),
        detail("TRES   "@, job.tres),
        match file_view {
            OutputFileView::Stdout => detail("stdout "@, or_nothing(job.stdout)),
            OutputFileView::Stderr => detail("stderr "@, or_nothing(job.stderr)),
        },
    ]
}

/// A line of the details.
fn detail_line(label: &str, value: &str) -> (r: Line)
    ensures
        r@ == detail(label@, value@),
{
    let mut spans: Vec<Span> = Vec::new();
    push_span(&mut spans, coloured_span(label, Color::Yellow));
    push_span(&mut spans, raw_span(" "));
    push_span(&mut spans, raw_span(value));
    assert(styled::span_views(spans@) =~= detail(label@, value@).spans);
    Line::from_spans(spans)
}

/// The line of a job's state.
fn job_state_line(job: &Job) -> (r: Line)
    ensures
        r@ == state_line(job@),
{
    let mut spans: Vec<Span> = Vec::new();
    push_span(&mut spans, coloured_span("State  ", Color::Yellow));
    push_span(&mut spans, raw_span(" "));
    push_span(&mut spans, raw_span(job.state.as_str()));
    if text::same_text(job.state.as_str(), "PENDING") {
        push_span(&mut spans, coloured_span(" Start ", Color::Yellow));
        push_span(&mut spans, raw_span(job.start_time.as_str()));
    }
    match &job.reason {
        Some(reason) => {
            push_span(&mut spans, coloured_span(" Reason ", Color::Yellow));
            push_span(&mut spans, raw_span(reason.as_str()));
        },
        None => {},
    }
    assert(styled::span_views(spans@) =~= state_line(job@).spans);
    Line::from_spans(spans)
}

/// The line of a job's output file.
fn file_line(label: &str, path: &Option<String>) -> (r: Line)
    ensures
        r@ == detail(label@, or_nothing(text::option_view(*path))),
{
    match path {
        Some(path) => detail_line(label, path.as_str()),
        None => {
            let line: Line = detail_line(label, "");
            proof {
                reveal_strlit("");
                assert(""@ =~= Seq::<char>::empty());
            }
            line
        },
    }
}

/// The details of a job.
fn job_details(job: &Job, file_view: OutputFileView) -> (r: Vec<Line>)
    ensures
        styled::line_views(r@) == detail_lines(job@, file_view),
{
    let mut lines: Vec<Line> = Vec::new();
    lines.push(job_state_line(job));
    lines.push(detail_line("Name   ", job.name.as_str()));
    lines.push(detail_line("Command", job.command.as_str()));
    lines.push(detail_line("Nodes  ", job.nodelist.as_str()));
    lines.push(detail_line("TRES   ", job.tres.as_str()));
    lines.push(
        match file_view {
            OutputFileView::Stdout => file_line("stdout ", &job.stdout),
            OutputFileView::Stderr => file_line("stderr ", &job.stderr),
        },
    );
    assert(styled::line_views(lines@) =~= detail_lines(job@, file_view));
    lines
}

impl AppView {
    /// The details of the selected job.
    pub open spec fn details(self) -> Seq<LineView> {
        match self.selected_job() {
            Some(job) => detail_lines(job, self.file_view),
            None => Seq::empty(),
        }
    }

    /// The state after the details were drawn in an area.
    pub open spec fn details_drawn(self, area: Rect) -> AppView {
        let lines = self.details();
        AppView {
            details_pane: self.details_pane.fitted(area, content_width(lines, lines.len() as int)),
            ..self
        }
    }

    /// The details, where they were drawn last.
    pub open spec fn details_panel(self) -> PanelView {
        let border = border_style(self.focus, Pane::Details, self.dialog is Some);
        PanelView {
            area: self.details_pane.area,
            title: styled::plain_line(seq![raw(titled("Details"@, self.details_pane))]),
            border,
            lines: clipped_to(self.details(), self.details_pane),
            scrollbar: layout::scrollbar_of(self.details_pane, border),
        }
    }
}

impl App {
    /// Draws the details in an area.
    pub fn draw_details(&mut self, area: Rect) -> (r: Panel)
        requires
            old(self).wf(),
        ensures
            final(self)@ == old(self)@.details_drawn(area),
            r@ == old(self)@.details_drawn(area).details_panel(),
            final(self).wf(),
    {
        let lines: Vec<Line> = match self.selected_job() {
            Some(job) => job_details(job, self.output_file_view),
            None => Vec::new(),
        };
        assert(styled::line_views(lines@) =~= self@.details());
        let width: usize = lines_width(&lines);
        self.details_viewport.update(area, width);
        let pane: PaneViewport = self.details_viewport;
        let border: Style = pane_border_style(self.focus, Pane::Details, self.dialog.is_some());
        Panel {
            area,
            title: Line::raw(pane_title("Details", pane)),
            border,
            lines: clip_lines(&lines, pane),
            scrollbar: layout::horizontal_scrollbar(pane, border),
        }
    }
}

/// The log as it is drawn.
#[derive(Debug)]
pub struct LogPanel {
    pub panel: Panel,
    /// Whether it shows a read error, which is wrapped and stands out.
    pub error: bool,
}

/// Where the output is scrolled to, counted from its anchor.
pub open spec fn scroll_position(anchor: ScrollAnchor, offset: int) -> Seq<char> {
    match anchor {
        ScrollAnchor::Top => if offset == 0 {
            "[T]"@
        } else {
            "[T+"@ + formatting::decimal(offset) + "]"@
        },
        ScrollAnchor::Bottom => if offset == 0 {
            ""@
        } else {
            "[B-"@ + formatting::decimal(offset) + "]"@
        },
    }
}

/// Where the output is scrolled to.
fn position_text(anchor: ScrollAnchor, offset: u16) -> (r: String)
    ensures
        r@ == scroll_position(anchor, offset as int),
{
    match anchor {
        ScrollAnchor::Top => {
            if offset == 0 {
                "[T]".to_owned()
            } else {
                let mut out: String = "[T+".to_owned();
                formatting::push_decimal(&mut out, offset as u64);
                out.append("]");
                out
            }
        },
        ScrollAnchor::Bottom => {
            if offset == 0 {
                "".to_owned()
            } else {
                let mut out: String = "[B-".to_owned();
                formatting::push_decimal(&mut out, offset as u64);
                out.append("]");
                out
            }
        },
    }
}

/// The lines of a message.
pub open spec fn message_lines(message: Seq<char>) -> Seq<LineView> {
    output::lines(message, 0).map_values(|l: Seq<char>| styled::plain_line(seq![raw(l)]))
}

/// The lines of a message.
pub fn plain_lines(message: &str) -> (r: Vec<Line>)
    ensures
        styled::line_views(r@) == message_lines(message@),
{
    let lines: Vec<&str> = output::text_lines(message);
    let ghost all = output::lines(message@, 0);
    let ghost goal = message_lines(message@);
    let mut out: Vec<Line> = Vec::new();
    let mut i: usize = 0;
    assert(styled::line_views(out@) =~= goal.take(0));
    while i < lines.len()
        invariant
            i <= lines@.len(),
            viewport::str_views(lines@) == all,
            all == output::lines(message@, 0),
            goal == message_lines(message@),
            styled::line_views(out@) == goal.take(i as int),
        decreases lines@.len() - i,
    {
        let ghost before = styled::line_views(out@);
        assert(lines@[i as int]@ == all[i as int]);
        let line: Line = Line::raw(lines[i].to_owned());
        let ghost shown = line@;
        out.push(line);
        proof {
            assert(styled::line_views(out@) =~= before.push(shown));
            assert(styled::line_views(out@) =~= goal.take(i + 1));
        }
        i += 1;
    }
    assert(goal.take(i as int) =~= goal);
    out
}

impl AppView {
    /// The state after the log was drawn in an area, but for the rows that it
    /// showed. Wrapped output is as wide as its pane.
    pub open spec fn log_placed(self, area: Rect) -> AppView {
        let inner = layout::bordered(area);
        let width = if self.wrap {
            geometry::floor0(area.width - 2) as usize
        } else {
            self.content_width
        };
        let pane = self.output_pane.fitted(area, width);
        AppView {
            output_pane: if self.wrap {
                pane.at_start()
            } else {
                pane
            },
            inner_area: inner,
            output_height: inner.height,
            ..self
        }
    }

    /// What of the output is shown, where the log is placed.
    pub open spec fn render_options(self) -> OutputRenderOptions {
        OutputRenderOptions {
            height: self.inner_area.height as usize,
            width: self.inner_area.width as usize,
            anchor: self.anchor,
            offset: self.offset as usize,
            horizontal_offset: self.output_pane.horizontal_offset,
            wrap: self.wrap,
            selection: self.selection,
        }
    }

    /// The rows of the output that are shown, where the log is placed: none
    /// where a read error is.
    pub open spec fn visible_rows(self) -> Seq<output::Row> {
        match self.error {
            None => output::shown_rows(self.screen.text, self.render_options()),
            Some(_) => Seq::empty(),
        }
    }

    /// The title of the log: the file, where it is scrolled to, and what became
    /// of the last copy.
    pub open spec fn log_title(self) -> LineView {
        let start = seq![
            raw("─"@),
            raw(
                match self.file_view {
                    OutputFileView::Stdout => "stdout"@,
                    OutputFileView::Stderr => "stderr"@,
                },
            ),
            dimmed(scroll_position(self.anchor, self.offset as int)),
        ];
        let columns = match indicator(self.output_pane) {
            Some(shown) => seq![dimmed(shown)],
            None => Seq::empty(),
        };
        let copied = match self.feedback {
            Some(feedback) => seq![
                coloured(
                    "["@ + feedback.message + "]"@,
                    if feedback.error {
                        Color::Red
                    } else {
                        Color::Green
                    },
                ),
            ],
            None => Seq::empty(),
        };
        styled::plain_line(start + columns + copied)
    }

    /// The log, where it is placed: the output, or a read error.
    pub open spec fn log_panel(self) -> PanelView {
        let border = border_style(self.focus, Pane::Output, self.dialog is Some);
        PanelView {
            area: self.output_pane.area,
            title: self.log_title(),
            border,
            lines: match self.error {
                None => output::shown_lines(self.screen.text, self.render_options()),
                Some(reason) => message_lines(file_watcher::read_error(reason)),
            },
            scrollbar: layout::scrollbar_of(self.output_pane, border),
        }
    }
}

impl App {
    /// The title of the log.
    fn log_title(&self) -> (r: Line)
        ensures
            r@ == self@.log_title(),
    {
        let mut spans: Vec<Span> = Vec::new();
        push_span(&mut spans, raw_span("─"));
        push_span(
            &mut spans,
            raw_span(
                match self.output_file_view {
                    OutputFileView::Stdout => "stdout",
                    OutputFileView::Stderr => "stderr",
                },
            ),
        );
        push_span(
            &mut spans,
            Span::styled(
                position_text(self.job_output_anchor, self.job_output_offset),
                Style::default().dim(),
            ),
        );
        match horizontal_indicator(self.output_viewport) {
            Some(shown) => push_span(&mut spans, Span::styled(shown, Style::default().dim())),
            None => {},
        }
        match &self.copy_feedback {
            Some(feedback) => {
                let mut message: String = "[".to_owned();
                message.append(feedback.message.as_str());
                message.append("]");
                let color: Color = if feedback.error {
                    Color::Red
                } else {
                    Color::Green
                };
                push_span(&mut spans, coloured_span(message.as_str(), color));
            },
            None => {},
        }
        assert(styled::span_views(spans@) =~= self@.log_title().spans);
        Line::from_spans(spans)
    }

    /// Draws the log in an area.
    pub fn draw_log(&mut self, area: Rect) -> (r: LogPanel)
        requires
            old(self).wf(),
        ensures
            ({
                let placed = old(self)@.log_placed(area);
                &&& final(self)@ == (AppView { rows: final(self)@.rows, ..placed })
                &&& output::rows_view(final(self)@.rows) == placed.visible_rows()
                &&& r.panel@ == placed.log_panel()
                &&& r.error == (placed.error is Some)
            }),
            final(self)@.drawn(),
            final(self).wf(),
    {
        let inner: Rect = layout::inside_border(area);
        let width: usize = if self.job_output_wrap {
            area.width.saturating_sub(2) as usize
        } else {
            self.job_output_content_width
        };
        self.output_viewport.update(area, width);
        if self.job_output_wrap {
            let _ = self.output_viewport.reset_horizontal();
        }
        self.output_inner_area = inner;
        self.job_output_height = inner.height;
        let pane: PaneViewport = self.output_viewport;
        let title: Line = self.log_title();
        let border: Style = pane_border_style(self.focus, Pane::Output, self.dialog.is_some());
        let ghost placed = self@;
        proof {
            self.job_output_decoder.lemma_screen_text(self.job_output@);
        }
        let lines: Vec<Line>;
        let error: bool;
        match &self.job_output_error {
            None => {
                let (shown, rows) = output::render_output_text(
                    self.job_output.as_str(),
                    OutputRenderOptions {
                        height: inner.height as usize,
                        width: inner.width as usize,
                        anchor: self.job_output_anchor,
                        offset: self.job_output_offset as usize,
                        horizontal_offset: pane.horizontal_offset(),
                        wrap: self.job_output_wrap,
                        selection: self.output_selection,
                    },
                );
                self.rendered_output_lines = rows;
                lines = shown;
                error = false;
                proof {
                    assert forall|k: int| 0 <= k < self@.rows.len() implies output::row_fits(
                        (#[trigger] self@.rows[k])@,
                        output::source_lines(self@.screen.text),
                    ) by {
                        assert(output::rows_view(self@.rows)[k] == self@.rows[k]@);
                    }
                }
            },
            Some(failure) => {
                let message: String = failure.message();
                lines = plain_lines(message.as_str());
                error = true;
                self.rendered_output_lines = Vec::new();
                assert(output::rows_view(self@.rows) =~= Seq::<output::Row>::empty());
            },
        }
        LogPanel {
            panel: Panel {
                area,
                title,
                border,
                lines,
                scrollbar: layout::horizontal_scrollbar(pane, border),
            },
            error,
        }
    }
}

} // verus!
