//! What the panes show: the job list and its columns, the details, titles,
//! borders and scroll bars.
use vstd::prelude::*;

use crate::app::AppView;
use crate::file_watcher;
use crate::formatting;
use crate::geometry::Rect;
use crate::job::JobView;
use crate::layout;
use crate::output;
use crate::output::{OutputFileView, ScrollAnchor};
use crate::panes;
use crate::styled;
use crate::styled::{Color, LineView, SpanView, Style};
use crate::text;
use crate::text_laws;
use crate::viewport;
use crate::viewport::{Pane, PaneViewport};

verus! {

/// Whether `width` is the most bytes that one of the texts has: none has more,
/// and one has as many. It is zero where there is no text.
pub open spec fn is_longest(texts: Seq<Seq<char>>, width: int) -> bool {
    &&& forall|k: int| 0 <= k < texts.len() ==> text::byte_len(#[trigger] texts[k]) <= width
    &&& texts.len() == 0 ==> width == 0
    &&& texts.len() > 0 ==> exists|k: int|
        0 <= k < texts.len() && text::byte_len(#[trigger] texts[k]) == width
}

proof fn lemma_longest(texts: Seq<Seq<char>>, n: int)
    requires
        0 <= n <= texts.len(),
    ensures
        is_longest(texts.take(n), panes::longest(texts, n)),
    decreases n,
{
    if n > 0 {
        lemma_longest(texts, n - 1);
        let before = panes::longest(texts, n - 1);
        let front = texts.take(n - 1);
        let all = texts.take(n);
        let width = panes::longest(texts, n);
        assert forall|k: int| 0 <= k < n implies text::byte_len(#[trigger] all[k]) <= width by {
            if k < n - 1 {
                assert(front[k] == all[k]);
            }
        }
        if text::byte_len(texts[n - 1]) as int > before {
            assert(text::byte_len(all[n - 1]) == width);
        } else if n == 1 {
            assert(text::byte_len(all[0]) == width);
        } else {
            let k = choose|k: int|
                0 <= k < front.len() && text::byte_len(#[trigger] front[k]) == before;
            assert(all[k] == front[k]);
        }
    }
}

/// Each column of the job list is as wide as the longest of its values: that of
/// no job is longer, and that of one job is as long.
pub proof fn law_columns_fit_their_values(jobs: Seq<JobView>)
    ensures
        ({
            let widths = panes::column_widths(jobs, jobs.len() as int);
            &&& is_longest(jobs.map_values(|j: JobView| j.state_compact), widths.state)
            &&& is_longest(jobs.map_values(|j: JobView| j.id()), widths.id)
            &&& is_longest(jobs.map_values(|j: JobView| j.partition), widths.partition)
            &&& is_longest(jobs.map_values(|j: JobView| j.user), widths.user)
            &&& is_longest(jobs.map_values(|j: JobView| j.time), widths.time)
        }),
{
    let n = jobs.len() as int;
    let state = jobs.map_values(|j: JobView| j.state_compact);
    let id = jobs.map_values(|j: JobView| j.id());
    let partition = jobs.map_values(|j: JobView| j.partition);
    let user = jobs.map_values(|j: JobView| j.user);
    let time = jobs.map_values(|j: JobView| j.time);
    lemma_longest(state, n);
    lemma_longest(id, n);
    lemma_longest(partition, n);
    lemma_longest(user, n);
    lemma_longest(time, n);
    assert(state.take(n) =~= state);
    assert(id.take(n) =~= id);
    assert(partition.take(n) =~= partition);
    assert(user.take(n) =~= user);
    assert(time.take(n) =~= time);
}

/// Whether `shown` is `value` with spaces behind it.
pub open spec fn value_and_spaces(shown: Seq<char>, value: Seq<char>) -> bool {
    &&& shown.len() >= value.len()
    &&& forall|i: int| 0 <= i < value.len() ==> #[trigger] shown[i] == value[i]
    &&& forall|i: int| value.len() <= i < shown.len() ==> #[trigger] shown[i] == ' '
}

/// Whether `shown` is `value` with spaces in front of it.
pub open spec fn spaces_and_value(shown: Seq<char>, value: Seq<char>) -> bool {
    let room = shown.len() - value.len();
    &&& room >= 0
    &&& forall|i: int| 0 <= i < room ==> #[trigger] shown[i] == ' '
    &&& forall|i: int| room <= i < shown.len() ==> #[trigger] shown[i] == value[i - room]
}

/// The job list has a line for each job, in their order. A line shows the state
/// in short, what the job is called, its partition, its user, its time and its
/// name, with a space between two of them, and cuts none of them. All but the
/// name stand in columns: the time on the right of its column, the others on the
/// left.
pub proof fn law_a_line_for_each_job(jobs: Seq<JobView>, k: int)
    requires
        0 <= k < jobs.len(),
    ensures
        panes::job_lines(jobs).len() == jobs.len(),
        ({
            let spans = panes::job_lines(jobs)[k].spans;
            let job = jobs[k];
            &&& spans.len() == 11
            &&& value_and_spaces(spans[0].content, job.state_compact)
            &&& value_and_spaces(spans[2].content, job.id())
            &&& value_and_spaces(spans[4].content, job.partition)
            &&& value_and_spaces(spans[6].content, job.user)
            &&& spaces_and_value(spans[8].content, job.time)
            &&& spans[10].content == job.name
            &&& forall|i: int| 0 <= i < 5 ==> #[trigger] spans[2 * i + 1].content == seq![' ']
        }),
{
    reveal_strlit(" ");
    assert(" "@ =~= seq![' ']);
    let widths = panes::column_widths(jobs, jobs.len() as int);
    let job = jobs[k];
    law_columns_fit_their_values(jobs);
    assert(jobs.map_values(|j: JobView| j.state_compact)[k] == job.state_compact);
    assert(jobs.map_values(|j: JobView| j.id())[k] == job.id());
    assert(jobs.map_values(|j: JobView| j.partition)[k] == job.partition);
    assert(jobs.map_values(|j: JobView| j.user)[k] == job.user);
    assert(jobs.map_values(|j: JobView| j.time)[k] == job.time);
    text::lemma_byte_len_bounds(job.state_compact);
    text::lemma_byte_len_bounds(job.id());
    text::lemma_byte_len_bounds(job.partition);
    text::lemma_byte_len_bounds(job.user);
    text::lemma_byte_len_bounds(job.time);
    text_laws::law_padding(job.state_compact, widths.state);
    text_laws::law_padding(job.id(), widths.id);
    text_laws::law_padding(job.partition, widths.partition);
    text_laws::law_padding(job.user, widths.user);
    text_laws::law_padding(job.time, widths.time);
}

/// The columns of all jobs are equally wide: those of one line have as many
/// characters as those of another.
pub proof fn law_lines_are_aligned(jobs: Seq<JobView>, a: int, b: int, i: int)
    requires
        0 <= a < jobs.len(),
        0 <= b < jobs.len(),
        0 <= i < 10,
    ensures
        panes::job_lines(jobs)[a].spans[i].content.len() == panes::job_lines(
            jobs,
        )[b].spans[i].content.len(),
{
    let widths = panes::column_widths(jobs, jobs.len() as int);
    law_columns_fit_their_values(jobs);
    assert(jobs.map_values(|j: JobView| j.state_compact)[a] == jobs[a].state_compact);
    assert(jobs.map_values(|j: JobView| j.id())[a] == jobs[a].id());
    assert(jobs.map_values(|j: JobView| j.partition)[a] == jobs[a].partition);
    assert(jobs.map_values(|j: JobView| j.user)[a] == jobs[a].user);
    assert(jobs.map_values(|j: JobView| j.time)[a] == jobs[a].time);
    lemma_line_lengths(jobs[a], widths);
    lemma_line_lengths(jobs[b], widths);
}

proof fn lemma_line_lengths(job: JobView, widths: panes::ColumnWidths)
    requires
        0 <= widths.state,
        0 <= widths.id,
        0 <= widths.partition,
        0 <= widths.user,
        0 <= widths.time,
    ensures
        ({
            let spans = panes::job_line(job, widths).spans;
            &&& spans[0].content.len() == widths.state
            &&& spans[2].content.len() == widths.id
            &&& spans[4].content.len() == widths.partition
            &&& spans[6].content.len() == widths.user
            &&& spans[8].content.len() == widths.time
        }),
{
    text_laws::law_padding(job.state_compact, widths.state);
    text_laws::law_padding(job.id(), widths.id);
    text_laws::law_padding(job.partition, widths.partition);
    text_laws::law_padding(job.user, widths.user);
    text_laws::law_padding(job.time, widths.time);
}

/// In the job list, what a job is called is yellow, its partition blue, its user
/// green and its time red. The line of a job that has finished is dimmed, and no
/// other.
pub proof fn law_colours_of_the_job_list(jobs: Seq<JobView>, k: int)
    requires
        0 <= k < jobs.len(),
    ensures
        ({
            let line = panes::job_lines(jobs)[k];
            &&& line.spans[0].style.fg is None
            &&& line.spans[2].style.fg == Some(Color::Yellow)
            &&& line.spans[4].style.fg == Some(Color::Blue)
            &&& line.spans[6].style.fg == Some(Color::Green)
            &&& line.spans[8].style.fg == Some(Color::Red)
            &&& line.spans[10].style.fg is None
            &&& line.style.dim == jobs[k].finished
            &&& line.style.fg is None && line.style.bg is None
        }),
{
}

/// The width of some lines is that of the widest: none is wider, and one is as
/// wide. It is zero where there is no line.
pub proof fn law_content_is_as_wide_as_its_widest_line(lines: Seq<LineView>, n: int)
    requires
        0 <= n <= lines.len(),
    ensures
        forall|k: int|
            0 <= k < n ==> viewport::clamp(
                styled::spans_width(
                    (#[trigger] lines[k]).spans,
                    lines[k].spans.len() as int,
                ),
            ) <= panes::content_width(lines, n),
        n == 0 ==> panes::content_width(lines, n) == 0,
        n > 0 ==> exists|k: int|
            0 <= k < n && viewport::clamp(
                styled::spans_width(
                    (#[trigger] lines[k]).spans,
                    lines[k].spans.len() as int,
                ),
            ) == panes::content_width(lines, n),
    decreases n,
{
    if n > 0 {
        law_content_is_as_wide_as_its_widest_line(lines, n - 1);
        let last = lines[n - 1];
        let width = viewport::clamp(styled::spans_width(last.spans, last.spans.len() as int));
        if width > panes::content_width(lines, n - 1) || n == 1 {
            assert(viewport::clamp(
                styled::spans_width(lines[n - 1].spans, lines[n - 1].spans.len() as int),
            ) == panes::content_width(lines, n));
        } else {
            let k = choose|k: int|
                0 <= k < n - 1 && viewport::clamp(
                    styled::spans_width(
                        (#[trigger] lines[k]).spans,
                        lines[k].spans.len() as int,
                    ),
                ) == panes::content_width(lines, n - 1);
            assert(viewport::clamp(
                styled::spans_width(lines[k].spans, lines[k].spans.len() as int),
            ) == panes::content_width(lines, n));
        }
    }
}

/// A line is as wide as its spans together.
pub proof fn law_width_of_a_line(spans: Seq<SpanView>, span: SpanView)
    ensures
        styled::spans_width(Seq::empty(), 0) == 0,
        styled::spans_width(spans.push(span), spans.len() + 1int) == styled::spans_width(
            spans,
            spans.len() as int,
        ) + viewport::text_width(span.content),
{
    lemma_same_front(spans, spans.push(span), spans.len() as int);
}

proof fn lemma_same_front(spans: Seq<SpanView>, more: Seq<SpanView>, n: int)
    requires
        0 <= n <= spans.len(),
        n <= more.len(),
        forall|k: int| 0 <= k < n ==> spans[k] == more[k],
    ensures
        styled::spans_width(spans, n) == styled::spans_width(more, n),
        styled::spans_text(spans, n) == styled::spans_text(more, n),
    decreases n,
{
    if n > 0 {
        lemma_same_front(spans, more, n - 1);
    }
}

/// The number of jobs that have finished is that of the jobs that are marked so.
pub proof fn law_finished_jobs_are_counted(jobs: Seq<JobView>)
    ensures
        panes::finished_count(jobs, jobs.len() as int) == jobs.filter(
            |j: JobView| j.finished,
        ).len(),
    decreases jobs.len(),
{
    reveal(Seq::filter);
    if jobs.len() > 0 {
        law_finished_jobs_are_counted(jobs.drop_last());
        lemma_count_of_front(jobs, jobs.drop_last(), jobs.len() - 1);
    }
}

proof fn lemma_count_of_front(jobs: Seq<JobView>, front: Seq<JobView>, n: int)
    requires
        0 <= n <= front.len() <= jobs.len(),
        forall|k: int| 0 <= k < n ==> jobs[k] == front[k],
    ensures
        panes::finished_count(jobs, n) == panes::finished_count(front, n),
    decreases n,
{
    if n > 0 {
        lemma_count_of_front(jobs, front, n - 1);
    }
}

/// The text of a line.
pub open spec fn line_text(line: LineView) -> Seq<char> {
    styled::spans_text(line.spans, line.spans.len() as int)
}

/// How far a pane is scrolled is said where its content is wider than what it
/// shows between its borders: by how many columns, and by how many it can be.
pub open spec fn scrolled_by(area: Rect, content_width: int, offset: int) -> Seq<char> {
    let visible = if area.width >= 2 {
        area.width - 2
    } else {
        0
    };
    if content_width > visible {
        "[X+"@ + formatting::decimal(offset) + "/"@ + formatting::decimal(content_width - visible)
            + "]"@
    } else {
        ""@
    }
}

/// The title of a pane is a line, its label, and how far it is scrolled, where it
/// can be.
pub proof fn law_titles(label: Seq<char>, pane: PaneViewport)
    ensures
        panes::titled(label, pane) == "─"@ + label + scrolled_by(
            pane.area,
            pane.content_width as int,
            pane.horizontal_offset as int,
        ),
        panes::indicator(pane) is Some <==> pane.content_width > pane.visible(),
{
    reveal_strlit("");
    assert(""@ =~= Seq::<char>::empty());
}

/// The title of the job list says how many jobs it lists. Where jobs have
/// finished it says how many, and where they are not listed that they are
/// hidden.
pub proof fn law_title_of_the_job_list(state: AppView)
    ensures
        ({
            let finished = state.remembered.filter(|j: JobView| j.finished).len() as int;
            let count = formatting::decimal(state.jobs.len() as int);
            let label = if finished == 0 {
                "Jobs ("@ + count + ")"@
            } else if state.show_finished {
                "Jobs ("@ + count + ", "@ + formatting::decimal(finished) + " finished)"@
            } else {
                "Jobs ("@ + count + ", "@ + formatting::decimal(finished) + " finished hidden)"@
            };
            line_text(state.jobs_panel().title) == "─"@ + label + scrolled_by(
                state.jobs_pane.area,
                state.jobs_pane.content_width as int,
                state.jobs_pane.horizontal_offset as int,
            )
        }),
{
    law_finished_jobs_are_counted(state.remembered);
    let finished = state.remembered.filter(|j: JobView| j.finished).len() as int;
    let count = formatting::decimal(state.jobs.len() as int);
    let label = panes::jobs_label(state.jobs.len() as int, finished, state.show_finished);
    law_titles(label, state.jobs_pane);
    if finished == 0 {
        assert(label =~= "Jobs ("@ + count + ")"@);
    } else if state.show_finished {
        assert(label =~= "Jobs ("@ + count + ", "@ + formatting::decimal(finished)
            + " finished)"@);
    } else {
        assert(label =~= "Jobs ("@ + count + ", "@ + formatting::decimal(finished)
            + " finished hidden)"@);
    }
    lemma_one_span(state.jobs_panel().title.spans);
}

proof fn lemma_one_span(spans: Seq<SpanView>)
    requires
        spans.len() == 1,
    ensures
        styled::spans_text(spans, 1) == spans[0].content,
{
    reveal_with_fuel(styled::spans_text, 2);
    assert(Seq::<char>::empty() + spans[0].content =~= spans[0].content);
}

/// The border of the focused pane is green, unless a dialog is open; every other
/// border has no colour of its own.
pub proof fn law_borders(state: AppView)
    ensures
        state.jobs_panel().border.fg == if state.focus == Pane::Jobs && state.dialog is None {
            Some(Color::Green)
        } else {
            None
        },
        state.details_panel().border.fg == if state.focus == Pane::Details && state.dialog is None {
            Some(Color::Green)
        } else {
            None
        },
        state.log_panel().border.fg == if state.focus == Pane::Output && state.dialog is None {
            Some(Color::Green)
        } else {
            None
        },
{
}

/// The panels lie where their panes do. The job list shows the lines of the
/// listed jobs, and the details those of the selected job, each clipped to the
/// columns that are in view.
pub proof fn law_panels_show_their_content(state: AppView, k: int)
    ensures
        state.jobs_panel().area == state.jobs_pane.area,
        state.details_panel().area == state.details_pane.area,
        state.log_panel().area == state.output_pane.area,
        state.jobs_panel().lines.len() == state.jobs.len(),
        state.details_panel().lines.len() == state.details().len(),
        0 <= k < state.jobs.len() ==> state.jobs_panel().lines[k] == viewport::clipped(
            panes::job_lines(state.jobs)[k],
            state.jobs_pane.horizontal_offset as int,
            state.jobs_pane.visible(),
        ),
        0 <= k < state.details().len() ==> state.details_panel().lines[k] == viewport::clipped(
            state.details()[k],
            state.details_pane.horizontal_offset as int,
            state.details_pane.visible(),
        ),
{
}

proof fn lemma_two_spans(spans: Seq<SpanView>)
    requires
        spans.len() == 3,
    ensures
        styled::spans_text(spans, 3) == spans[0].content + spans[1].content + spans[2].content,
{
    reveal_with_fuel(styled::spans_text, 4);
    assert(styled::spans_text(spans, 3) =~= spans[0].content + spans[1].content
        + spans[2].content);
}

/// The details of a job are its state, its name, its command, its nodes, its
/// resources and the file that is shown, each behind its label. Where there is
/// no such file, nothing stands behind the label.
pub proof fn law_details_of_a_job(job: JobView, view: OutputFileView)
    ensures
        ({
            let lines = panes::detail_lines(job, view);
            let path = match view {
                OutputFileView::Stdout => job.stdout,
                OutputFileView::Stderr => job.stderr,
            };
            &&& lines.len() == 6
            &&& line_text(lines[1]) == "Name    "@ + job.name
            &&& line_text(lines[2]) == "Command "@ + job.command
            &&& line_text(lines[3]) == "Nodes   "@ + job.nodelist
            &&& line_text(lines[4]) == "TRES    "@ + job.tres
            &&& line_text(lines[5]) == (match view {
                OutputFileView::Stdout => "stdout  "@,
                OutputFileView::Stderr => "stderr  "@,
            }) + (match path {
                Some(path) => path,
                None => ""@,
            })
        }),
{
    reveal_strlit("");
    reveal_strlit(" ");
    reveal_strlit("Name   ");
    reveal_strlit("Name    ");
    reveal_strlit("Command");
    reveal_strlit("Command ");
    reveal_strlit("Nodes  ");
    reveal_strlit("Nodes   ");
    reveal_strlit("TRES   ");
    reveal_strlit("TRES    ");
    reveal_strlit("stdout ");
    reveal_strlit("stdout  ");
    reveal_strlit("stderr ");
    reveal_strlit("stderr  ");
    let lines = panes::detail_lines(job, view);
    lemma_two_spans(lines[1].spans);
    lemma_two_spans(lines[2].spans);
    lemma_two_spans(lines[3].spans);
    lemma_two_spans(lines[4].spans);
    lemma_two_spans(lines[5].spans);
    assert("Name   "@ + " "@ =~= "Name    "@);
    assert("Command"@ + " "@ =~= "Command "@);
    assert("Nodes  "@ + " "@ =~= "Nodes   "@);
    assert("TRES   "@ + " "@ =~= "TRES    "@);
    assert("stdout "@ + " "@ =~= "stdout  "@);
    assert("stderr "@ + " "@ =~= "stderr  "@);
    assert(""@ =~= Seq::<char>::empty());
}

/// The first line of the details is the state of the job; of one that is pending
/// its start follows, and then the reason, where there is one.
pub proof fn law_the_state_of_a_job(job: JobView, view: OutputFileView)
    ensures
        line_text(panes::detail_lines(job, view)[0]) == "State   "@ + job.state + (if job.state
            == "PENDING"@ {
            " Start "@ + job.start_time
        } else {
            ""@
        }) + (match job.reason {
            Some(reason) => " Reason "@ + reason,
            None => ""@,
        }),
{
    reveal_strlit("");
    reveal_strlit(" ");
    reveal_strlit("State  ");
    reveal_strlit("State   ");
    assert("State  "@ + " "@ =~= "State   "@);
    let spans = panes::detail_lines(job, view)[0].spans;
    reveal_with_fuel(styled::spans_text, 8);
    assert(spans[0].content == "State  "@);
    assert(spans[1].content == " "@);
    assert(spans[2].content == job.state);
    let head = "State   "@ + job.state;
    assert(styled::spans_text(spans, 3) =~= head);
    if job.state == "PENDING"@ {
        assert(spans[3].content == " Start "@);
        assert(spans[4].content == job.start_time);
        assert(styled::spans_text(spans, 5) =~= head + (" Start "@ + job.start_time));
        if let Some(reason) = job.reason {
            assert(spans[5].content == " Reason "@);
            assert(spans[6].content == reason);
            assert(line_text(panes::detail_lines(job, view)[0]) =~= head + (" Start "@
                + job.start_time) + (" Reason "@ + reason));
        } else {
            assert(spans.len() == 5);
            assert(head + (" Start "@ + job.start_time) + ""@ =~= head + (" Start "@
                + job.start_time));
        }
    } else {
        if let Some(reason) = job.reason {
            assert(spans[3].content == " Reason "@);
            assert(spans[4].content == reason);
            assert(line_text(panes::detail_lines(job, view)[0]) =~= head + ""@ + (" Reason "@
                + reason));
        } else {
            assert(spans.len() == 3);
            assert(head + ""@ + ""@ =~= head);
        }
    }
}

/// The details are those of the selected job, and there are none where none is
/// selected.
pub proof fn law_whose_details_are_shown(state: AppView)
    ensures
        match state.list.selected {
            Some(i) => if i < state.jobs.len() {
                state.details() == panes::detail_lines(state.jobs[i as int], state.file_view)
            } else {
                state.details().len() == 0
            },
            None => state.details().len() == 0,
        },
{
}

/// Where the output is scrolled to is told from the end that it is scrolled
/// from: nothing at the bottom, how many lines above it, or how many lines below
/// the top.
pub proof fn law_where_the_output_is_scrolled_to(offset: int)
    requires
        0 < offset,
    ensures
        panes::scroll_position(ScrollAnchor::Bottom, 0) == ""@,
        panes::scroll_position(ScrollAnchor::Top, 0) == "[T]"@,
        panes::scroll_position(ScrollAnchor::Bottom, offset) == "[B-"@ + formatting::decimal(offset)
            + "]"@,
        panes::scroll_position(ScrollAnchor::Top, offset) == "[T+"@ + formatting::decimal(offset)
            + "]"@,
{
}

/// The title of the log names the file, then says where the output is scrolled
/// to, in lines and in columns, and then what became of a copy.
pub proof fn law_title_of_the_log(state: AppView)
    ensures
        line_text(state.log_title()) == "─"@ + (match state.file_view {
            OutputFileView::Stdout => "stdout"@,
            OutputFileView::Stderr => "stderr"@,
        }) + panes::scroll_position(state.anchor, state.offset as int) + scrolled_by(
            state.output_pane.area,
            state.output_pane.content_width as int,
            state.output_pane.horizontal_offset as int,
        ) + (match state.feedback {
            Some(feedback) => "["@ + feedback.message + "]"@,
            None => ""@,
        }),
{
    reveal_strlit("");
    assert(""@ =~= Seq::<char>::empty());
    let spans = state.log_title().spans;
    reveal_with_fuel(styled::spans_text, 7);
    law_titles(Seq::empty(), state.output_pane);
    let position = panes::scroll_position(state.anchor, state.offset as int);
    let name = match state.file_view {
        OutputFileView::Stdout => "stdout"@,
        OutputFileView::Stderr => "stderr"@,
    };
    assert(spans[0].content == "─"@);
    assert(spans[1].content == name);
    assert(spans[2].content == position);
    let head = "─"@ + name + position;
    assert(styled::spans_text(spans, 3) =~= head);
    let columns = scrolled_by(
        state.output_pane.area,
        state.output_pane.content_width as int,
        state.output_pane.horizontal_offset as int,
    );
    let said = match state.feedback {
        Some(feedback) => "["@ + feedback.message + "]"@,
        None => ""@,
    };
    if let Some(shown) = panes::indicator(state.output_pane) {
        assert(shown == columns);
        assert(spans[3].content == shown);
        assert(styled::spans_text(spans, 4) =~= head + columns);
        if state.feedback is Some {
            assert(spans[4].content == said);
            assert(line_text(state.log_title()) =~= head + columns + said);
        } else {
            assert(spans.len() == 4);
            assert(head + columns + said =~= head + columns);
        }
    } else {
        assert(columns.len() == 0);
        if state.feedback is Some {
            assert(spans[3].content == said);
            assert(line_text(state.log_title()) =~= head + columns + said);
        } else {
            assert(spans.len() == 3);
            assert(head + columns + said =~= head);
        }
    }
}

/// The log shows the output; or, where the file could not be read, `Read error:`
/// and the reason, and no row of the output.
pub proof fn law_the_log_shows_output_or_an_error(state: AppView)
    ensures
        state.error is None ==> state.log_panel().lines == output::shown_lines(
            state.screen.text,
            state.render_options(),
        ),
        state.error matches Some(reason) ==> {
            &&& state.log_panel().lines == panes::message_lines("Read error: "@ + reason)
            &&& state.visible_rows().len() == 0
            &&& file_watcher::read_error(reason) == "Read error: "@ + reason
        },
{
}

/// A message is shown line by line, as it is.
pub proof fn law_messages_are_shown_line_by_line(message: Seq<char>, k: int)
    requires
        0 <= k < output::lines(message, 0).len(),
    ensures
        panes::message_lines(message).len() == output::lines(message, 0).len(),
        line_text(panes::message_lines(message)[k]) == output::lines(message, 0)[k],
        panes::message_lines(message)[k].style == styled::plain(),
{
    lemma_one_span(panes::message_lines(message)[k].spans);
}

/// A pane has a scroll bar where its content is wider than what it shows between
/// its borders, and it shows something. The bar lies between the corners, stands
/// where the pane is scrolled to, and has a position for each column that the
/// pane can be scrolled to.
pub proof fn law_scroll_bars(pane: PaneViewport, style: Style)
    requires
        pane.area.x < u16::MAX,
        pane.content_width < usize::MAX,
    ensures
        layout::scrollbar_of(pane, style) is Some <==> pane.area.width > 2 && pane.content_width
            > pane.area.width - 2,
        layout::scrollbar_of(pane, style) matches Some(bar) ==> {
            &&& bar.area.x == pane.area.x + 1
            &&& bar.area.y == pane.area.y
            &&& bar.area.width == pane.area.width - 2
            &&& bar.area.height == pane.area.height
            &&& bar.position == pane.horizontal_offset
            &&& bar.viewport_length == pane.area.width - 2
            &&& bar.content_length == pane.content_width - (pane.area.width - 2) + 1
            &&& bar.style == style
        },
{
}

/// The scroll bars of the panels are those of their panes, in the style of their
/// borders.
pub proof fn law_panels_have_the_scroll_bars_of_their_panes(state: AppView)
    ensures
        state.jobs_panel().scrollbar == layout::scrollbar_of(
            state.jobs_pane,
            state.jobs_panel().border,
        ),
        state.details_panel().scrollbar == layout::scrollbar_of(
            state.details_pane,
            state.details_panel().border,
        ),
        state.log_panel().scrollbar == layout::scrollbar_of(
            state.output_pane,
            state.log_panel().border,
        ),
{
}

/// Scrolling to the right moves by the columns that are asked for, until the last
/// column of the content is in view; scrolling to the left, until the first is.
/// Content that fits is never scrolled.
pub proof fn law_scrolling_columns(pane: PaneViewport, amount: usize)
    requires
        pane.wf(),
    ensures
        ({
            let visible = if pane.area.width >= 2 {
                pane.area.width - 2
            } else {
                0
            };
            let end = if pane.content_width > visible {
                pane.content_width - visible
            } else {
                0
            };
            let right = pane.scrolled_right(amount);
            let left = pane.scrolled_left(amount);
            &&& pane.horizontal_offset + amount <= end ==> right.horizontal_offset
                == pane.horizontal_offset + amount
            &&& pane.horizontal_offset + amount > end ==> right.horizontal_offset == end
            &&& amount <= pane.horizontal_offset ==> left.horizontal_offset
                == pane.horizontal_offset - amount
            &&& amount > pane.horizontal_offset ==> left.horizontal_offset == 0
            &&& right.area == pane.area && right.content_width == pane.content_width
            &&& left.area == pane.area && left.content_width == pane.content_width
            &&& pane.at_start().horizontal_offset == 0
            &&& pane.at_start().area == pane.area
            &&& pane.at_start().content_width == pane.content_width
        }),
{
}

/// Drawing a pane takes over its area and the width of its content. It stays
/// scrolled as far as it was, or goes back to where the last column of the
/// content is in view.
pub proof fn law_drawing_keeps_the_columns(pane: PaneViewport, area: Rect, content_width: usize)
    ensures
        ({
            let visible = if area.width >= 2 {
                area.width - 2
            } else {
                0
            };
            let end = if content_width > visible {
                content_width - visible
            } else {
                0
            };
            let drawn = pane.fitted(area, content_width);
            &&& drawn.area == area
            &&& drawn.content_width == content_width
            &&& pane.horizontal_offset <= end ==> drawn.horizontal_offset == pane.horizontal_offset
            &&& pane.horizontal_offset > end ==> drawn.horizontal_offset == end
            &&& drawn.wf()
        }),
{
}

/// Inside its border, an area has one cell less on each side.
pub proof fn law_inside_a_border(area: Rect, column: int, row: int)
    requires
        layout::on_screen(area),
    ensures
        layout::bordered(area).holds(column, row) <==> {
            &&& area.x + 1 <= column < area.x + area.width - 1
            &&& area.y + 1 <= row < area.y + area.height - 1
        },
{
}

/// Drawing the panes changes only what belongs to each: the job list takes its
/// area, the width of its lines and its height; the details their area and the
/// width of theirs; the log its area, its rows and columns between the borders,
/// and the width of the output, or its own where lines are wrapped.
pub proof fn law_what_drawing_changes(state: AppView, area: Rect)
    ensures
        ({
            let jobs = state.jobs_drawn(area);
            let lines = panes::job_lines(state.jobs);
            &&& jobs == (AppView {
                jobs_pane: jobs.jobs_pane,
                list_height: jobs.list_height,
                ..state
            })
            &&& jobs.jobs_pane == state.jobs_pane.fitted(
                area,
                panes::content_width(lines, lines.len() as int),
            )
            &&& area.height >= 2 ==> jobs.list_height == area.height - 2
            &&& area.height < 2 ==> jobs.list_height == 0
        }),
        ({
            let details = state.details_drawn(area);
            let lines = state.details();
            &&& details == (AppView { details_pane: details.details_pane, ..state })
            &&& details.details_pane == state.details_pane.fitted(
                area,
                panes::content_width(lines, lines.len() as int),
            )
        }),
        ({
            let log = state.log_placed(area);
            &&& log == (AppView {
                output_pane: log.output_pane,
                inner_area: log.inner_area,
                output_height: log.output_height,
                ..state
            })
            &&& log.inner_area == layout::bordered(area)
            &&& area.height >= 2 ==> log.output_height == area.height - 2
            &&& area.height < 2 ==> log.output_height == 0
            &&& log.output_pane.area == area
            &&& !state.wrap ==> log.output_pane == state.output_pane.fitted(
                area,
                state.content_width,
            )
            &&& state.wrap ==> log.output_pane.horizontal_offset == 0
                && log.output_pane.content_width == if area.width >= 2 {
                area.width - 2
            } else {
                0
            }
        }),
{
}

/// What is shown of the output follows from where the log lies, and how it is
/// scrolled, wrapped and selected.
pub proof fn law_what_is_rendered(state: AppView)
    ensures
        ({
            let options = state.render_options();
            &&& options.height == state.inner_area.height
            &&& options.width == state.inner_area.width
            &&& options.anchor == state.anchor
            &&& options.offset == state.offset
            &&& options.horizontal_offset == state.output_pane.horizontal_offset
            &&& options.wrap == state.wrap
            &&& options.selection == state.selection
        }),
{
}

} // verus!
