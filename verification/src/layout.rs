//! Where the parts of the screen are.
use ratatui::layout::{Constraint, Direction as Axis, Layout, Rect as Frame};
use vstd::prelude::*;

use crate::geometry;
use crate::geometry::Rect;
use crate::styled::Style;
use crate::viewport::PaneViewport;

verus! {

/// How an area is split.
#[derive(Clone, Copy, Debug, PartialEq, Eq, Structural)]
pub enum Direction {
    /// Into parts side by side.
    Horizontal,
    /// Into parts on top of each other.
    Vertical,
}

/// The size that a part of an area is to have.
#[derive(Clone, Copy, Debug, PartialEq, Eq, Structural)]
pub enum Size {
    /// At least that many cells.
    Min(u16),
    /// That many cells.
    Length(u16),
    /// That share of the area, in percent.
    Percentage(u16),
}

/// The parts of the screen.
#[derive(Clone, Copy, Debug, PartialEq, Eq, Structural)]
pub struct Areas {
    pub help: Rect,
    pub jobs: Rect,
    pub details: Rect,
    pub log: Rect,
}

/// Whether the cells of a screen have coordinates.
pub open spec fn on_screen(screen: Rect) -> bool {
    screen.x + screen.width <= u16::MAX && screen.y + screen.height <= u16::MAX
}

/// How much of `total` the first of two parts gets, where one of them has a
/// minimum: that part takes what the other one leaves, and what it lacks of its
/// minimum is taken from the other one. A share is rounded to whole cells.
pub open spec fn first_part(total: int, first: Size, second: Size) -> Option<int> {
    match (first, second) {
        (Size::Min(least), Size::Length(length)) => if least <= i16::MAX {
            Some(total - geometry::least(length as int, geometry::floor0(total - least)))
        } else {
            None
        },
        (Size::Length(length), Size::Min(least)) => if least <= i16::MAX {
            Some(geometry::least(length as int, geometry::floor0(total - least)))
        } else {
            None
        },
        (Size::Min(least), Size::Percentage(share)) => if least <= i16::MAX && share <= 100 {
            Some(
                geometry::larger(
                    geometry::least(least as int, total),
                    (total * (100 - share) + 50) / 100,
                ),
            )
        } else {
            None
        },
        _ => None,
    }
}

/// `ratatui::layout::Layout::split` with two sizes: parts side by side are as
/// high as the area, and parts on top of each other as wide. Where the area has
/// coordinates for all of its cells and the sizes are among those of
/// `first_part`, the parts fill the area, one behind the other, and the first
/// is as large as `first_part` says: the solver weighs a minimum above a fixed
/// size, that above a share, and all of them above letting a part with a
/// minimum grow over the rest. Nothing is claimed of the sizes otherwise:
/// of two minimums, of two fixed sizes or shares, of shares above 100, and of a
/// minimum above `i16::MAX`, which the solver takes for a negative number.
#[verifier::external_body]
fn split(area: Rect, direction: Direction, first: Size, second: Size) -> (r: (Rect, Rect))
    ensures
        direction == Direction::Horizontal ==> r.0.y == area.y && r.0.height == area.height
            && r.1.y == area.y && r.1.height == area.height,
        direction == Direction::Vertical ==> r.0.x == area.x && r.0.width == area.width && r.1.x
            == area.x && r.1.width == area.width,
        direction == Direction::Horizontal && on_screen(area) ==> match first_part(
            area.width as int,
            first,
            second,
        ) {
            Some(width) => r.0.x == area.x && r.0.width == width && r.1.x == area.x + width
                && r.1.width == area.width - width,
            None => true,
        },
        direction == Direction::Vertical && on_screen(area) ==> match first_part(
            area.height as int,
            first,
            second,
        ) {
            Some(height) => r.0.y == area.y && r.0.height == height && r.1.y == area.y + height
                && r.1.height == area.height - height,
            None => true,
        },
{
    let along = match direction {
        Direction::Horizontal => Axis::Horizontal,
        Direction::Vertical => Axis::Vertical,
    };
    let sizes = [first, second].map(|size| match size {
        Size::Min(n) => Constraint::Min(n),
        Size::Length(n) => Constraint::Length(n),
        Size::Percentage(n) => Constraint::Percentage(n),
    });
    let Rect { x, y, width, height } = area;
    let parts = Layout::new(along, sizes).split(Frame { x, y, width, height });
    let [Frame { x, y, width, height }, b] = [parts[0], parts[1]];
    let second = Rect { x: b.x, y: b.y, width: b.width, height: b.height };
    (Rect { x, y, width, height }, second)
}

/// The parts of a screen: one line of help below everything, the job list on
/// the left, and on the right eight lines of details above the log. The job
/// list takes three tenths of the width, and at least 50 columns. Where there
/// is less room, the job list and the log keep what there is: 50 columns come
/// before the right side, three lines of log before the details, and three
/// lines above the help before the help.
pub open spec fn parts_of(screen: Rect) -> Areas {
    let help = geometry::least(1, geometry::floor0(screen.height - 3));
    let content = screen.height - help;
    let left = geometry::larger(
        geometry::least(50, screen.width as int),
        (screen.width * 30 + 50) / 100,
    );
    let details = geometry::least(8, geometry::floor0(content - 3));
    let right_x = (screen.x + left) as u16;
    let right_width = (screen.width - left) as u16;
    Areas {
        help: Rect {
            x: screen.x,
            y: (screen.y + content) as u16,
            width: screen.width,
            height: help as u16,
        },
        jobs: Rect { x: screen.x, y: screen.y, width: left as u16, height: content as u16 },
        details: Rect { x: right_x, y: screen.y, width: right_width, height: details as u16 },
        log: Rect {
            x: right_x,
            y: (screen.y + details) as u16,
            width: right_width,
            height: (content - details) as u16,
        },
    }
}

/// The parts of a screen. A screen reaches no further than there are
/// coordinates; of an area that does, only what the parts share is known.
pub fn areas(screen: Rect) -> (r: Areas)
    ensures
        on_screen(screen) ==> r == parts_of(screen),
        r.help.x == screen.x,
        r.help.width == screen.width,
        r.details.x == r.log.x,
        r.details.width == r.log.width,
{
    let (content, help) = split(screen, Direction::Vertical, Size::Min(3), Size::Length(1));
    let (jobs, right) = split(
        content,
        Direction::Horizontal,
        Size::Min(50),
        Size::Percentage(70),
    );
    let (details, log) = split(right, Direction::Vertical, Size::Length(8), Size::Min(3));
    Areas { help, jobs, details, log }
}

/// The parts of a screen lie next to each other and fill it: each cell of the
/// screen lies in exactly one of them, and no other cell in any.
pub proof fn law_parts_fill_the_screen(screen: Rect, column: int, row: int)
    requires
        on_screen(screen),
    ensures
        ({
            let parts = parts_of(screen);
            let found = |part: Rect| if part.holds(column, row) { 1int } else { 0 };
            let count = found(parts.help) + found(parts.jobs) + found(parts.details) + found(
                parts.log,
            );
            count == found(screen)
        }),
{
}

/// The lines and columns of the parts of a screen add up to those of the
/// screen, and each part begins where the one before it ends.
pub proof fn law_parts_are_in_line(screen: Rect)
    requires
        on_screen(screen),
    ensures
        ({
            let parts = parts_of(screen);
            &&& parts.jobs.x == screen.x && parts.jobs.y == screen.y
            &&& parts.help.x == screen.x && parts.help.width == screen.width
            &&& parts.help.y == parts.jobs.y + parts.jobs.height
            &&& parts.jobs.height + parts.help.height == screen.height
            &&& parts.details.x == parts.jobs.x + parts.jobs.width
            &&& parts.jobs.width + parts.details.width == screen.width
            &&& parts.details.y == parts.jobs.y
            &&& parts.log.x == parts.details.x && parts.log.width == parts.details.width
            &&& parts.log.y == parts.details.y + parts.details.height
            &&& parts.details.height + parts.log.height == parts.jobs.height
        }),
{
}

/// A part that asks for a number of lines or columns has them wherever the
/// screen has room for them.
pub proof fn law_parts_have_room(screen: Rect)
    requires
        on_screen(screen),
    ensures
        ({
            let parts = parts_of(screen);
            &&& screen.height >= 4 ==> parts.help.height == 1
            &&& screen.height >= 3 ==> parts.jobs.height >= 3 && parts.log.height >= 3
            &&& parts.jobs.height >= 11 ==> parts.details.height == 8
            &&& screen.width >= 50 ==> parts.jobs.width >= 50
            &&& 50 <= screen.width <= 166 ==> parts.jobs.width == 50
            &&& screen.width >= 167 ==> -50 <= 100 * parts.details.width - 70 * screen.width <= 50
        }),
{
}

/// What a border leaves of an area.
pub open spec fn bordered(area: Rect) -> Rect {
    Rect {
        x: geometry::least(
            geometry::clamp16(area.x + 1),
            geometry::clamp16(area.x + area.width),
        ) as u16,
        y: geometry::least(
            geometry::clamp16(area.y + 1),
            geometry::clamp16(area.y + area.height),
        ) as u16,
        width: geometry::floor0(area.width - 2) as u16,
        height: geometry::floor0(area.height - 2) as u16,
    }
}

/// The smaller of two numbers.
fn smaller(a: u16, b: u16) -> (r: u16)
    ensures
        r == geometry::least(a as int, b as int),
{
    if a <= b {
        a
    } else {
        b
    }
}

/// What a border leaves of an area.
pub fn inside_border(area: Rect) -> (r: Rect)
    ensures
        r == bordered(area),
{
    Rect {
        x: smaller(area.x.saturating_add(1), area.x.saturating_add(area.width)),
        y: smaller(area.y.saturating_add(1), area.y.saturating_add(area.height)),
        width: area.width.saturating_sub(2),
        height: area.height.saturating_sub(2),
    }
}

/// The width of a dialog.
pub const DIALOG_WIDTH: u16 = 80;

/// Where a dialog of that height begins on a screen: as far from the left as
/// from the right, and from the top as from the bottom.
pub open spec fn dialog_corner(height: u16, screen: Rect) -> (int, int) {
    let w = geometry::least(DIALOG_WIDTH as int, screen.width as int);
    let h = geometry::least(height as int, screen.height as int);
    (screen.x + (screen.width - w) / 2, screen.y + (screen.height - h) / 2)
}

/// Whether the cell where a dialog of that height begins has coordinates.
pub open spec fn dialog_fits(height: u16, screen: Rect) -> bool {
    let (x, y) = dialog_corner(height, screen);
    x <= u16::MAX && y <= u16::MAX
}

/// The area of a dialog on a screen: in its middle, no larger than the screen,
/// and no further than there are coordinates.
pub open spec fn centered(height: u16, screen: Rect) -> Rect {
    let (x, y) = dialog_corner(height, screen);
    let w = geometry::least(DIALOG_WIDTH as int, screen.width as int);
    let h = geometry::least(height as int, screen.height as int);
    Rect {
        x: x as u16,
        y: y as u16,
        width: geometry::least(w, u16::MAX - x) as u16,
        height: geometry::least(h, u16::MAX - y) as u16,
    }
}

/// The area of a dialog on a screen.
pub fn dialog_area(height: u16, screen: Rect) -> (r: Rect)
    requires
        dialog_fits(height, screen),
    ensures
        r == centered(height, screen),
{
    let w: u16 = smaller(DIALOG_WIDTH, screen.width);
    let h: u16 = smaller(height, screen.height);
    let x: u16 = screen.x + (screen.width - w) / 2;
    let y: u16 = screen.y + (screen.height - h) / 2;
    Rect { x, y, width: smaller(w, u16::MAX - x), height: smaller(h, u16::MAX - y) }
}

/// A dialog can be drawn on every screen whose cells have coordinates, whatever
/// its height, and nothing of it is cut off.
pub proof fn law_dialogs_fit_on_a_screen(height: u16, screen: Rect)
    requires
        on_screen(screen),
    ensures
        dialog_fits(height, screen),
        centered(height, screen).width == geometry::least(
            DIALOG_WIDTH as int,
            screen.width as int,
        ),
        centered(height, screen).height == geometry::least(height as int, screen.height as int),
{
}

/// A dialog of which nothing is cut off lies on its screen, with as much space
/// on its left as on its right, and above it as below it, but for one cell.
pub proof fn law_dialog_is_centered(height: u16, screen: Rect)
    requires
        dialog_fits(height, screen),
        centered(height, screen).width == geometry::least(
            DIALOG_WIDTH as int,
            screen.width as int,
        ),
        centered(height, screen).height == geometry::least(height as int, screen.height as int),
    ensures
        ({
            let area = centered(height, screen);
            let left = area.x - screen.x;
            let right = screen.x + screen.width - (area.x + area.width);
            let above = area.y - screen.y;
            let below = screen.y + screen.height - (area.y + area.height);
            0 <= left <= right <= left + 1 && 0 <= above <= below <= above + 1
        }),
{
}

/// A scroll bar.
#[derive(Clone, Copy, Debug, PartialEq, Eq, Structural)]
pub struct ScrollbarView {
    pub area: Rect,
    /// Number of positions.
    pub content_length: usize,
    pub position: usize,
    /// Number of columns that are visible.
    pub viewport_length: usize,
    pub style: Style,
}

/// The scroll bar of a pane, where its content does not fit: on the lower
/// border, between the corners.
pub open spec fn scrollbar_of(pane: PaneViewport, style: Style) -> Option<ScrollbarView> {
    let area = pane.area;
    if pane.max_offset() == 0 || pane.visible() == 0 {
        None
    } else {
        Some(
            ScrollbarView {
                area: Rect {
                    x: geometry::clamp16(area.x + 1) as u16,
                    y: area.y,
                    width: (area.width - 2) as u16,
                    height: area.height,
                },
                content_length: geometry::least(pane.max_offset() + 1, usize::MAX as int) as usize,
                position: pane.horizontal_offset,
                viewport_length: pane.visible() as usize,
                style,
            },
        )
    }
}

/// The scroll bar of a pane.
pub fn horizontal_scrollbar(pane: PaneViewport, style: Style) -> (r: Option<ScrollbarView>)
    ensures
        r == scrollbar_of(pane, style),
{
    let max: usize = pane.max_horizontal_offset();
    let visible: usize = pane.visible_width();
    if max == 0 || visible == 0 {
        return None;
    }
    let area: Rect = pane.area;
    Some(
        ScrollbarView {
            area: Rect {
                x: area.x.saturating_add(1),
                y: area.y,
                width: area.width.saturating_sub(2),
                height: area.height,
            },
            content_length: max.saturating_add(1),
            position: pane.horizontal_offset,
            viewport_length: visible,
            style,
        },
    )
}

/// A dialog is 80 columns wide, or as wide as its screen where that is narrower,
/// and as high as it asks for, or as its screen.
pub proof fn law_size_of_a_dialog(height: u16, screen: Rect)
    requires
        on_screen(screen),
    ensures
        screen.width >= 80 ==> centered(height, screen).width == 80,
        screen.width < 80 ==> centered(height, screen).width == screen.width,
        screen.height >= height ==> centered(height, screen).height == height,
        screen.height < height ==> centered(height, screen).height == screen.height,
{
}

} // verus!
