//! The layout of the tabbed view, its input and its drawing.

use crate::app::{Action, App, KeyEvent};
use crate::pty::TerminalSize;
use crate::supervisor::State;
use crate::terminal::screen_offset;
use crate::text::{decimal, push_decimal};
use tui_term::vt100;
use vstd::prelude::*;

verus! {

// ---- Areas ----

/// A rectangle of terminal cells.
#[derive(Clone, Copy, Debug, PartialEq, Eq, Structural)]
pub struct Rect {
    pub x: u16,
    pub y: u16,
    pub width: u16,
    pub height: u16,
}

/// Where a span that starts at `start` and has `size` cells ends, at most at the
/// last coordinate there is.
pub open spec fn span_end(start: u16, size: u16) -> int {
    if start + size <= u16::MAX {
        start + size
    } else {
        u16::MAX as int
    }
}

impl Rect {
    /// The first column to the right.
    pub open spec fn right(self) -> int {
        span_end(self.x, self.width)
    }

    /// The first row below.
    pub open spec fn bottom(self) -> int {
        span_end(self.y, self.height)
    }

    /// The cell is in the rectangle.
    pub open spec fn has(self, column: int, row: int) -> bool {
        self.x <= column < self.right() && self.y <= row < self.bottom()
    }

    /// The rectangle less a border of one cell, or nothing where there is no
    /// more than a border.
    pub open spec fn within_border(self) -> Rect {
        Rect {
            x: if self.x + 1 <= self.right() { (self.x + 1) as u16 } else { self.right() as u16 },
            y: if self.y + 1 <= self.bottom() { (self.y + 1) as u16 } else { self.bottom() as u16 },
            width: if self.width >= 2 { (self.width - 2) as u16 } else { 0 },
            height: if self.height >= 2 { (self.height - 2) as u16 } else { 0 },
        }
    }

    /// The upper part of the rectangle when its last `rows` rows are split off.
    pub open spec fn above(self, rows: u16) -> Rect {
        let span = self.bottom() - self.y;
        Rect { height: if rows <= span { (span - rows) as u16 } else { 0 }, ..self }
    }

    /// The last `rows` rows of the rectangle, or as many as it has.
    pub open spec fn below(self, rows: u16) -> Rect {
        let span = self.bottom() - self.y;
        Rect {
            y: if rows <= span { (self.bottom() - rows) as u16 } else { self.y },
            height: if rows <= span { rows } else { span as u16 },
            ..self
        }
    }

    /// The first `columns` columns of the rectangle, or as many as it has.
    pub open spec fn left_part(self, columns: u16) -> Rect {
        let span = self.right() - self.x;
        Rect { width: if columns <= span { columns } else { span as u16 }, ..self }
    }

    /// What remains of the rectangle to the right of its first `columns` columns.
    pub open spec fn right_part(self, columns: u16) -> Rect {
        let span = self.right() - self.x;
        Rect {
            x: if columns <= span { (self.x + columns) as u16 } else { self.right() as u16 },
            width: if columns <= span { (span - columns) as u16 } else { 0 },
            ..self
        }
    }

    /// All of `part` is in the rectangle.
    pub open spec fn covers(self, part: Rect) -> bool {
        &&& self.x <= part.x
        &&& self.y <= part.y
        &&& part.x + part.width <= self.right()
        &&& part.y + part.height <= self.bottom()
    }

    /// A rectangle, cut off where coordinates end.
    #[must_use]
    pub fn new(x: u16, y: u16, width: u16, height: u16) -> (rect: Self)
        ensures
            rect.x == x,
            rect.y == y,
            rect.width == span_end(x, width) - x,
            rect.height == span_end(y, height) - y,
    {
        Rect { x, y, width: x.saturating_add(width) - x, height: y.saturating_add(height) - y }
    }

    /// Whether a cell is in the rectangle.
    #[must_use]
    pub fn contains(self, column: u16, row: u16) -> (contains: bool)
        ensures
            contains == self.has(column as int, row as int),
    {
        column >= self.x && column < self.x.saturating_add(self.width) && row >= self.y && row
            < self.y.saturating_add(self.height)
    }
}

/// ratatui's `Layout` over `Min(0)` and `Length(rows)`, from top to bottom: the
/// length is met as far as the area has rows, and the rest goes to the minimum.
#[verifier::external_body]
fn split_rows(area: Rect, rows: u16) -> (parts: (Rect, Rect))
    ensures
        parts.0 == area.above(rows),
        parts.1 == area.below(rows),
{
    let Rect { x, y, width, height } = area;
    let split = ratatui::layout::Layout::vertical(
        [ratatui::layout::Constraint::Min(0), ratatui::layout::Constraint::Length(rows)],
    ).split(ratatui::layout::Rect { x, y, width, height });
    let (a, b) = (split[0], split[1]);
    (
        Rect { x: a.x, y: a.y, width: a.width, height: a.height },
        Rect { x: b.x, y: b.y, width: b.width, height: b.height },
    )
}

/// ratatui's `Layout` over `Length(columns)` and `Min(0)`, from left to right: the
/// length is met as far as the area has columns, and the rest goes to the
/// minimum.
#[verifier::external_body]
fn split_columns(area: Rect, columns: u16) -> (parts: (Rect, Rect))
    ensures
        parts.0 == area.left_part(columns),
        parts.1 == area.right_part(columns),
{
    let Rect { x, y, width, height } = area;
    let split = ratatui::layout::Layout::horizontal(
        [ratatui::layout::Constraint::Length(columns), ratatui::layout::Constraint::Min(0)],
    ).split(ratatui::layout::Rect { x, y, width, height });
    let (a, b) = (split[0], split[1]);
    (
        Rect { x: a.x, y: a.y, width: a.width, height: a.height },
        Rect { x: b.x, y: b.y, width: b.width, height: b.height },
    )
}

/// ratatui's `Block::inner` of a bordered block: one cell less on each side.
#[verifier::external_body]
fn bordered_inner(area: Rect) -> (inner: Rect)
    ensures
        inner == area.within_border(),
{
    let Rect { x, y, width, height } = area;
    let inner = ratatui::widgets::Block::bordered().inner(
        ratatui::layout::Rect { x, y, width, height },
    );
    Rect { x: inner.x, y: inner.y, width: inner.width, height: inner.height }
}

// ---- Panes ----

/// The parts of the tabbed view.
#[derive(Clone, Copy, Debug, PartialEq, Eq, Structural)]
pub struct Panes {
    pub sidebar: Rect,
    pub logs: Rect,
    pub footer: Rect,
}

/// How wide the sidebar is: a third of the screen, from ten to thirty columns.
pub open spec fn sidebar_width(area: Rect) -> u16 {
    if area.width / 3 < 10 {
        10
    } else if area.width / 3 > 30 {
        30
    } else {
        area.width / 3
    }
}

/// The sidebar on the left, the logs beside it, and a footer of one row.
pub open spec fn panes_of(area: Rect) -> Panes {
    Panes {
        sidebar: area.above(1).left_part(sidebar_width(area)),
        logs: area.above(1).right_part(sidebar_width(area)),
        footer: area.below(1),
    }
}

/// The panes lie within the area, and no cell is in two of them.
pub proof fn panes_are_disjoint_parts(area: Rect, column: int, row: int)
    ensures
        panes_of(area).sidebar.has(column, row) ==> area.has(column, row),
        panes_of(area).logs.has(column, row) ==> area.has(column, row),
        panes_of(area).footer.has(column, row) ==> area.has(column, row),
        !(panes_of(area).sidebar.has(column, row) && panes_of(area).logs.has(column, row)),
        !(panes_of(area).sidebar.has(column, row) && panes_of(area).footer.has(column, row)),
        !(panes_of(area).logs.has(column, row) && panes_of(area).footer.has(column, row)),
{
}

/// Every cell of the area is in a pane.
pub proof fn panes_fill_the_area(area: Rect, column: int, row: int)
    requires
        area.has(column, row),
    ensures
        panes_of(area).sidebar.has(column, row) || panes_of(area).logs.has(column, row)
            || panes_of(area).footer.has(column, row),
{
}

/// Splits the screen into panes.
pub fn panes(area: Rect) -> (panes: Panes)
    ensures
        panes == panes_of(area),
{
    let (body, footer) = split_rows(area, 1);
    let third: u16 = area.width / 3;
    let width: u16 = if third < 10 {
        10
    } else if third > 30 {
        30
    } else {
        third
    };
    let (sidebar, logs) = split_columns(body, width);
    Panes { sidebar, logs, footer }
}

/// The size of what is within the border of the logs, at least one cell.
pub open spec fn pane_size(area: Rect) -> TerminalSize {
    let inner = panes_of(area).logs.within_border();
    TerminalSize {
        rows: if inner.height == 0 { 1 } else { inner.height },
        cols: if inner.width == 0 { 1 } else { inner.width },
    }
}

/// The size of the terminals shown in the logs pane.
#[must_use]
pub fn terminal_size(area: Rect) -> (size: TerminalSize)
    ensures
        size.wf(),
        size == pane_size(area),
{
    let inner = bordered_inner(panes(area).logs);
    TerminalSize::new(inner.height, inner.width)
}

// ---- Input ----

/// The mouse buttons that matter, and all others.
#[derive(Clone, Copy, Debug, PartialEq, Eq, Structural)]
pub enum MouseButton {
    Left,
    Other,
}

/// What the mouse did.
#[derive(Clone, Copy, Debug, PartialEq, Eq, Structural)]
pub enum MouseEventKind {
    Down(MouseButton),
    ScrollUp,
    ScrollDown,
    Other,
}

/// What the mouse did, and where.
#[derive(Clone, Copy, Debug, PartialEq, Eq, Structural)]
pub struct MouseEvent {
    pub kind: MouseEventKind,
    pub column: u16,
    pub row: u16,
}

/// Input from the terminal.
#[derive(Clone, Copy, Debug, PartialEq, Eq, Structural)]
pub enum TerminalEvent {
    Key(KeyEvent),
    Mouse(MouseEvent),
    Other,
}

/// The screen is large enough for the view.
pub open spec fn large_enough(area: Rect) -> bool {
    area.width >= 24 && area.height >= 4
}

/// The first service listed in a sidebar of `height` rows.
pub open spec fn first_listed(app: App, height: u16) -> usize {
    if height > 0 && app.selected >= height - 1 {
        (app.selected - (height - 1)) as usize
    } else if height > 0 {
        0
    } else {
        app.selected
    }
}

/// The selected service is always among those listed.
pub proof fn selected_is_listed(app: App, height: u16)
    requires
        height > 0,
    ensures
        first_listed(app, height) <= app.selected < first_listed(app, height) + height,
{
}

/// How many rows a turn of the wheel scrolls.
pub const WHEEL_ROWS: usize = 3;

/// `next` and `action` are what an input leads to.
pub open spec fn handled_to(
    app: App,
    next: App,
    event: TerminalEvent,
    area: Rect,
    action: Option<Action>,
) -> bool {
    let logs = panes_of(area).logs.within_border();
    let sidebar = panes_of(area).sidebar.within_border();
    match event {
        TerminalEvent::Key(key) => app.keyed_to(next, key, action),
        TerminalEvent::Mouse(mouse) => {
            &&& action is None
            &&& if !large_enough(area) {
                next == app
            } else if logs.has(mouse.column as int, mouse.row as int) {
                match mouse.kind {
                    MouseEventKind::ScrollUp => app.scrolled_to(next, true, WHEEL_ROWS),
                    MouseEventKind::ScrollDown => app.scrolled_to(next, false, WHEEL_ROWS),
                    _ => next == app,
                }
            } else if sidebar.has(mouse.column as int, mouse.row as int) && mouse.kind
                == MouseEventKind::Down(MouseButton::Left) {
                let index = first_listed(app, sidebar.height) + (mouse.row - sidebar.y);
                if index < app.services@.len() {
                    next == (App { selected: index as usize, ..app })
                } else {
                    next == app
                }
            } else {
                next == app
            }
        },
        TerminalEvent::Other => next == app && action is None,
    }
}

fn sidebar_start(app: &App, height: u16) -> (first: usize)
    ensures
        first == first_listed(*app, height),
{
    app.selected.saturating_sub(height.saturating_sub(1) as usize)
}

/// Does what an input asks for.
pub fn handle_input(app: &mut App, event: &TerminalEvent, area: Rect) -> (action: Option<Action>)
    ensures
        old(app).wf() ==> final(app).wf(),
        handled_to(*old(app), *final(app), *event, area, action),
{
    match event {
        TerminalEvent::Key(key) => app.key(*key),
        TerminalEvent::Mouse(mouse) => {
            if area.width >= 24 && area.height >= 4 {
                let panes = panes(area);
                let log_inner = bordered_inner(panes.logs);
                let sidebar_inner = bordered_inner(panes.sidebar);
                if log_inner.contains(mouse.column, mouse.row) {
                    match mouse.kind {
                        MouseEventKind::ScrollUp => app.scroll_logs(true, WHEEL_ROWS),
                        MouseEventKind::ScrollDown => app.scroll_logs(false, WHEEL_ROWS),
                        _ => {},
                    }
                } else if sidebar_inner.contains(mouse.column, mouse.row) && mouse.kind
                    == MouseEventKind::Down(MouseButton::Left) {
                    let index = sidebar_start(app, sidebar_inner.height) + (mouse.row
                        - sidebar_inner.y) as usize;
                    if index < app.services.len() {
                        app.selected = index;
                    }
                }
            }
            None
        },
        TerminalEvent::Other => None,
    }
}

// ---- Drawing ----

/// The colors that tell states apart.
#[derive(Clone, Copy, Debug, PartialEq, Eq, Structural)]
pub enum StatusColor {
    Green,
    Yellow,
    Red,
    DarkGray,
}

/// The color of a state: green while running, yellow while that changes, red
/// after a failure and gray otherwise.
pub open spec fn color_of(state: State) -> StatusColor {
    if state is Running {
        StatusColor::Green
    } else if state is Starting || state is Stopping {
        StatusColor::Yellow
    } else if state.failure() {
        StatusColor::Red
    } else {
        StatusColor::DarkGray
    }
}

/// A line of the sidebar: a service's number and name, then its state.
pub struct Listed {
    pub service: Seq<char>,
    pub state: Seq<char>,
    pub color: StatusColor,
}

/// Something drawn on a frame.
pub enum Drawing {
    /// A line of text, in the terminal's own colors, dim or not.
    Text { area: Rect, text: Seq<char>, dim: bool },
    /// A bordered list with a title. Every entry leaves room for the marker. One
    /// entry has it, and is bold on dark gray.
    List { area: Rect, title: Seq<char>, items: Seq<Listed>, marked: usize, marker: Seq<char> },
    /// A dim text in a border with a title above and below.
    Framed { area: Rect, title: Seq<char>, bottom: Seq<char>, text: Seq<char> },
    /// A terminal screen in a border with a title above and below.
    Terminal {
        area: Rect,
        title: Seq<char>,
        bottom: Seq<char>,
        screen: vt100::Screen,
        cursor: bool,
    },
}

/// A ratatui frame that is being drawn.
#[verifier::external_type_specification]
#[verifier::external_body]
pub struct ExFrame<'a>(ratatui::Frame<'a>);

/// The cells of a ratatui frame.
#[verifier::external_type_specification]
#[verifier::external_body]
pub struct ExBuffer(ratatui::buffer::Buffer);

/// A ratatui list entry.
#[verifier::external_type_specification]
#[verifier::external_body]
pub struct ExListItem<'a>(ratatui::widgets::ListItem<'a>);

/// What a frame can be drawn on.
pub uninterp spec fn frame_area(frame: ratatui::Frame<'_>) -> Rect;

/// The cells of a frame.
pub uninterp spec fn frame_buffer(frame: ratatui::Frame<'_>) -> ratatui::buffer::Buffer;

/// What a list entry shows.
pub uninterp spec fn entry(item: ratatui::widgets::ListItem<'_>) -> Listed;

/// Cells with a line of text on them.
pub uninterp spec fn text_on(
    cells: ratatui::buffer::Buffer,
    area: Rect,
    text: Seq<char>,
    dim: bool,
) -> ratatui::buffer::Buffer;

/// Cells with a dim text in a border on them.
pub uninterp spec fn framed_on(
    cells: ratatui::buffer::Buffer,
    area: Rect,
    title: Seq<char>,
    bottom: Seq<char>,
    text: Seq<char>,
) -> ratatui::buffer::Buffer;

/// Cells with a bordered list on them.
pub uninterp spec fn list_on(
    cells: ratatui::buffer::Buffer,
    area: Rect,
    title: Seq<char>,
    items: Seq<Listed>,
    marked: usize,
    marker: Seq<char>,
) -> ratatui::buffer::Buffer;

/// Cells with a terminal screen in a border on them.
pub uninterp spec fn terminal_on(
    cells: ratatui::buffer::Buffer,
    area: Rect,
    title: Seq<char>,
    bottom: Seq<char>,
    screen: vt100::Screen,
    cursor: bool,
) -> ratatui::buffer::Buffer;

impl Drawing {
    /// The cells with this drawn on them.
    pub open spec fn on(self, cells: ratatui::buffer::Buffer) -> ratatui::buffer::Buffer {
        match self {
            Drawing::Text { area, text, dim } => text_on(cells, area, text, dim),
            Drawing::List { area, title, items, marked, marker } => list_on(
                cells,
                area,
                title,
                items,
                marked,
                marker,
            ),
            Drawing::Framed { area, title, bottom, text } => framed_on(
                cells,
                area,
                title,
                bottom,
                text,
            ),
            Drawing::Terminal { area, title, bottom, screen, cursor } => terminal_on(
                cells,
                area,
                title,
                bottom,
                screen,
                cursor,
            ),
        }
    }
}

/// The cells with all of this drawn on them, first to last.
pub open spec fn painted(
    cells: ratatui::buffer::Buffer,
    drawings: Seq<Drawing>,
) -> ratatui::buffer::Buffer
    decreases drawings.len(),
{
    if drawings.len() == 0 {
        cells
    } else {
        drawings.last().on(painted(cells, drawings.drop_last()))
    }
}

/// ratatui's `Frame::area`.
#[verifier::external_body]
fn area_of(frame: &ratatui::Frame<'_>) -> (area: Rect)
    ensures
        area == frame_area(*frame),
{
    let area = frame.area();
    Rect { x: area.x, y: area.y, width: area.width, height: area.height }
}

/// The longest text that ratatui is given to lay out. It counts columns in 16
/// bits, and so many characters of the widest kind stay far below that.
pub const TEXT_LIMIT: usize = 10_000;

/// ratatui's `Frame::render_widget` with a `Paragraph`, which is cut off where the
/// frame ends. How it looks is ratatui's and only named. A longer text could be
/// wider than ratatui counts.
#[verifier::external_body]
fn draw_text(frame: &mut ratatui::Frame<'_>, text: &str, area: Rect)
    requires
        text@.len() <= TEXT_LIMIT,
    ensures
        frame_area(*final(frame)) == frame_area(*old(frame)),
        frame_buffer(*final(frame)) == text_on(frame_buffer(*old(frame)), area, text@, false),
{
    let Rect { x, y, width, height } = area;
    frame.render_widget(
        ratatui::widgets::Paragraph::new(text),
        ratatui::layout::Rect { x, y, width, height },
    );
}

/// ratatui's `Frame::render_widget` with a dim `Paragraph`, which is cut off where
/// the frame ends. How it looks is ratatui's and only named. A longer text could
/// be wider than ratatui counts.
#[verifier::external_body]
fn draw_dim_text(frame: &mut ratatui::Frame<'_>, text: &str, area: Rect)
    requires
        text@.len() <= TEXT_LIMIT,
    ensures
        frame_area(*final(frame)) == frame_area(*old(frame)),
        frame_buffer(*final(frame)) == text_on(frame_buffer(*old(frame)), area, text@, true),
{
    let Rect { x, y, width, height } = area;
    frame.render_widget(
        ratatui::style::Stylize::dim(ratatui::widgets::Paragraph::new(text)),
        ratatui::layout::Rect { x, y, width, height },
    );
}

/// ratatui's `Frame::render_widget` with a dim `Paragraph` in a bordered `Block`
/// with the two titles, all of it cut off where the frame ends. How it looks is
/// ratatui's and only named. A longer text could be wider than ratatui counts.
#[verifier::external_body]
fn draw_framed(
    frame: &mut ratatui::Frame<'_>,
    text: &str,
    title: String,
    bottom: String,
    area: Rect,
)
    requires
        text@.len() <= TEXT_LIMIT,
    ensures
        frame_area(*final(frame)) == frame_area(*old(frame)),
        frame_buffer(*final(frame)) == framed_on(
            frame_buffer(*old(frame)),
            area,
            title@,
            bottom@,
            text@,
        ),
{
    let Rect { x, y, width, height } = area;
    let block = ratatui::widgets::Block::bordered().title(title).title_bottom(bottom);
    frame.render_widget(
        ratatui::style::Stylize::dim(ratatui::widgets::Paragraph::new(text)).block(block),
        ratatui::layout::Rect { x, y, width, height },
    );
}

/// ratatui's `ListItem::new` with a line of two spans, the second in the given
/// color.
#[verifier::external_body]
fn list_item(service: String, state: String, color: StatusColor) -> (item:
    ratatui::widgets::ListItem<'static>)
    ensures
        entry(item) == (Listed { service: service@, state: state@, color }),
{
    let color = match color {
        StatusColor::Green => ratatui::style::Color::Green,
        StatusColor::Yellow => ratatui::style::Color::Yellow,
        StatusColor::Red => ratatui::style::Color::Red,
        StatusColor::DarkGray => ratatui::style::Color::DarkGray,
    };
    ratatui::widgets::ListItem::new(
        ratatui::text::Line::from(
            vec![
                ratatui::text::Span::raw(service),
                ratatui::text::Span::styled(state, ratatui::style::Style::new().fg(color)),
            ],
        ),
    )
}

/// ratatui's `Frame::render_stateful_widget` with a `List` in a bordered `Block`
/// with a title. Every entry leaves room for the marker, and the marked one follows
/// it, bold on dark gray. How that looks is ratatui's and only named. The list
/// must lie within the frame, and a wider marker could reach past the last
/// coordinate.
#[verifier::external_body]
fn draw_list(
    frame: &mut ratatui::Frame<'_>,
    items: Vec<ratatui::widgets::ListItem<'static>>,
    marked: usize,
    marker: &'static str,
    title: &str,
    area: Rect,
)
    requires
        frame_area(*old(frame)).covers(area),
        marker@ == "› "@,
    ensures
        frame_area(*final(frame)) == frame_area(*old(frame)),
        frame_buffer(*final(frame)) == list_on(
            frame_buffer(*old(frame)),
            area,
            title@,
            items@.map_values(|item: ratatui::widgets::ListItem<'static>| entry(item)),
            marked,
            marker@,
        ),
{
    let Rect { x, y, width, height } = area;
    let look = ratatui::style::Style::new().bold().bg(ratatui::style::Color::DarkGray);
    let list = ratatui::widgets::List::new(items)
        .block(ratatui::widgets::Block::bordered().title(title))
        .highlight_symbol(marker)
        .highlight_style(look)
        .highlight_spacing(ratatui::widgets::HighlightSpacing::Always);
    frame.render_stateful_widget(
        list,
        ratatui::layout::Rect { x, y, width, height },
        &mut ratatui::widgets::ListState::default().with_selected(Some(marked)),
    );
}

/// ratatui's `Frame::render_widget` with tui-term's `PseudoTerminal` in a bordered
/// `Block` with the two titles. How it looks is tui-term's and only named. The
/// terminal must lie within the frame.
#[verifier::external_body]
fn draw_terminal(
    frame: &mut ratatui::Frame<'_>,
    screen: &vt100::Screen,
    cursor: bool,
    title: String,
    bottom: String,
    area: Rect,
)
    requires
        frame_area(*old(frame)).covers(area),
    ensures
        frame_area(*final(frame)) == frame_area(*old(frame)),
        frame_buffer(*final(frame)) == terminal_on(
            frame_buffer(*old(frame)),
            area,
            title@,
            bottom@,
            *screen,
            cursor,
        ),
{
    let Rect { x, y, width, height } = area;
    let block = ratatui::widgets::Block::bordered().title(title).title_bottom(bottom);
    frame.render_widget(
        tui_term::widget::PseudoTerminal::new(screen)
            .block(block)
            .cursor(tui_term::widget::Cursor::default().visibility(cursor)),
        ratatui::layout::Rect { x, y, width, height },
    );
}

/// What the sidebar lists: every service from `first` on.
pub open spec fn listed(app: App, first: usize) -> Seq<Listed> {
    Seq::new(
        if first <= app.services@.len() {
            (app.services@.len() - first) as nat
        } else {
            0
        },
        |i: int|
            {
                let service = app.services@[first + i];
                Listed {
                    service: decimal((first + i) as nat) + " "@ + service.name@ + " "@,
                    state: service.state.label_text(),
                    color: color_of(service.state),
                }
            },
    )
}

/// The sidebar as it is drawn.
pub open spec fn sidebar_drawing(app: App, area: Rect) -> Drawing {
    let first = first_listed(app, area.within_border().height);
    Drawing::List {
        area,
        title: " Services "@,
        items: listed(app, first),
        marked: (app.selected - first) as usize,
        marker: "› "@,
    }
}

/// How far back the selected service's terminal is scrolled, if it has one.
pub open spec fn shown_offset(app: App) -> usize {
    match app.services@[app.selected as int].terminal {
        Some(terminal) => screen_offset(terminal.shown()),
        None => 0,
    }
}

/// The title below the logs: whether they are live or how far back they are.
pub open spec fn position_text(offset: usize) -> Seq<char> {
    if offset == 0 {
        " LIVE "@
    } else {
        " ↑ "@ + decimal(offset as nat) + " lines · End: live "@
    }
}

/// The logs of the selected service as they are drawn.
pub open spec fn logs_drawing(app: App, area: Rect) -> Seq<Drawing> {
    if app.selected < app.services@.len() {
        let service = app.services@[app.selected as int];
        let title = " "@ + service.name@ + " · "@ + service.state.label_text() + " "@;
        let bottom = position_text(shown_offset(app));
        match service.terminal {
            Some(terminal) if terminal.received_output => seq![
                Drawing::Terminal {
                    area,
                    title,
                    bottom,
                    screen: terminal.shown(),
                    cursor: service.state.active() && shown_offset(app) == 0,
                },
            ],
            _ => seq![
                Drawing::Framed {
                    area,
                    title,
                    bottom,
                    text: "No output yet. Press s to start a stopped service."@,
                },
            ],
        }
    } else {
        seq![]
    }
}

/// Everything that is drawn: a hint where the screen is too small, otherwise the
/// sidebar, the selected service's logs and the keys.
pub open spec fn scene(app: App, area: Rect) -> Seq<Drawing> {
    if !large_enough(area) {
        seq![Drawing::Text { area, text: "Accordo · enlarge terminal"@, dim: false }]
    } else {
        seq![sidebar_drawing(app, panes_of(area).sidebar)] + logs_drawing(
            app,
            panes_of(area).logs,
        ) + seq![
            Drawing::Text {
                area: panes_of(area).footer,
                text:
                    "↑↓/0–9 select · wheel/PgUp/Dn scroll · End live · s start/stop · r restart · q quit"@,
                dim: true,
            },
        ]
    }
}

proof fn painted_one(cells: ratatui::buffer::Buffer, drawings: Seq<Drawing>)
    requires
        drawings.len() == 1,
    ensures
        painted(cells, drawings) == drawings[0].on(cells),
{
    reveal_with_fuel(painted, 2);
}

proof fn painted_sum(
    cells: ratatui::buffer::Buffer,
    first: Seq<Drawing>,
    second: Seq<Drawing>,
)
    ensures
        painted(cells, first + second) == painted(painted(cells, first), second),
    decreases second.len(),
{
    if second.len() == 0 {
        assert(first + second =~= first);
    } else {
        assert((first + second).drop_last() =~= first + second.drop_last());
        painted_sum(cells, first, second.drop_last());
    }
}

fn status_color(state: &State) -> (color: StatusColor)
    ensures
        color == color_of(*state),
{
    match state {
        State::Running => StatusColor::Green,
        State::Starting | State::Stopping => StatusColor::Yellow,
        State::Failed(_) | State::Exited(None) => StatusColor::Red,
        State::Exited(Some(code)) => if *code != 0 {
            StatusColor::Red
        } else {
            StatusColor::DarkGray
        },
        State::Stopped => StatusColor::DarkGray,
    }
}

/// Draws the whole view.
pub fn render(frame: &mut ratatui::Frame<'_>, app: &App)
    ensures
        frame_area(*final(frame)) == frame_area(*old(frame)),
        frame_buffer(*final(frame)) == painted(
            frame_buffer(*old(frame)),
            scene(*app, frame_area(*old(frame))),
        ),
{
    let area = area_of(frame);
    if area.width < 24 || area.height < 4 {
        proof {
            reveal_strlit("Accordo · enlarge terminal");
        }
        draw_text(frame, "Accordo · enlarge terminal", area);
        proof {
            painted_one(frame_buffer(*old(frame)), scene(*app, area));
        }
        return;
    }
    let panes = panes(area);
    render_sidebar(frame, app, panes.sidebar);
    render_logs(frame, app, panes.logs);
    proof {
        reveal_strlit(
            "↑↓/0–9 select · wheel/PgUp/Dn scroll · End live · s start/stop · r restart · q quit",
        );
    }
    draw_dim_text(
        frame,
        "↑↓/0–9 select · wheel/PgUp/Dn scroll · End live · s start/stop · r restart · q quit",
        panes.footer,
    );
    proof {
        let cells = frame_buffer(*old(frame));
        let sidebar = seq![sidebar_drawing(*app, panes.sidebar)];
        let logs = logs_drawing(*app, panes.logs);
        let whole = scene(*app, area);
        painted_one(cells, sidebar);
        painted_sum(cells, sidebar, logs);
        assert(whole.drop_last() =~= sidebar + logs);
    }
}

fn render_sidebar(frame: &mut ratatui::Frame<'_>, app: &App, area: Rect)
    requires
        frame_area(*old(frame)).covers(area),
    ensures
        frame_area(*final(frame)) == frame_area(*old(frame)),
        frame_buffer(*final(frame)) == sidebar_drawing(*app, area).on(frame_buffer(*old(frame))),
{
    let first = sidebar_start(app, bordered_inner(area).height);
    let mut items: Vec<ratatui::widgets::ListItem<'static>> = Vec::new();
    let mut id = first;
    while id < app.services.len()
        invariant
            first <= id,
            id <= app.services@.len() || id == first,
            items@.len() == id - first,
            forall|i: int|
                0 <= i < items@.len() ==> entry(#[trigger] items@[i]) == listed(*app, first)[i],
        decreases app.services@.len() - id,
    {
        let service = &app.services[id];
        let mut text = String::new();
        push_decimal(&mut text, id as u64);
        text.push_str(" ");
        text.push_str(service.name.as_str());
        text.push_str(" ");
        assert(text@ =~= decimal(id as nat) + " "@ + service.name@ + " "@);
        items.push(list_item(text, service.state.label(), status_color(&service.state)));
        id += 1;
    }
    assert(items@.map_values(|item: ratatui::widgets::ListItem<'static>| entry(item)) =~= listed(
        *app,
        first,
    ));
    draw_list(frame, items, app.selected - first, "› ", " Services ", area);
}

fn render_logs(frame: &mut ratatui::Frame<'_>, app: &App, area: Rect)
    requires
        frame_area(*old(frame)).covers(area),
    ensures
        frame_area(*final(frame)) == frame_area(*old(frame)),
        frame_buffer(*final(frame)) == painted(
            frame_buffer(*old(frame)),
            logs_drawing(*app, area),
        ),
{
    if app.selected < app.services.len() {
        let service = &app.services[app.selected];
        let offset: usize = match &service.terminal {
            Some(terminal) => terminal.offset(),
            None => 0,
        };
        let mut title = " ".to_owned();
        title.push_str(service.name.as_str());
        title.push_str(" · ");
        title.push_str(service.state.label().as_str());
        title.push_str(" ");
        let mut bottom = String::new();
        if offset == 0 {
            bottom.push_str(" LIVE ");
            assert(bottom@ =~= " LIVE "@);
        } else {
            bottom.push_str(" ↑ ");
            push_decimal(&mut bottom, offset as u64);
            bottom.push_str(" lines · End: live ");
            assert(bottom@ =~= position_text(offset));
        }
        match &service.terminal {
            Some(terminal) if terminal.received_output => {
                let cursor = service.state.is_active() && offset == 0;
                draw_terminal(frame, terminal.screen(), cursor, title, bottom, area);
            },
            _ => {
                proof {
                    reveal_strlit("No output yet. Press s to start a stopped service.");
                }
                draw_framed(
                    frame,
                    "No output yet. Press s to start a stopped service.",
                    title,
                    bottom,
                    area,
                );
            },
        }
        proof {
            painted_one(frame_buffer(*old(frame)), logs_drawing(*app, area));
        }
    }
}

// ---- What holds of every input ----

/// The wheel never changes which service is selected.
pub proof fn the_wheel_selects_nothing(
    app: App,
    next: App,
    mouse: MouseEvent,
    area: Rect,
    action: Option<Action>,
)
    requires
        handled_to(app, next, TerminalEvent::Mouse(mouse), area, action),
        mouse.kind is ScrollUp || mouse.kind is ScrollDown,
    ensures
        next.selected == app.selected,
        action is None,
{
}

/// A click on a line of the sidebar selects the service that the line shows.
pub proof fn a_click_selects_what_is_listed(
    app: App,
    next: App,
    mouse: MouseEvent,
    area: Rect,
    action: Option<Action>,
)
    requires
        handled_to(app, next, TerminalEvent::Mouse(mouse), area, action),
        large_enough(area),
        mouse.kind == MouseEventKind::Down(MouseButton::Left),
        panes_of(area).sidebar.within_border().has(mouse.column as int, mouse.row as int),
    ensures
        ({
            let sidebar = panes_of(area).sidebar.within_border();
            let lines = listed(app, first_listed(app, sidebar.height));
            let line = mouse.row - sidebar.y;
            &&& line < lines.len() ==> lines[line].service == decimal(next.selected as nat) + " "@
                + app.services@[next.selected as int].name@ + " "@
            &&& line >= lines.len() ==> next.selected == app.selected
        }),
{
}

// ---- What is where ----

/// On a screen whose cells can all be counted, and that is large enough, the last
/// row is the footer. Above it, the sidebar takes a third of the columns, from ten
/// to thirty, and the logs have all the others.
pub proof fn the_screen_is_divided(area: Rect)
    requires
        area.width >= 24 && area.height >= 4,
        area.x + area.width <= u16::MAX,
        area.y + area.height <= u16::MAX,
    ensures
        ({
            let panes = panes_of(area);
            let third = area.width / 3;
            &&& panes.sidebar.x == area.x && panes.sidebar.y == area.y
            &&& panes.sidebar.height == area.height - 1
            &&& third < 10 ==> panes.sidebar.width == 10
            &&& 10 <= third <= 30 ==> panes.sidebar.width == third
            &&& third > 30 ==> panes.sidebar.width == 30
            &&& panes.logs.x == area.x + panes.sidebar.width && panes.logs.y == area.y
            &&& panes.logs.height == area.height - 1
            &&& panes.logs.width == area.width - panes.sidebar.width
            &&& panes.footer.x == area.x && panes.footer.y == area.y + area.height - 1
            &&& panes.footer.width == area.width && panes.footer.height == 1
        }),
{
}

/// Terminals have the size of the logs without their border, and on every screen
/// at least one cell.
pub proof fn terminals_fill_the_logs(area: Rect)
    ensures
        ({
            let inner = panes_of(area).logs.within_border();
            &&& inner.height > 0 ==> pane_size(area).rows == inner.height
            &&& inner.height == 0 ==> pane_size(area).rows == 1
            &&& inner.width > 0 ==> pane_size(area).cols == inner.width
            &&& inner.width == 0 ==> pane_size(area).cols == 1
        }),
        area.width >= 24 && area.height >= 4 && area.x + area.width <= u16::MAX && area.y
            + area.height <= u16::MAX ==> pane_size(area).rows == area.height - 3 && pane_size(
            area,
        ).cols == area.width - panes_of(area).sidebar.width - 2,
{
}

/// A screen too narrow for the sidebar is all sidebar but for its footer, and one
/// too low for anything else is all footer.
pub proof fn small_screens_are_divided_too(area: Rect)
    requires
        area.x + area.width <= u16::MAX,
        area.y + area.height <= u16::MAX,
    ensures
        ({
            let panes = panes_of(area);
            &&& area.width <= 10 ==> panes.sidebar.width == area.width && panes.logs.width == 0
            &&& 10 < area.width < 24 ==> panes.sidebar.width == 10 && panes.logs.width
                == area.width - 10
            &&& area.height == 0 ==> panes.footer.height == 0 && panes.logs.height == 0
            &&& area.height > 0 ==> panes.footer.height == 1 && panes.logs.height == area.height
                - 1
            &&& panes.sidebar.height == panes.logs.height
            &&& panes.footer.width == area.width
        }),
{
}

/// The sidebar lists services from the first one on, and scrolls only as far as it
/// takes to show the selected one in its last row.
pub proof fn the_sidebar_scrolls_no_more_than_it_must(app: App, height: u16)
    requires
        height > 0,
    ensures
        app.selected < height ==> first_listed(app, height) == 0,
        app.selected >= height ==> first_listed(app, height) + height == app.selected + 1,
{
}

// ---- What input does ----

/// The wheel over the logs scrolls the terminal of the selected service by three
/// rows, as far as there are rows, and does nothing else.
pub proof fn the_wheel_scrolls_the_logs(
    app: App,
    next: App,
    mouse: MouseEvent,
    area: Rect,
    action: Option<Action>,
)
    requires
        handled_to(app, next, TerminalEvent::Mouse(mouse), area, action),
        area.width >= 24 && area.height >= 4,
        panes_of(area).logs.within_border().has(mouse.column as int, mouse.row as int),
        mouse.kind is ScrollUp || mouse.kind is ScrollDown,
    ensures
        action is None,
        next.selected == app.selected && next.failed == app.failed,
        next.log_height == app.log_height,
        next.services@.len() == app.services@.len(),
        forall|i: int|
            0 <= i < app.services@.len() && i != app.selected ==> #[trigger] next.services@[i]
                == app.services@[i],
        app.selected < app.services@.len() ==> ({
            let before = app.services@[app.selected as int];
            let after = next.services@[app.selected as int];
            &&& after.state == before.state && after.run == before.run
            &&& after.name == before.name && after.autostart == before.autostart
            &&& after.hide_stderr == before.hide_stderr
            &&& before.terminal is None ==> after.terminal is None
            &&& before.terminal matches Some(terminal) ==> {
                let offset = screen_offset(terminal.shown());
                let history = crate::terminal::screen_history(terminal.shown());
                let reached = screen_offset(after.terminal->Some_0.shown());
                &&& after.terminal is Some
                &&& after.terminal->Some_0.pending() == terminal.pending()
                &&& after.terminal->Some_0.unfinished() == terminal.unfinished()
                &&& after.terminal->Some_0.received_output == terminal.received_output
                &&& crate::terminal::screen_history(after.terminal->Some_0.shown()) == history
                &&& mouse.kind is ScrollUp && offset + 3 <= history ==> reached == offset + 3
                &&& mouse.kind is ScrollUp && offset + 3 > history ==> reached == history
                &&& mouse.kind is ScrollDown && 3 <= offset <= history ==> reached == offset - 3
                &&& mouse.kind is ScrollDown && offset < 3 ==> reached == 0
            }
        }),
{
}

/// A left click on a line of the sidebar selects the service that stands there,
/// and changes nothing else. Below the last service it does nothing.
pub proof fn a_click_selects_a_service(
    app: App,
    next: App,
    mouse: MouseEvent,
    area: Rect,
    action: Option<Action>,
)
    requires
        handled_to(app, next, TerminalEvent::Mouse(mouse), area, action),
        area.width >= 24 && area.height >= 4,
        !panes_of(area).logs.within_border().has(mouse.column as int, mouse.row as int),
        panes_of(area).sidebar.within_border().has(mouse.column as int, mouse.row as int),
        mouse.kind == MouseEventKind::Down(MouseButton::Left),
    ensures
        ({
            let inner = panes_of(area).sidebar.within_border();
            let index = first_listed(app, inner.height) + (mouse.row - inner.y);
            &&& action is None
            &&& next.services == app.services && next.failed == app.failed
            &&& next.log_height == app.log_height
            &&& index < app.services@.len() ==> next.selected == index
            &&& index >= app.services@.len() ==> next.selected == app.selected
        }),
{
}

/// The mouse does nothing else: not on a screen that is too small, not with other
/// buttons, not outside of the logs and the sidebar, and no click on the logs and
/// no wheel on the sidebar.
pub proof fn the_mouse_does_nothing_else(
    app: App,
    next: App,
    mouse: MouseEvent,
    area: Rect,
    action: Option<Action>,
)
    requires
        handled_to(app, next, TerminalEvent::Mouse(mouse), area, action),
        ({
            let (column, row) = (mouse.column as int, mouse.row as int);
            let on_logs = panes_of(area).logs.within_border().has(column, row);
            let on_sidebar = panes_of(area).sidebar.within_border().has(column, row);
            ||| area.width < 24 || area.height < 4
            ||| !on_logs && !on_sidebar
            ||| mouse.kind is Other || mouse.kind == MouseEventKind::Down(MouseButton::Other)
            ||| on_logs && mouse.kind is Down
            ||| !on_logs && (mouse.kind is ScrollUp || mouse.kind is ScrollDown)
        }),
    ensures
        next == app,
        action is None,
{
}

/// A key does the same on every screen, and other input does nothing.
pub proof fn keys_need_no_screen(
    app: App,
    next: App,
    key: KeyEvent,
    area: Rect,
    action: Option<Action>,
    other: (App, Option<Action>),
)
    requires
        handled_to(app, next, TerminalEvent::Key(key), area, action),
        handled_to(app, other.0, TerminalEvent::Other, area, other.1),
    ensures
        app.keyed_to(next, key, action),
        other.0 == app && other.1 is None,
{
}

// ---- What is drawn ----

/// The colors of the states.
pub proof fn states_have_their_colors(code: i32, error: String)
    ensures
        color_of(State::Running) is Green,
        color_of(State::Starting) is Yellow,
        color_of(State::Stopping) is Yellow,
        color_of(State::Failed(error)) is Red,
        color_of(State::Exited(None)) is Red,
        code != 0 ==> color_of(State::Exited(Some(code))) is Red,
        color_of(State::Exited(Some(0))) is DarkGray,
        color_of(State::Stopped) is DarkGray,
{
}

/// A screen that is too small shows how to go on, and nothing else.
pub proof fn a_small_screen_asks_to_be_enlarged(app: App, area: Rect)
    requires
        area.width < 24 || area.height < 4,
    ensures
        scene(app, area) == seq![
            Drawing::Text { area, text: "Accordo · enlarge terminal"@, dim: false },
        ],
{
}

/// A screen that is large enough shows the sidebar first and the keys last, and
/// between them one drawing of the selected service's logs, if one is selected.
pub proof fn a_screen_shows_the_sidebar_the_logs_and_the_keys(app: App, area: Rect)
    requires
        area.width >= 24 && area.height >= 4,
    ensures
        app.selected < app.services@.len() ==> scene(app, area).len() == 3,
        app.selected >= app.services@.len() ==> scene(app, area).len() == 2,
        scene(app, area)[0] is List,
        scene(app, area).last() == (Drawing::Text {
            area: panes_of(area).footer,
            text:
                "↑↓/0–9 select · wheel/PgUp/Dn scroll · End live · s start/stop · r restart · q quit"@,
            dim: true,
        }),
{
}

/// What a service wrote to its terminal stays in view, in whatever state the
/// service is: the logs pane shows the terminal's screen, with a cursor just while
/// the service is active and the view is live, and nothing says that there is no
/// output.
pub proof fn output_stays_in_view(app: App, area: Rect)
    requires
        area.width >= 24 && area.height >= 4,
        app.selected < app.services@.len(),
        app.services@[app.selected as int].terminal is Some,
        app.services@[app.selected as int].terminal->Some_0.received_output,
    ensures
        ({
            let service = app.services@[app.selected as int];
            let screen = service.terminal->Some_0.shown();
            let logs = scene(app, area)[1];
            &&& logs is Terminal
            &&& logs->Terminal_area == panes_of(area).logs
            &&& logs->screen == screen
            &&& logs->cursor == ((service.state is Starting || service.state is Running
                || service.state is Stopping) && screen_offset(screen) == 0)
            &&& forall|i: int|
                0 <= i < scene(app, area).len() ==> !(#[trigger] scene(app, area)[i] is Framed)
        }),
{
}

/// Just where the selected service has no terminal, or one that received nothing,
/// the logs pane says that there is no output and how to start the service.
pub proof fn missing_output_is_said(app: App, area: Rect)
    requires
        area.width >= 24 && area.height >= 4,
        app.selected < app.services@.len(),
        app.services@[app.selected as int].terminal matches Some(terminal)
            ==> !terminal.received_output,
    ensures
        ({
            let logs = scene(app, area)[1];
            &&& logs is Framed
            &&& logs->Framed_area == panes_of(area).logs
            &&& logs->Framed_text == "No output yet. Press s to start a stopped service."@
        }),
{
}

/// The logs pane says which service it shows, in which state that is, and whether
/// its output is live or how many rows it is scrolled back.
pub proof fn the_logs_say_what_they_show(app: App, area: Rect)
    requires
        area.width >= 24 && area.height >= 4,
        app.selected < app.services@.len(),
    ensures
        ({
            let service = app.services@[app.selected as int];
            let title = " "@ + service.name@ + " · "@ + service.state.label_text() + " "@;
            let offset = match service.terminal {
                Some(terminal) => screen_offset(terminal.shown()),
                None => 0,
            };
            let bottom = if offset == 0 {
                " LIVE "@
            } else {
                " ↑ "@ + decimal(offset as nat) + " lines · End: live "@
            };
            match scene(app, area)[1] {
                Drawing::Terminal { title: said, bottom: below, .. } => said == title && below
                    == bottom,
                Drawing::Framed { title: said, bottom: below, .. } => said == title && below
                    == bottom,
                _ => false,
            }
        }),
{
}

/// The sidebar lists the services from the first one shown on, each with its
/// number, its name, its state and the color of that, and marks the selected one.
pub proof fn the_sidebar_lists_the_services(app: App, area: Rect, line: int)
    requires
        area.width >= 24 && area.height >= 4,
    ensures
        ({
            let sidebar = scene(app, area)[0];
            let first = first_listed(app, panes_of(area).sidebar.within_border().height);
            &&& sidebar is List
            &&& sidebar->List_area == panes_of(area).sidebar
            &&& sidebar->List_title == " Services "@
            &&& sidebar->marker == "› "@
            &&& first <= app.selected
            &&& first <= app.services@.len() ==> sidebar->items.len() == app.services@.len() - first
            &&& first > app.services@.len() ==> sidebar->items.len() == 0
            &&& first + sidebar->marked == app.selected
            &&& 0 <= line < sidebar->items.len() ==> {
                let service = app.services@[first + line];
                let item = sidebar->items[line];
                &&& item.service == decimal((first + line) as nat) + " "@ + service.name@ + " "@
                &&& item.state == service.state.label_text()
                &&& item.color == color_of(service.state)
            }
        }),
{
}

/// What is drawn later lies over what is drawn before, and everything is drawn.
pub proof fn drawings_are_drawn_in_order(
    cells: ratatui::buffer::Buffer,
    drawings: Seq<Drawing>,
    drawing: Drawing,
)
    ensures
        painted(cells, Seq::empty()) == cells,
        painted(cells, drawings.push(drawing)) == match drawing {
            Drawing::Text { area, text, dim } => text_on(
                painted(cells, drawings),
                area,
                text,
                dim,
            ),
            Drawing::List { area, title, items, marked, marker } => list_on(
                painted(cells, drawings),
                area,
                title,
                items,
                marked,
                marker,
            ),
            Drawing::Framed { area, title, bottom, text } => framed_on(
                painted(cells, drawings),
                area,
                title,
                bottom,
                text,
            ),
            Drawing::Terminal { area, title, bottom, screen, cursor } => terminal_on(
                painted(cells, drawings),
                area,
                title,
                bottom,
                screen,
                cursor,
            ),
        },
{
    assert(drawings.push(drawing).drop_last() =~= drawings);
}

// ---- What rectangles hold ----

/// A rectangle whose cells can all be counted holds those from its corner on, as
/// many as it is wide and high. Within its border it holds one less on each side.
pub proof fn rectangles_hold_their_cells(area: Rect, column: int, row: int)
    requires
        area.x + area.width <= u16::MAX,
        area.y + area.height <= u16::MAX,
    ensures
        area.has(column, row) == (area.x <= column < area.x + area.width && area.y <= row < area.y
            + area.height),
        area.right() == area.x + area.width,
        area.bottom() == area.y + area.height,
        area.width >= 2 && area.height >= 2 ==> {
            let inner = area.within_border();
            &&& inner.x == area.x + 1 && inner.y == area.y + 1
            &&& inner.width == area.width - 2 && inner.height == area.height - 2
        },
{
}

/// Coordinates end at the last one that can be counted.
pub proof fn coordinates_end(start: u16, size: u16)
    ensures
        start + size <= u16::MAX ==> span_end(start, size) == start + size,
        start + size > u16::MAX ==> span_end(start, size) == u16::MAX,
{
}

} // verus!
