//! The tabbed view: its panes, its input and what is drawn.

use accordo::app::{App, KeyCode, KeyEvent, KeyModifiers};
use accordo::config::Service;
use accordo::pty::TerminalSize;
use accordo::supervisor::State;
use accordo::view::{
    handle_input, panes, render, terminal_size, MouseButton, MouseEvent, MouseEventKind, Rect,
    TerminalEvent,
};
use ratatui::backend::TestBackend;
use ratatui::buffer::Cell;
use ratatui::layout::{Constraint, Layout};
use ratatui::style::{Color, Modifier};
use ratatui::widgets::Block;
use ratatui::Terminal;

const NONE: KeyModifiers = KeyModifiers {
    control: false,
    alt: false,
};

fn service(name: &str) -> Service {
    Service {
        name: name.into(),
        cmd: "true".into(),
        cwd: ".".into(),
        autostart: false,
        hide_stderr: false,
    }
}

fn contents(terminal: &Terminal<TestBackend>) -> String {
    terminal
        .backend()
        .buffer()
        .content
        .iter()
        .map(Cell::symbol)
        .collect::<String>()
}

fn row(terminal: &Terminal<TestBackend>, columns: std::ops::Range<u16>, row: u16) -> String {
    columns
        .map(|column| terminal.backend().buffer()[(column, row)].symbol())
        .collect::<String>()
}

fn inner(area: Rect) -> ratatui::layout::Rect {
    Block::bordered().inner(outside(area))
}

fn outside(area: Rect) -> ratatui::layout::Rect {
    ratatui::layout::Rect {
        x: area.x,
        y: area.y,
        width: area.width,
        height: area.height,
    }
}

fn within(area: ratatui::layout::Rect) -> Rect {
    Rect {
        x: area.x,
        y: area.y,
        width: area.width,
        height: area.height,
    }
}

#[test]
fn terminal_widget_renders_styles_and_cursor_redraws_inside_the_pane() {
    let services = [service("app")];
    let area = Rect::new(0, 0, 80, 12);
    let mut app = App::terminal(&services, terminal_size(area));
    app.services[0]
        .terminal
        .as_mut()
        .unwrap()
        .process(b"old progress\r\x1b[2K\x1b[31mready\x1b[0m");
    let mut terminal = Terminal::new(TestBackend::new(80, 12)).unwrap();
    terminal.draw(|frame| render(frame, &app)).unwrap();
    let inner = inner(panes(area).logs);
    let cell = &terminal.backend().buffer()[(inner.x, inner.y)];
    assert_eq!(cell.symbol(), "r");
    assert_eq!(cell.fg, Color::Indexed(1));
    let row = row(&terminal, inner.x..inner.right(), inner.y);
    assert_eq!(row.trim(), "ready");
}

#[test]
fn wheel_scrolls_visible_logs_without_changing_services() {
    let mut app = App::terminal(
        &[service("first"), service("second")],
        TerminalSize::new(9, 52),
    );
    app.services[0].terminal.as_mut().unwrap().process(
        (0..100)
            .map(|index| format!("line-{index:03}"))
            .collect::<Vec<_>>()
            .join("\r\n")
            .as_bytes(),
    );
    let area = Rect::new(0, 0, 80, 12);
    app.resize_terminal(terminal_size(area));
    let wheel = |kind, column| {
        TerminalEvent::Mouse(MouseEvent {
            kind,
            column,
            row: 2,
        })
    };
    handle_input(&mut app, &wheel(MouseEventKind::ScrollUp, 50), area);
    assert_eq!(app.selected, 0);
    assert_eq!(app.services[0].terminal.as_ref().unwrap().offset(), 3);
    let mut terminal = Terminal::new(TestBackend::new(80, 12)).unwrap();
    terminal.draw(|frame| render(frame, &app)).unwrap();
    let text = contents(&terminal);
    assert!(text.contains("line-088"));
    assert!(!text.contains("line-099"));
    handle_input(&mut app, &wheel(MouseEventKind::ScrollUp, 2), area);
    assert_eq!(app.selected, 0);
    assert_eq!(app.services[0].terminal.as_ref().unwrap().offset(), 3);
    handle_input(&mut app, &wheel(MouseEventKind::ScrollDown, 50), area);
    assert_eq!(app.services[0].terminal.as_ref().unwrap().offset(), 0);
    handle_input(
        &mut app,
        &TerminalEvent::Key(KeyEvent::new(KeyCode::PageUp, NONE)),
        area,
    );
    assert_eq!(app.selected, 0);
    assert!(app.services[0].terminal.as_ref().unwrap().offset() > 0);
    handle_input(
        &mut app,
        &TerminalEvent::Key(KeyEvent::new(KeyCode::End, NONE)),
        area,
    );
    terminal.draw(|frame| render(frame, &app)).unwrap();
    let text = contents(&terminal);
    assert!(text.contains("line-099"));
    handle_input(
        &mut app,
        &wheel(MouseEventKind::Down(MouseButton::Left), 2),
        area,
    );
    assert_eq!(app.selected, 1);
}

#[test]
fn services_are_listed_vertically_on_the_left() {
    let mut app = App::terminal(
        &[service("first"), service("second")],
        TerminalSize::new(9, 52),
    );
    app.services[0]
        .terminal
        .as_mut()
        .unwrap()
        .process(b"LOG_CONTENT");
    let mut terminal = Terminal::new(TestBackend::new(80, 12)).unwrap();
    terminal.draw(|frame| render(frame, &app)).unwrap();
    let left: Vec<String> = (0..12).map(|line| row(&terminal, 0..26, line)).collect();
    let first = left
        .iter()
        .position(|row| row.contains("first"))
        .expect("first service on left");
    let second = left
        .iter()
        .position(|row| row.contains("second"))
        .expect("second service on left");
    assert!(
        second > first,
        "service names must be on separate sidebar rows"
    );
    assert!(!left.iter().any(|row| row.contains("LOG_CONTENT")));
}

#[test]
fn renders_selection_status_empty_output_and_small_sizes() {
    let mut app = App::terminal(
        &[service("first"), service("second")],
        TerminalSize::new(9, 52),
    );
    app.selected = 1;
    app.services[1].state = State::Exited(Some(42));
    for (width, height) in [(80, 24), (24, 6), (8, 2), (1, 1)] {
        let mut terminal = Terminal::new(TestBackend::new(width, height)).unwrap();
        terminal.draw(|frame| render(frame, &app)).unwrap();
        if width == 80 {
            let contents = contents(&terminal);
            assert!(contents.contains("second"));
            assert!(contents.contains("exited (42)"));
            assert!(contents.contains("No output yet"));
            assert!(contents.contains("first"));
        } else if width == 24 {
            let top = row(&terminal, 0..width, 0);
            assert!(top.contains("second"));
        }
    }
}

#[test]
fn panes_are_split_as_ratatui_splits_them() {
    for width in (0..200).chain([1000, 65_535]) {
        for height in (0..12).chain([100, 65_535]) {
            for (x, y) in [(0, 0), (3, 2), (65_520, 65_530), (65_535, 65_535)] {
                let area = Rect {
                    x,
                    y,
                    width,
                    height,
                };
                let vertical = Layout::vertical([Constraint::Min(0), Constraint::Length(1)])
                    .split(outside(area));
                let horizontal = Layout::horizontal([
                    Constraint::Length((area.width / 3).clamp(10, 30)),
                    Constraint::Min(0),
                ])
                .split(vertical[0]);
                let panes = panes(area);
                assert_eq!(panes.sidebar, within(horizontal[0]), "{area:?}");
                assert_eq!(panes.logs, within(horizontal[1]), "{area:?}");
                assert_eq!(panes.footer, within(vertical[1]), "{area:?}");
                let inner = inner(panes.logs);
                let size = terminal_size(area);
                assert_eq!(size, TerminalSize::new(inner.height, inner.width));
            }
        }
    }
}

#[test]
fn panes_split_by_the_stated_sums() {
    for width in 0..100_u16 {
        for height in 0..8_u16 {
            for (x, y) in [(0_u16, 0_u16), (7, 5)] {
                let area = Rect::new(x, y, width, height);
                let panes = panes(area);
                let sidebar = (width / 3).clamp(10, 30).min(width);
                let footer = height.min(1);
                let body = height - footer;
                assert_eq!(panes.sidebar, Rect::new(x, y, sidebar, body));
                assert_eq!(panes.logs, Rect::new(x + sidebar, y, width - sidebar, body));
                assert_eq!(panes.footer, Rect::new(x, y + body, width, footer));
                let size = terminal_size(area);
                assert_eq!(size.rows, body.saturating_sub(2).max(1));
                assert_eq!(size.cols, (width - sidebar).saturating_sub(2).max(1));
            }
        }
    }
}

#[test]
fn every_cell_is_in_one_pane() {
    for (width, height) in [(80, 12), (24, 4), (9, 3), (1, 1)] {
        let area = Rect::new(2, 1, width, height);
        let panes = panes(area);
        for column in 0..90 {
            for row in 0..20 {
                let count = [panes.sidebar, panes.logs, panes.footer]
                    .iter()
                    .filter(|pane| pane.contains(column, row))
                    .count();
                assert_eq!(count, usize::from(area.contains(column, row)));
            }
        }
    }
}

#[test]
fn rectangles_end_where_coordinates_end() {
    let area = Rect::new(65_530, 65_530, 10, 3);
    assert_eq!((area.width, area.height), (5, 3));
    assert!(area.contains(65_534, 65_532));
    assert!(!area.contains(65_535, 65_532));
    assert!(!area.contains(65_534, 65_533));
    assert!(!area.contains(65_529, 65_530));
}

#[test]
fn clicks_outside_the_list_and_on_small_screens_select_nothing() {
    let mut app = App::terminal(
        &[service("first"), service("second")],
        TerminalSize::new(9, 52),
    );
    let area = Rect::new(0, 0, 80, 12);
    let click = |column, row| {
        TerminalEvent::Mouse(MouseEvent {
            kind: MouseEventKind::Down(MouseButton::Left),
            column,
            row,
        })
    };
    for (column, row) in [(2, 3), (2, 0), (0, 2), (50, 2), (2, 11)] {
        handle_input(&mut app, &click(column, row), area);
        assert_eq!(app.selected, 0);
    }
    handle_input(&mut app, &click(2, 2), Rect::new(0, 0, 23, 12));
    assert_eq!(app.selected, 0);
    handle_input(&mut app, &click(2, 2), Rect::new(0, 0, 80, 3));
    assert_eq!(app.selected, 0);
    let other = TerminalEvent::Mouse(MouseEvent {
        kind: MouseEventKind::Down(MouseButton::Other),
        column: 2,
        row: 2,
    });
    handle_input(&mut app, &other, area);
    assert_eq!(app.selected, 0);
    assert_eq!(handle_input(&mut app, &TerminalEvent::Other, area), None);
    handle_input(&mut app, &click(2, 2), area);
    assert_eq!(app.selected, 1);
}

#[test]
fn a_long_list_shows_the_selected_service_and_clicks_follow_it() {
    let services: Vec<Service> = (0..30)
        .map(|index| service(&format!("app{index}")))
        .collect();
    let mut app = App::terminal(&services, TerminalSize::new(9, 52));
    app.selected = 20;
    let area = Rect::new(0, 0, 80, 12);
    let mut terminal = Terminal::new(TestBackend::new(80, 12)).unwrap();
    terminal.draw(|frame| render(frame, &app)).unwrap();
    assert!(row(&terminal, 0..26, 1).contains("12 app12 stopped"));
    assert!(row(&terminal, 0..26, 9).contains("› 20 app20 stopped"));
    handle_input(
        &mut app,
        &TerminalEvent::Mouse(MouseEvent {
            kind: MouseEventKind::Down(MouseButton::Left),
            column: 2,
            row: 3,
        }),
        area,
    );
    assert_eq!(app.selected, 14);
}

#[test]
fn states_have_their_colors_and_the_selection_stands_out() {
    let services: Vec<Service> = (0..7)
        .map(|index| service(&format!("app{index}")))
        .collect();
    let mut app = App::terminal(&services, TerminalSize::new(9, 52));
    app.services[1].state = State::Starting;
    app.services[2].state = State::Running;
    app.services[3].state = State::Stopping;
    app.services[4].state = State::Exited(None);
    app.services[5].state = State::Exited(Some(0));
    app.services[6].state = State::Failed("x".into());
    let mut terminal = Terminal::new(TestBackend::new(100, 14)).unwrap();
    terminal.draw(|frame| render(frame, &app)).unwrap();
    let buffer = terminal.backend().buffer();
    let expected = [
        Color::DarkGray,
        Color::Yellow,
        Color::Green,
        Color::Yellow,
        Color::Red,
        Color::DarkGray,
        Color::Red,
    ];
    for (index, color) in expected.into_iter().enumerate() {
        let line = u16::try_from(index).unwrap() + 1;
        assert_eq!(buffer[(10, line)].fg, color, "{index}");
        assert_eq!(buffer[(3, line)].symbol(), index.to_string());
    }
    assert_eq!(buffer[(1, 1)].symbol(), "›");
    assert_eq!(buffer[(3, 1)].bg, Color::DarkGray);
    assert!(buffer[(3, 1)].modifier.contains(Modifier::BOLD));
    assert_eq!(buffer[(3, 2)].bg, Color::Reset);
    assert!(row(&terminal, 0..30, 0).contains(" Services "));
}

#[test]
fn titles_tell_the_place_and_the_footer_the_keys() {
    let area = Rect::new(0, 0, 120, 12);
    let mut app = App::terminal(&[service("app")], terminal_size(area));
    app.services[0].state = State::Running;
    for index in 0..50 {
        app.services[0]
            .terminal
            .as_mut()
            .unwrap()
            .process(format!("line-{index}\r\n").as_bytes());
    }
    let mut terminal = Terminal::new(TestBackend::new(120, 12)).unwrap();
    terminal.draw(|frame| render(frame, &app)).unwrap();
    assert!(row(&terminal, 0..120, 0).contains(" app · running "));
    assert!(row(&terminal, 0..120, 10).contains(" LIVE "));
    assert!(row(&terminal, 0..120, 11).starts_with(
        "↑↓/0–9 select · wheel/PgUp/Dn scroll · End live · s start/stop · r restart · q quit"
    ));
    assert!(terminal.backend().buffer()[(0, 11)]
        .modifier
        .contains(Modifier::DIM));
    assert!(contents(&terminal).contains('█'));
    app.scroll_logs(true, 5);
    terminal.draw(|frame| render(frame, &app)).unwrap();
    assert!(row(&terminal, 0..120, 10).contains(" ↑ 5 lines · End: live "));
    assert!(!contents(&terminal).contains('█'));
}

#[test]
fn the_cursor_shows_only_while_a_service_is_active() {
    let area = Rect::new(0, 0, 80, 12);
    let mut app = App::terminal(&[service("app")], terminal_size(area));
    app.services[0].terminal.as_mut().unwrap().process(b"x");
    let mut terminal = Terminal::new(TestBackend::new(80, 12)).unwrap();
    terminal.draw(|frame| render(frame, &app)).unwrap();
    assert!(!contents(&terminal).contains('█'));
    app.services[0].state = State::Stopping;
    terminal.draw(|frame| render(frame, &app)).unwrap();
    assert!(contents(&terminal).contains('█'));
}

#[test]
fn a_small_screen_asks_for_more_room() {
    let app = App::terminal(&[service("app")], TerminalSize::new(1, 1));
    let mut terminal = Terminal::new(TestBackend::new(40, 3)).unwrap();
    terminal.draw(|frame| render(frame, &app)).unwrap();
    assert_eq!(
        row(&terminal, 0..40, 0).trim_end(),
        "Accordo · enlarge terminal"
    );
    assert!(!terminal.backend().buffer()[(0, 0)]
        .modifier
        .contains(Modifier::DIM));
    let empty = App::new(&[]);
    let mut terminal = Terminal::new(TestBackend::new(80, 12)).unwrap();
    terminal.draw(|frame| render(frame, &empty)).unwrap();
    assert!(row(&terminal, 0..30, 0).contains(" Services "));
    assert!(!contents(&terminal).contains("LIVE"));
}
