//! Keys and events, and what they do to what is known of the services.

use std::sync::Arc;

use accordo::app::{Action, App, KeyCode, KeyEvent, KeyEventKind, KeyModifiers};
use accordo::config::Service;
use accordo::pty::TerminalSize;
use accordo::supervisor::{Command, Event, EventKind, State, Stream};
use accordo::terminal::TerminalView;
use tokio::sync::Semaphore;

const NONE: KeyModifiers = KeyModifiers {
    control: false,
    alt: false,
};
const CONTROL: KeyModifiers = KeyModifiers {
    control: true,
    alt: false,
};
const ALT: KeyModifiers = KeyModifiers {
    control: false,
    alt: true,
};

fn app() -> App {
    App::new(
        &(0..12)
            .map(|index| Service {
                name: format!("app{index}"),
                cmd: "true".into(),
                cwd: ".".into(),
                autostart: true,
                hide_stderr: false,
            })
            .collect::<Vec<_>>(),
    )
}

fn key(code: KeyCode) -> KeyEvent {
    KeyEvent::new(code, NONE)
}

fn state(service: usize, run: u64, state: State) -> Event {
    Event {
        service,
        run,
        kind: EventKind::State(state),
    }
}

#[test]
fn selection_wraps_and_lifecycle_keys_coalesce() {
    let mut app = app();
    app.key(key(KeyCode::Up));
    assert_eq!(app.selected, 11);
    app.key(key(KeyCode::Down));
    assert_eq!(app.selected, 0);
    app.key(key(KeyCode::Char('9')));
    assert_eq!(app.selected, 9);
    assert_eq!(
        app.key(key(KeyCode::Char('s'))),
        Some(Action::Service(9, Command::Start))
    );
    assert_eq!(app.key(key(KeyCode::Char('r'))), None);
    app.services[9].state = State::Running;
    assert_eq!(
        app.key(key(KeyCode::Char('r'))),
        Some(Action::Service(9, Command::Restart))
    );
    assert_eq!(
        app.key(KeyEvent::new(KeyCode::Char('c'), CONTROL)),
        Some(Action::Quit(130))
    );
}

#[test]
fn linear_stderr_filter_keeps_stdout_and_failures() {
    let capacity = Arc::new(Semaphore::new(1));
    let mut app = app();
    app.services[0].hide_stderr = true;
    let output = |service, stream, text: &str| Event {
        service,
        run: 1,
        kind: EventKind::Output {
            stream,
            text: text.into(),
            permit: capacity.clone().try_acquire_owned().unwrap(),
        },
    };
    assert!(app.apply(output(0, Stream::Stderr, "hidden")).is_none());
    assert_eq!(capacity.available_permits(), 1);
    assert_eq!(
        app.apply(output(0, Stream::Stdout, "stdout")).unwrap(),
        "[0 app0] stdout"
    );
    assert_eq!(
        app.apply(output(1, Stream::Stderr, "visible")).unwrap(),
        "[1 app1] [stderr] visible"
    );
    assert!(app
        .apply(Event {
            service: 0,
            run: 1,
            kind: EventKind::State(State::Exited(Some(7)))
        })
        .unwrap()
        .contains("exited (7)"));
    assert!(app.failed);
}

#[test]
fn terminal_history_is_per_service_and_stale_runs_are_ignored() {
    let mut app = app();
    for service in &mut app.services {
        service.terminal = Some(TerminalView::new(TerminalSize::new(4, 20)));
    }
    app.resize_terminal(TerminalSize::new(4, 20));
    app.services[0].run = 2;
    for index in 0..20 {
        app.services[0]
            .terminal
            .as_mut()
            .unwrap()
            .process(format!("line-{index}\r\n").as_bytes());
    }
    app.key(key(KeyCode::PageUp));
    assert_eq!(app.services[0].terminal.as_ref().unwrap().offset(), 3);
    app.key(key(KeyCode::Char('1')));
    assert_eq!(app.services[1].terminal.as_ref().unwrap().offset(), 0);
    app.key(key(KeyCode::Char('0')));
    assert_eq!(app.services[0].terminal.as_ref().unwrap().offset(), 3);
    let before = app.services[0]
        .terminal
        .as_ref()
        .unwrap()
        .screen()
        .contents();
    let permit = Arc::new(Semaphore::new(1)).try_acquire_owned().unwrap();
    app.apply(Event {
        service: 0,
        run: 1,
        kind: EventKind::Terminal {
            bytes: b"stale".to_vec(),
            permit,
        },
    });
    assert_eq!(
        app.services[0]
            .terminal
            .as_ref()
            .unwrap()
            .screen()
            .contents(),
        before
    );
    assert!(app
        .apply(Event {
            service: 0,
            run: 1,
            kind: EventKind::State(State::Exited(Some(1)))
        })
        .is_none());
    assert!(!app.failed);
    app.key(key(KeyCode::End));
    assert_eq!(app.services[0].terminal.as_ref().unwrap().offset(), 0);
}

#[test]
fn keys_with_modifiers_and_releases_do_nothing() {
    let mut app = app();
    let held = KeyEvent {
        code: KeyCode::Down,
        modifiers: NONE,
        kind: KeyEventKind::Repeat,
    };
    assert_eq!(app.key(held), None);
    let released = KeyEvent {
        code: KeyCode::Char('q'),
        modifiers: NONE,
        kind: KeyEventKind::Release,
    };
    assert_eq!(app.key(released), None);
    assert_eq!(app.key(KeyEvent::new(KeyCode::Char('q'), CONTROL)), None);
    assert_eq!(app.key(KeyEvent::new(KeyCode::Down, ALT)), None);
    assert_eq!(app.key(key(KeyCode::Other)), None);
    assert_eq!(app.key(key(KeyCode::Char('x'))), None);
    assert_eq!(app.selected, 0);
}

#[test]
fn digits_select_only_services_that_there_are() {
    let mut app = App::new(&[]);
    assert_eq!(app.key(key(KeyCode::Up)), None);
    assert_eq!(app.key(key(KeyCode::Down)), None);
    assert_eq!(app.key(key(KeyCode::Char('0'))), None);
    assert_eq!(app.key(key(KeyCode::Char('s'))), None);
    assert_eq!(app.selected, 0);
    let mut app = self::app();
    app.services.truncate(3);
    app.key(key(KeyCode::Char('2')));
    assert_eq!(app.selected, 2);
    app.key(key(KeyCode::Char('3')));
    assert_eq!(app.selected, 2);
}

#[test]
fn down_reaches_every_service_and_up_leads_back() {
    let mut app = app();
    let mut seen = Vec::new();
    for _ in 0..12 {
        seen.push(app.selected);
        app.key(key(KeyCode::Down));
    }
    assert_eq!(seen, (0..12).collect::<Vec<_>>());
    assert_eq!(app.selected, 0);
    for _ in 0..5 {
        app.key(key(KeyCode::Down));
    }
    for _ in 0..5 {
        app.key(key(KeyCode::Up));
    }
    assert_eq!(app.selected, 0);
}

#[test]
fn lifecycle_keys_follow_the_state() {
    let mut app = app();
    app.services[0].state = State::Running;
    assert_eq!(
        app.key(key(KeyCode::Char('s'))),
        Some(Action::Service(0, Command::Stop))
    );
    assert_eq!(app.services[0].state, State::Stopping);
    assert_eq!(app.key(key(KeyCode::Char('s'))), None);
    app.services[0].state = State::Exited(Some(0));
    assert_eq!(
        app.key(key(KeyCode::Char('r'))),
        Some(Action::Service(0, Command::Restart))
    );
    assert_eq!(app.services[0].state, State::Starting);
    assert_eq!(app.key(key(KeyCode::Char('s'))), None);
}

#[test]
fn events_print_their_lines() {
    let mut app = app();
    assert_eq!(
        app.apply(state(2, 1, State::Starting)).unwrap(),
        "[2 app2] --- run 1 ---"
    );
    assert_eq!(
        app.apply(state(2, 1, State::Running)).unwrap(),
        "[2 app2] --- running ---"
    );
    assert_eq!(
        app.apply(state(11, 0, State::Stopped)).unwrap(),
        "[11 app11] --- stopped ---"
    );
    assert_eq!(
        app.apply(state(2, 1, State::Failed("no shell".into())))
            .unwrap(),
        "[2 app2] --- failed: no shell ---"
    );
    assert!(app.apply(state(12, 1, State::Running)).is_none());
}

#[test]
fn failures_stay_and_quitting_tells() {
    let mut app = app();
    assert_eq!(app.key(key(KeyCode::Char('q'))), Some(Action::Quit(0)));
    app.apply(state(0, 1, State::Exited(Some(0))));
    app.apply(state(1, 1, State::Stopped));
    assert!(!app.failed);
    app.apply(state(1, 2, State::Exited(None)));
    assert!(app.failed);
    app.apply(state(1, 3, State::Running));
    assert!(app.failed);
    assert_eq!(app.services[1].run, 3);
    app.apply(state(1, 2, State::Stopped));
    assert_eq!(app.services[1].run, 3);
    assert_eq!(app.services[1].state, State::Running);
    assert_eq!(app.key(key(KeyCode::Char('q'))), Some(Action::Quit(1)));
}

#[test]
fn only_enabled_services_are_waited_for() {
    let mut app = app();
    app.services.truncate(2);
    app.services[1].autostart = false;
    assert!(!app.all_enabled_finished());
    app.apply(state(0, 1, State::Running));
    assert!(!app.all_enabled_finished());
    app.apply(state(0, 1, State::Exited(Some(3))));
    assert!(app.all_enabled_finished());
    app.apply(state(1, 1, State::Running));
    assert!(app.all_enabled_finished());
}

#[test]
fn paging_keeps_a_line_and_moves_at_least_one() {
    for (height, page) in [(10, 9), (3, 2), (2, 1), (1, 1)] {
        let mut app = app();
        app.services[0].terminal = Some(TerminalView::new(TerminalSize::new(3, 20)));
        for index in 0..40 {
            app.services[0]
                .terminal
                .as_mut()
                .unwrap()
                .process(format!("line-{index}\r\n").as_bytes());
        }
        app.log_height = height;
        app.key(key(KeyCode::PageUp));
        app.key(key(KeyCode::PageUp));
        let terminal = app.services[0].terminal.as_ref().unwrap();
        assert_eq!(terminal.offset(), 2 * page);
        app.key(key(KeyCode::PageDown));
        assert_eq!(app.services[0].terminal.as_ref().unwrap().offset(), page);
        app.key(key(KeyCode::Home));
        assert_eq!(app.services[0].terminal.as_ref().unwrap().offset(), 38);
    }
}

#[test]
fn terminals_start_with_the_size_of_the_pane() {
    let services = [Service {
        name: "a".into(),
        cmd: "true".into(),
        cwd: ".".into(),
        autostart: false,
        hide_stderr: true,
    }];
    let mut app = App::terminal(&services, TerminalSize::new(7, 30));
    assert_eq!(app.log_height, 7);
    assert!(app.services[0].hide_stderr);
    let terminal = app.services[0].terminal.as_ref().unwrap();
    assert_eq!(terminal.screen().size(), (7, 30));
    assert!(!terminal.received_output);
    app.resize_terminal(TerminalSize::new(5, 40));
    let terminal = app.services[0].terminal.as_ref().unwrap();
    assert_eq!(terminal.screen().size(), (5, 40));
    assert_eq!(app.log_height, 5);
}

#[test]
fn a_later_run_gets_a_banner_on_the_terminal() {
    let services = [Service {
        name: "a".into(),
        cmd: "true".into(),
        cwd: ".".into(),
        autostart: true,
        hide_stderr: false,
    }];
    let mut app = App::terminal(&services, TerminalSize::new(6, 30));
    app.apply(state(0, 1, State::Starting));
    let permit = Arc::new(Semaphore::new(1)).try_acquire_owned().unwrap();
    app.apply(Event {
        service: 0,
        run: 1,
        kind: EventKind::Terminal {
            bytes: b"first".to_vec(),
            permit,
        },
    });
    let shown = |app: &App| {
        app.services[0]
            .terminal
            .as_ref()
            .unwrap()
            .screen()
            .contents()
    };
    assert_eq!(shown(&app), "first");
    app.apply(state(0, 2, State::Starting));
    assert!(shown(&app).contains("--- run 2 ---"));
    app.apply(state(0, 2, State::Starting));
    assert_eq!(shown(&app).matches("--- run").count(), 1);
}
