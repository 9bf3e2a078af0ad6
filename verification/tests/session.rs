//! Sessions, launches and transport.

use std::path::PathBuf;
use std::sync::Arc;

use accordo::app::{App, KeyCode, KeyEvent, KeyModifiers};
use accordo::config::{Layout, Service};
use accordo::pty::{Launch, Outgoing, Progress, PtyRead, TerminalSize};
use accordo::session::{
    check_terminal, conclude, Linear, LinearInput, LinearStage, LinearTask, Signal, Tabbed,
    TabbedInput, TabbedStage, TabbedTask, INPUT_BATCH, TICK,
};
use accordo::supervisor::{Command, Event, EventKind, State};
use accordo::text::{push_decimal, push_signed};
use accordo::view::{Rect, TerminalEvent};
use tokio::sync::Semaphore;

fn service(name: &str, autostart: bool) -> Service {
    Service {
        name: name.into(),
        cmd: "echo \"a  b\"".into(),
        cwd: "/".into(),
        autostart,
        hide_stderr: false,
    }
}

fn state(service: usize, run: u64, state: State) -> Event {
    Event {
        service,
        run,
        kind: EventKind::State(state),
    }
}

fn terminal_bytes(service: usize, run: u64, bytes: &[u8]) -> Event {
    Event {
        service,
        run,
        kind: EventKind::Terminal {
            bytes: bytes.to_vec(),
            permit: Arc::new(Semaphore::new(1)).try_acquire_owned().unwrap(),
        },
    }
}

#[test]
fn tabs_need_a_terminal_on_both_sides() {
    for stdin in [false, true] {
        for stdout in [false, true] {
            assert_eq!(check_terminal(Layout::Linear, stdin, stdout), Ok(()));
            let result = check_terminal(Layout::Tabbed, stdin, stdout);
            if stdin && stdout {
                assert_eq!(result, Ok(()));
            } else {
                assert_eq!(
                    result.unwrap_err(),
                    "tabbed layout requires an interactive terminal; set layout: linear in your configuration for piped output"
                );
            }
        }
    }
}

#[test]
fn signals_have_their_exit_codes() {
    assert_eq!(Signal::Interrupt.exit_code(), 130);
    assert_eq!(Signal::Terminate.exit_code(), 143);
    assert_eq!((TICK, INPUT_BATCH), (33, 32));
}

fn printed(task: LinearTask) -> String {
    match task {
        LinearTask::Print(line) => line,
        other => panic!("{other:?}"),
    }
}

#[test]
fn a_feed_with_nothing_enabled_explains_itself() {
    let mut app = App::new(&[service("a", false), service("b", false)]);
    let (mut session, task) = Linear::begin(&app);
    assert_eq!(
        printed(task),
        "No services enabled (all services have autostart: false)."
    );
    let task = session.step(&mut app, LinearInput::Printed);
    assert!(matches!(task, LinearTask::Finish(Ok(0))));
    assert_eq!(session.stage, LinearStage::Over);
    let app = App::new(&[service("a", false), service("b", true)]);
    let (session, task) = Linear::begin(&app);
    assert!(matches!(task, LinearTask::Receive));
    assert_eq!(session.stage, LinearStage::Receiving);
}

#[test]
fn a_feed_ends_when_all_enabled_services_have() {
    let mut app = App::new(&[service("a", true), service("b", true), service("c", false)]);
    let (mut session, _) = Linear::begin(&app);
    let task = session.step(&mut app, LinearInput::Event(state(0, 1, State::Starting)));
    assert_eq!(printed(task), "[0 a] --- run 1 ---");
    let task = session.step(&mut app, LinearInput::Printed);
    assert!(matches!(task, LinearTask::Receive));
    let ended = || State::Exited(Some(0));
    let task = session.step(&mut app, LinearInput::Event(state(0, 1, ended())));
    assert_eq!(printed(task), "[0 a] --- exited (0) ---");
    let task = session.step(&mut app, LinearInput::Printed);
    assert!(matches!(task, LinearTask::Receive));
    let task = session.step(&mut app, LinearInput::Event(state(9, 1, ended())));
    assert!(matches!(task, LinearTask::Receive));
    let task = session.step(&mut app, LinearInput::Event(state(1, 1, ended())));
    assert_eq!(printed(task), "[1 b] --- exited (0) ---");
    assert_eq!(session.stage, LinearStage::Printing { code: Some(0) });
    let task = session.step(&mut app, LinearInput::Printed);
    assert!(matches!(task, LinearTask::Finish(Ok(0))));
}

#[test]
fn a_failed_service_makes_the_exit_code_one() {
    let mut app = App::new(&[service("a", true)]);
    let (mut session, _) = Linear::begin(&app);
    let failed = state(0, 1, State::Failed("x".into()));
    let task = session.step(&mut app, LinearInput::Event(failed));
    assert_eq!(printed(task), "[0 a] --- failed: x ---");
    let task = session.step(&mut app, LinearInput::Printed);
    assert!(matches!(task, LinearTask::Finish(Ok(1))));
    let mut session = Linear {
        stage: LinearStage::Receiving,
    };
    let task = session.step(&mut app, LinearInput::Event(state(9, 1, State::Running)));
    assert!(matches!(task, LinearTask::Finish(Ok(1))));
}

#[test]
fn a_feed_ends_with_signals_closed_pipes_and_failures() {
    let mut app = App::new(&[service("a", true)]);
    let printing = || Linear {
        stage: LinearStage::Printing { code: None },
    };
    let task = printing().step(&mut app, LinearInput::Signal(Signal::Terminate));
    assert!(matches!(task, LinearTask::Finish(Ok(143))));
    let task = printing().step(&mut app, LinearInput::BrokenPipe);
    assert!(matches!(task, LinearTask::Finish(Ok(0))));
    let task = printing().step(&mut app, LinearInput::PrintFailed("disk".into()));
    assert!(matches!(task, LinearTask::Finish(Err(error)) if error == "disk"));
    let (mut session, _) = Linear::begin(&app);
    let task = session.step(&mut app, LinearInput::Signal(Signal::Interrupt));
    assert!(matches!(task, LinearTask::Finish(Ok(130))));
    let (mut session, _) = Linear::begin(&app);
    let task = session.step(&mut app, LinearInput::Disconnected);
    assert!(
        matches!(task, LinearTask::Finish(Err(error)) if error == "process supervisor stopped unexpectedly")
    );
}

fn answered(tasks: Vec<TabbedTask>) -> Option<(usize, u64, Vec<u8>)> {
    let mut tasks = tasks.into_iter();
    match (tasks.next(), tasks.next(), tasks.next()) {
        (Some(TabbedTask::Reply(reply)), Some(TabbedTask::Wait), None) => {
            Some((reply.service, reply.run, reply.bytes))
        }
        (Some(TabbedTask::Wait), None, None) => None,
        other => panic!("{other:?}"),
    }
}

#[test]
fn events_in_tabs_give_replies_once() {
    let services = [service("a", true), service("b", true)];
    let mut app = App::terminal(&services, TerminalSize::new(4, 20));
    let mut session = Tabbed::begin();
    let mut step = |app: &mut App, event| answered(session.step(app, TabbedInput::Event(event)));
    assert_eq!(step(&mut app, state(1, 1, State::Starting)), None);
    assert_eq!(
        step(&mut app, terminal_bytes(1, 1, b"x\x1b[5n")),
        Some((1, 1, b"\x1b[0n".to_vec()))
    );
    assert_eq!(step(&mut app, terminal_bytes(1, 1, b"y")), None);
    assert_eq!(step(&mut app, terminal_bytes(1, 0, b"\x1b[5n")), None);
    assert_eq!(step(&mut app, terminal_bytes(2, 1, b"\x1b[5n")), None);
    let screen = app.services[1].terminal.as_ref().unwrap().screen();
    assert_eq!(screen.contents(), "xy");
    let mut app = App::new(&services);
    assert_eq!(step(&mut app, terminal_bytes(0, 1, b"\x1b[5n")), None);
}

#[test]
fn a_tick_gives_terminals_the_size_of_the_pane_and_is_drawn() {
    let mut app = App::terminal(&[service("a", true)], TerminalSize::new(4, 20));
    let mut session = Tabbed::begin();
    let tasks = session.step(&mut app, TabbedInput::Tick(Rect::new(0, 0, 80, 12)));
    let size = TerminalSize::new(9, 52);
    assert!(
        matches!(tasks.as_slice(), [TabbedTask::Resize(given), TabbedTask::Poll] if *given == size)
    );
    let terminal = app.services[0].terminal.as_ref().unwrap();
    assert_eq!(terminal.screen().size(), (9, 52));
    assert_eq!(app.log_height, 9);
    let tasks = session.step(&mut app, TabbedInput::Polled(None));
    assert!(matches!(tasks.as_slice(), [TabbedTask::Draw]));
    let tasks = session.step(&mut app, TabbedInput::Drawn);
    assert!(matches!(tasks.as_slice(), [TabbedTask::Wait]));
    assert_eq!(session.stage, TabbedStage::Waiting);
}

#[test]
fn services_are_told_the_size_that_their_terminals_have() {
    for (width, height, size) in [
        (24, 4, TerminalSize::new(2, 12)),
        (24, 5, TerminalSize::new(2, 12)),
        (24, 6, TerminalSize::new(3, 12)),
        (1, 1, TerminalSize::new(2, 3)),
        (u16::MAX, 9, TerminalSize::new(6, 65_503)),
    ] {
        let mut app = App::terminal(&[service("a", true)], TerminalSize::new(4, 20));
        let mut session = Tabbed::begin();
        let tasks = session.step(&mut app, TabbedInput::Tick(Rect::new(0, 0, width, height)));
        let [TabbedTask::Resize(given), TabbedTask::Poll] = tasks.as_slice() else {
            panic!("{tasks:?}");
        };
        assert_eq!(*given, size);
        let terminal = app.services[0].terminal.as_ref().unwrap();
        assert_eq!(terminal.screen().size(), (given.rows, given.cols));
    }
}

fn pressed(code: KeyCode) -> TabbedInput {
    let none = KeyModifiers {
        control: false,
        alt: false,
    };
    TabbedInput::Polled(Some(TerminalEvent::Key(KeyEvent::new(code, none))))
}

#[test]
fn a_flood_of_input_is_cut_off_by_a_drawing() {
    let mut app = App::terminal(&[service("a", true)], TerminalSize::new(4, 20));
    let mut session = Tabbed::begin();
    session.step(&mut app, TabbedInput::Tick(Rect::new(0, 0, 80, 12)));
    for _ in 1..INPUT_BATCH {
        let tasks = session.step(&mut app, pressed(KeyCode::Down));
        assert!(matches!(tasks.as_slice(), [TabbedTask::Poll]));
    }
    let tasks = session.step(&mut app, pressed(KeyCode::Down));
    assert!(matches!(tasks.as_slice(), [TabbedTask::Draw]));
}

#[test]
fn input_in_tabs_sends_commands_and_quits() {
    let mut app = App::terminal(&[service("a", true)], TerminalSize::new(4, 20));
    let mut session = Tabbed::begin();
    session.step(&mut app, TabbedInput::Tick(Rect::new(0, 0, 80, 12)));
    let tasks = session.step(&mut app, pressed(KeyCode::Char('s')));
    assert!(matches!(
        tasks.as_slice(),
        [TabbedTask::Send(0, Command::Start), TabbedTask::Poll]
    ));
    let tasks = session.step(&mut app, pressed(KeyCode::Char('q')));
    assert!(matches!(tasks.as_slice(), [TabbedTask::Finish(Ok(0))]));
    assert_eq!(session.stage, TabbedStage::Over);
}

#[test]
fn tabs_end_with_signals_and_failures() {
    let mut app = App::terminal(&[service("a", true)], TerminalSize::new(4, 20));
    let tasks = Tabbed::begin().step(&mut app, TabbedInput::Signal(Signal::Interrupt));
    assert!(matches!(tasks.as_slice(), [TabbedTask::Finish(Ok(130))]));
    let tasks = Tabbed::begin().step(&mut app, TabbedInput::Failed("size".into()));
    assert!(
        matches!(tasks.as_slice(), [TabbedTask::Finish(Err(error))] if error == "size")
    );
    let tasks = Tabbed::begin().step(&mut app, TabbedInput::Disconnected);
    assert!(
        matches!(tasks.as_slice(), [TabbedTask::Finish(Err(error))] if error == "process supervisor stopped unexpectedly")
    );
}

#[test]
fn the_session_comes_before_its_cleanup() {
    assert_eq!(conclude(Ok(130), Ok(())), Ok(130));
    assert_eq!(conclude(Ok(0), Err("task".into())), Err("task".into()));
    assert_eq!(conclude(Err("draw".into()), Ok(())), Err("draw".into()));
    assert_eq!(
        conclude(Err("draw".into()), Err("task".into())),
        Err("draw".into())
    );
}

#[test]
fn commands_are_arguments_of_their_own() {
    let mut service = service("a", true);
    let launch = Launch::piped(&service);
    assert_eq!(launch.program, "/bin/sh");
    assert_eq!(launch.arguments, ["-c", "echo \"a  b\""]);
    assert!(launch.variables.is_empty() && launch.removed.is_empty());
    assert_eq!(launch.directory, PathBuf::from("/"));
    let launch = Launch::terminal(&service);
    assert_eq!(launch.program, "/bin/sh");
    assert_eq!(launch.arguments, ["-c", "echo \"a  b\""]);
    assert_eq!(
        launch.variables,
        [("TERM".to_owned(), "xterm-256color".to_owned())]
    );
    assert_eq!(launch.removed, ["COLUMNS", "LINES"]);
    assert_eq!(launch.directory, PathBuf::from("/"));
    service.hide_stderr = true;
    let launch = Launch::terminal(&service);
    assert_eq!(
        launch.arguments,
        [
            "-c",
            "exec 2>/dev/null; exec /bin/sh -c \"$1\"",
            "accordo",
            "echo \"a  b\""
        ]
    );
    assert_eq!(Launch::piped(&service).arguments, ["-c", "echo \"a  b\""]);
}

#[test]
fn a_hangup_is_the_end_of_a_terminal() {
    assert_eq!(PtyRead::Bytes(5).count(), Ok(5));
    assert_eq!(PtyRead::HungUp.count(), Ok(0));
    assert_eq!(PtyRead::Failed("x".into()).count(), Err("x".into()));
}

#[test]
fn replies_are_written_in_pieces() {
    let mut outgoing = Outgoing::new(b"abcdef".to_vec());
    assert_eq!(outgoing.progress(), Progress::More);
    assert_eq!(outgoing.rest(), b"abcdef");
    assert_eq!(outgoing.wrote(2), Progress::More);
    assert_eq!(outgoing.rest(), b"cdef");
    assert_eq!(outgoing.wrote(0), Progress::Stuck);
    assert_eq!(outgoing.wrote(4), Progress::Done);
    assert_eq!(outgoing.rest(), b"");
    assert_eq!(outgoing.progress(), Progress::Done);
    assert_eq!(Outgoing::new(Vec::new()).progress(), Progress::Done);
}

#[test]
fn sizes_have_at_least_one_cell_and_tell_changes() {
    let mut size = TerminalSize::new(0, 0);
    assert_eq!((size.rows, size.cols), (1, 1));
    assert!(!size.replace(TerminalSize::new(1, 1)));
    assert!(size.replace(TerminalSize::new(1, 2)));
    assert!(size.replace(TerminalSize::new(3, 2)));
    assert_eq!(size, TerminalSize::new(3, 2));
}

#[test]
fn numbers_are_written_in_decimal() {
    for value in [0, 1, 9, 10, 99, 100, 12_345, u64::MAX] {
        let mut text = "x".to_owned();
        push_decimal(&mut text, value);
        assert_eq!(text, format!("x{value}"));
    }
    for value in [0, 7, -7, i32::MAX, i32::MIN] {
        let mut text = String::new();
        push_signed(&mut text, value);
        assert_eq!(text, value.to_string());
    }
}
