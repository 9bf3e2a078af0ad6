//! The state machines of the tasks that run, clean up and read a service.

use accordo::actor::{Actor, Effect, Occurrence, Phase, ProcessExit};
use accordo::cleanup::{Cleanup, Outcome, Signalled, Stage, Task, POLL_INTERVAL, SHUTDOWN_GRACE};
use accordo::reader::{Duty, Input, Position, Reader, READ_LIMIT};
use accordo::supervisor::{
    finish_readers, shutdown_result, Command, Emitter, EventKind, State, Stream, OUTPUT_CAPACITY,
};

fn shown(effects: &[Effect]) -> Vec<String> {
    effects
        .iter()
        .map(|effect| match effect {
            Effect::Report { run, state } => format!("{run}:{}", state.label()),
            Effect::CleanUp(status) => format!("clean up {status:?}"),
            other => format!("{other:?}"),
        })
        .collect()
}

fn exit(code: i32) -> ProcessExit {
    ProcessExit { code: Some(code) }
}

/// Ends a run: the process is cleaned up, and then its output is read.
fn end(
    actor: &mut Actor,
    process: Result<ProcessExit, String>,
    output: Result<(), String>,
    shutdown: bool,
) -> Vec<Effect> {
    let effects = actor.step(Occurrence::CleanedUp(process), shutdown);
    assert_eq!(shown(&effects), ["Join"]);
    actor.step(Occurrence::Joined(output), shutdown)
}

fn running(terminal: bool) -> Actor {
    let (mut actor, _) = Actor::new(true, terminal, false);
    let _ = actor.step(Occurrence::Spawned, false);
    assert_eq!(actor.phase, Phase::Running);
    actor
}

#[test]
fn a_service_runs_once_and_waits() {
    let (mut actor, effects) = Actor::new(true, false, false);
    assert_eq!(shown(&effects), ["0:stopped", "1:starting", "Spawn"]);
    let effects = actor.step(Occurrence::Spawned, false);
    assert_eq!(shown(&effects), ["1:running", "Watch"]);
    let effects = actor.step(Occurrence::Exited(Ok(exit(7))), false);
    assert_eq!(
        shown(&effects),
        ["clean up Some(Ok(ProcessExit { code: Some(7) }))"]
    );
    let effects = end(&mut actor, Ok(exit(7)), Ok(()), false);
    assert_eq!(shown(&effects), ["Drain", "1:exited (7)", "Await"]);
    assert_eq!(actor.phase, Phase::Waiting);
    let effects = actor.step(Occurrence::Command(Command::Stop), false);
    assert_eq!(shown(&effects), ["Await"]);
    let effects = actor.step(Occurrence::Command(Command::Restart), false);
    assert_eq!(shown(&effects), ["2:starting", "Spawn"]);
}

#[test]
fn a_disabled_service_waits_for_a_command() {
    let (mut actor, effects) = Actor::new(false, false, false);
    assert_eq!(shown(&effects), ["0:stopped", "Await"]);
    let effects = actor.step(Occurrence::Command(Command::Start), false);
    assert_eq!(shown(&effects), ["1:starting", "Spawn"]);
}

#[test]
fn a_restart_waits_for_the_cleanup() {
    let mut actor = running(false);
    let effects = actor.step(Occurrence::Command(Command::Restart), false);
    assert_eq!(shown(&effects), ["1:stopping", "clean up None"]);
    let effects = end(&mut actor, Ok(exit(0)), Ok(()), false);
    assert_eq!(
        shown(&effects),
        ["Drain", "1:stopped", "2:starting", "Spawn"]
    );
    assert_eq!(actor.run, 2);
}

#[test]
fn the_end_is_reported_after_the_output() {
    let mut actor = running(true);
    let _ = actor.step(Occurrence::Exited(Ok(exit(7))), false);
    let effects = actor.step(Occurrence::CleanedUp(Ok(exit(7))), true);
    assert_eq!(shown(&effects), ["Join"]);
    let process = Ok(exit(7));
    assert_eq!(
        actor.phase,
        Phase::Joining {
            stopped: false,
            restart: false,
            process
        }
    );
    let effects = actor.step(Occurrence::Joined(Ok(())), true);
    assert_eq!(shown(&effects), ["Drain", "1:exited (7)", "Halt"]);
    let mut actor = running(false);
    let _ = actor.step(Occurrence::Command(Command::Restart), false);
    let effects = actor.step(Occurrence::CleanedUp(Err("signal".into())), false);
    assert_eq!(shown(&effects), ["Join"]);
    let effects = actor.step(Occurrence::Joined(Err("pipe".into())), false);
    assert_eq!(
        shown(&effects),
        ["Drain", "1:failed: signal", "2:starting", "Spawn"]
    );
}

#[test]
fn a_restart_is_given_up_for_a_shutdown() {
    let mut actor = running(false);
    let _ = actor.step(Occurrence::Command(Command::Restart), false);
    let effects = end(&mut actor, Ok(exit(0)), Ok(()), true);
    assert_eq!(shown(&effects), ["Drain", "1:stopped", "Halt"]);
    assert_eq!(actor.phase, Phase::Halted);
}

#[test]
fn stop_shutdown_and_disconnection_stop_a_running_service() {
    for occurrence in [
        Occurrence::Command(Command::Stop),
        Occurrence::Shutdown,
        Occurrence::Disconnected,
    ] {
        let mut actor = running(true);
        let effects = actor.step(occurrence, false);
        assert_eq!(shown(&effects), ["1:stopping", "clean up None"]);
        let effects = end(&mut actor, Ok(exit(3)), Ok(()), false);
        assert_eq!(shown(&effects), ["Drain", "1:stopped", "Await"]);
    }
    for occurrence in [Occurrence::Shutdown, Occurrence::Disconnected] {
        let (mut actor, _) = Actor::new(false, false, false);
        assert_eq!(shown(&actor.step(occurrence, true)), ["Halt"]);
        assert_eq!(actor.phase, Phase::Halted);
    }
    let (_, effects) = Actor::new(true, false, true);
    assert_eq!(shown(&effects), ["0:stopped", "Halt"]);
}

#[test]
fn start_does_nothing_to_a_running_service() {
    let mut actor = running(false);
    let effects = actor.step(Occurrence::Command(Command::Start), false);
    assert_eq!(shown(&effects), ["Watch"]);
    assert_eq!(actor.phase, Phase::Running);
}

#[test]
fn failures_are_reported() {
    let (mut actor, _) = Actor::new(true, false, false);
    let effects = actor.step(Occurrence::SpawnFailed("no shell".into()), false);
    assert_eq!(shown(&effects), ["Drain", "1:failed: no shell", "Await"]);
    let mut actor = running(true);
    let effects = actor.step(Occurrence::ResizeFailed("size".into()), false);
    assert_eq!(shown(&effects), ["clean up Some(Err(\"size\"))"]);
    let effects = end(&mut actor, Err("size".into()), Err("pipe".into()), false);
    assert_eq!(shown(&effects), ["Drain", "1:failed: size", "Await"]);
    let mut actor = running(true);
    let _ = actor.step(Occurrence::Command(Command::Stop), false);
    let effects = end(&mut actor, Ok(exit(0)), Err("pipe".into()), false);
    assert_eq!(shown(&effects), ["Drain", "1:failed: pipe", "Await"]);
    let mut actor = running(true);
    let _ = actor.step(Occurrence::Exited(Ok(ProcessExit { code: None })), false);
    let effects = end(&mut actor, Ok(ProcessExit { code: None }), Ok(()), false);
    assert_eq!(shown(&effects), ["Drain", "1:exited (signal)", "Await"]);
}

#[test]
fn replies_reach_only_the_terminal_of_their_run() {
    let mut actor = running(true);
    let effects = actor.step(Occurrence::Reply { run: 1 }, false);
    assert_eq!(shown(&effects), ["Forward", "Watch"]);
    let effects = actor.step(Occurrence::Reply { run: 0 }, false);
    assert_eq!(shown(&effects), ["Watch"]);
    let mut actor = running(false);
    let effects = actor.step(Occurrence::Reply { run: 1 }, false);
    assert_eq!(shown(&effects), ["Watch"]);
}

#[test]
fn exit_codes_on_a_terminal() {
    assert_eq!(ProcessExit::on_terminal(false, 7), exit(7));
    assert_eq!(ProcessExit::on_terminal(false, 0), exit(0));
    assert_eq!(
        ProcessExit::on_terminal(true, 1),
        ProcessExit { code: None }
    );
    assert_eq!(
        ProcessExit::on_terminal(false, i32::MAX as u32),
        exit(i32::MAX)
    );
    assert_eq!(
        ProcessExit::on_terminal(false, u32::MAX),
        ProcessExit { code: None }
    );
}

fn sent() -> Outcome {
    Outcome::Signalled(Signalled::Sent)
}

fn looked(group: Signalled, elapsed: u64) -> Outcome {
    Outcome::Looked { group, elapsed }
}

#[test]
fn a_group_that_ends_is_not_killed() {
    assert_eq!((SHUTDOWN_GRACE, POLL_INTERVAL), (3000, 25));
    let (mut cleanup, task) = Cleanup::new(None);
    assert!(matches!(task, Task::Terminate));
    assert!(matches!(cleanup.step(sent()), Task::Look));
    assert!(matches!(
        cleanup.step(looked(Signalled::Sent, 0)),
        Task::Try
    ));
    assert!(matches!(
        cleanup.step(Outcome::Tried(Ok(None))),
        Task::Sleep
    ));
    assert!(matches!(cleanup.step(Outcome::Slept), Task::Look));
    assert!(matches!(
        cleanup.step(looked(Signalled::Sent, 25)),
        Task::Try
    ));
    assert!(matches!(
        cleanup.step(Outcome::Tried(Ok(Some(exit(0))))),
        Task::Sleep
    ));
    assert!(matches!(cleanup.step(Outcome::Slept), Task::Look));
    assert!(matches!(
        cleanup.step(looked(Signalled::Sent, 50)),
        Task::Sleep
    ));
    assert!(matches!(cleanup.step(Outcome::Slept), Task::Look));
    assert!(matches!(
        cleanup.step(looked(Signalled::NoSuchGroup, 75)),
        Task::LookAgain
    ));
    let task = cleanup.step(looked(Signalled::NoSuchGroup, 75));
    assert!(matches!(task, Task::Finish(Ok(ended)) if ended == exit(0)));
    assert_eq!(cleanup.stage, Stage::Finished);
}

#[test]
fn a_group_that_stays_is_killed_after_its_grace() {
    let (mut cleanup, _) = Cleanup::new(None);
    cleanup.step(sent());
    assert!(matches!(
        cleanup.step(looked(Signalled::Sent, 2999)),
        Task::Try
    ));
    cleanup.step(Outcome::Tried(Ok(None)));
    cleanup.step(Outcome::Slept);
    assert!(matches!(
        cleanup.step(looked(Signalled::Sent, 3000)),
        Task::LookAgain
    ));
    assert!(matches!(
        cleanup.step(looked(Signalled::Failed("denied".into()), 3000)),
        Task::Kill
    ));
    assert!(matches!(
        cleanup.step(Outcome::Signalled(Signalled::NoSuchGroup)),
        Task::Wait
    ));
    let task = cleanup.step(Outcome::Waited(Ok(ProcessExit { code: None })));
    assert!(matches!(task, Task::Finish(Ok(ProcessExit { code: None }))));
}

#[test]
fn what_went_wrong_before_a_cleanup_comes_first() {
    let (mut cleanup, _) = Cleanup::new(Some(Err("resize".into())));
    cleanup.step(Outcome::Signalled(Signalled::NoSuchGroup));
    cleanup.step(looked(Signalled::NoSuchGroup, 0));
    assert!(matches!(
        cleanup.step(looked(Signalled::NoSuchGroup, 0)),
        Task::Wait
    ));
    let task = cleanup.step(Outcome::Waited(Ok(exit(0))));
    assert!(matches!(task, Task::Finish(Err(error)) if error == "resize"));
}

#[test]
fn a_known_end_is_not_waited_for() {
    let (mut cleanup, _) = Cleanup::new(Some(Ok(exit(9))));
    cleanup.step(sent());
    cleanup.step(looked(Signalled::NoSuchGroup, 0));
    let task = cleanup.step(looked(Signalled::Sent, 0));
    assert!(matches!(task, Task::Kill));
    let task = cleanup.step(sent());
    assert!(matches!(task, Task::Finish(Ok(ended)) if ended == exit(9)));
}

#[test]
fn errors_end_a_cleanup() {
    let failed = || Outcome::Signalled(Signalled::Failed("denied".into()));
    let (mut cleanup, _) = Cleanup::new(None);
    let task = cleanup.step(failed());
    assert!(matches!(task, Task::Finish(Err(error)) if error == "denied"));
    let (mut cleanup, _) = Cleanup::new(None);
    cleanup.step(sent());
    cleanup.step(looked(Signalled::Sent, 0));
    let task = cleanup.step(Outcome::Tried(Err("wait".into())));
    assert!(matches!(task, Task::Finish(Err(error)) if error == "wait"));
    let (mut cleanup, _) = Cleanup::new(None);
    cleanup.step(sent());
    cleanup.step(looked(Signalled::Sent, 3000));
    cleanup.step(looked(Signalled::Sent, 3000));
    let task = cleanup.step(failed());
    assert!(matches!(task, Task::Finish(Err(error)) if error == "denied"));
    let (mut cleanup, _) = Cleanup::new(None);
    cleanup.step(sent());
    cleanup.step(looked(Signalled::NoSuchGroup, 0));
    cleanup.step(looked(Signalled::NoSuchGroup, 0));
    let task = cleanup.step(Outcome::Waited(Err("gone".into())));
    assert!(matches!(task, Task::Finish(Err(error)) if error == "gone"));
}

#[test]
fn a_pipe_is_read_into_records() {
    assert_eq!(READ_LIMIT, 2000);
    let (mut reader, duty) = Reader::pipe();
    assert!(matches!(duty, Duty::Wait));
    let duty = reader.step(Input::Read(b"one\ntw".to_vec()));
    assert!(matches!(duty, Duty::Records(records) if records == ["one"]));
    let duty = reader.step(Input::Delivered { open: true });
    assert!(matches!(duty, Duty::Wait));
    let duty = reader.step(Input::ProcessEnded);
    assert!(matches!(duty, Duty::WaitBriefly));
    let duty = reader.step(Input::Read(b"o\nthree".to_vec()));
    assert!(matches!(duty, Duty::Records(records) if records == ["two"]));
    let duty = reader.step(Input::Delivered { open: true });
    assert!(matches!(duty, Duty::WaitBriefly));
    let duty = reader.step(Input::Read(Vec::new()));
    assert!(matches!(duty, Duty::Records(records) if records == ["three"]));
    assert_eq!(reader.position, Position::Closing);
    let duty = reader.step(Input::Delivered { open: false });
    assert!(matches!(duty, Duty::Finish(Ok(()))));
    assert_eq!(reader.position, Position::Done);
}

#[test]
fn a_pipe_without_a_last_record_just_ends() {
    let (mut reader, _) = Reader::pipe();
    let duty = reader.step(Input::Read(b"one\n".to_vec()));
    assert!(matches!(duty, Duty::Records(records) if records == ["one"]));
    reader.step(Input::Delivered { open: true });
    let duty = reader.step(Input::Read(Vec::new()));
    assert!(matches!(duty, Duty::Finish(Ok(()))));
}

#[test]
fn a_terminal_is_read_as_it_is() {
    let (mut reader, duty) = Reader::terminal();
    assert!(matches!(duty, Duty::Wait));
    let duty = reader.step(Input::Read(b"\x1b[3".to_vec()));
    assert!(matches!(duty, Duty::Bytes(bytes) if bytes == b"\x1b[3"));
    reader.step(Input::Delivered { open: true });
    let duty = reader.step(Input::Read(Vec::new()));
    assert!(matches!(duty, Duty::Finish(Ok(()))));
}

#[test]
fn readers_stop_on_errors_idleness_and_closed_queues() {
    let (mut reader, _) = Reader::pipe();
    let duty = reader.step(Input::Failed("broken".into()));
    assert!(matches!(duty, Duty::Finish(Err(error)) if error == "broken"));
    let (mut reader, _) = Reader::pipe();
    reader.step(Input::ProcessEnded);
    let duty = reader.step(Input::TimedOut);
    assert!(
        matches!(duty, Duty::Finish(Err(error)) if error == "output pipe remained open after service stopped")
    );
    let (mut reader, _) = Reader::terminal();
    reader.step(Input::ProcessEnded);
    let duty = reader.step(Input::TimedOut);
    assert!(
        matches!(duty, Duty::Finish(Err(error)) if error == "PTY remained open after service stopped")
    );
    let (mut reader, _) = Reader::terminal();
    reader.step(Input::Read(b"x".to_vec()));
    let duty = reader.step(Input::Delivered { open: false });
    assert!(matches!(duty, Duty::Finish(Ok(()))));
}

#[test]
fn the_last_failure_is_told() {
    assert_eq!(finish_readers(&[]), Ok(()));
    assert_eq!(finish_readers(&[Ok(()), Ok(())]), Ok(()));
    assert_eq!(
        finish_readers(&[Err("one".into()), Ok(())]),
        Err("one".into())
    );
    assert_eq!(
        finish_readers(&[Err("one".into()), Err("two".into())]),
        Err("two".into())
    );
    assert_eq!(shutdown_result(&[]), Ok(()));
    assert_eq!(
        shutdown_result(&["a".into(), "b".into()]),
        Err("process supervisor failed: b".into())
    );
}

#[test]
fn events_carry_their_service_and_run() {
    assert_eq!(OUTPUT_CAPACITY, 1024);
    let emitter = Emitter { service: 3, run: 5 };
    let event = emitter.state(State::Running);
    assert_eq!((event.service, event.run), (3, 5));
    assert!(matches!(event.kind, EventKind::State(State::Running)));
    let capacity = std::sync::Arc::new(tokio::sync::Semaphore::new(2));
    let permit = capacity.clone().try_acquire_owned().unwrap();
    let event = emitter.terminal(b"x".to_vec(), permit);
    assert_eq!((event.service, event.run), (3, 5));
    assert!(matches!(&event.kind, EventKind::Terminal { bytes, .. } if bytes == b"x"));
    let permit = capacity.clone().try_acquire_owned().unwrap();
    let output = emitter.output(Stream::Stderr, "y".into(), permit);
    assert_eq!((output.service, output.run), (3, 5));
    assert!(
        matches!(&output.kind, EventKind::Output { stream: Stream::Stderr, text, .. } if text == "y")
    );
    assert_eq!(capacity.available_permits(), 0);
    drop(event);
    assert_eq!(capacity.available_permits(), 1);
}

#[test]
fn states_have_their_labels() {
    assert_eq!(State::Stopped.label(), "stopped");
    assert_eq!(State::Starting.label(), "starting");
    assert_eq!(State::Running.label(), "running");
    assert_eq!(State::Stopping.label(), "stopping");
    assert_eq!(State::Exited(Some(0)).label(), "exited (0)");
    assert_eq!(State::Exited(Some(-11)).label(), "exited (-11)");
    assert_eq!(
        State::Exited(Some(i32::MIN)).label(),
        "exited (-2147483648)"
    );
    assert_eq!(State::Exited(None).label(), "exited (signal)");
    assert_eq!(State::Failed("x".into()).label(), "failed: x");
    for state in [State::Starting, State::Running, State::Stopping] {
        assert!(state.is_active() && !state.is_finished() && !state.is_failure());
        assert_eq!(state.clone(), state);
    }
    for (state, failure) in [
        (State::Stopped, false),
        (State::Exited(Some(0)), false),
        (State::Exited(Some(1)), true),
        (State::Exited(None), true),
        (State::Failed(String::new()), true),
    ] {
        assert!(state.is_finished() && !state.is_active());
        assert_eq!(state.is_failure(), failure);
        assert_eq!(state.clone(), state);
    }
}
