//! The decisions of the task that runs one service.
//!
//! An [`Actor`] is told what happened and answers with what to do, in order. The
//! last thing to do is what the next occurrence comes from.

use crate::supervisor::{Command, State};
use vstd::prelude::*;

verus! {

/// How a process ended: its exit code, or none after a signal.
#[derive(Clone, Copy, Debug, PartialEq, Eq, Structural)]
pub struct ProcessExit {
    pub code: Option<i32>,
}

impl ProcessExit {
    /// How a process on a terminal ended, from whether a signal ended it and
    /// its exit code.
    #[must_use]
    pub fn on_terminal(signalled: bool, exit_code: u32) -> (exit: Self)
        ensures
            exit.code == if signalled || exit_code > i32::MAX {
                None
            } else {
                Some(exit_code as i32)
            },
    {
        if signalled || exit_code > 0x7fff_ffff {
            ProcessExit { code: None }
        } else {
            ProcessExit { code: Some(exit_code as i32) }
        }
    }
}

/// Where a service stands.
#[derive(Debug, PartialEq, Eq)]
pub enum Phase {
    /// No process; waiting for a command.
    Waiting,
    /// A process is being started.
    Spawning,
    /// A process is running.
    Running,
    /// A process is being cleaned up, because it was stopped or by itself, and
    /// to be started again or not.
    Cleaning { stopped: bool, restart: bool },
    /// The process is cleaned up, with this result, and the tasks that read its
    /// output are still at it.
    Joining { stopped: bool, restart: bool, process: Result<ProcessExit, String> },
    /// Over.
    Halted,
}

impl Phase {
    /// A run is being brought to its end, to be followed by another one.
    pub open spec fn restarting(self) -> bool {
        match self {
            Phase::Cleaning { restart, .. } => restart,
            Phase::Joining { restart, .. } => restart,
            _ => false,
        }
    }

    /// There may be tasks that read the output of a process.
    pub open spec fn reading(self) -> bool {
        self is Running || self is Cleaning || self is Joining
    }
}

/// Something that happened to a service's task.
#[derive(Debug)]
pub enum Occurrence {
    /// All services are to stop.
    Shutdown,
    /// A command arrived.
    Command(Command),
    /// No command can arrive any more.
    Disconnected,
    /// The process was started.
    Spawned,
    /// The process could not be started.
    SpawnFailed(String),
    /// The process's terminal could not be resized.
    ResizeFailed(String),
    /// Replies for the terminal of a run arrived.
    Reply { run: u64 },
    /// The process ended, or waiting for that failed.
    Exited(Result<ProcessExit, String>),
    /// The process is cleaned up, or that failed.
    CleanedUp(Result<ProcessExit, String>),
    /// The tasks that read the output are done, or one of them failed.
    Joined(Result<(), String>),
}

/// Something for a service's task to do.
#[derive(Debug)]
pub enum Effect {
    /// Report this state of this run.
    Report { run: u64, state: State },
    /// Start a process.
    Spawn,
    /// Drop the commands that are waiting.
    Drain,
    /// Hand the replies to the process's terminal.
    Forward,
    /// Clean up the process, which may have ended already.
    CleanUp(Option<Result<ProcessExit, String>>),
    /// Wait for the tasks that read the output, until each of them is done.
    Join,
    /// Wait for a command.
    Await,
    /// Wait for a command, for a new size, for replies and for the process.
    Watch,
    /// End.
    Halt,
}

/// The decisions of one service's task.
#[derive(Debug)]
pub struct Actor {
    /// How many runs were begun.
    pub run: u64,
    /// Whether the service runs on a terminal.
    pub terminal: bool,
    pub phase: Phase,
}

/// The state that a run ends in: failed if the cleanup or reading the output did,
/// otherwise stopped or exited.
pub open spec fn final_state(
    stopped: bool,
    process: Result<ProcessExit, String>,
    output: Result<(), String>,
) -> State {
    match (process, output) {
        (Err(error), _) => State::Failed(error),
        (Ok(_), Err(error)) => State::Failed(error),
        (Ok(exit), Ok(_)) => if stopped {
            State::Stopped
        } else {
            State::Exited(exit.code)
        },
    }
}

fn ended(
    stopped: bool,
    process: &Result<ProcessExit, String>,
    output: Result<(), String>,
) -> (state: State)
    ensures
        state == final_state(stopped, *process, output),
{
    match process {
        Err(error) => State::Failed(error.clone()),
        Ok(exit) => match output {
            Err(error) => State::Failed(error),
            Ok(_) => if stopped {
                State::Stopped
            } else {
                State::Exited(exit.code)
            },
        },
    }
}

impl Actor {
    /// The occurrence can come up in this phase.
    pub open spec fn expects(self, occurrence: Occurrence) -> bool {
        match self.phase {
            Phase::Waiting => occurrence is Shutdown || occurrence is Command || occurrence
                is Disconnected,
            Phase::Spawning => occurrence is Spawned || occurrence is SpawnFailed,
            Phase::Running => occurrence is Shutdown || occurrence is Command || occurrence
                is Disconnected || occurrence is ResizeFailed || occurrence is Reply || occurrence
                is Exited,
            Phase::Cleaning { .. } => occurrence is CleanedUp,
            Phase::Joining { .. } => occurrence is Joined,
            Phase::Halted => false,
        }
    }

    /// The actor in another phase.
    pub open spec fn entering(self, phase: Phase) -> Actor {
        Actor { phase, ..self }
    }

    /// What the task turns to when no process is left: it ends when all
    /// services are to stop, begins another run when one is wanted, and waits
    /// for a command otherwise.
    pub open spec fn turned(self, start: bool, shutdown: bool) -> (Actor, Seq<Effect>) {
        if shutdown {
            (self.entering(Phase::Halted), seq![Effect::Halt])
        } else if start {
            (
                Actor { run: (self.run + 1) as u64, phase: Phase::Spawning, ..self },
                seq![
                    Effect::Report { run: (self.run + 1) as u64, state: State::Starting },
                    Effect::Spawn,
                ],
            )
        } else {
            (self.entering(Phase::Waiting), seq![Effect::Await])
        }
    }

    /// What the task becomes and does when a running process is to be cleaned up.
    pub open spec fn stopping(self, restart: bool) -> (Actor, Seq<Effect>) {
        (
            self.entering(Phase::Cleaning { stopped: true, restart }),
            seq![Effect::Report { run: self.run, state: State::Stopping }, Effect::CleanUp(None)],
        )
    }

    /// What the task becomes and does when something happens. `shutdown` says
    /// whether all services are to stop by then.
    pub open spec fn stepped(self, occurrence: Occurrence, shutdown: bool) -> (Actor, Seq<Effect>) {
        match self.phase {
            Phase::Waiting => match occurrence {
                Occurrence::Command(Command::Stop) => self.turned(false, shutdown),
                Occurrence::Command(_) => self.turned(true, shutdown),
                _ => (self.entering(Phase::Halted), seq![Effect::Halt]),
            },
            Phase::Spawning => match occurrence {
                Occurrence::SpawnFailed(error) => {
                    let (next, effects) = self.turned(false, shutdown);
                    let state = State::Failed(error);
                    (next, seq![Effect::Drain, Effect::Report { run: self.run, state }] + effects)
                },
                _ => (
                    self.entering(Phase::Running),
                    seq![Effect::Report { run: self.run, state: State::Running }, Effect::Watch],
                ),
            },
            Phase::Running => match occurrence {
                Occurrence::Command(Command::Start) => (self, seq![Effect::Watch]),
                Occurrence::Command(Command::Restart) => self.stopping(true),
                Occurrence::Reply { run } => if run == self.run && self.terminal {
                    (self, seq![Effect::Forward, Effect::Watch])
                } else {
                    (self, seq![Effect::Watch])
                },
                Occurrence::ResizeFailed(error) => (
                    self.entering(Phase::Cleaning { stopped: false, restart: false }),
                    seq![Effect::CleanUp(Some(Err(error)))],
                ),
                Occurrence::Exited(status) => (
                    self.entering(Phase::Cleaning { stopped: false, restart: false }),
                    seq![Effect::CleanUp(Some(status))],
                ),
                _ => self.stopping(false),
            },
            Phase::Cleaning { stopped, restart } => match occurrence {
                Occurrence::CleanedUp(process) => (
                    self.entering(Phase::Joining { stopped, restart, process }),
                    seq![Effect::Join],
                ),
                _ => (self, seq![]),
            },
            Phase::Joining { stopped, restart, process } => match occurrence {
                Occurrence::Joined(output) => {
                    let (next, effects) = self.turned(restart, shutdown);
                    let state = final_state(stopped, process, output);
                    (next, seq![Effect::Drain, Effect::Report { run: self.run, state }] + effects)
                },
                _ => (self, seq![]),
            },
            Phase::Halted => (self, seq![]),
        }
    }

    /// The task of a service that has not run, and what it does first.
    #[must_use]
    pub fn new(autostart: bool, terminal: bool, shutdown: bool) -> (begun: (Self, Vec<Effect>))
        ensures
            ({
                let fresh = Actor { run: 0, terminal, phase: Phase::Waiting };
                let (next, effects) = fresh.turned(autostart, shutdown);
                &&& begun.0 == next
                &&& begun.1@ == seq![Effect::Report { run: 0, state: State::Stopped }] + effects
            }),
    {
        let mut actor = Actor { run: 0, terminal, phase: Phase::Waiting };
        let mut effects = vec![Effect::Report { run: 0, state: State::Stopped }];
        actor.turn(autostart, shutdown, &mut effects);
        (actor, effects)
    }

    fn turn(&mut self, start: bool, shutdown: bool, effects: &mut Vec<Effect>)
        requires
            old(self).run < u64::MAX,
        ensures
            *final(self) == old(self).turned(start, shutdown).0,
            final(effects)@ == old(effects)@ + old(self).turned(start, shutdown).1,
    {
        if shutdown {
            self.phase = Phase::Halted;
            effects.push(Effect::Halt);
        } else if start {
            self.run += 1;
            self.phase = Phase::Spawning;
            effects.push(Effect::Report { run: self.run, state: State::Starting });
            effects.push(Effect::Spawn);
        } else {
            self.phase = Phase::Waiting;
            effects.push(Effect::Await);
        }
        assert(effects@ =~= old(effects)@ + old(self).turned(start, shutdown).1);
    }

    /// Decides what to do when something happened.
    pub fn step(&mut self, occurrence: Occurrence, shutdown: bool) -> (effects: Vec<Effect>)
        requires
            old(self).expects(occurrence),
            old(self).run < u64::MAX,
        ensures
            *final(self) == old(self).stepped(occurrence, shutdown).0,
            effects@ == old(self).stepped(occurrence, shutdown).1,
    {
        let mut effects: Vec<Effect> = Vec::new();
        match &self.phase {
            Phase::Waiting => match occurrence {
                Occurrence::Command(command) => {
                    let start = !matches!(command, Command::Stop);
                    self.turn(start, shutdown, &mut effects);
                },
                _ => {
                    self.phase = Phase::Halted;
                    effects.push(Effect::Halt);
                },
            },
            Phase::Spawning => match occurrence {
                Occurrence::SpawnFailed(error) => {
                    effects.push(Effect::Drain);
                    effects.push(Effect::Report { run: self.run, state: State::Failed(error) });
                    self.turn(false, shutdown, &mut effects);
                },
                _ => {
                    self.phase = Phase::Running;
                    effects.push(Effect::Report { run: self.run, state: State::Running });
                    effects.push(Effect::Watch);
                },
            },
            Phase::Running => match occurrence {
                Occurrence::Command(Command::Start) => effects.push(Effect::Watch),
                Occurrence::Reply { run } => {
                    if run == self.run && self.terminal {
                        effects.push(Effect::Forward);
                    }
                    effects.push(Effect::Watch);
                },
                Occurrence::ResizeFailed(error) => {
                    self.phase = Phase::Cleaning { stopped: false, restart: false };
                    effects.push(Effect::CleanUp(Some(Err(error))));
                },
                Occurrence::Exited(status) => {
                    self.phase = Phase::Cleaning { stopped: false, restart: false };
                    effects.push(Effect::CleanUp(Some(status)));
                },
                other => {
                    let restart = matches!(other, Occurrence::Command(Command::Restart));
                    self.phase = Phase::Cleaning { stopped: true, restart };
                    effects.push(Effect::Report { run: self.run, state: State::Stopping });
                    effects.push(Effect::CleanUp(None));
                },
            },
            Phase::Cleaning { stopped, restart } => if let Occurrence::CleanedUp(process) =
                occurrence {
                self.phase = Phase::Joining { stopped: *stopped, restart: *restart, process };
                effects.push(Effect::Join);
            },
            Phase::Joining { stopped, restart, process } => if let Occurrence::Joined(output) =
                occurrence {
                let state = ended(*stopped, process, output);
                let start = *restart;
                // Dropped before the end is reported, so that a command given in
                // answer to the report is not.
                effects.push(Effect::Drain);
                effects.push(Effect::Report { run: self.run, state });
                self.turn(start, shutdown, &mut effects);
            },
            Phase::Halted => {},
        }
        assert(effects@ =~= old(self).stepped(occurrence, shutdown).1);
        effects
    }
}

// ---- What holds of every task ----

/// A report of `state` is true of `phase`: it says what the task is doing.
pub open spec fn truthful(phase: Phase, state: State) -> bool {
    match phase {
        Phase::Waiting | Phase::Halted => state.finished(),
        Phase::Spawning => state is Starting,
        Phase::Running => state is Running,
        Phase::Cleaning { stopped, .. } | Phase::Joining { stopped, .. } => if stopped {
            state is Stopping
        } else {
            state is Running
        },
    }
}

/// The last state that was reported, `before` where none was.
pub open spec fn last_report(effects: Seq<Effect>, before: State) -> State
    decreases effects.len(),
{
    if effects.len() == 0 {
        before
    } else {
        match effects.last() {
            Effect::Report { state, .. } => state,
            _ => last_report(effects.drop_last(), before),
        }
    }
}

proof fn last_report_of_sum(first: Seq<Effect>, second: Seq<Effect>, before: State)
    ensures
        last_report(first + second, before) == last_report(second, last_report(first, before)),
    decreases second.len(),
{
    if second.len() == 0 {
        assert(first + second =~= first);
    } else {
        assert((first + second).drop_last() =~= first + second.drop_last());
        last_report_of_sum(first, second.drop_last(), before);
    }
}

proof fn last_report_of_two(first: Effect, second: Effect, before: State)
    ensures
        last_report(seq![first, second], before) == match second {
            Effect::Report { state, .. } => state,
            _ => match first {
                Effect::Report { state, .. } => state,
                _ => before,
            },
        },
{
    reveal_with_fuel(last_report, 3);
    assert(seq![first, second].drop_last() =~= seq![first]);
    assert(seq![first].drop_last() =~= Seq::<Effect>::empty());
}

proof fn last_report_of_one(effect: Effect, before: State)
    ensures
        last_report(seq![effect], before) == match effect {
            Effect::Report { state, .. } => state,
            _ => before,
        },
{
    reveal_with_fuel(last_report, 2);
    assert(seq![effect].drop_last() =~= Seq::<Effect>::empty());
}

proof fn turning_is_truthful(actor: Actor, start: bool, shutdown: bool, before: State)
    requires
        before.finished(),
    ensures
        ({
            let (next, effects) = actor.turned(start, shutdown);
            truthful(next.phase, last_report(effects, before))
        }),
{
    last_report_of_two(
        Effect::Report { run: (actor.run + 1) as u64, state: State::Starting },
        Effect::Spawn,
        before,
    );
    last_report_of_one(Effect::Halt, before);
    last_report_of_one(Effect::Await, before);
}

/// The state last reported is always true of what the task is doing: of a new
/// task, and after every step if it was before.
pub proof fn reports_stay_truthful(
    actor: Actor,
    occurrence: Occurrence,
    shutdown: bool,
    before: State,
)
    requires
        actor.expects(occurrence),
        truthful(actor.phase, before),
    ensures
        ({
            let (next, effects) = actor.stepped(occurrence, shutdown);
            truthful(next.phase, last_report(effects, before))
        }),
{
    let effects = actor.stepped(occurrence, shutdown).1;
    match actor.phase {
        Phase::Waiting => {
            turning_is_truthful(actor, true, shutdown, before);
            turning_is_truthful(actor, false, shutdown, before);
            last_report_of_one(Effect::Halt, before);
        },
        Phase::Spawning => {
            if let Occurrence::SpawnFailed(error) = occurrence {
                let failed = Effect::Report { run: actor.run, state: State::Failed(error) };
                last_report_of_two(Effect::Drain, failed, before);
                last_report_of_sum(
                    seq![Effect::Drain, failed],
                    actor.turned(false, shutdown).1,
                    before,
                );
                turning_is_truthful(actor, false, shutdown, State::Failed(error));
            } else {
                last_report_of_two(effects[0], effects[1], before);
            }
        },
        Phase::Running => {
            if effects.len() == 1 {
                assert(effects =~= seq![effects[0]]);
                last_report_of_one(effects[0], before);
            } else {
                assert(effects =~= seq![effects[0], effects[1]]);
                last_report_of_two(effects[0], effects[1], before);
            }
        },
        Phase::Cleaning { .. } => {
            last_report_of_one(Effect::Join, before);
        },
        Phase::Joining { stopped, restart, process } => {
            if let Occurrence::Joined(output) = occurrence {
                let state = final_state(stopped, process, output);
                let ended = Effect::Report { run: actor.run, state };
                last_report_of_two(Effect::Drain, ended, before);
                last_report_of_sum(
                    seq![Effect::Drain, ended],
                    actor.turned(restart, shutdown).1,
                    before,
                );
                turning_is_truthful(actor, restart, shutdown, state);
            }
        },
        Phase::Halted => {},
    }
}

/// A new task reports truthfully from the start.
pub proof fn new_reports_are_truthful(fresh: Actor, autostart: bool, shutdown: bool)
    requires
        fresh.phase is Waiting,
    ensures
        ({
            let (next, effects) = fresh.turned(autostart, shutdown);
            truthful(next.phase, last_report(effects, State::Stopped))
        }),
{
    turning_is_truthful(fresh, autostart, shutdown, State::Stopped);
}

/// A process is started only when none is left: while waiting for a command, or
/// once the last one is cleaned up and its output read. A restart waits for that.
pub proof fn processes_never_overlap(actor: Actor, occurrence: Occurrence, shutdown: bool)
    requires
        actor.expects(occurrence),
        actor.stepped(occurrence, shutdown).1.contains(Effect::Spawn),
    ensures
        actor.phase is Waiting || actor.phase is Joining && occurrence is Joined,
        actor.stepped(occurrence, shutdown).0.phase is Spawning,
{
    let effects = actor.stepped(occurrence, shutdown).1;
    let i = choose|i: int| 0 <= i < effects.len() && effects[i] == Effect::Spawn;
    assert(effects[i] == Effect::Spawn);
}

/// No process is started once all services are to stop.
pub proof fn shutdown_starts_nothing(actor: Actor, occurrence: Occurrence)
    requires
        actor.expects(occurrence),
    ensures
        !actor.stepped(occurrence, true).1.contains(Effect::Spawn),
{
}

/// Services never start by themselves: only a command starts one, or asks for
/// the restart that follows the cleanup.
pub proof fn nothing_restarts_by_itself(actor: Actor, occurrence: Occurrence, shutdown: bool)
    requires
        actor.expects(occurrence),
    ensures
        actor.stepped(occurrence, shutdown).1.contains(Effect::Spawn) ==> occurrence
            == Occurrence::Command(Command::Start) || occurrence == Occurrence::Command(
            Command::Restart,
        ) || actor.phase.restarting(),
        actor.stepped(occurrence, shutdown).0.phase.restarting() && actor.phase is Running
            ==> occurrence == Occurrence::Command(Command::Restart),
{
    let effects = actor.stepped(occurrence, shutdown).1;
    if effects.contains(Effect::Spawn) {
        let i = choose|i: int| 0 <= i < effects.len() && effects[i] == Effect::Spawn;
        assert(effects[i] == Effect::Spawn);
    }
}

/// Told to stop for good, a task ends: at once, or once its process is cleaned
/// up and the output read.
pub proof fn shutdown_ends_the_task(
    actor: Actor,
    process: Result<ProcessExit, String>,
    output: Result<(), String>,
)
    requires
        actor.expects(Occurrence::Shutdown),
    ensures
        ({
            let next = actor.stepped(Occurrence::Shutdown, true).0;
            ||| next.phase is Halted
            ||| {
                let joining = next.stepped(Occurrence::CleanedUp(process), true).0;
                &&& next.expects(Occurrence::CleanedUp(process))
                &&& joining.expects(Occurrence::Joined(output))
                &&& joining.stepped(Occurrence::Joined(output), true).0.phase is Halted
            }
        }),
{
}

/// Waiting commands are dropped right before the end of a run is reported, and
/// at no other time: a command given in answer to the report is kept.
pub proof fn commands_are_dropped_before_the_end_is_reported(
    actor: Actor,
    occurrence: Occurrence,
    shutdown: bool,
    i: int,
)
    requires
        actor.expects(occurrence),
        0 <= i < actor.stepped(occurrence, shutdown).1.len(),
        actor.stepped(occurrence, shutdown).1[i] == Effect::Drain,
    ensures
        i + 1 < actor.stepped(occurrence, shutdown).1.len(),
        actor.stepped(occurrence, shutdown).1[i + 1] matches Effect::Report { state, .. }
            && state.finished(),
{
}

/// The runs that reports belong to never go back, and a run begins with its
/// report.
pub proof fn runs_are_reported_in_order(
    actor: Actor,
    occurrence: Occurrence,
    shutdown: bool,
    i: int,
    j: int,
)
    requires
        actor.expects(occurrence),
        actor.run < u64::MAX,
        0 <= i <= j < actor.stepped(occurrence, shutdown).1.len(),
        actor.stepped(occurrence, shutdown).1[i] is Report,
        actor.stepped(occurrence, shutdown).1[j] is Report,
    ensures
        actor.run <= actor.stepped(occurrence, shutdown).1[i]->run
            <= actor.stepped(occurrence, shutdown).1[j]->run <= actor.stepped(
            occurrence,
            shutdown,
        ).0.run <= actor.run + 1,
        actor.stepped(occurrence, shutdown).1[i]->run > actor.run
            ==> actor.stepped(occurrence, shutdown).1[i]->state is Starting,
{
}

/// Every process is cleaned up, however it comes to its end: a running service
/// goes on running or turns to the cleanup, and only the cleanup leads on.
pub proof fn every_process_is_cleaned_up(actor: Actor, occurrence: Occurrence, shutdown: bool)
    requires
        actor.expects(occurrence),
        actor.phase is Running,
    ensures
        ({
            let (next, effects) = actor.stepped(occurrence, shutdown);
            ||| next == actor && effects.last() is Watch
            ||| next.phase is Cleaning && effects.last() is CleanUp
        }),
{
}

/// After every cleanup, whatever its result, the task waits for those that read
/// the output.
pub proof fn all_output_is_waited_for(
    actor: Actor,
    process: Result<ProcessExit, String>,
    shutdown: bool,
)
    requires
        actor.expects(Occurrence::CleanedUp(process)),
    ensures
        actor.stepped(Occurrence::CleanedUp(process), shutdown).0.phase is Joining,
        actor.stepped(Occurrence::CleanedUp(process), shutdown).1 == seq![Effect::Join],
{
}

/// The end of a run is reported only once the tasks that read its output are
/// done, or where no process could be started.
pub proof fn the_end_is_reported_after_the_output(
    actor: Actor,
    occurrence: Occurrence,
    shutdown: bool,
    i: int,
)
    requires
        actor.expects(occurrence),
        0 <= i < actor.stepped(occurrence, shutdown).1.len(),
        actor.stepped(occurrence, shutdown).1[i] matches Effect::Report { state, .. }
            && state.finished(),
    ensures
        actor.phase is Joining && occurrence is Joined || occurrence is SpawnFailed,
{
}

// ---- What holds of a whole run ----

/// What the actor becomes and does over several occurrences, each with whether
/// all services are to stop by then.
#[verifier::opaque]
pub open spec fn told(actor: Actor, occurrences: Seq<(Occurrence, bool)>) -> (Actor, Seq<Effect>)
    decreases occurrences.len(),
{
    if occurrences.len() == 0 {
        (actor, seq![])
    } else {
        let (before, done) = told(actor, occurrences.drop_last());
        let (occurrence, shutdown) = occurrences.last();
        let (next, effects) = before.stepped(occurrence, shutdown);
        (next, done + effects)
    }
}

/// The actor is in this run.
pub open spec fn in_run(actor: Actor, run: u64) -> bool {
    actor.run == run && (actor.phase is Spawning || actor.phase.reading())
}

/// The occurrence at `i` can come up after those before it, in the run that the
/// actor was in.
pub open spec fn happens_at(actor: Actor, occurrences: Seq<(Occurrence, bool)>, i: int) -> bool {
    let before = told(actor, occurrences.take(i)).0;
    in_run(before, actor.run) && before.expects(occurrences[i].0)
}

/// The occurrences can come up one after the other, all of them in the run that
/// the actor is in.
pub open spec fn happens_in_run(actor: Actor, occurrences: Seq<(Occurrence, bool)>) -> bool {
    forall|i: int| 0 <= i < occurrences.len() ==> #[trigger] happens_at(actor, occurrences, i)
}

/// The states that are reported of a run, in order.
pub open spec fn reported(effects: Seq<Effect>, run: u64) -> Seq<State>
    decreases effects.len(),
{
    if effects.len() == 0 {
        seq![]
    } else {
        let before = reported(effects.drop_last(), run);
        match effects.last() {
            Effect::Report { run: of, state } => if of == run {
                before.push(state)
            } else {
                before
            },
            _ => before,
        }
    }
}

/// The occurrence ends a running process from outside.
pub open spec fn from_outside(occurrence: Occurrence) -> bool {
    match occurrence {
        Occurrence::Shutdown | Occurrence::Disconnected => true,
        Occurrence::Command(command) => command != Command::Start,
        _ => false,
    }
}

/// What is reported of a run that is being cleaned up so far.
pub open spec fn reported_before_the_end(stopped: bool) -> Seq<State> {
    if stopped {
        seq![State::Running, State::Stopping]
    } else {
        seq![State::Running]
    }
}

proof fn reported_of_sum(first: Seq<Effect>, second: Seq<Effect>, run: u64)
    ensures
        reported(first + second, run) == reported(first, run) + reported(second, run),
    decreases second.len(),
{
    if second.len() == 0 {
        assert(first + second =~= first);
        assert(reported(first, run) + reported(second, run) =~= reported(first, run));
    } else {
        reported_of_sum(first, second.drop_last(), run);
        assert((first + second).drop_last() =~= first + second.drop_last());
        assert(reported(first + second, run) =~= reported(first, run) + reported(second, run));
    }
}

proof fn reported_of_step(actor: Actor, occurrence: Occurrence, shutdown: bool)
    requires
        actor.expects(occurrence),
        actor.run < u64::MAX,
    ensures
        ({
            let (next, effects) = actor.stepped(occurrence, shutdown);
            reported(effects, actor.run) == match actor.phase {
                Phase::Spawning => match occurrence {
                    Occurrence::SpawnFailed(error) => seq![State::Failed(error)],
                    _ => seq![State::Running],
                },
                Phase::Running => if from_outside(occurrence) {
                    seq![State::Stopping]
                } else {
                    seq![]
                },
                Phase::Joining { stopped, process, .. } => seq![
                    final_state(stopped, process, occurrence->Joined_0),
                ],
                _ => seq![],
            }
        }),
{
    let (next, effects) = actor.stepped(occurrence, shutdown);
    let run = actor.run;
    reveal_with_fuel(reported, 5);
    if effects.len() >= 1 {
        assert(effects.drop_last().len() == effects.len() - 1);
    }
    if effects.len() >= 2 {
        assert(effects.drop_last().drop_last().len() == effects.len() - 2);
    }
    if effects.len() >= 3 {
        assert(effects.drop_last().drop_last().drop_last().len() == effects.len() - 3);
    }
    if effects.len() >= 4 {
        assert(effects.drop_last().drop_last().drop_last().drop_last().len() == 0);
    }
    match actor.phase {
        Phase::Spawning => {
            if let Occurrence::SpawnFailed(error) = occurrence {
                assert(reported(effects, run) =~= seq![State::Failed(error)]);
            } else {
                assert(reported(effects, run) =~= seq![State::Running]);
            }
        },
        Phase::Running => {
            if from_outside(occurrence) {
                assert(reported(effects, run) =~= seq![State::Stopping]);
            } else {
                assert(reported(effects, run) =~= Seq::<State>::empty());
            }
        },
        Phase::Joining { stopped, process, .. } => {
            assert(reported(effects, run) =~= seq![
                final_state(stopped, process, occurrence->Joined_0),
            ]);
        },
        _ => {
            assert(reported(effects, run) =~= Seq::<State>::empty());
        },
    }
}

proof fn told_of_one_more(actor: Actor, occurrences: Seq<(Occurrence, bool)>)
    requires
        occurrences.len() > 0,
    ensures
        ({
            let (before, done) = told(actor, occurrences.drop_last());
            let (occurrence, shutdown) = occurrences.last();
            let (next, effects) = before.stepped(occurrence, shutdown);
            told(actor, occurrences) == (next, done + effects)
        }),
{
    reveal(told);
}

proof fn phase_in_run(actor: Actor, occurrence: Occurrence, shutdown: bool)
    requires
        actor.expects(occurrence),
        actor.run < u64::MAX,
        in_run(actor, actor.run),
    ensures
        ({
            let next = actor.stepped(occurrence, shutdown).0;
            match actor.phase {
                Phase::Spawning => if occurrence is SpawnFailed {
                    !in_run(next, actor.run)
                } else {
                    in_run(next, actor.run) && next.phase is Running
                },
                Phase::Running => {
                    &&& in_run(next, actor.run)
                    &&& match next.phase {
                        Phase::Running => !from_outside(occurrence),
                        Phase::Cleaning { stopped, .. } => stopped == from_outside(occurrence),
                        _ => false,
                    }
                },
                Phase::Cleaning { stopped, .. } => {
                    &&& in_run(next, actor.run)
                    &&& next.phase is Joining
                    &&& next.phase->Joining_stopped == stopped
                    &&& occurrence == Occurrence::CleanedUp(next.phase->process)
                },
                _ => !in_run(next, actor.run) && occurrence is Joined,
            }
        }),
{
}

proof fn earlier_happens(actor: Actor, occurrences: Seq<(Occurrence, bool)>)
    requires
        occurrences.len() > 0,
        happens_in_run(actor, occurrences),
    ensures
        happens_in_run(actor, occurrences.drop_last()),
        in_run(told(actor, occurrences.drop_last()).0, actor.run),
        told(actor, occurrences.drop_last()).0.expects(occurrences.last().0),
{
    let earlier = occurrences.drop_last();
    let last = occurrences.len() - 1;
    assert(happens_at(actor, occurrences, last));
    assert(occurrences.take(last) =~= earlier);
    assert forall|i: int| 0 <= i < earlier.len() implies #[trigger] happens_at(
        actor,
        earlier,
        i,
    ) by {
        assert(happens_at(actor, occurrences, i));
        assert(earlier.take(i) =~= occurrences.take(i));
        assert(earlier[i] == occurrences[i]);
    }
}

/// What was reported of a run, by where it has come.
spec fn reported_in(
    phase: Phase,
    occurrences: Seq<(Occurrence, bool)>,
    reports: Seq<State>,
) -> bool {
    match phase {
        Phase::Spawning => occurrences.len() == 0 && reports == Seq::<State>::empty(),
        Phase::Running => occurrences.len() >= 1 && reports == seq![State::Running],
        Phase::Cleaning { stopped, .. } => {
            &&& occurrences.len() >= 2
            &&& stopped == from_outside(occurrences.last().0)
            &&& reports == reported_before_the_end(stopped)
        },
        Phase::Joining { stopped, process, .. } => {
            &&& occurrences.len() >= 3
            &&& occurrences.last().0 == Occurrence::CleanedUp(process)
            &&& stopped == from_outside(occurrences[occurrences.len() - 2].0)
            &&& reports == reported_before_the_end(stopped)
        },
        _ => false,
    }
}

proof fn reported_so_far(actor: Actor, occurrences: Seq<(Occurrence, bool)>)
    requires
        actor.phase is Spawning,
        actor.run < u64::MAX,
        happens_in_run(actor, occurrences),
        in_run(told(actor, occurrences).0, actor.run),
    ensures
        reported_in(
            told(actor, occurrences).0.phase,
            occurrences,
            reported(told(actor, occurrences).1, actor.run),
        ),
    decreases occurrences.len(),
{
    if occurrences.len() == 0 {
        reveal(told);
    } else {
        let earlier = occurrences.drop_last();
        earlier_happens(actor, occurrences);
        reported_so_far(actor, earlier);
        told_of_one_more(actor, occurrences);
        let (before, done) = told(actor, earlier);
        let (occurrence, shutdown) = occurrences.last();
        phase_in_run(before, occurrence, shutdown);
        reported_of_step(before, occurrence, shutdown);
        reported_of_sum(done, before.stepped(occurrence, shutdown).1, actor.run);
        let reports = reported(told(actor, occurrences).1, actor.run);
        if before.phase is Cleaning {
            assert(earlier.last() == occurrences[occurrences.len() - 2]);
            assert(reports =~= reported(done, actor.run));
        } else if from_outside(occurrence) && before.phase is Running {
            assert(reports =~= seq![State::Running, State::Stopping]);
        } else {
            assert(reports =~= seq![State::Running]);
        }
    }
}

/// A run whose process could be started is reported as running, then as stopping
/// just when it is ended from outside, and in the end by exactly one finished
/// state: failed if the cleanup or reading the output did, otherwise stopped if
/// the run was ended from outside, otherwise exited with its code. A run whose
/// process could not be started is reported as failed and by nothing else. This
/// is what follows the report that the run is starting.
pub proof fn a_run_is_reported_as_a_whole(actor: Actor, occurrences: Seq<(Occurrence, bool)>)
    requires
        actor.phase is Spawning,
        actor.run < u64::MAX,
        happens_in_run(actor, occurrences),
        !in_run(told(actor, occurrences).0, actor.run),
    ensures
        ({
            let reports = reported(told(actor, occurrences).1, actor.run);
            let last = occurrences.len() - 1;
            match occurrences[last].0 {
                Occurrence::SpawnFailed(error) => reports == seq![State::Failed(error)],
                Occurrence::Joined(output) => {
                    let stopped = from_outside(occurrences[last - 2].0);
                    let process = occurrences[last - 1].0->CleanedUp_0;
                    &&& last >= 3
                    &&& occurrences[last - 1].0 is CleanedUp
                    &&& reports == reported_before_the_end(stopped).push(
                        final_state(stopped, process, output),
                    )
                    &&& final_state(stopped, process, output).finished()
                },
                _ => false,
            }
        }),
{
    if occurrences.len() == 0 {
        reveal(told);
    }
    let earlier = occurrences.drop_last();
    let last = occurrences.len() - 1;
    earlier_happens(actor, occurrences);
    reported_so_far(actor, earlier);
    told_of_one_more(actor, occurrences);
    let (before, done) = told(actor, earlier);
    let (occurrence, shutdown) = occurrences.last();
    phase_in_run(before, occurrence, shutdown);
    reported_of_step(before, occurrence, shutdown);
    reported_of_sum(done, before.stepped(occurrence, shutdown).1, actor.run);
    let reports = reported(told(actor, occurrences).1, actor.run);
    match occurrence {
        Occurrence::SpawnFailed(error) => {
            assert(reports =~= seq![State::Failed(error)]);
        },
        Occurrence::Joined(output) => {
            assert(earlier.last() == occurrences[last - 1]);
            assert(earlier[earlier.len() - 2] == occurrences[last - 2]);
            let stopped = from_outside(occurrences[last - 2].0);
            let process = occurrences[last - 1].0->CleanedUp_0;
            assert(reports =~= reported_before_the_end(stopped).push(
                final_state(stopped, process, output),
            ));
        },
        _ => {},
    }
}

// ---- A run and its output ----

/// Something that happens in a run: the task is told something, or one of those
/// that read the output hands some over.
pub enum Happening {
    Told(Occurrence, bool),
    Output,
}

/// Something about a run in the queue of events.
pub enum Queued {
    State(State),
    Output,
}

/// What the actor becomes, and what gets into the queue of events about the run
/// that it was in, over several happenings.
#[verifier::opaque]
pub open spec fn queued(actor: Actor, happenings: Seq<Happening>) -> (Actor, Seq<Queued>)
    decreases happenings.len(),
{
    if happenings.len() == 0 {
        (actor, seq![])
    } else {
        let (before, queue) = queued(actor, happenings.drop_last());
        match happenings.last() {
            Happening::Told(occurrence, shutdown) => {
                let (next, effects) = before.stepped(occurrence, shutdown);
                let states = reported(effects, actor.run);
                (next, queue + states.map_values(|state: State| Queued::State(state)))
            },
            Happening::Output => (before, queue.push(Queued::Output)),
        }
    }
}

/// The happening at `i` can come after those before it, in the run that the actor
/// was in. Output is handed over only while there are tasks that read it: they
/// are begun with the process, and joined they are done.
pub open spec fn comes_at(actor: Actor, happenings: Seq<Happening>, i: int) -> bool {
    let before = queued(actor, happenings.take(i)).0;
    in_run(before, actor.run) && match happenings[i] {
        Happening::Told(occurrence, _) => before.expects(occurrence),
        Happening::Output => before.phase.reading(),
    }
}

/// The happenings can come one after the other, all of them in the run that the
/// actor is in.
pub open spec fn comes_in_run(actor: Actor, happenings: Seq<Happening>) -> bool {
    forall|i: int| 0 <= i < happenings.len() ==> #[trigger] comes_at(actor, happenings, i)
}

/// The state of a run that is over.
pub open spec fn ends(entry: Queued) -> bool {
    entry matches Queued::State(state) && state.finished()
}

proof fn queued_of_one_more(actor: Actor, happenings: Seq<Happening>)
    requires
        happenings.len() > 0,
    ensures
        ({
            let (before, queue) = queued(actor, happenings.drop_last());
            queued(actor, happenings) == match happenings.last() {
                Happening::Told(occurrence, shutdown) => {
                    let (next, effects) = before.stepped(occurrence, shutdown);
                    let states = reported(effects, actor.run);
                    (next, queue + states.map_values(|state: State| Queued::State(state)))
                },
                Happening::Output => (before, queue.push(Queued::Output)),
            }
        }),
{
    reveal(queued);
}

proof fn earlier_comes(actor: Actor, happenings: Seq<Happening>)
    requires
        happenings.len() > 0,
        comes_in_run(actor, happenings),
    ensures
        comes_in_run(actor, happenings.drop_last()),
        in_run(queued(actor, happenings.drop_last()).0, actor.run),
        happenings.last() matches Happening::Told(occurrence, _) ==> queued(
            actor,
            happenings.drop_last(),
        ).0.expects(occurrence),
{
    let earlier = happenings.drop_last();
    let last = happenings.len() - 1;
    assert(comes_at(actor, happenings, last));
    assert(happenings.take(last) =~= earlier);
    assert forall|i: int| 0 <= i < earlier.len() implies #[trigger] comes_at(
        actor,
        earlier,
        i,
    ) by {
        assert(comes_at(actor, happenings, i));
        assert(earlier.take(i) =~= happenings.take(i));
        assert(earlier[i] == happenings[i]);
    }
}

proof fn nothing_ends_within_a_run(actor: Actor, happenings: Seq<Happening>)
    requires
        actor.run < u64::MAX,
        comes_in_run(actor, happenings),
        in_run(queued(actor, happenings).0, actor.run),
    ensures
        forall|i: int|
            0 <= i < queued(actor, happenings).1.len() ==> !ends(
                #[trigger] queued(actor, happenings).1[i],
            ),
    decreases happenings.len(),
{
    if happenings.len() == 0 {
        reveal(queued);
    } else {
        earlier_comes(actor, happenings);
        nothing_ends_within_a_run(actor, happenings.drop_last());
        queued_of_one_more(actor, happenings);
        let (before, queue) = queued(actor, happenings.drop_last());
        if let Happening::Told(occurrence, shutdown) = happenings.last() {
            phase_in_run(before, occurrence, shutdown);
            reported_of_step(before, occurrence, shutdown);
        }
    }
}

/// All output of a run comes before its end in the queue of events: once the run
/// is over, the last entry about it is a finished state, and no other one is.
pub proof fn all_output_comes_before_the_end(actor: Actor, happenings: Seq<Happening>)
    requires
        in_run(actor, actor.run),
        actor.run < u64::MAX,
        comes_in_run(actor, happenings),
        !in_run(queued(actor, happenings).0, actor.run),
    ensures
        ({
            let queue = queued(actor, happenings).1;
            &&& queue.len() > 0
            &&& ends(queue.last())
            &&& forall|i: int| 0 <= i < queue.len() - 1 ==> !ends(#[trigger] queue[i])
        }),
{
    if happenings.len() == 0 {
        reveal(queued);
    }
    earlier_comes(actor, happenings);
    nothing_ends_within_a_run(actor, happenings.drop_last());
    queued_of_one_more(actor, happenings);
    let (before, queue) = queued(actor, happenings.drop_last());
    if let Happening::Told(occurrence, shutdown) = happenings.last() {
        phase_in_run(before, occurrence, shutdown);
        reported_of_step(before, occurrence, shutdown);
        assert(queued(actor, happenings).1.drop_last() =~= queue);
    }
}

// ---- What each occurrence leads to ----

/// A start command always starts a waiting service, and so does a restart: the
/// next run begins, is reported as starting, and its process is started.
pub proof fn a_start_command_starts(actor: Actor, command: Command)
    requires
        actor.phase is Waiting,
        actor.run < u64::MAX,
        command is Start || command is Restart,
    ensures
        ({
            let (next, effects) = actor.stepped(Occurrence::Command(command), false);
            &&& next.phase is Spawning
            &&& next.run == actor.run + 1
            &&& next.terminal == actor.terminal
            &&& effects == seq![
                Effect::Report { run: next.run, state: State::Starting },
                Effect::Spawn,
            ]
        }),
{
}

/// There is nothing to stop in a waiting service: it goes on waiting, and nothing
/// is reported.
pub proof fn a_stop_command_leaves_a_waiting_service(actor: Actor)
    requires
        actor.phase is Waiting,
    ensures
        actor.stepped(Occurrence::Command(Command::Stop), false) == (actor, seq![Effect::Await]),
{
}

/// A waiting service ends when all are to stop or no command can arrive, and
/// also when it hears of the first only with a command.
pub proof fn a_waiting_service_can_end(actor: Actor, command: Command, shutdown: bool)
    requires
        actor.phase is Waiting,
    ensures
        actor.stepped(Occurrence::Shutdown, shutdown).0.phase is Halted,
        actor.stepped(Occurrence::Shutdown, shutdown).1 == seq![Effect::Halt],
        actor.stepped(Occurrence::Disconnected, shutdown).0.phase is Halted,
        actor.stepped(Occurrence::Disconnected, shutdown).1 == seq![Effect::Halt],
        actor.stepped(Occurrence::Command(command), true).0.phase is Halted,
        actor.stepped(Occurrence::Command(command), true).1 == seq![Effect::Halt],
{
}

/// A new task starts its service just when the service starts by itself and not
/// all services are to stop. It waits for a command otherwise.
pub proof fn a_new_task_starts_what_starts_by_itself(fresh: Actor, autostart: bool)
    requires
        fresh.run == 0,
    ensures
        fresh.turned(autostart, true).0.phase is Halted,
        fresh.turned(autostart, true).1 == seq![Effect::Halt],
        fresh.turned(true, false) == (
            Actor { run: 1, terminal: fresh.terminal, phase: Phase::Spawning },
            seq![Effect::Report { run: 1, state: State::Starting }, Effect::Spawn],
        ),
        fresh.turned(false, false) == (
            Actor { run: 0, terminal: fresh.terminal, phase: Phase::Waiting },
            seq![Effect::Await],
        ),
{
}

/// A process that could be started is reported as running and watched. One that
/// could not is reported as failed, with the reason, and waiting commands are
/// dropped. Then the task ends if all services are to stop and waits for a command
/// otherwise.
pub proof fn starting_succeeds_or_fails(actor: Actor, error: String, shutdown: bool)
    requires
        actor.phase is Spawning,
    ensures
        actor.stepped(Occurrence::Spawned, shutdown) == (
            Actor { run: actor.run, terminal: actor.terminal, phase: Phase::Running },
            seq![Effect::Report { run: actor.run, state: State::Running }, Effect::Watch],
        ),
        actor.stepped(Occurrence::SpawnFailed(error), shutdown) == (
            Actor {
                run: actor.run,
                terminal: actor.terminal,
                phase: if shutdown {
                    Phase::Halted
                } else {
                    Phase::Waiting
                },
            },
            seq![
                Effect::Drain,
                Effect::Report { run: actor.run, state: State::Failed(error) },
                if shutdown {
                    Effect::Halt
                } else {
                    Effect::Await
                },
            ],
        ),
{
    assert(actor.stepped(Occurrence::SpawnFailed(error), shutdown).1 =~= seq![
        Effect::Drain,
        Effect::Report { run: actor.run, state: State::Failed(error) },
        if shutdown {
            Effect::Halt
        } else {
            Effect::Await
        },
    ]);
}

/// A running service stops on every other command than start, and also when all
/// services are to stop or no command can arrive: it is reported as stopping and
/// its process cleaned up. Just a restart is followed by another run.
pub proof fn a_running_service_can_be_stopped(
    actor: Actor,
    occurrence: Occurrence,
    shutdown: bool,
)
    requires
        actor.phase is Running,
        occurrence is Shutdown || occurrence is Disconnected || occurrence == Occurrence::Command(
            Command::Stop,
        ) || occurrence == Occurrence::Command(Command::Restart),
    ensures
        actor.stepped(occurrence, shutdown) == (
            Actor {
                run: actor.run,
                terminal: actor.terminal,
                phase: Phase::Cleaning {
                    stopped: true,
                    restart: occurrence == Occurrence::Command(Command::Restart),
                },
            },
            seq![Effect::Report { run: actor.run, state: State::Stopping }, Effect::CleanUp(None)],
        ),
{
}

/// Starting a running service does nothing, and neither do replies for it, but
/// that those for the terminal of its run are handed on.
pub proof fn a_running_service_goes_on(actor: Actor, run: u64, shutdown: bool)
    requires
        actor.phase is Running,
    ensures
        actor.stepped(Occurrence::Command(Command::Start), shutdown) == (
            actor,
            seq![Effect::Watch],
        ),
        actor.stepped(Occurrence::Reply { run }, shutdown).0 == actor,
        run == actor.run && actor.terminal ==> actor.stepped(
            Occurrence::Reply { run },
            shutdown,
        ).1 == seq![Effect::Forward, Effect::Watch],
        run != actor.run || !actor.terminal ==> actor.stepped(
            Occurrence::Reply { run },
            shutdown,
        ).1 == seq![Effect::Watch],
{
}

/// A process that ends by itself, or whose terminal cannot be resized, is cleaned
/// up with that result. It does not count as stopped, and no run follows it.
pub proof fn a_process_can_end_by_itself(
    actor: Actor,
    status: Result<ProcessExit, String>,
    error: String,
    shutdown: bool,
)
    requires
        actor.phase is Running,
    ensures
        actor.stepped(Occurrence::Exited(status), shutdown) == (
            Actor {
                run: actor.run,
                terminal: actor.terminal,
                phase: Phase::Cleaning { stopped: false, restart: false },
            },
            seq![Effect::CleanUp(Some(status))],
        ),
        actor.stepped(Occurrence::ResizeFailed(error), shutdown) == actor.stepped(
            Occurrence::Exited(Err(error)),
            shutdown,
        ),
{
}

/// The result of a cleanup is kept, with why the process was cleaned up, until
/// the output is read.
pub proof fn the_result_of_a_cleanup_is_kept(
    actor: Actor,
    process: Result<ProcessExit, String>,
    shutdown: bool,
)
    requires
        actor.phase is Cleaning,
    ensures
        actor.stepped(Occurrence::CleanedUp(process), shutdown) == (
            Actor {
                run: actor.run,
                terminal: actor.terminal,
                phase: Phase::Joining {
                    stopped: actor.phase->Cleaning_stopped,
                    restart: actor.phase->Cleaning_restart,
                    process,
                },
            },
            seq![Effect::Join],
        ),
{
}

/// A run ends with one report: that it failed if its cleanup did, or else if
/// reading its output did, or else that it was stopped if it was, or else how its
/// process exited. Then the task ends if all services are to stop, or else begins
/// the next run if that was asked for, or else waits for a command.
pub proof fn a_run_ends_with_its_result(
    actor: Actor,
    exit: ProcessExit,
    failure: String,
    lost: String,
    output: Result<(), String>,
    stopped: bool,
    restart: bool,
    shutdown: bool,
)
    requires
        actor.run < u64::MAX,
    ensures
        ({
            let failed = Phase::Joining { stopped, restart, process: Err(failure) };
            let ended = Phase::Joining { stopped, restart, process: Ok(exit) };
            let of = |phase: Phase, output: Result<(), String>|
                (Actor { phase, ..actor }).stepped(Occurrence::Joined(output), shutdown);
            &&& ends_with(actor, of(failed, output), State::Failed(failure), restart, shutdown)
            &&& ends_with(actor, of(ended, Err(lost)), State::Failed(lost), restart, shutdown)
            &&& stopped ==> ends_with(actor, of(ended, Ok(())), State::Stopped, restart, shutdown)
            &&& !stopped ==> ends_with(
                actor,
                of(ended, Ok(())),
                State::Exited(exit.code),
                restart,
                shutdown,
            )
        }),
{
}

/// The actor reports this end of its run, and turns to what comes next.
pub open spec fn ends_with(
    actor: Actor,
    step: (Actor, Seq<Effect>),
    state: State,
    restart: bool,
    shutdown: bool,
) -> bool {
    let (next, effects) = step;
    &&& next.terminal == actor.terminal
    &&& effects.len() >= 3
    &&& effects[0] is Drain
    &&& effects[1] == Effect::Report { run: actor.run, state }
    &&& shutdown ==> {
        &&& next.phase is Halted
        &&& effects.len() == 3 && effects[2] is Halt
    }
    &&& !shutdown && restart ==> {
        &&& next.phase is Spawning && next.run == actor.run + 1
        &&& effects.len() == 4
        &&& effects[2] == Effect::Report { run: next.run, state: State::Starting }
        &&& effects[3] is Spawn
    }
    &&& !shutdown && !restart ==> {
        &&& next.phase is Waiting && next.run == actor.run
        &&& effects.len() == 3 && effects[2] is Await
    }
}

/// A restart leads from a running service to the next run, and a stop to a
/// service that can be started again, whatever the cleanup and the output came
/// to.
pub proof fn a_restart_leads_to_the_next_run(
    actor: Actor,
    process: Result<ProcessExit, String>,
    output: Result<(), String>,
)
    requires
        actor.phase is Running,
        actor.run < u64::MAX,
    ensures
        ({
            let cleaning = actor.stepped(Occurrence::Command(Command::Restart), false).0;
            let joining = cleaning.stepped(Occurrence::CleanedUp(process), false).0;
            let next = joining.stepped(Occurrence::Joined(output), false).0;
            next.phase is Spawning && next.run == actor.run + 1
        }),
        ({
            let cleaning = actor.stepped(Occurrence::Command(Command::Stop), false).0;
            let joining = cleaning.stepped(Occurrence::CleanedUp(process), false).0;
            let next = joining.stepped(Occurrence::Joined(output), false).0;
            next.phase is Waiting && next.run == actor.run
        }),
{
}

/// A task can be told whatever can happen where it stands, whichever run it is in
/// and whatever a command says: commands and the end of all commands while it
/// waits and while a process runs, and what came of what it does otherwise.
pub proof fn tasks_can_be_told_what_can_happen(actor: Actor, occurrence: Occurrence)
    ensures
        actor.phase is Waiting ==> actor.expects(occurrence) == (occurrence is Shutdown
            || occurrence is Command || occurrence is Disconnected),
        actor.phase is Spawning ==> actor.expects(occurrence) == (occurrence is Spawned
            || occurrence is SpawnFailed),
        actor.phase is Running ==> actor.expects(occurrence) == (occurrence is Shutdown
            || occurrence is Command || occurrence is Disconnected || occurrence is ResizeFailed
            || occurrence is Reply || occurrence is Exited),
        actor.phase is Cleaning ==> actor.expects(occurrence) == (occurrence is CleanedUp),
        actor.phase is Joining ==> actor.expects(occurrence) == (occurrence is Joined),
        actor.phase is Halted ==> !actor.expects(occurrence),
{
}

} // verus!
