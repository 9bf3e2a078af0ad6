//! The lifecycle of supervised services: what they report and how they are driven.

use crate::text::{push_decimal, push_signed};
use vstd::prelude::*;

verus! {

/// A tokio permit travels with every piece of output and is released when the
/// event is dropped. Nothing here looks inside it.
#[verifier::external_type_specification]
#[verifier::external_body]
pub struct ExOwnedSemaphorePermit(tokio::sync::OwnedSemaphorePermit);

/// A request to one service.
#[derive(Clone, Copy, Debug, PartialEq, Eq, Structural)]
pub enum Command {
    Start,
    Stop,
    Restart,
}

/// What a service is doing.
#[derive(Debug, PartialEq, Eq)]
pub enum State {
    Stopped,
    Starting,
    Running,
    Stopping,
    Exited(Option<i32>),
    Failed(String),
}

impl Clone for State {
    fn clone(&self) -> (copy: Self)
        ensures
            copy == *self,
    {
        match self {
            State::Stopped => State::Stopped,
            State::Starting => State::Starting,
            State::Running => State::Running,
            State::Stopping => State::Stopping,
            State::Exited(code) => State::Exited(*code),
            State::Failed(error) => State::Failed(error.clone()),
        }
    }
}

impl State {
    /// A process exists or is about to.
    pub open spec fn active(self) -> bool {
        self is Starting || self is Running || self is Stopping
    }

    /// No process exists and none is about to.
    pub open spec fn finished(self) -> bool {
        self is Stopped || self is Exited || self is Failed
    }

    /// The run ended badly: it failed, was ended by a signal, or left a
    /// nonzero exit code.
    pub open spec fn failure(self) -> bool {
        match self {
            State::Failed(_) => true,
            State::Exited(code) => code != Some(0i32),
            _ => false,
        }
    }

    /// The text that names the state.
    pub open spec fn label_text(self) -> Seq<char> {
        match self {
            State::Stopped => "stopped"@,
            State::Starting => "starting"@,
            State::Running => "running"@,
            State::Stopping => "stopping"@,
            State::Exited(Some(code)) => "exited ("@ + crate::text::signed_decimal(code as int)
                + ")"@,
            State::Exited(None) => "exited (signal)"@,
            State::Failed(error) => "failed: "@ + error@,
        }
    }

    /// Every state is either active or finished, and never both.
    pub proof fn active_or_finished(self)
        ensures
            self.active() != self.finished(),
    {
    }

    /// Only a finished service can count as a failure.
    pub proof fn failure_is_final(self)
        ensures
            self.failure() ==> self.finished(),
    {
    }

    #[must_use]
    pub fn is_active(&self) -> (active: bool)
        ensures
            active == self.active(),
    {
        matches!(self, State::Starting | State::Running | State::Stopping)
    }

    #[must_use]
    pub fn is_finished(&self) -> (finished: bool)
        ensures
            finished == self.finished(),
    {
        matches!(self, State::Stopped | State::Exited(_) | State::Failed(_))
    }

    /// Whether the state counts as a service failure.
    #[must_use]
    pub fn is_failure(&self) -> (failure: bool)
        ensures
            failure == self.failure(),
    {
        match self {
            State::Failed(_) => true,
            State::Exited(None) => true,
            State::Exited(Some(code)) => *code != 0,
            _ => false,
        }
    }

    #[must_use]
    pub fn label(&self) -> (label: String)
        ensures
            label@ == self.label_text(),
    {
        match self {
            State::Stopped => "stopped".to_owned(),
            State::Starting => "starting".to_owned(),
            State::Running => "running".to_owned(),
            State::Stopping => "stopping".to_owned(),
            State::Exited(Some(code)) => {
                let mut label = "exited (".to_owned();
                push_signed(&mut label, *code);
                label.push_str(")");
                label
            },
            State::Exited(None) => "exited (signal)".to_owned(),
            State::Failed(error) => {
                let mut label = "failed: ".to_owned();
                label.push_str(error.as_str());
                label
            },
        }
    }
}

/// Which of a service's output streams a record came from.
#[derive(Clone, Copy, Debug, PartialEq, Eq, Structural)]
pub enum Stream {
    Stdout,
    Stderr,
}

/// What happened to a service.
#[derive(Debug)]
pub enum EventKind {
    State(State),
    Terminal { bytes: Vec<u8>, permit: tokio::sync::OwnedSemaphorePermit },
    Output {
        stream: Stream,
        text: String,
        // Only output consumes permits; control and lifecycle events cannot be
        // starved by a child filling its output pipe.
        permit: tokio::sync::OwnedSemaphorePermit,
    },
}

impl EventKind {
    /// The service ended a run badly.
    pub open spec fn failure(self) -> bool {
        match self {
            EventKind::State(state) => state.failure(),
            _ => false,
        }
    }
}

/// Something that happened to a service, and in which of its runs.
#[derive(Debug)]
pub struct Event {
    pub service: usize,
    pub run: u64,
    pub kind: EventKind,
}

/// How many pieces of output may wait at once, over all services.
pub const OUTPUT_CAPACITY: usize = 1024;

/// Marks what happens to a service with its number and run.
#[derive(Clone, Copy, Debug, PartialEq, Eq, Structural)]
pub struct Emitter {
    pub service: usize,
    pub run: u64,
}

impl Emitter {
    /// The service reached a state.
    #[must_use]
    pub fn state(self, state: State) -> (event: Event)
        ensures
            event == (Event {
                service: self.service,
                run: self.run,
                kind: EventKind::State(state),
            }),
    {
        Event { service: self.service, run: self.run, kind: EventKind::State(state) }
    }

    /// The service wrote to its terminal.
    #[must_use]
    pub fn terminal(
        self,
        bytes: Vec<u8>,
        permit: tokio::sync::OwnedSemaphorePermit,
    ) -> (event: Event)
        ensures
            event == (Event {
                service: self.service,
                run: self.run,
                kind: EventKind::Terminal { bytes, permit },
            }),
    {
        Event { service: self.service, run: self.run, kind: EventKind::Terminal { bytes, permit } }
    }

    /// The service wrote a record to one of its streams.
    #[must_use]
    pub fn output(
        self,
        stream: Stream,
        text: String,
        permit: tokio::sync::OwnedSemaphorePermit,
    ) -> (event: Event)
        ensures
            event == (Event {
                service: self.service,
                run: self.run,
                kind: EventKind::Output { stream, text, permit },
            }),
    {
        Event {
            service: self.service,
            run: self.run,
            kind: EventKind::Output { stream, text, permit },
        }
    }
}

/// The last failure among results, if there is one.
pub open spec fn last_failure(results: Seq<Result<(), String>>) -> Option<String>
    decreases results.len(),
{
    if results.len() == 0 {
        None
    } else {
        match results.last() {
            Err(failure) => Some(failure),
            Ok(_) => last_failure(results.drop_last()),
        }
    }
}

/// What all readers of a service came to.
///
/// # Errors
/// Returns the last reader's failure among those that failed.
pub fn finish_readers(results: &[Result<(), String>]) -> (result: Result<(), String>)
    ensures
        result == match last_failure(results@) {
            Some(failure) => Err::<(), String>(failure),
            None => Ok::<(), String>(()),
        },
{
    let mut result = Ok(());
    for i in 0..results.len()
        invariant
            result == match last_failure(results@.take(i as int)) {
                Some(failure) => Err::<(), String>(failure),
                None => Ok::<(), String>(()),
            },
    {
        proof {
            assert(results@.take(i + 1).drop_last() =~= results@.take(i as int));
        }
        if let Err(failure) = &results[i] {
            result = Err(failure.clone());
        }
    }
    proof {
        assert(results@.take(results@.len() as int) =~= results@);
    }
    result
}

/// What stopping all services came to, given why tasks failed, in order.
///
/// # Errors
/// Returns the last failure.
pub fn shutdown_result(failures: &[String]) -> (result: Result<(), String>)
    ensures
        match result {
            Ok(_) => failures@.len() == 0,
            Err(error) => failures@.len() > 0 && error@ == "process supervisor failed: "@
                + failures@.last()@,
        },
{
    if failures.len() == 0 {
        return Ok(());
    }
    let mut error = "process supervisor failed: ".to_owned();
    error.push_str(failures[failures.len() - 1].as_str());
    Err(error)
}

/// Readers come to nothing good just when one of them failed.
pub proof fn every_failure_is_noticed(results: Seq<Result<(), String>>)
    ensures
        (last_failure(results) is Some) == (exists|i: int|
            0 <= i < results.len() && #[trigger] results[i] is Err),
    decreases results.len(),
{
    if results.len() > 0 {
        every_failure_is_noticed(results.drop_last());
        assert(results.last() == results[results.len() - 1]);
        if results.last() is Ok && last_failure(results.drop_last()) is Some {
            let i = choose|i: int|
                0 <= i < results.drop_last().len() && #[trigger] results.drop_last()[i] is Err;
            assert(results[i] is Err);
        }
        if exists|i: int| 0 <= i < results.len() && #[trigger] results[i] is Err {
            let i = choose|i: int| 0 <= i < results.len() && #[trigger] results[i] is Err;
            if i < results.len() - 1 {
                assert(results.drop_last()[i] is Err);
            }
        }
    }
}

// ---- What states and results mean ----

/// A service is active from the moment that a process is to be started until it
/// is gone, and finished otherwise.
pub proof fn processes_make_states_active(state: State)
    ensures
        state is Starting || state is Running || state is Stopping ==> state.active()
            && !state.finished(),
        state is Stopped || state is Exited || state is Failed ==> state.finished()
            && !state.active(),
{
}

/// What counts as a failure is a run that failed, that a signal ended, or that
/// left an exit code other than zero. No other state does, and no output.
pub proof fn failures_are_bad_ends(event: EventKind, code: i32, error: String)
    ensures
        State::Exited(Some(code)).failure() == (code != 0),
        State::Exited(None).failure(),
        State::Failed(error).failure(),
        !State::Stopped.failure() && !State::Starting.failure() && !State::Running.failure()
            && !State::Stopping.failure(),
        event.failure() == (event matches EventKind::State(state) && (state is Failed
            || state == State::Exited(None) || (state matches State::Exited(Some(left)) && left
            != 0))),
{
}

/// What states are called.
pub proof fn states_are_called_by_their_names(code: i32, error: String)
    ensures
        State::Stopped.label_text() == "stopped"@,
        State::Starting.label_text() == "starting"@,
        State::Running.label_text() == "running"@,
        State::Stopping.label_text() == "stopping"@,
        State::Exited(None).label_text() == "exited (signal)"@,
        State::Exited(Some(code)).label_text() == "exited ("@ + crate::text::signed_decimal(
            code as int,
        ) + ")"@,
        State::Failed(error).label_text() == "failed: "@ + error@,
{
}

/// The failure that is told is one that happened, and none came after it.
pub proof fn the_last_failure_is_told(results: Seq<Result<(), String>>)
    ensures
        match last_failure(results) {
            Some(failure) => exists|i: int|
                {
                    &&& 0 <= i < results.len()
                    &&& #[trigger] results[i] == Err::<(), String>(failure)
                    &&& forall|j: int| i < j < results.len() ==> #[trigger] results[j] is Ok
                },
            None => forall|i: int| 0 <= i < results.len() ==> #[trigger] results[i] is Ok,
        },
    decreases results.len(),
{
    if results.len() > 0 {
        let last = results.len() - 1;
        assert(results.last() == results[last]);
        if results[last] is Ok {
            let earlier = results.drop_last();
            the_last_failure_is_told(earlier);
            assert forall|j: int| 0 <= j < last implies #[trigger] results[j] == earlier[j] by {}
            if let Some(failure) = last_failure(earlier) {
                let i = choose|i: int|
                    {
                        &&& 0 <= i < earlier.len()
                        &&& #[trigger] earlier[i] == Err::<(), String>(failure)
                        &&& forall|j: int| i < j < earlier.len() ==> #[trigger] earlier[j] is Ok
                    };
                assert(results[i] == Err::<(), String>(failure));
                assert forall|j: int| i < j < results.len() implies #[trigger] results[j]
                    is Ok by {
                    if j < last {
                        assert(earlier[j] is Ok);
                    }
                }
            }
        }
    }
}

} // verus!
