//! The decisions that end a service's process group.
//!
//! The group is asked to terminate and gets a few seconds for that. What is left
//! of it then is killed. The process itself is always waited for.

use crate::actor::ProcessExit;
use vstd::prelude::*;

verus! {

/// How long a process group has to terminate, in milliseconds.
pub const SHUTDOWN_GRACE: u64 = 3_000;

/// How long to sleep between two looks at a process group, in milliseconds.
pub const POLL_INTERVAL: u64 = 25;

/// What came of signalling a process group.
#[derive(Debug)]
pub enum Signalled {
    /// The signal was sent.
    Sent,
    /// There is no such group.
    NoSuchGroup,
    /// The signal could not be sent.
    Failed(String),
}

impl Signalled {
    /// The group is there.
    pub open spec fn present(self) -> bool {
        !(self is NoSuchGroup)
    }

    /// Whether the group is there. Only a missing group says that it is not.
    #[must_use]
    pub fn group_exists(&self) -> (present: bool)
        ensures
            present == self.present(),
    {
        !matches!(self, Signalled::NoSuchGroup)
    }

    /// A signal to a group that is gone has done all it can.
    ///
    /// # Errors
    /// Returns why the signal could not be sent.
    pub fn result(self) -> (result: Result<(), String>)
        ensures
            result == match self {
                Signalled::Failed(error) => Err::<(), String>(error),
                _ => Ok::<(), String>(()),
            },
    {
        match self {
            Signalled::Failed(error) => Err(error),
            _ => Ok(()),
        }
    }
}

/// Something to do for a cleanup.
#[derive(Debug)]
pub enum Task {
    /// Ask the group to terminate.
    Terminate,
    /// See whether the group exists and how long ago it was asked to terminate.
    Look,
    /// See whether the process has ended.
    Try,
    /// Sleep before looking again.
    Sleep,
    /// See once more whether the group exists.
    LookAgain,
    /// Kill the group.
    Kill,
    /// Wait for the process.
    Wait,
    /// The cleanup is over.
    Finish(Result<ProcessExit, String>),
}

/// What came of a task.
#[derive(Debug)]
pub enum Outcome {
    /// The group was signalled.
    Signalled(Signalled),
    /// A look at the group, so many milliseconds after it was asked to terminate.
    Looked { group: Signalled, elapsed: u64 },
    /// A look at the process.
    Tried(Result<Option<ProcessExit>, String>),
    /// The time is up.
    Slept,
    /// The process ended, or waiting for it failed.
    Waited(Result<ProcessExit, String>),
}

/// How far a cleanup has come.
#[derive(Clone, Copy, Debug, PartialEq, Eq, Structural)]
pub enum Stage {
    Terminating,
    Looking,
    Trying,
    Sleeping,
    LookingAgain,
    Killing,
    Waiting,
    Finished,
}

/// A cleanup under way.
#[derive(Debug)]
pub struct Cleanup {
    pub stage: Stage,
    /// How the process ended, as far as that is known.
    pub status: Option<ProcessExit>,
    /// What went wrong before the cleanup.
    pub failure: Option<String>,
}

impl Cleanup {
    /// The process is asked for only while it is not known how it ended.
    pub open spec fn wf(self) -> bool {
        self.stage is Trying || self.stage is Waiting ==> self.status is None
    }

    /// The outcome can come of the task at hand.
    pub open spec fn expects(self, outcome: Outcome) -> bool {
        match self.stage {
            Stage::Terminating | Stage::Killing => outcome is Signalled,
            Stage::Looking | Stage::LookingAgain => outcome is Looked,
            Stage::Trying => outcome is Tried,
            Stage::Sleeping => outcome is Slept,
            Stage::Waiting => outcome is Waited,
            Stage::Finished => false,
        }
    }

    /// This cleanup at another stage.
    pub open spec fn at(self, stage: Stage) -> Cleanup {
        Cleanup { stage, ..self }
    }

    /// What a cleanup ends with once the process ended like this: what went
    /// wrong before comes first.
    pub open spec fn ending(self, exit: ProcessExit) -> Result<ProcessExit, String> {
        match self.failure {
            Some(error) => Err(error),
            None => Ok(exit),
        }
    }

    /// The group is dealt with: the process is waited for unless it is known
    /// how it ended.
    pub open spec fn closing(self) -> (Cleanup, Task) {
        match self.status {
            Some(exit) => (self.at(Stage::Finished), Task::Finish(self.ending(exit))),
            None => (self.at(Stage::Waiting), Task::Wait),
        }
    }

    /// The cleanup fails.
    pub open spec fn failing(self, error: String) -> (Cleanup, Task) {
        (self.at(Stage::Finished), Task::Finish(Err(error)))
    }

    /// What the cleanup becomes and does next.
    pub open spec fn stepped(self, outcome: Outcome) -> (Cleanup, Task) {
        match self.stage {
            Stage::Terminating => match outcome {
                Outcome::Signalled(Signalled::Failed(error)) => self.failing(error),
                _ => (self.at(Stage::Looking), Task::Look),
            },
            Stage::Looking => match outcome {
                Outcome::Looked { group, elapsed } => if group.present() && elapsed
                    < SHUTDOWN_GRACE {
                    if self.status is None {
                        (self.at(Stage::Trying), Task::Try)
                    } else {
                        (self.at(Stage::Sleeping), Task::Sleep)
                    }
                } else {
                    (self.at(Stage::LookingAgain), Task::LookAgain)
                },
                _ => (self, Task::Look),
            },
            Stage::Trying => match outcome {
                Outcome::Tried(Err(error)) => self.failing(error),
                Outcome::Tried(Ok(status)) => (
                    Cleanup { stage: Stage::Sleeping, status, failure: self.failure },
                    Task::Sleep,
                ),
                _ => (self, Task::Try),
            },
            Stage::Sleeping => (self.at(Stage::Looking), Task::Look),
            Stage::LookingAgain => match outcome {
                Outcome::Looked { group, .. } => if group.present() {
                    (self.at(Stage::Killing), Task::Kill)
                } else {
                    self.closing()
                },
                _ => (self, Task::LookAgain),
            },
            Stage::Killing => match outcome {
                Outcome::Signalled(Signalled::Failed(error)) => self.failing(error),
                _ => self.closing(),
            },
            Stage::Waiting => match outcome {
                Outcome::Waited(Ok(exit)) => (
                    self.at(Stage::Finished),
                    Task::Finish(self.ending(exit)),
                ),
                Outcome::Waited(Err(error)) => self.failing(error),
                _ => (self, Task::Wait),
            },
            Stage::Finished => (self, Task::Wait),
        }
    }

    /// A cleanup and its first task, after the process ended or not.
    #[must_use]
    pub fn new(status: Option<Result<ProcessExit, String>>) -> (begun: (Self, Task))
        ensures
            begun.0.wf(),
            begun.0.stage is Terminating,
            begun.0.status == match status {
                Some(Ok(exit)) => Some(exit),
                _ => None,
            },
            begun.0.failure == match status {
                Some(Err(error)) => Some(error),
                _ => None,
            },
            begun.1 is Terminate,
    {
        let (status, failure) = match status {
            Some(Ok(exit)) => (Some(exit), None),
            Some(Err(error)) => (None, Some(error)),
            None => (None, None),
        };
        (Cleanup { stage: Stage::Terminating, status, failure }, Task::Terminate)
    }

    fn fail(&mut self, error: String) -> (task: Task)
        ensures
            (*final(self), task) == old(self).failing(error),
    {
        self.stage = Stage::Finished;
        Task::Finish(Err(error))
    }

    fn end(&mut self, exit: ProcessExit) -> (task: Task)
        ensures
            *final(self) == old(self).at(Stage::Finished),
            task == Task::Finish(old(self).ending(exit)),
    {
        self.stage = Stage::Finished;
        match &self.failure {
            Some(error) => Task::Finish(Err(error.clone())),
            None => Task::Finish(Ok(exit)),
        }
    }

    fn close(&mut self) -> (task: Task)
        ensures
            (*final(self), task) == old(self).closing(),
    {
        match self.status {
            Some(exit) => self.end(exit),
            None => self.proceed(Stage::Waiting, Task::Wait),
        }
    }

    fn proceed(&mut self, stage: Stage, next: Task) -> (task: Task)
        ensures
            *final(self) == old(self).at(stage),
            task == next,
    {
        self.stage = stage;
        next
    }

    /// Take what came of the last task and say what to do next.
    pub fn step(&mut self, outcome: Outcome) -> (task: Task)
        requires
            old(self).wf(),
            old(self).expects(outcome),
        ensures
            final(self).wf(),
            (*final(self), task) == old(self).stepped(outcome),
    {
        match (self.stage, outcome) {
            (Stage::Terminating, Outcome::Signalled(signalled)) => match signalled.result() {
                Ok(()) => self.proceed(Stage::Looking, Task::Look),
                Err(error) => self.fail(error),
            },
            (Stage::Looking, Outcome::Looked { group, elapsed }) => if group.group_exists()
                && elapsed < SHUTDOWN_GRACE {
                if self.status.is_none() {
                    self.proceed(Stage::Trying, Task::Try)
                } else {
                    self.proceed(Stage::Sleeping, Task::Sleep)
                }
            } else {
                self.proceed(Stage::LookingAgain, Task::LookAgain)
            },
            (Stage::Trying, Outcome::Tried(tried)) => match tried {
                Ok(status) => {
                    self.status = status;
                    self.proceed(Stage::Sleeping, Task::Sleep)
                },
                Err(error) => self.fail(error),
            },
            (Stage::Sleeping, _) => self.proceed(Stage::Looking, Task::Look),
            (Stage::LookingAgain, Outcome::Looked { group, .. }) => if group.group_exists() {
                self.proceed(Stage::Killing, Task::Kill)
            } else {
                self.close()
            },
            (Stage::Killing, Outcome::Signalled(signalled)) => match signalled.result() {
                Ok(()) => self.close(),
                Err(error) => self.fail(error),
            },
            (Stage::Waiting, Outcome::Waited(waited)) => match waited {
                Ok(exit) => self.end(exit),
                Err(error) => self.fail(error),
            },
            _ => Task::Wait,
        }
    }
}

/// A task of the machine at this stage.
pub open spec fn tasked(stage: Stage, task: Task) -> bool {
    match stage {
        Stage::Terminating => task is Terminate,
        Stage::Looking => task is Look,
        Stage::Trying => task is Try,
        Stage::Sleeping => task is Sleep,
        Stage::LookingAgain => task is LookAgain,
        Stage::Killing => task is Kill,
        Stage::Waiting => task is Wait,
        Stage::Finished => task is Finish,
    }
}

/// The task at hand is always the one that the stage stands for.
pub proof fn tasks_follow_the_stage(cleanup: Cleanup, outcome: Outcome)
    requires
        cleanup.expects(outcome),
    ensures
        tasked(cleanup.stepped(outcome).0.stage, cleanup.stepped(outcome).1),
{
}

/// A group that is there is not killed before its time to terminate is over:
/// the cleanup goes on looking at it. A group is killed only when it is still
/// there after that.
pub proof fn a_group_keeps_its_grace(cleanup: Cleanup, outcome: Outcome)
    requires
        cleanup.expects(outcome),
    ensures
        cleanup.stage is Looking && (outcome matches Outcome::Looked { group, elapsed }
            && group.present() && elapsed < SHUTDOWN_GRACE) ==> {
            let (next, task) = cleanup.stepped(outcome);
            task is Try || task is Sleep
        },
        cleanup.stepped(outcome).1 is LookAgain ==> (outcome matches Outcome::Looked {
            group,
            elapsed,
        } && (!group.present() || elapsed >= SHUTDOWN_GRACE)),
        cleanup.stepped(outcome).1 is Kill ==> cleanup.stage is LookingAgain && (
        outcome matches Outcome::Looked { group, .. } && group.present()),
        cleanup.stage is LookingAgain && (outcome matches Outcome::Looked { group, .. }
            && group.present()) ==> cleanup.stepped(outcome).1 is Kill,
{
}

/// A cleanup without an error ends with how the process ended: it never
/// finishes while that is unknown, and what went wrong before is never lost.
pub proof fn a_cleanup_waits_for_the_process(cleanup: Cleanup, outcome: Outcome)
    requires
        cleanup.wf(),
        cleanup.expects(outcome),
    ensures
        cleanup.stepped(outcome).1 matches Task::Finish(result) ==> match result {
            Ok(exit) => cleanup.failure is None && (cleanup.status == Some(exit) || outcome
                == Outcome::Waited(Ok(exit))),
            Err(error) => cleanup.failure == Some(error) || outcome == Outcome::Waited(Err(error))
                || outcome == Outcome::Tried(Err(error)) || outcome == Outcome::Signalled(
                Signalled::Failed(error),
            ),
        },
        cleanup.stepped(outcome).0.failure == cleanup.failure,
        cleanup.status is Some ==> cleanup.stepped(outcome).0.status == cleanup.status,
{
}

// ---- What each outcome leads to ----

/// A group is there unless the system says that there is no such group.
pub proof fn only_a_missing_group_is_gone(error: String)
    ensures
        Signalled::Sent.present(),
        Signalled::Failed(error).present(),
        !Signalled::NoSuchGroup.present(),
{
}

/// After a sleep the group is looked at again, whatever is known of the process
/// itself: that its shell has ended does not mean that its children have.
pub proof fn after_a_sleep_the_group_is_looked_at(cleanup: Cleanup)
    requires
        cleanup.stage is Sleeping,
    ensures
        cleanup.stepped(Outcome::Slept) == (
            Cleanup {
                stage: Stage::Looking,
                status: cleanup.status,
                failure: cleanup.failure,
            },
            Task::Look,
        ),
{
}

/// A group that could be asked to terminate, or that is gone already, is looked
/// at. One that could not be asked ends the cleanup with the reason.
pub proof fn the_group_is_asked_to_terminate(cleanup: Cleanup, error: String)
    requires
        cleanup.stage is Terminating,
    ensures
        cleanup.stepped(Outcome::Signalled(Signalled::Sent)) == (
            Cleanup {
                stage: Stage::Looking,
                status: cleanup.status,
                failure: cleanup.failure,
            },
            Task::Look,
        ),
        cleanup.stepped(Outcome::Signalled(Signalled::NoSuchGroup)) == cleanup.stepped(
            Outcome::Signalled(Signalled::Sent),
        ),
        cleanup.stepped(Outcome::Signalled(Signalled::Failed(error))).0.stage is Finished,
        cleanup.stepped(Outcome::Signalled(Signalled::Failed(error))).1 == Task::Finish(Err(error)),
{
}

/// Within its three seconds, a group that is there is left alone: the process is
/// asked for unless its end is known, and then the cleanup sleeps. A group that
/// is gone, or whose time is over, is looked at once more.
pub proof fn a_group_has_three_seconds(cleanup: Cleanup, group: Signalled, elapsed: u64)
    requires
        cleanup.stage is Looking,
    ensures
        ({
            let (next, task) = cleanup.stepped(Outcome::Looked { group, elapsed });
            &&& next.status == cleanup.status
            &&& next.failure == cleanup.failure
            &&& group is NoSuchGroup || elapsed >= 3_000 ==> next.stage is LookingAgain
                && task is LookAgain
            &&& !(group is NoSuchGroup) && elapsed < 3_000 && cleanup.status is None
                ==> next.stage is Trying && task is Try
            &&& !(group is NoSuchGroup) && elapsed < 3_000 && cleanup.status is Some
                ==> next.stage is Sleeping && task is Sleep
        }),
{
}

/// What comes of asking for the process is kept, and never ends a cleanup unless
/// it fails: the group may outlive the process.
pub proof fn the_end_of_the_process_is_not_the_end_of_the_group(
    cleanup: Cleanup,
    ended: Option<ProcessExit>,
    error: String,
)
    requires
        cleanup.stage is Trying,
    ensures
        cleanup.stepped(Outcome::Tried(Ok(ended))) == (
            Cleanup { stage: Stage::Sleeping, status: ended, failure: cleanup.failure },
            Task::Sleep,
        ),
        cleanup.stepped(Outcome::Tried(Err(error))).0.stage is Finished,
        cleanup.stepped(Outcome::Tried(Err(error))).1 == Task::Finish(Err(error)),
{
}

/// What is left of a group after its time is killed, and a group that is gone is
/// not. Once it is gone or killed, the process is waited for, unless it is known
/// how it ended: then the cleanup ends with that, or with what went wrong before.
pub proof fn what_is_left_is_killed(
    cleanup: Cleanup,
    group: Signalled,
    elapsed: u64,
    error: String,
)
    ensures
        cleanup.stage is LookingAgain && !(group is NoSuchGroup) ==> cleanup.stepped(
            Outcome::Looked { group, elapsed },
        ) == (
            Cleanup { stage: Stage::Killing, status: cleanup.status, failure: cleanup.failure },
            Task::Kill,
        ),
        cleanup.stage is LookingAgain || cleanup.stage is Killing ==> {
            let (next, task) = if cleanup.stage is Killing {
                cleanup.stepped(Outcome::Signalled(Signalled::Sent))
            } else {
                cleanup.stepped(Outcome::Looked { group: Signalled::NoSuchGroup, elapsed })
            };
            &&& next.status == cleanup.status && next.failure == cleanup.failure
            &&& cleanup.status is None ==> next.stage is Waiting && task is Wait
            &&& cleanup.status matches Some(exit) ==> next.stage is Finished
                && match cleanup.failure {
                Some(earlier) => task == Task::Finish(Err(earlier)),
                None => task == Task::Finish(Ok(exit)),
            }
        },
        cleanup.stage is Killing ==> cleanup.stepped(Outcome::Signalled(Signalled::NoSuchGroup))
            == cleanup.stepped(Outcome::Signalled(Signalled::Sent)),
        cleanup.stage is Killing ==> cleanup.stepped(
            Outcome::Signalled(Signalled::Failed(error)),
        ).0.stage is Finished && cleanup.stepped(
            Outcome::Signalled(Signalled::Failed(error)),
        ).1 == Task::Finish(Err(error)),
{
}

/// A process that was waited for ends the cleanup with how it ended, or with
/// what went wrong before.
pub proof fn waiting_ends_a_cleanup(cleanup: Cleanup, exit: ProcessExit, error: String)
    requires
        cleanup.stage is Waiting,
    ensures
        cleanup.stepped(Outcome::Waited(Ok(exit))).0.stage is Finished,
        cleanup.stepped(Outcome::Waited(Ok(exit))).1 == Task::Finish(
            match cleanup.failure {
                Some(earlier) => Err::<ProcessExit, String>(earlier),
                None => Ok(exit),
            },
        ),
        cleanup.stepped(Outcome::Waited(Err(error))).0.stage is Finished,
        cleanup.stepped(Outcome::Waited(Err(error))).1 == Task::Finish(Err(error)),
{
}

// ---- What holds of a whole cleanup ----

/// A cleanup after several outcomes.
#[verifier::opaque]
pub open spec fn after_all(cleanup: Cleanup, outcomes: Seq<Outcome>) -> Cleanup
    decreases outcomes.len(),
{
    if outcomes.len() == 0 {
        cleanup
    } else {
        after_all(cleanup, outcomes.drop_last()).stepped(outcomes.last()).0
    }
}

/// The outcome at `i` is one that the task before it can have.
pub open spec fn comes_of_it(cleanup: Cleanup, outcomes: Seq<Outcome>, i: int) -> bool {
    after_all(cleanup, outcomes.take(i)).expects(outcomes[i])
}

/// Each outcome is one that the task before it can have.
pub open spec fn comes_about(cleanup: Cleanup, outcomes: Seq<Outcome>) -> bool {
    forall|i: int| 0 <= i < outcomes.len() ==> #[trigger] comes_of_it(cleanup, outcomes, i)
}

/// The outcome at `i` says that the group is gone after its time, or that it was
/// killed.
pub open spec fn rid_of_the_group(cleanup: Cleanup, outcomes: Seq<Outcome>, i: int) -> bool {
    let stage = after_all(cleanup, outcomes.take(i)).stage;
    match outcomes[i] {
        Outcome::Looked { group, .. } => stage is LookingAgain && group is NoSuchGroup,
        Outcome::Signalled(signalled) => stage is Killing && !(signalled is Failed),
        _ => false,
    }
}

proof fn earlier_comes_about(cleanup: Cleanup, outcomes: Seq<Outcome>)
    requires
        outcomes.len() > 0,
        comes_about(cleanup, outcomes),
    ensures
        comes_about(cleanup, outcomes.drop_last()),
        after_all(cleanup, outcomes.drop_last()).expects(outcomes.last()),
        after_all(cleanup, outcomes) == after_all(cleanup, outcomes.drop_last()).stepped(
            outcomes.last(),
        ).0,
{
    reveal(after_all);
    let earlier = outcomes.drop_last();
    let last = outcomes.len() - 1;
    assert(comes_of_it(cleanup, outcomes, last));
    assert(outcomes.take(last) =~= earlier);
    assert forall|i: int| 0 <= i < earlier.len() implies #[trigger] comes_of_it(
        cleanup,
        earlier,
        i,
    ) by {
        assert(comes_of_it(cleanup, outcomes, i));
        assert(earlier.take(i) =~= outcomes.take(i));
        assert(earlier[i] == outcomes[i]);
    }
}

proof fn waiting_follows_the_group(cleanup: Cleanup, outcomes: Seq<Outcome>)
    requires
        cleanup.stage is Terminating,
        comes_about(cleanup, outcomes),
        after_all(cleanup, outcomes).stage is Waiting,
    ensures
        exists|i: int|
            0 <= i < outcomes.len() && #[trigger] rid_of_the_group(cleanup, outcomes, i),
{
    if outcomes.len() == 0 {
        reveal(after_all);
    } else {
        earlier_comes_about(cleanup, outcomes);
        let last = outcomes.len() - 1;
        assert(outcomes.take(last) =~= outcomes.drop_last());
        assert(rid_of_the_group(cleanup, outcomes, last));
    }
}

/// A cleanup ends well only when nothing is left of the group: however it went,
/// the group was found gone after its time to terminate, or it was killed.
pub proof fn a_cleanup_ends_well_only_without_a_group(
    cleanup: Cleanup,
    outcomes: Seq<Outcome>,
    outcome: Outcome,
)
    requires
        cleanup.stage is Terminating,
        comes_about(cleanup, outcomes.push(outcome)),
        after_all(cleanup, outcomes).stepped(outcome).1 matches Task::Finish(Ok(_)),
    ensures
        exists|i: int|
            0 <= i < outcomes.len() + 1 && #[trigger] rid_of_the_group(
                cleanup,
                outcomes.push(outcome),
                i,
            ),
{
    let all = outcomes.push(outcome);
    let last = outcomes.len() as int;
    earlier_comes_about(cleanup, all);
    assert(all.drop_last() =~= outcomes);
    assert(all.take(last) =~= outcomes);
    if after_all(cleanup, outcomes).stage is Waiting {
        waiting_follows_the_group(cleanup, outcomes);
        let i = choose|i: int|
            0 <= i < outcomes.len() && #[trigger] rid_of_the_group(cleanup, outcomes, i);
        assert(all.take(i) =~= outcomes.take(i));
        assert(all[i] == outcomes[i]);
        assert(rid_of_the_group(cleanup, all, i));
    } else {
        assert(rid_of_the_group(cleanup, all, last));
    }
}

/// A cleanup takes whatever can come of its task: every result of a signal, a
/// look, an attempt and a wait, and the end of a sleep.
pub proof fn cleanups_take_what_comes_of_a_task(cleanup: Cleanup, outcome: Outcome)
    ensures
        cleanup.stage is Terminating || cleanup.stage is Killing ==> cleanup.expects(outcome) == (
        outcome is Signalled),
        cleanup.stage is Looking || cleanup.stage is LookingAgain ==> cleanup.expects(outcome) == (
        outcome is Looked),
        cleanup.stage is Trying ==> cleanup.expects(outcome) == (outcome is Tried),
        cleanup.stage is Sleeping ==> cleanup.expects(outcome) == (outcome is Slept),
        cleanup.stage is Waiting ==> cleanup.expects(outcome) == (outcome is Waited),
        cleanup.stage is Finished ==> !cleanup.expects(outcome),
        cleanup.wf() == ((cleanup.stage is Trying || cleanup.stage is Waiting) ==> cleanup.status
            is None),
{
}

} // verus!
