//! The decisions of a session, from the first check to the exit code.

use crate::app::{Action, App};
use crate::config::Layout;
use crate::pty::TerminalSize;
use crate::supervisor::{Command, Event};
use crate::terminal::fit;
use crate::view::{handle_input, terminal_size, Rect, TerminalEvent};
use vstd::prelude::*;

verus! {

/// How often the tabbed view is drawn, in milliseconds.
pub const TICK: u64 = 33;

/// How much input is handled between two drawings at most, so that a flood of
/// it cannot hold up drawing.
pub const INPUT_BATCH: usize = 32;

/// Whether a layout can be shown.
///
/// # Errors
/// Returns what to do about it where the tabbed layout has no terminal.
pub fn check_terminal(layout: Layout, stdin: bool, stdout: bool) -> (result: Result<(), String>)
    ensures
        match result {
            Ok(_) => layout is Linear || (stdin && stdout),
            Err(error) => layout is Tabbed && !(stdin && stdout) && error@
                == "tabbed layout requires an interactive terminal; set layout: linear in your configuration for piped output"@,
        },
{
    if matches!(layout, Layout::Tabbed) && !(stdin && stdout) {
        return Err(
            "tabbed layout requires an interactive terminal; set layout: linear in your configuration for piped output".to_owned(),
        );
    }
    Ok(())
}

/// The signals that end a session.
#[derive(Clone, Copy, Debug, PartialEq, Eq, Structural)]
pub enum Signal {
    Interrupt,
    Terminate,
}

impl Signal {
    /// The exit code after the signal.
    pub open spec fn code(self) -> u8 {
        match self {
            Signal::Interrupt => 130u8,
            Signal::Terminate => 143u8,
        }
    }

    /// The exit code after the signal.
    #[must_use]
    pub fn exit_code(self) -> (code: u8)
        ensures
            code == self.code(),
    {
        match self {
            Signal::Interrupt => 130,
            Signal::Terminate => 143,
        }
    }
}

/// No service starts by itself.
pub open spec fn none_enabled(app: App) -> bool {
    forall|i: int| 0 <= i < app.services@.len() ==> !(#[trigger] app.services@[i]).autostart
}

/// Every enabled service has finished a run.
pub open spec fn all_finished(app: App) -> bool {
    forall|i: int| 0 <= i < app.services@.len() ==> !(#[trigger] app.services@[i]).unfinished()
}

/// What the merged feed says where there is nothing to wait for.
fn nothing_to_run(app: &App) -> (line: Option<String>)
    ensures
        match line {
            Some(line) => none_enabled(*app) && line@
                == "No services enabled (all services have autostart: false)."@,
            None => !none_enabled(*app),
        },
{
    for i in 0..app.services.len()
        invariant
            forall|j: int| 0 <= j < i ==> !(#[trigger] app.services@[j]).autostart,
    {
        if app.services[i].autostart {
            return None;
        }
    }
    Some("No services enabled (all services have autostart: false).".to_owned())
}

/// The exit code of a session whose enabled services have all finished.
pub open spec fn ended_with(app: App) -> Option<u8> {
    if all_finished(app) {
        Some(if app.failed {
            1u8
        } else {
            0u8
        })
    } else {
        None
    }
}

fn exit_code(app: &App) -> (code: Option<u8>)
    ensures
        code == ended_with(*app),
{
    if !app.all_enabled_finished() {
        None
    } else if app.failed {
        Some(1)
    } else {
        Some(0)
    }
}

/// What is said where events stop before the session is over.
pub open spec fn disconnected() -> Seq<char> {
    "process supervisor stopped unexpectedly"@
}

/// How far a session with the merged feed has come.
#[derive(Clone, Copy, Debug, PartialEq, Eq, Structural)]
pub enum LinearStage {
    /// An event is awaited.
    Receiving,
    /// A line is being printed, the last one if there is an exit code.
    Printing { code: Option<u8> },
    /// The session is over.
    Over,
}

/// What happens to a session with the merged feed.
#[derive(Debug)]
pub enum LinearInput {
    /// The session is to end.
    Signal(Signal),
    /// Something happened to a service.
    Event(Event),
    /// Nothing can happen to any service any more.
    Disconnected,
    /// The line is printed.
    Printed,
    /// Nobody reads the output any more.
    BrokenPipe,
    /// The line could not be printed.
    PrintFailed(String),
}

/// What a session with the merged feed does next.
#[derive(Debug)]
pub enum LinearTask {
    /// Wait for an event.
    Receive,
    /// Print a line.
    Print(String),
    /// End.
    Finish(Result<u8, String>),
}

/// A session with the merged feed.
#[derive(Debug)]
pub struct Linear {
    pub stage: LinearStage,
}

impl Linear {
    /// The input can come at this stage.
    pub open spec fn expects(self, input: LinearInput) -> bool {
        match self.stage {
            LinearStage::Receiving => input is Signal || input is Event || input is Disconnected,
            LinearStage::Printing { .. } => input is Signal || input is Printed || input
                is BrokenPipe || input is PrintFailed,
            LinearStage::Over => false,
        }
    }

    /// What the session becomes and does next, and what `app` becomes.
    pub open spec fn stepped_to(
        self,
        app: App,
        input: LinearInput,
        next: Linear,
        after: App,
        task: LinearTask,
    ) -> bool {
        match input {
            LinearInput::Event(event) => {
                let code = ended_with(after);
                &&& app.applied_to(after, event)
                &&& match app.line_of(event) {
                    Some(text) => {
                        &&& next.stage == LinearStage::Printing { code }
                        &&& task matches LinearTask::Print(line) && line@ == text
                    },
                    None => next.proceeds(code, task),
                }
            },
            LinearInput::Printed => {
                &&& after == app
                &&& self.stage matches LinearStage::Printing { code } && next.proceeds(code, task)
            },
            LinearInput::Signal(signal) => {
                &&& after == app
                &&& next.stage is Over
                &&& task == LinearTask::Finish(Ok(signal.code()))
            },
            LinearInput::BrokenPipe => {
                &&& after == app
                &&& next.stage is Over
                &&& task == LinearTask::Finish(Ok(0))
            },
            LinearInput::PrintFailed(error) => {
                &&& after == app
                &&& next.stage is Over
                &&& task == LinearTask::Finish(Err(error))
            },
            LinearInput::Disconnected => {
                &&& after == app
                &&& next.stage is Over
                &&& task matches LinearTask::Finish(Err(error)) && error@ == disconnected()
            },
        }
    }

    /// The session ends with the exit code if there is one, and goes on otherwise.
    pub open spec fn proceeds(self, code: Option<u8>, task: LinearTask) -> bool {
        match code {
            Some(code) => self.stage is Over && task == LinearTask::Finish(Ok(code)),
            None => self.stage is Receiving && task is Receive,
        }
    }

    /// A session that begins, and what it does first. Where no service is
    /// enabled, it says so and ends.
    #[must_use]
    pub fn begin(app: &App) -> (begun: (Self, LinearTask))
        ensures
            if none_enabled(*app) {
                &&& begun.0.stage == (LinearStage::Printing { code: Some(0u8) })
                &&& begun.1 matches LinearTask::Print(line) && line@
                    == "No services enabled (all services have autostart: false)."@
            } else {
                begun.0.stage is Receiving && begun.1 is Receive
            },
    {
        match nothing_to_run(app) {
            Some(line) => (
                Linear { stage: LinearStage::Printing { code: Some(0) } },
                LinearTask::Print(line),
            ),
            None => (Linear { stage: LinearStage::Receiving }, LinearTask::Receive),
        }
    }

    fn finish(&mut self, result: Result<u8, String>) -> (task: LinearTask)
        ensures
            final(self).stage is Over,
            task == LinearTask::Finish(result),
    {
        self.stage = LinearStage::Over;
        LinearTask::Finish(result)
    }

    fn proceed(&mut self, code: Option<u8>) -> (task: LinearTask)
        ensures
            final(self).proceeds(code, task),
    {
        match code {
            Some(code) => self.finish(Ok(code)),
            None => {
                self.stage = LinearStage::Receiving;
                LinearTask::Receive
            },
        }
    }

    /// Take an input and say what to do next.
    pub fn step(&mut self, app: &mut App, input: LinearInput) -> (task: LinearTask)
        requires
            old(self).expects(input),
            old(app).wf(),
        ensures
            final(app).wf(),
            old(self).stepped_to(*old(app), input, *final(self), *final(app), task),
    {
        match input {
            LinearInput::Event(event) => {
                let line = app.apply(event);
                let code = exit_code(app);
                match line {
                    Some(line) => {
                        self.stage = LinearStage::Printing { code };
                        LinearTask::Print(line)
                    },
                    None => self.proceed(code),
                }
            },
            LinearInput::Printed => match self.stage {
                LinearStage::Printing { code } => self.proceed(code),
                _ => LinearTask::Receive,
            },
            LinearInput::Signal(signal) => self.finish(Ok(signal.exit_code())),
            LinearInput::BrokenPipe => self.finish(Ok(0)),
            LinearInput::PrintFailed(error) => self.finish(Err(error)),
            LinearInput::Disconnected => self.finish(
                Err("process supervisor stopped unexpectedly".to_owned()),
            ),
        }
    }
}

/// Replies for the terminal of one run of a service.
#[derive(Debug)]
pub struct Reply {
    pub service: usize,
    pub run: u64,
    pub bytes: Vec<u8>,
}

/// What an event leads to in the tabbed view: it is taken in, and the replies
/// that the service's terminal then has are taken out.
fn tabbed_event(app: &mut App, event: Event) -> (reply: Option<Reply>)
    requires
        old(app).wf(),
    ensures
        final(app).wf(),
        exists|between: App| #[trigger] old(app).applied_to(between, event) && replied_to(
            between,
            *final(app),
            event.service,
            event.run,
            reply,
        ),
{
    let service = event.service;
    let run = event.run;
    app.apply(event);
    let ghost between = *app;
    assert(old(app).applied_to(between, event));
    if service >= app.services.len() || app.services[service].terminal.is_none() {
        return None;
    }
    let mut bytes: Vec<u8> = Vec::new();
    if let Some(terminal) = &mut app.services[service].terminal {
        bytes = terminal.take_replies();
    }
    let reply = if bytes.len() == 0 {
        None
    } else {
        Some(Reply { service, run, bytes })
    };
    assert(replied_to(between, *app, service, run, reply));
    reply
}

/// `next` is `app` without the replies of a service's terminal, which `reply`
/// holds if there are any.
pub open spec fn replied_to(
    app: App,
    next: App,
    service: usize,
    run: u64,
    reply: Option<Reply>,
) -> bool {
    if service < app.services@.len() && app.services@[service as int].terminal is Some {
        let before = app.services@[service as int];
        let after = next.services@[service as int];
        &&& next.same_but_service(app, service as int)
        &&& next.failed == app.failed
        &&& after == crate::app::ServiceView { terminal: after.terminal, ..before }
        &&& after.terminal matches Some(emptied) && {
            &&& emptied.pending() == Seq::<u8>::empty()
            &&& emptied.shown() == before.terminal->0.shown()
            &&& emptied.unfinished() == before.terminal->0.unfinished()
            &&& emptied.received_output == before.terminal->0.received_output
        }
        &&& match reply {
            Some(reply) => reply.service == service && reply.run == run && reply.bytes@
                == before.terminal->0.pending() && reply.bytes@.len() > 0,
            None => before.terminal->0.pending().len() == 0,
        }
    } else {
        next == app && reply is None
    }
}

/// How far a session with tabs has come.
#[derive(Clone, Copy, Debug, PartialEq, Eq, Structural)]
pub enum TabbedStage {
    /// Anything may happen.
    Waiting,
    /// So much input was handled since the tick, on a screen of this area.
    Polling { handled: usize, area: Rect },
    /// The view is being drawn.
    Drawing,
    /// The session is over.
    Over,
}

/// What happens to a session with tabs.
#[derive(Debug)]
pub enum TabbedInput {
    /// The session is to end.
    Signal(Signal),
    /// A drawing is due, on a screen of this area.
    Tick(Rect),
    /// The input that was waiting, if there was any.
    Polled(Option<TerminalEvent>),
    /// The view is drawn.
    Drawn,
    /// Something happened to a service.
    Event(Event),
    /// Nothing can happen to any service any more.
    Disconnected,
    /// The terminal could not be used.
    Failed(String),
}

/// What a session with tabs does.
#[derive(Debug)]
pub enum TabbedTask {
    /// Give all services a terminal of this size.
    Resize(TerminalSize),
    /// Send a command to a service.
    Send(usize, Command),
    /// Send replies to a service.
    Reply(Reply),
    /// See whether input is waiting.
    Poll,
    /// Draw the view.
    Draw,
    /// Wait for anything to happen.
    Wait,
    /// End.
    Finish(Result<u8, String>),
}

/// A session with tabs.
#[derive(Debug)]
pub struct Tabbed {
    pub stage: TabbedStage,
}

impl Tabbed {
    /// Not more input is handled at once than a batch holds.
    pub open spec fn wf(self) -> bool {
        self.stage matches TabbedStage::Polling { handled, .. } ==> handled < INPUT_BATCH
    }

    /// The input can come at this stage.
    pub open spec fn expects(self, input: TabbedInput) -> bool {
        match self.stage {
            TabbedStage::Waiting => input is Signal || input is Tick || input is Event || input
                is Disconnected || input is Failed,
            TabbedStage::Polling { .. } => input is Polled || input is Failed,
            TabbedStage::Drawing => input is Drawn || input is Failed,
            TabbedStage::Over => false,
        }
    }

    /// The session draws when a batch of input is full, and looks for more
    /// input otherwise.
    pub open spec fn polls_on(self, handled: usize, area: Rect, task: TabbedTask) -> bool {
        if handled + 1 < INPUT_BATCH {
            &&& self.stage == TabbedStage::Polling { handled: (handled + 1) as usize, area }
            &&& task is Poll
        } else {
            &&& self.stage is Drawing
            &&& task is Draw
        }
    }

    /// What the session becomes and does after input that asked for `action`.
    pub open spec fn acts_on(
        self,
        action: Option<Action>,
        handled: usize,
        area: Rect,
        tasks: Seq<TabbedTask>,
    ) -> bool {
        match action {
            Some(Action::Quit(code)) => {
                &&& self.stage is Over
                &&& tasks == seq![TabbedTask::Finish(Ok(code))]
            },
            Some(Action::Service(service, command)) => {
                &&& tasks.len() == 2
                &&& tasks[0] == TabbedTask::Send(service, command)
                &&& self.polls_on(handled, area, tasks[1])
            },
            None => {
                &&& tasks.len() == 1
                &&& self.polls_on(handled, area, tasks[0])
            },
        }
    }

    /// What the session becomes and does, and what `app` becomes.
    pub open spec fn stepped_to(
        self,
        app: App,
        input: TabbedInput,
        next: Tabbed,
        after: App,
        tasks: Seq<TabbedTask>,
    ) -> bool {
        match (self.stage, input) {
            (TabbedStage::Polling { handled, area }, TabbedInput::Polled(Some(event))) => {
                exists|action: Option<Action>| #[trigger]
                    crate::view::handled_to(app, after, event, area, action) && next.acts_on(
                        action,
                        handled,
                        area,
                        tasks,
                    )
            },
            (_, TabbedInput::Polled(_)) => {
                &&& after == app
                &&& next.stage is Drawing
                &&& tasks == seq![TabbedTask::Draw]
            },
            (_, TabbedInput::Tick(area)) => {
                let size = crate::view::pane_size(area);
                let told = crate::terminal::fitted(size);
                &&& app.terminals_resized_to(after, size)
                &&& next.stage == TabbedStage::Polling { handled: 0, area }
                &&& tasks == seq![TabbedTask::Resize(told), TabbedTask::Poll]
            },
            (_, TabbedInput::Event(event)) => {
                &&& next.stage is Waiting
                &&& exists|between: App, reply: Option<Reply>|
                    {
                        &&& app.applied_to(between, event)
                        &&& #[trigger] replied_to(between, after, event.service, event.run, reply)
                        &&& tasks == match reply {
                            Some(reply) => seq![TabbedTask::Reply(reply), TabbedTask::Wait],
                            None => seq![TabbedTask::Wait],
                        }
                    }
            },
            (_, TabbedInput::Drawn) => {
                &&& after == app
                &&& next.stage is Waiting
                &&& tasks == seq![TabbedTask::Wait]
            },
            (_, TabbedInput::Signal(signal)) => {
                &&& after == app
                &&& next.stage is Over
                &&& tasks == seq![TabbedTask::Finish(Ok(signal.code()))]
            },
            (_, TabbedInput::Failed(error)) => {
                &&& after == app
                &&& next.stage is Over
                &&& tasks == seq![TabbedTask::Finish(Err(error))]
            },
            (_, TabbedInput::Disconnected) => {
                &&& after == app
                &&& next.stage is Over
                &&& tasks.len() == 1
                &&& tasks[0] matches TabbedTask::Finish(Err(error)) && error@ == disconnected()
            },
        }
    }

    /// A session that begins by waiting.
    #[must_use]
    pub fn begin() -> (session: Self)
        ensures
            session.wf(),
            session.stage is Waiting,
    {
        Tabbed { stage: TabbedStage::Waiting }
    }

    fn finish(&mut self, result: Result<u8, String>) -> (tasks: Vec<TabbedTask>)
        ensures
            final(self).stage is Over,
            tasks@ == seq![TabbedTask::Finish(result)],
    {
        self.stage = TabbedStage::Over;
        let tasks = vec![TabbedTask::Finish(result)];
        assert(tasks@ =~= seq![TabbedTask::Finish(result)]);
        tasks
    }

    fn poll_on(&mut self, handled: usize, area: Rect) -> (task: TabbedTask)
        requires
            handled < INPUT_BATCH,
        ensures
            final(self).wf(),
            final(self).polls_on(handled, area, task),
    {
        if handled + 1 < INPUT_BATCH {
            self.stage = TabbedStage::Polling { handled: handled + 1, area };
            TabbedTask::Poll
        } else {
            self.stage = TabbedStage::Drawing;
            TabbedTask::Draw
        }
    }

    fn act_on(&mut self, action: Option<Action>, handled: usize, area: Rect) -> (tasks: Vec<
        TabbedTask,
    >)
        requires
            handled < INPUT_BATCH,
        ensures
            final(self).wf(),
            final(self).acts_on(action, handled, area, tasks@),
    {
        match action {
            Some(Action::Quit(code)) => self.finish(Ok(code)),
            Some(Action::Service(service, command)) => {
                let next = self.poll_on(handled, area);
                vec![TabbedTask::Send(service, command), next]
            },
            None => vec![self.poll_on(handled, area)],
        }
    }

    /// Take an input and say what to do, in order.
    pub fn step(&mut self, app: &mut App, input: TabbedInput) -> (tasks: Vec<TabbedTask>)
        requires
            old(self).wf(),
            old(self).expects(input),
            old(app).wf(),
        ensures
            final(self).wf(),
            final(app).wf(),
            old(self).stepped_to(*old(app), input, *final(self), *final(app), tasks@),
    {
        match input {
            TabbedInput::Polled(polled) => {
                match (self.stage, polled) {
                    (TabbedStage::Polling { handled, area }, Some(event)) => {
                        let action = handle_input(app, &event, area);
                        let ghost asked = action;
                        let tasks = self.act_on(action, handled, area);
                        assert(crate::view::handled_to(*old(app), *app, event, area, asked));
                        tasks
                    },
                    _ => {
                        self.stage = TabbedStage::Drawing;
                        let tasks = vec![TabbedTask::Draw];
                        assert(tasks@ =~= seq![TabbedTask::Draw]);
                        tasks
                    },
                }
            },
            TabbedInput::Tick(area) => {
                let size = terminal_size(area);
                app.resize_terminal(size);
                self.stage = TabbedStage::Polling { handled: 0, area };
                // Services write to the size that their terminals have.
                let told = fit(size);
                let tasks = vec![TabbedTask::Resize(told), TabbedTask::Poll];
                assert(tasks@ =~= seq![TabbedTask::Resize(told), TabbedTask::Poll]);
                tasks
            },
            TabbedInput::Event(event) => {
                self.stage = TabbedStage::Waiting;
                match tabbed_event(app, event) {
                    Some(reply) => {
                        let tasks = vec![TabbedTask::Reply(reply), TabbedTask::Wait];
                        assert(tasks@ =~= seq![TabbedTask::Reply(reply), TabbedTask::Wait]);
                        tasks
                    },
                    None => {
                        let tasks = vec![TabbedTask::Wait];
                        assert(tasks@ =~= seq![TabbedTask::Wait]);
                        tasks
                    },
                }
            },
            TabbedInput::Drawn => {
                self.stage = TabbedStage::Waiting;
                let tasks = vec![TabbedTask::Wait];
                assert(tasks@ =~= seq![TabbedTask::Wait]);
                tasks
            },
            TabbedInput::Signal(signal) => self.finish(Ok(signal.exit_code())),
            TabbedInput::Failed(error) => self.finish(Err(error)),
            TabbedInput::Disconnected => self.finish(
                Err("process supervisor stopped unexpectedly".to_owned()),
            ),
        }
    }
}

/// A flood of input cannot hold up drawing: after a tick the session looks for
/// input or draws, draws at the latest when a batch of input is handled, and
/// never goes back to waiting without having drawn.
pub proof fn every_tick_is_drawn(
    session: Tabbed,
    app: App,
    input: TabbedInput,
    next: Tabbed,
    after: App,
    tasks: Seq<TabbedTask>,
)
    requires
        session.wf(),
        session.expects(input),
        session.stage is Polling,
        session.stepped_to(app, input, next, after, tasks),
    ensures
        next.stage is Polling || next.stage is Drawing || next.stage is Over,
        next.stage matches TabbedStage::Polling { handled, .. } ==> handled
            == session.stage->handled + 1 && handled < INPUT_BATCH,
        next.stage is Drawing ==> tasks.len() > 0 && tasks.last() is Draw,
{
}

/// After a tick, every service is told the size that its terminal then has.
pub proof fn services_are_told_the_size_that_their_terminals_have(
    session: Tabbed,
    app: App,
    area: Rect,
    next: Tabbed,
    after: App,
    tasks: Seq<TabbedTask>,
    service: int,
)
    requires
        session.stepped_to(app, TabbedInput::Tick(area), next, after, tasks),
        0 <= service < after.services@.len(),
        after.services@[service].terminal is Some,
    ensures
        tasks[0] is Resize,
        ({
            let told = tasks[0]->Resize_0;
            let terminal = after.services@[service].terminal->Some_0;
            crate::terminal::screen_size(terminal.shown()) == (told.rows, told.cols)
        }),
{
}

/// How a session ended: what went wrong in it comes before what went wrong in
/// stopping the services.
///
/// # Errors
/// Returns the first thing that went wrong.
pub fn conclude(result: Result<u8, String>, cleanup: Result<(), String>) -> (outcome: Result<
    u8,
    String,
>)
    ensures
        outcome == match (result, cleanup) {
            (Err(error), _) => Err::<u8, String>(error),
            (Ok(_), Err(error)) => Err::<u8, String>(error),
            (Ok(code), Ok(_)) => Ok::<u8, String>(code),
        },
{
    let code = result?;
    cleanup?;
    Ok(code)
}

// ---- How sessions end ----

/// The exit codes after signals.
pub proof fn signals_have_their_exit_codes()
    ensures
        Signal::Interrupt.code() == 130,
        Signal::Terminate.code() == 143,
{
}

/// No service is enabled just when each of them is not to start by itself.
pub proof fn services_are_enabled_one_by_one(app: App)
    ensures
        none_enabled(app) == !exists|i: int|
            0 <= i < app.services@.len() && (#[trigger] app.services@[i]).autostart,
{
}

/// The merged feed ends by itself just when every enabled service has begun a run
/// and is stopped, exited or failed: with one if a failure was seen, and with zero
/// otherwise. Services that are not enabled are not waited for.
pub proof fn the_feed_ends_with_the_enabled_services(app: App)
    ensures
        ({
            let over = forall|i: int|
                0 <= i < app.services@.len() ==> {
                    let service = #[trigger] app.services@[i];
                    service.autostart ==> service.run > 0 && (service.state is Stopped
                        || service.state is Exited || service.state is Failed)
                };
            &&& !over ==> ended_with(app) is None
            &&& over && app.failed ==> ended_with(app) == Some(1u8)
            &&& over && !app.failed ==> ended_with(app) == Some(0u8)
        }),
{
    let over = forall|i: int|
        0 <= i < app.services@.len() ==> {
            let service = #[trigger] app.services@[i];
            service.autostart ==> service.run > 0 && (service.state is Stopped
                || service.state is Exited || service.state is Failed)
        };
    if over {
        assert forall|i: int| 0 <= i < app.services@.len() implies !(
        #[trigger] app.services@[i]).unfinished() by {}
    }
    if all_finished(app) {
        assert forall|i: int| 0 <= i < app.services@.len() implies {
            let service = #[trigger] app.services@[i];
            service.autostart ==> service.run > 0 && (service.state is Stopped
                || service.state is Exited || service.state is Failed)
        } by {
            assert(!app.services@[i].unfinished());
        }
    }
}

/// Every event of the merged feed is taken in, and the line that it prints, if it
/// prints one, is printed before anything else. Then the session ends if all
/// enabled services have finished, and waits for the next event otherwise.
pub proof fn the_feed_prints_every_line(
    session: Linear,
    app: App,
    event: Event,
    next: Linear,
    after: App,
    task: LinearTask,
)
    requires
        session.stepped_to(app, LinearInput::Event(event), next, after, task),
    ensures
        app.applied_to(after, event),
        app.line_of(event) matches Some(text) ==> {
            &&& task is Print && task->Print_0@ == text
            &&& next.stage == LinearStage::Printing { code: ended_with(after) }
        },
        app.line_of(event) is None && ended_with(after) is None ==> task is Receive
            && next.stage is Receiving,
        app.line_of(event) is None && ended_with(after) is Some ==> task == LinearTask::Finish(
            Ok(ended_with(after)->Some_0),
        ) && next.stage is Over,
{
}

/// Once a line is printed, the session goes on, or ends with the code that the
/// line was printed with.
pub proof fn the_feed_goes_on_after_a_line(
    app: App,
    code: Option<u8>,
    next: Linear,
    after: App,
    task: LinearTask,
)
    requires
        (Linear { stage: LinearStage::Printing { code } }).stepped_to(
            app,
            LinearInput::Printed,
            next,
            after,
            task,
        ),
    ensures
        after == app,
        code is None ==> task is Receive && next.stage is Receiving,
        code matches Some(code) ==> task == LinearTask::Finish(Ok(code)) && next.stage is Over,
{
}

/// A signal ends the merged feed with its exit code, a reader that is gone ends it
/// well, and an error or the end of all events ends it with what went wrong. None
/// of that touches what is known of the services.
pub proof fn the_feed_can_be_ended(
    session: Linear,
    app: App,
    input: LinearInput,
    next: Linear,
    after: App,
    task: LinearTask,
)
    requires
        session.stepped_to(app, input, next, after, task),
    ensures
        input is Signal || input is BrokenPipe || input is PrintFailed || input is Disconnected
            ==> after == app && next.stage is Over && task is Finish,
        input == LinearInput::Signal(Signal::Interrupt) ==> task == LinearTask::Finish(Ok(130)),
        input == LinearInput::Signal(Signal::Terminate) ==> task == LinearTask::Finish(Ok(143)),
        input is BrokenPipe ==> task == LinearTask::Finish(Ok(0)),
        input matches LinearInput::PrintFailed(error) ==> task == LinearTask::Finish(Err(error)),
        input is Disconnected ==> task->Finish_0 is Err && task->Finish_0->Err_0@
            == "process supervisor stopped unexpectedly"@,
{
}

// ---- What the tabbed session does ----

/// The replies of a terminal are taken out of it, all of them and in order, for
/// the run that the event came from, and nothing else changes. Where there are
/// none, nothing is sent.
pub proof fn replies_are_taken_out(
    app: App,
    next: App,
    service: usize,
    run: u64,
    reply: Option<Reply>,
)
    requires
        replied_to(app, next, service, run, reply),
    ensures
        service >= app.services@.len() || app.services@[service as int].terminal is None ==> next
            == app && reply is None,
        service < app.services@.len() && app.services@[service as int].terminal is Some ==> {
            let before = app.services@[service as int];
            let after = next.services@[service as int];
            let waiting = before.terminal->Some_0.pending();
            &&& waiting.len() == 0 ==> reply is None
            &&& waiting.len() > 0 ==> reply is Some && reply->Some_0.service == service
                && reply->Some_0.run == run && reply->Some_0.bytes@ == waiting
            &&& after.terminal is Some && after.terminal->Some_0.pending().len() == 0
            &&& after.terminal->Some_0.shown() == before.terminal->Some_0.shown()
            &&& after.terminal->Some_0.unfinished() == before.terminal->Some_0.unfinished()
            &&& after.terminal->Some_0.received_output == before.terminal->Some_0.received_output
            &&& after.name == before.name && after.autostart == before.autostart
            &&& after.hide_stderr == before.hide_stderr
            &&& after.run == before.run && after.state == before.state
            &&& next.services@.len() == app.services@.len()
            &&& next.selected == app.selected && next.failed == app.failed
            &&& next.log_height == app.log_height
            &&& forall|i: int|
                0 <= i < app.services@.len() && i != service ==> #[trigger] next.services@[i]
                    == app.services@[i]
        },
{
}

/// An event is taken in, and its terminal's replies are sent on before the session
/// waits again.
pub proof fn events_are_taken_in_and_answered(
    session: Tabbed,
    app: App,
    event: Event,
    next: Tabbed,
    after: App,
    tasks: Seq<TabbedTask>,
)
    requires
        session.stepped_to(app, TabbedInput::Event(event), next, after, tasks),
    ensures
        next.stage is Waiting,
        exists|between: App, reply: Option<Reply>|
            {
                &&& app.applied_to(between, event)
                &&& #[trigger] replied_to(between, after, event.service, event.run, reply)
                &&& reply is None ==> tasks.len() == 1 && tasks[0] is Wait
                &&& reply matches Some(sent) ==> tasks.len() == 2 && tasks[0]
                    == TabbedTask::Reply(sent) && tasks[1] is Wait
            },
{
    let (between, reply) = choose|between: App, reply: Option<Reply>|
        {
            &&& app.applied_to(between, event)
            &&& #[trigger] replied_to(between, after, event.service, event.run, reply)
            &&& tasks == match reply {
                Some(reply) => seq![TabbedTask::Reply(reply), TabbedTask::Wait],
                None => seq![TabbedTask::Wait],
            }
        };
    assert(replied_to(between, after, event.service, event.run, reply));
}

/// A tick resizes all terminals to the logs pane of the screen, tells services of
/// it, and turns to the input that is waiting.
pub proof fn a_tick_turns_to_input(
    session: Tabbed,
    app: App,
    area: Rect,
    next: Tabbed,
    after: App,
    tasks: Seq<TabbedTask>,
)
    requires
        session.stepped_to(app, TabbedInput::Tick(area), next, after, tasks),
    ensures
        app.terminals_resized_to(after, crate::view::pane_size(area)),
        next.stage == (TabbedStage::Polling { handled: 0, area }),
        tasks.len() == 2 && tasks[1] is Poll,
        tasks[0] == TabbedTask::Resize(crate::terminal::fitted(crate::view::pane_size(area))),
{
}

/// Input does what it asks for on the screen of the tick. A command goes to its
/// service, and quitting ends the session. Otherwise the session looks for more
/// input, up to thirty-two in a row, and then draws.
pub proof fn input_is_acted_on(
    app: App,
    handled: usize,
    area: Rect,
    event: TerminalEvent,
    next: Tabbed,
    after: App,
    tasks: Seq<TabbedTask>,
)
    requires
        handled < 32,
        (Tabbed { stage: TabbedStage::Polling { handled, area } }).stepped_to(
            app,
            TabbedInput::Polled(Some(event)),
            next,
            after,
            tasks,
        ),
    ensures
        exists|action: Option<Action>|
            {
                &&& #[trigger] crate::view::handled_to(app, after, event, area, action)
                &&& action matches Some(Action::Quit(code)) ==> next.stage is Over && tasks.len()
                    == 1 && tasks[0] == TabbedTask::Finish(Ok(code))
                &&& action matches Some(Action::Service(service, command)) ==> tasks.len() == 2
                    && tasks[0] == TabbedTask::Send(service, command)
                &&& action is None ==> tasks.len() == 1
                &&& !(action matches Some(Action::Quit(_))) && handled < 31 ==> tasks.last()
                    is Poll && next.stage == (TabbedStage::Polling {
                    handled: (handled + 1) as usize,
                    area,
                })
                &&& !(action matches Some(Action::Quit(_))) && handled == 31 ==> tasks.last()
                    is Draw && next.stage is Drawing
            },
{
    let action = choose|action: Option<Action>| #[trigger]
        crate::view::handled_to(app, after, event, area, action) && next.acts_on(
            action,
            handled,
            area,
            tasks,
        );
    assert(crate::view::handled_to(app, after, event, area, action));
}

/// When no input is left, the view is drawn, and after that the session waits.
/// Neither changes anything.
pub proof fn the_view_is_drawn_after_input(
    session: Tabbed,
    app: App,
    drawing: (Tabbed, App, Seq<TabbedTask>),
    waiting: (Tabbed, App, Seq<TabbedTask>),
)
    requires
        session.stepped_to(app, TabbedInput::Polled(None), drawing.0, drawing.1, drawing.2),
        session.stepped_to(app, TabbedInput::Drawn, waiting.0, waiting.1, waiting.2),
    ensures
        drawing.1 == app && drawing.0.stage is Drawing,
        drawing.2.len() == 1 && drawing.2[0] is Draw,
        waiting.1 == app && waiting.0.stage is Waiting,
        waiting.2.len() == 1 && waiting.2[0] is Wait,
{
}

/// A signal ends the tabbed session with its exit code, and an error or the end of
/// all events with what went wrong.
pub proof fn the_tabbed_session_can_be_ended(
    session: Tabbed,
    app: App,
    input: TabbedInput,
    next: Tabbed,
    after: App,
    tasks: Seq<TabbedTask>,
)
    requires
        session.stepped_to(app, input, next, after, tasks),
    ensures
        input is Signal || input is Failed || input is Disconnected ==> after == app && next.stage
            is Over && tasks.len() == 1 && tasks[0] is Finish,
        input == TabbedInput::Signal(Signal::Interrupt) ==> tasks[0] == TabbedTask::Finish(Ok(130)),
        input == TabbedInput::Signal(Signal::Terminate) ==> tasks[0] == TabbedTask::Finish(Ok(143)),
        input matches TabbedInput::Failed(error) ==> tasks[0] == TabbedTask::Finish(Err(error)),
        input is Disconnected ==> tasks[0]->Finish_0 is Err && tasks[0]->Finish_0->Err_0@
            == "process supervisor stopped unexpectedly"@,
{
}

/// Sessions take whatever can happen where they stand.
pub proof fn sessions_take_what_can_happen(
    linear: Linear,
    input: LinearInput,
    tabbed: Tabbed,
    other: TabbedInput,
)
    ensures
        linear.stage is Receiving ==> linear.expects(input) == (input is Signal || input is Event
            || input is Disconnected),
        linear.stage is Printing ==> linear.expects(input) == (input is Signal || input is Printed
            || input is BrokenPipe || input is PrintFailed),
        linear.stage is Over ==> !linear.expects(input),
        tabbed.stage is Waiting ==> tabbed.expects(other) == (other is Signal || other is Tick
            || other is Event || other is Disconnected || other is Failed),
        tabbed.stage is Polling ==> tabbed.expects(other) == (other is Polled || other is Failed),
        tabbed.stage is Drawing ==> tabbed.expects(other) == (other is Drawn || other is Failed),
        tabbed.stage is Over ==> !tabbed.expects(other),
        tabbed.wf() == (tabbed.stage matches TabbedStage::Polling { handled, .. } ==> handled < 32),
{
}

} // verus!
