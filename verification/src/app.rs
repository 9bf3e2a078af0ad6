//! What is known of every service, and what keys and events do to it.

use crate::config::Service;
use crate::pty::TerminalSize;
use crate::supervisor::{Command, Event, EventKind, State, Stream};
use crate::terminal::TerminalView;
use crate::text::{decimal, push_decimal};
use vstd::prelude::*;

verus! {

/// What is known of one service.
pub struct ServiceView {
    pub name: String,
    pub autostart: bool,
    pub hide_stderr: bool,
    pub state: State,
    pub run: u64,
    pub terminal: Option<TerminalView>,
}

/// What is known of all services, and which one is selected.
pub struct App {
    pub services: Vec<ServiceView>,
    pub selected: usize,
    pub failed: bool,
    pub log_height: usize,
}

/// What a key asks for.
#[derive(Debug, PartialEq, Eq)]
pub enum Action {
    Quit(u8),
    Service(usize, Command),
}

/// The keys that mean something, and all others.
#[derive(Clone, Copy, Debug, PartialEq, Eq, Structural)]
pub enum KeyCode {
    Up,
    Down,
    PageUp,
    PageDown,
    Home,
    End,
    Char(char),
    Other,
}

/// Whether a key went down, is held or came up.
#[derive(Clone, Copy, Debug, PartialEq, Eq, Structural)]
pub enum KeyEventKind {
    Press,
    Repeat,
    Release,
}

/// The modifier keys that matter.
#[derive(Clone, Copy, Debug, PartialEq, Eq, Structural)]
pub struct KeyModifiers {
    pub control: bool,
    pub alt: bool,
}

/// A key and how it was struck.
#[derive(Clone, Copy, Debug, PartialEq, Eq, Structural)]
pub struct KeyEvent {
    pub code: KeyCode,
    pub modifiers: KeyModifiers,
    pub kind: KeyEventKind,
}

impl KeyEvent {
    /// A press of `code`.
    #[must_use]
    pub fn new(code: KeyCode, modifiers: KeyModifiers) -> (key: Self)
        ensures
            key == (KeyEvent { code, modifiers, kind: KeyEventKind::Press }),
    {
        KeyEvent { code, modifiers, kind: KeyEventKind::Press }
    }
}

/// What a key does.
pub enum KeyEffect {
    /// Nothing.
    Ignored,
    /// Ends the session with this exit code.
    Quit(u8),
    /// Scrolls the logs of the selected service.
    Scroll { up: bool, rows: usize },
    /// Selects another service.
    Select(usize),
    /// Sends this command to the selected service.
    Send(Command),
}

/// A line of the merged feed: the service's number and name, then the text.
pub open spec fn feed_line(service: usize, name: Seq<char>, text: Seq<char>) -> Seq<char> {
    "["@ + decimal(service as nat) + " "@ + name + "] "@ + text
}

impl ServiceView {
    /// What an event that reaches this service prints in the merged feed.
    pub open spec fn printed(self, event: Event) -> Option<Seq<char>> {
        match event.kind {
            EventKind::Terminal { .. } => None,
            EventKind::State(state) => Some(
                feed_line(
                    event.service,
                    self.name@,
                    if state is Starting {
                        "--- run "@ + decimal(event.run as nat) + " ---"@
                    } else {
                        "--- "@ + state.label_text() + " ---"@
                    },
                ),
            ),
            EventKind::Output { stream: Stream::Stdout, text, .. } => Some(
                feed_line(event.service, self.name@, text@),
            ),
            EventKind::Output { stream: Stream::Stderr, text, .. } => if self.hide_stderr {
                None
            } else {
                Some(feed_line(event.service, self.name@, "[stderr] "@ + text@))
            },
        }
    }

    /// `next` is this service after `event` reached it.
    pub open spec fn reached_to(self, next: Self, event: Event) -> bool {
        &&& next.name == self.name
        &&& next.autostart == self.autostart
        &&& next.hide_stderr == self.hide_stderr
        &&& next.run == event.run
        &&& next.state == match event.kind {
            EventKind::State(state) => state,
            _ => self.state,
        }
        &&& match self.terminal {
            None => next.terminal is None,
            Some(terminal) => next.terminal matches Some(after) && match event.kind {
                EventKind::Terminal { bytes, .. } => terminal.processed_to(after, bytes@),
                EventKind::State(State::Starting) => if event.run > self.run {
                    terminal.run_started_to(after, event.run)
                } else {
                    after == terminal
                },
                _ => after == terminal,
            },
        }
    }

    /// `next` is this service with its terminal, if any, given another size.
    pub open spec fn resized_to(self, next: Self, size: TerminalSize) -> bool {
        &&& next.name == self.name
        &&& next.autostart == self.autostart
        &&& next.hide_stderr == self.hide_stderr
        &&& next.run == self.run
        &&& next.state == self.state
        &&& match self.terminal {
            None => next.terminal is None,
            Some(terminal) => next.terminal matches Some(after) && terminal.resized_to(after, size),
        }
    }

    /// `next` is this service with its terminal, if any, scrolled.
    pub open spec fn scrolled_to(self, next: Self, up: bool, rows: usize) -> bool {
        &&& next.name == self.name
        &&& next.autostart == self.autostart
        &&& next.hide_stderr == self.hide_stderr
        &&& next.run == self.run
        &&& next.state == self.state
        &&& match self.terminal {
            None => next.terminal is None,
            Some(terminal) => next.terminal matches Some(after) && terminal.scrolled_to(
                after,
                up,
                rows,
            ),
        }
    }

    /// The service is enabled and has not finished a run.
    pub open spec fn unfinished(self) -> bool {
        self.autostart && !(self.run > 0 && self.state.finished())
    }
}

impl App {
    /// Every terminal is in order.
    pub open spec fn wf(self) -> bool {
        forall|i: int|
            0 <= i < self.services@.len() ==> (#[trigger] self.services@[i].terminal matches Some(
                terminal,
            ) ==> terminal.wf())
    }

    /// Apart from service `index`, everything shown is as in `before`.
    pub open spec fn same_but_service(self, before: Self, index: int) -> bool {
        &&& self.services@.len() == before.services@.len()
        &&& forall|i: int|
            0 <= i < self.services@.len() && i != index ==> #[trigger] self.services@[i]
                == before.services@[i]
        &&& self.selected == before.selected
        &&& self.log_height == before.log_height
    }

    /// The event names a service and does not come from an earlier run of it.
    pub open spec fn accepts(self, event: Event) -> bool {
        &&& event.service < self.services@.len()
        &&& event.run >= self.services@[event.service as int].run
    }

    /// `next` is this after an event, which counts only where it is accepted.
    pub open spec fn applied_to(self, next: Self, event: Event) -> bool {
        if self.accepts(event) {
            let service = event.service as int;
            &&& next.same_but_service(self, service)
            &&& self.services@[service].reached_to(next.services@[service], event)
            &&& next.failed == (self.failed || event.kind.failure())
        } else {
            next == self
        }
    }

    /// The line that an event prints in the merged feed, if it prints one.
    pub open spec fn line_of(self, event: Event) -> Option<Seq<char>> {
        if self.accepts(event) {
            self.services@[event.service as int].printed(event)
        } else {
            None
        }
    }

    /// `next` is this with every terminal given another size.
    pub open spec fn terminals_resized_to(self, next: Self, size: TerminalSize) -> bool {
        &&& next.log_height == size.rows
        &&& next.selected == self.selected
        &&& next.failed == self.failed
        &&& next.services@.len() == self.services@.len()
        &&& forall|i: int|
            0 <= i < self.services@.len() ==> self.services@[i].resized_to(
                #[trigger] next.services@[i],
                size,
            )
    }

    /// `next` differs from this only in that the selected service, if there is
    /// one, is scrolled.
    pub open spec fn scrolled_to(self, next: Self, up: bool, rows: usize) -> bool {
        &&& next.same_but_service(self, self.selected as int)
        &&& next.failed == self.failed
        &&& self.selected < self.services@.len()
            ==> self.services@[self.selected as int].scrolled_to(
            next.services@[self.selected as int],
            up,
            rows,
        )
    }

    /// How far a page key scrolls: a page less one line, at least one line.
    pub open spec fn page(self) -> usize {
        if self.log_height > 2 {
            (self.log_height - 1) as usize
        } else {
            1
        }
    }

    /// What a key does here.
    pub open spec fn effect(self, key: KeyEvent) -> KeyEffect {
        let len = self.services@.len() as int;
        if !(key.kind is Press) {
            KeyEffect::Ignored
        } else if key.modifiers.control && key.code == KeyCode::Char('c') {
            KeyEffect::Quit(130)
        } else if key.modifiers.control || key.modifiers.alt {
            KeyEffect::Ignored
        } else {
            match key.code {
                KeyCode::PageUp => KeyEffect::Scroll { up: true, rows: self.page() },
                KeyCode::PageDown => KeyEffect::Scroll { up: false, rows: self.page() },
                KeyCode::Home => KeyEffect::Scroll { up: true, rows: usize::MAX },
                KeyCode::End => KeyEffect::Scroll { up: false, rows: usize::MAX },
                KeyCode::Up => if len > 0 {
                    KeyEffect::Select(((self.selected + len - 1) % len) as usize)
                } else {
                    KeyEffect::Ignored
                },
                KeyCode::Down => if len > 0 {
                    KeyEffect::Select(((self.selected + 1) % len) as usize)
                } else {
                    KeyEffect::Ignored
                },
                KeyCode::Char(c) => if c == 'q' {
                    KeyEffect::Quit(if self.failed { 1 } else { 0 })
                } else if '0' <= c <= '9' && (c as int - '0' as int) < len {
                    KeyEffect::Select((c as int - '0' as int) as usize)
                } else if (c == 's' || c == 'r') && self.selected < len && !(
                self.services@[self.selected as int].state is Starting
                    || self.services@[self.selected as int].state is Stopping) {
                    KeyEffect::Send(
                        if c == 'r' {
                            Command::Restart
                        } else if self.services@[self.selected as int].state.active() {
                            Command::Stop
                        } else {
                            Command::Start
                        },
                    )
                } else {
                    KeyEffect::Ignored
                },
                KeyCode::Other => KeyEffect::Ignored,
            }
        }
    }

    /// `next` and `action` are what a key leads to.
    pub open spec fn keyed_to(self, next: Self, key: KeyEvent, action: Option<Action>) -> bool {
        match self.effect(key) {
            KeyEffect::Ignored => next == self && action is None,
            KeyEffect::Quit(code) => next == self && action == Some(Action::Quit(code)),
            KeyEffect::Scroll { up, rows } => self.scrolled_to(next, up, rows) && action is None,
            KeyEffect::Select(index) => {
                &&& next == (App { selected: index, ..self })
                &&& action is None
            },
            KeyEffect::Send(command) => {
                let before = self.services@[self.selected as int];
                &&& next.same_but_service(self, self.selected as int)
                &&& next.failed == self.failed
                &&& next.services@[self.selected as int] == (ServiceView {
                    state: if before.state.active() {
                        State::Stopping
                    } else {
                        State::Starting
                    },
                    ..before
                })
                &&& action == Some(Action::Service(self.selected, command))
            },
        }
    }

    /// What is known before anything happened.
    #[must_use]
    pub fn new(services: &[Service]) -> (app: Self)
        ensures
            app.wf(),
            app.selected == 0,
            !app.failed,
            app.log_height == 1,
            app.services@.len() == services@.len(),
            forall|i: int|
                0 <= i < services@.len() ==> #[trigger] app.services@[i] == (ServiceView {
                    name: services@[i].name,
                    autostart: services@[i].autostart,
                    hide_stderr: services@[i].hide_stderr,
                    state: State::Stopped,
                    run: 0,
                    terminal: None,
                }),
    {
        let mut views: Vec<ServiceView> = Vec::new();
        for i in 0..services.len()
            invariant
                views@.len() == i,
                forall|j: int|
                    0 <= j < i ==> #[trigger] views@[j] == (ServiceView {
                        name: services@[j].name,
                        autostart: services@[j].autostart,
                        hide_stderr: services@[j].hide_stderr,
                        state: State::Stopped,
                        run: 0,
                        terminal: None,
                    }),
        {
            let service = &services[i];
            views.push(
                ServiceView {
                    name: service.name.clone(),
                    autostart: service.autostart,
                    hide_stderr: service.hide_stderr,
                    state: State::Stopped,
                    run: 0,
                    terminal: None,
                },
            );
        }
        App { services: views, selected: 0, failed: false, log_height: 1 }
    }

    /// What is known before anything happened, with a terminal for each service.
    #[must_use]
    pub fn terminal(services: &[Service], size: TerminalSize) -> (app: Self)
        ensures
            app.wf(),
            app.selected == 0,
            !app.failed,
            app.log_height == size.rows,
            app.services@.len() == services@.len(),
            forall|i: int|
                0 <= i < services@.len() ==> {
                    let view = #[trigger] app.services@[i];
                    &&& view.name == services@[i].name
                    &&& view.autostart == services@[i].autostart
                    &&& view.hide_stderr == services@[i].hide_stderr
                    &&& view.state is Stopped
                    &&& view.run == 0
                    &&& view.terminal matches Some(terminal) && terminal.made_with(size)
                },
    {
        let mut app = Self::new(services);
        let count = app.services.len();
        for i in 0..count
            invariant
                count == app.services@.len(),
                app.selected == 0,
                !app.failed,
                app.services@.len() == services@.len(),
                forall|j: int|
                    0 <= j < app.services@.len() ==> {
                        let view = #[trigger] app.services@[j];
                        &&& view.name == services@[j].name
                        &&& view.autostart == services@[j].autostart
                        &&& view.hide_stderr == services@[j].hide_stderr
                        &&& view.state is Stopped
                        &&& view.run == 0
                        &&& j < i ==> (view.terminal matches Some(terminal) && terminal.wf()
                            && terminal.made_with(size))
                    },
        {
            app.services[i].terminal = Some(TerminalView::new(size));
        }
        app.log_height = size.rows as usize;
        app
    }

    /// Apply output to its terminal, or return a printable line for linear mode.
    pub fn apply(&mut self, event: Event) -> (line: Option<String>)
        requires
            old(self).wf(),
        ensures
            final(self).wf(),
            old(self).applied_to(*final(self), event),
            match old(self).line_of(event) {
                Some(text) => line matches Some(line) && line@ == text,
                None => line is None,
            },
    {
        if event.service >= self.services.len() {
            return None;
        }
        let index = event.service;
        let run = event.run;
        if run < self.services[index].run {
            return None;
        }
        let new_run = run > self.services[index].run;
        self.services[index].run = run;
        let text = match event.kind {
            EventKind::Terminal { bytes, .. } => {
                if let Some(terminal) = &mut self.services[index].terminal {
                    terminal.process(&bytes);
                }
                return None;
            },
            EventKind::State(state) => {
                let mut text = "--- ".to_owned();
                if let State::Starting = state {
                    if new_run {
                        if let Some(terminal) = &mut self.services[index].terminal {
                            terminal.start_run(run);
                        }
                    }
                    text = "--- run ".to_owned();
                    push_decimal(&mut text, run);
                } else {
                    text.push_str(state.label().as_str());
                }
                text.push_str(" ---");
                self.failed = self.failed || state.is_failure();
                self.services[index].state = state;
                text
            },
            EventKind::Output { stream, text, .. } => match stream {
                Stream::Stdout => text,
                Stream::Stderr => {
                    if self.services[index].hide_stderr {
                        return None;
                    }
                    let mut marked = "[stderr] ".to_owned();
                    marked.push_str(text.as_str());
                    marked
                },
            },
        };
        let mut line = "[".to_owned();
        push_decimal(&mut line, index as u64);
        line.push_str(" ");
        line.push_str(self.services[index].name.as_str());
        line.push_str("] ");
        line.push_str(text.as_str());
        Some(line)
    }

    /// Whether every enabled service has finished a run.
    #[must_use]
    pub fn all_enabled_finished(&self) -> (finished: bool)
        ensures
            finished == (forall|i: int|
                0 <= i < self.services@.len() ==> !(#[trigger] self.services@[i]).unfinished()),
    {
        for i in 0..self.services.len()
            invariant
                forall|j: int| 0 <= j < i ==> !(#[trigger] self.services@[j]).unfinished(),
        {
            let service = &self.services[i];
            if service.autostart && !(service.run > 0 && service.state.is_finished()) {
                assert(self.services@[i as int].unfinished());
                return false;
            }
        }
        true
    }

    /// Gives every terminal the size of the output pane.
    pub fn resize_terminal(&mut self, size: TerminalSize)
        requires
            old(self).wf(),
        ensures
            final(self).wf(),
            old(self).terminals_resized_to(*final(self), size),
    {
        self.log_height = size.rows as usize;
        let count = self.services.len();
        for i in 0..count
            invariant
                count == self.services@.len(),
                self.log_height == size.rows,
                self.selected == old(self).selected,
                self.failed == old(self).failed,
                self.services@.len() == old(self).services@.len(),
                self.wf(),
                forall|j: int|
                    0 <= j < i ==> old(self).services@[j].resized_to(
                        #[trigger] self.services@[j],
                        size,
                    ),
                forall|j: int|
                    i <= j < self.services@.len() ==> #[trigger] self.services@[j] == old(
                        self,
                    ).services@[j],
        {
            if let Some(terminal) = &mut self.services[i].terminal {
                terminal.resize(size);
            }
        }
    }

    /// Scrolls the logs of the selected service.
    pub fn scroll_logs(&mut self, up: bool, lines: usize)
        ensures
            old(self).wf() ==> final(self).wf(),
            old(self).scrolled_to(*final(self), up, lines),
    {
        if self.selected < self.services.len() {
            let selected = self.selected;
            if let Some(terminal) = &mut self.services[selected].terminal {
                terminal.scroll(up, lines);
            }
        }
    }

    /// Does what a key asks for. Lifecycle keys change the shown state at once,
    /// so that striking one again does nothing until the service answers.
    pub fn key(&mut self, key: KeyEvent) -> (action: Option<Action>)
        ensures
            old(self).wf() ==> final(self).wf(),
            old(self).keyed_to(*final(self), key, action),
    {
        if !matches!(key.kind, KeyEventKind::Press) {
            return None;
        }
        if key.modifiers.control && key.code == KeyCode::Char('c') {
            return Some(Action::Quit(130));
        }
        if key.modifiers.control || key.modifiers.alt {
            return None;
        }
        let page: usize = if self.log_height > 2 {
            self.log_height - 1
        } else {
            1
        };
        match key.code {
            KeyCode::PageUp => self.scroll_logs(true, page),
            KeyCode::PageDown => self.scroll_logs(false, page),
            KeyCode::Home => self.scroll_logs(true, usize::MAX),
            KeyCode::End => self.scroll_logs(false, usize::MAX),
            KeyCode::Up => {
                if self.services.len() > 0 {
                    self.selected = previous(self.selected, self.services.len());
                }
            },
            KeyCode::Down => {
                if self.services.len() > 0 {
                    self.selected = following(self.selected, self.services.len());
                }
            },
            KeyCode::Char(c) => {
                if c == 'q' {
                    return Some(Action::Quit(if self.failed { 1 } else { 0 }));
                }
                if '0' <= c && c <= '9' {
                    let index: usize = (c as u32 - '0' as u32) as usize;
                    if index < self.services.len() {
                        self.selected = index;
                    }
                }
                if c == 's' || c == 'r' {
                    if self.selected >= self.services.len() {
                        return None;
                    }
                    let selected = self.selected;
                    if matches!(self.services[selected].state, State::Starting | State::Stopping) {
                        return None;
                    }
                    let active = self.services[selected].state.is_active();
                    let command = if c == 'r' {
                        Command::Restart
                    } else if active {
                        Command::Stop
                    } else {
                        Command::Start
                    };
                    self.services[selected].state = if active {
                        State::Stopping
                    } else {
                        State::Starting
                    };
                    return Some(Action::Service(selected, command));
                }
            },
            KeyCode::Other => {},
        }
        None
    }
}

/// The index before `index` in a cycle of `len`.
fn previous(index: usize, len: usize) -> (result: usize)
    requires
        len > 0,
    ensures
        result == (index + len - 1) % (len as int),
{
    let place: usize = index % len;
    proof {
        vstd::arithmetic::div_mod::lemma_fundamental_div_mod(index as int, len as int);
        let whole = index as int / len as int;
        assert(len * whole == whole * len) by (nonlinear_arith);
        assert(index == whole * len + place);
        if place == 0 {
            assert(index + len - 1 == whole * len + (len - 1));
            vstd::arithmetic::div_mod::lemma_fundamental_div_mod_converse(
                index + len - 1,
                len as int,
                whole,
                len - 1,
            );
        } else {
            assert((whole + 1) * len == whole * len + len) by (nonlinear_arith);
            assert(index + len - 1 == (whole + 1) * len + (place - 1));
            vstd::arithmetic::div_mod::lemma_fundamental_div_mod_converse(
                index + len - 1,
                len as int,
                whole + 1,
                place - 1,
            );
        }
    }
    if place == 0 {
        len - 1
    } else {
        place - 1
    }
}

/// The index after `index` in a cycle of `len`.
fn following(index: usize, len: usize) -> (result: usize)
    requires
        len > 0,
    ensures
        result == (index + 1) % (len as int),
{
    let place: usize = index % len;
    proof {
        vstd::arithmetic::div_mod::lemma_fundamental_div_mod(index as int, len as int);
        let whole = index as int / len as int;
        assert(len * whole == whole * len) by (nonlinear_arith);
        assert(index == whole * len + place);
        if place == len - 1 {
            assert((whole + 1) * len == whole * len + len) by (nonlinear_arith);
            assert(index + 1 == (whole + 1) * len + 0);
            vstd::arithmetic::div_mod::lemma_fundamental_div_mod_converse(
                index + 1,
                len as int,
                whole + 1,
                0,
            );
        } else {
            assert(index + 1 == whole * len + (place + 1));
            vstd::arithmetic::div_mod::lemma_fundamental_div_mod_converse(
                index + 1,
                len as int,
                whole,
                place + 1,
            );
        }
    }
    if place == len - 1 {
        0
    } else {
        place + 1
    }
}

// ---- What holds of every session ----

/// A key leaves a selected service selected or selects another one: the
/// selection never points past the services.
pub proof fn selection_stays_in_range(app: App, next: App, key: KeyEvent, action: Option<Action>)
    requires
        app.selected < app.services@.len(),
        app.keyed_to(next, key, action),
    ensures
        next.services@.len() == app.services@.len(),
        next.selected < next.services@.len(),
{
}

/// A key struck without modifiers.
pub open spec fn struck(code: KeyCode) -> KeyEvent {
    KeyEvent {
        code,
        modifiers: KeyModifiers { control: false, alt: false },
        kind: KeyEventKind::Press,
    }
}

/// This application with another service selected.
pub open spec fn selecting(app: App, index: usize) -> App {
    App { selected: index, ..app }
}

/// Up undoes down and down undoes up, around both ends of the list.
pub proof fn up_and_down_undo_each_other(app: App)
    requires
        app.selected < app.services@.len(),
        app.services@.len() <= usize::MAX,
    ensures
        app.effect(struck(KeyCode::Up)) matches KeyEffect::Select(above) && selecting(
            app,
            above,
        ).effect(struck(KeyCode::Down)) == KeyEffect::Select(app.selected),
        app.effect(struck(KeyCode::Down)) matches KeyEffect::Select(below) && selecting(
            app,
            below,
        ).effect(struck(KeyCode::Up)) == KeyEffect::Select(app.selected),
{
    let len = app.services@.len() as int;
    let selected = app.selected as int;
    if selected == 0 {
        vstd::arithmetic::div_mod::lemma_small_mod((len - 1) as nat, len as nat);
        vstd::arithmetic::div_mod::lemma_mod_self_0(len);
    } else {
        turning_wraps(selected - 1, len);
        vstd::arithmetic::div_mod::lemma_small_mod(selected as nat, len as nat);
    }
    if selected == len - 1 {
        vstd::arithmetic::div_mod::lemma_mod_self_0(len);
        vstd::arithmetic::div_mod::lemma_small_mod((len - 1) as nat, len as nat);
    } else {
        vstd::arithmetic::div_mod::lemma_small_mod((selected + 1) as nat, len as nat);
        turning_wraps(selected, len);
    }
}

proof fn turning_wraps(place: int, len: int)
    requires
        0 <= place < len,
    ensures
        (place + len) % len == place,
{
    vstd::arithmetic::div_mod::lemma_mod_add_multiples_vanish(place, len);
    vstd::arithmetic::div_mod::lemma_small_mod(place as nat, len as nat);
}

/// The service selected after going down so many times.
pub open spec fn down(app: App, times: nat) -> App
    decreases times,
{
    if times == 0 {
        app
    } else {
        let before = down(app, (times - 1) as nat);
        match before.effect(struck(KeyCode::Down)) {
            KeyEffect::Select(index) => selecting(before, index),
            _ => before,
        }
    }
}

/// Going down cycles through the services one by one, and so reaches every
/// one of them.
pub proof fn every_service_can_be_reached(app: App, target: usize)
    requires
        app.selected < app.services@.len(),
        target < app.services@.len(),
        app.services@.len() <= usize::MAX,
    ensures
        exists|times: nat| #[trigger] down(app, times) == selecting(app, target),
{
    let len = app.services@.len() as int;
    let times = if target >= app.selected {
        (target - app.selected) as nat
    } else {
        (target - app.selected + len) as nat
    };
    going_down_counts(app, times);
    if target >= app.selected {
        vstd::arithmetic::div_mod::lemma_small_mod(target as nat, len as nat);
    } else {
        turning_wraps(target as int, len);
    }
    assert(down(app, times) == selecting(app, target));
}

proof fn going_down_counts(app: App, times: nat)
    requires
        app.selected < app.services@.len(),
        app.services@.len() <= usize::MAX,
    ensures
        down(app, times) == selecting(
            app,
            ((app.selected + times) % (app.services@.len() as int)) as usize,
        ),
    decreases times,
{
    let len = app.services@.len() as int;
    if times == 0 {
        vstd::arithmetic::div_mod::lemma_small_mod(app.selected as nat, len as nat);
    } else {
        going_down_counts(app, (times - 1) as nat);
        let before = app.selected + times - 1;
        vstd::arithmetic::div_mod::lemma_mod_bound(before, len);
        vstd::arithmetic::div_mod::lemma_add_mod_noop(before, 1, len);
        vstd::arithmetic::div_mod::lemma_add_mod_noop(before % len, 1, len);
        vstd::arithmetic::div_mod::lemma_mod_twice(before, len);
        vstd::arithmetic::div_mod::lemma_mod_bound(before + 1, len);
    }
}

/// Lifecycle keys coalesce: once one has sent a command, neither does anything
/// until the service reports a state.
pub proof fn lifecycle_keys_coalesce(app: App, next: App, key: KeyEvent, action: Option<Action>)
    requires
        app.keyed_to(next, key, action),
        app.effect(key) is Send,
    ensures
        app.selected < app.services@.len(),
        action matches Some(Action::Service(service, _)) && service == app.selected,
        next.effect(struck(KeyCode::Char('s'))) is Ignored,
        next.effect(struck(KeyCode::Char('r'))) is Ignored,
{
}

/// The run shown for a service never goes back, and no event changes another
/// service than its own.
pub proof fn runs_never_go_back(app: App, next: App, event: Event, service: int)
    requires
        app.applied_to(next, event),
        0 <= service < app.services@.len(),
    ensures
        next.services@.len() == app.services@.len(),
        next.services@[service].run >= app.services@[service].run,
        service != event.service ==> next.services@[service] == app.services@[service],
{
}

/// The states follow from one another by these events.
pub open spec fn follows(states: Seq<App>, events: Seq<Event>) -> bool {
    &&& states.len() == events.len() + 1
    &&& forall|i: int|
        0 <= i < events.len() ==> states[i].applied_to(states[i + 1], #[trigger] events[i])
}

/// A failure is remembered, and nothing else counts as one: after any events, a
/// failure was observed just when there was one before or one of the events
/// that counted reported one.
pub proof fn failures_are_remembered(states: Seq<App>, events: Seq<Event>)
    requires
        follows(states, events),
    ensures
        states.last().failed == (states[0].failed || exists|i: int|
            0 <= i < events.len() && states[i].accepts(events[i])
                && (#[trigger] events[i]).kind.failure()),
    decreases events.len(),
{
    if events.len() > 0 {
        let last = events.len() - 1;
        let earlier = events.drop_last();
        assert forall|i: int| 0 <= i < earlier.len() implies states.drop_last()[i].applied_to(
            states.drop_last()[i + 1],
            #[trigger] earlier[i],
        ) by {
            assert(earlier[i] == events[i]);
        }
        failures_are_remembered(states.drop_last(), earlier);
        assert(states[last].applied_to(states[last + 1], events[last]));
        if states.drop_last().last().failed && !states[0].failed {
            let i = choose|i: int|
                0 <= i < earlier.len() && states.drop_last()[i].accepts(earlier[i])
                    && (#[trigger] earlier[i]).kind.failure();
            assert(events[i].kind.failure() && states[i].accepts(events[i]));
        }
        if exists|i: int|
            0 <= i < events.len() && states[i].accepts(events[i])
                && (#[trigger] events[i]).kind.failure() {
            let i = choose|i: int|
                0 <= i < events.len() && states[i].accepts(events[i])
                    && (#[trigger] events[i]).kind.failure();
            if i < last {
                assert(earlier[i].kind.failure() && states.drop_last()[i].accepts(earlier[i]));
            }
        }
    }
}

// ---- What events print and change ----

/// What a service wrote to its hidden stderr is never printed, in whatever state
/// the service is.
pub proof fn hidden_stderr_is_never_printed(app: App, event: Event)
    requires
        event.kind matches EventKind::Output { stream: Stream::Stderr, .. },
        event.service < app.services@.len(),
        app.services@[event.service as int].hide_stderr,
    ensures
        app.line_of(event) is None,
{
}

/// What a service writes is printed in whatever state it is, behind its number
/// and name: as it is from stdout, and marked from a stderr that is not hidden.
pub proof fn output_is_printed(app: App, event: Event)
    requires
        event.service < app.services@.len(),
        event.run >= app.services@[event.service as int].run,
    ensures
        ({
            let service = app.services@[event.service as int];
            let prefix = "["@ + decimal(event.service as nat) + " "@ + service.name@ + "] "@;
            &&& event.kind matches EventKind::Output { stream: Stream::Stdout, text, .. }
                ==> app.line_of(event) == Some(prefix + text@)
            &&& !service.hide_stderr && (event.kind matches EventKind::Output {
                stream: Stream::Stderr,
                ..
            }) ==> app.line_of(event) == Some(
                prefix + "[stderr] "@ + event.kind->text@,
            )
        }),
{
    let service = app.services@[event.service as int];
    let prefix = "["@ + decimal(event.service as nat) + " "@ + service.name@ + "] "@;
    if let EventKind::Output { text, .. } = event.kind {
        assert(prefix + ("[stderr] "@ + text@) =~= prefix + "[stderr] "@ + text@);
    }
}

/// Every state that a service reaches is printed: a start with the number of the
/// run, and any other one by its name, whether stderr is hidden or not.
pub proof fn states_are_printed(app: App, event: Event, state: State)
    requires
        event.service < app.services@.len(),
        event.run >= app.services@[event.service as int].run,
        event.kind == EventKind::State(state),
    ensures
        ({
            let service = app.services@[event.service as int];
            let prefix = "["@ + decimal(event.service as nat) + " "@ + service.name@ + "] "@;
            &&& state is Starting ==> app.line_of(event) == Some(
                prefix + ("--- run "@ + decimal(event.run as nat) + " ---"@),
            )
            &&& !(state is Starting) ==> app.line_of(event) == Some(
                prefix + ("--- "@ + state.label_text() + " ---"@),
            )
        }),
{
}

/// Nothing is printed of what goes to a terminal, of services that there are
/// not, and of earlier runs.
pub proof fn nothing_else_is_printed(app: App, event: Event)
    requires
        event.kind is Terminal || event.service >= app.services@.len() || event.run
            < app.services@[event.service as int].run,
    ensures
        app.line_of(event) is None,
{
}

/// Events of services that there are not, and of earlier runs, change nothing.
pub proof fn stale_events_change_nothing(app: App, next: App, event: Event)
    requires
        app.applied_to(next, event),
        event.service >= app.services@.len() || event.run
            < app.services@[event.service as int].run,
    ensures
        next == app,
{
}

/// An event changes its own service and no other, and neither the selection nor
/// the height of the logs. Its service then has the run of the event, and the
/// state that the event reports or else the one that it had.
pub proof fn an_event_reaches_its_service(app: App, next: App, event: Event, other: int)
    requires
        app.applied_to(next, event),
        event.service < app.services@.len(),
        event.run >= app.services@[event.service as int].run,
    ensures
        ({
            let before = app.services@[event.service as int];
            let after = next.services@[event.service as int];
            &&& next.services@.len() == app.services@.len()
            &&& next.selected == app.selected
            &&& next.log_height == app.log_height
            &&& after.name == before.name
            &&& after.autostart == before.autostart
            &&& after.hide_stderr == before.hide_stderr
            &&& after.run == event.run
            &&& match event.kind {
                EventKind::State(state) => after.state == state,
                _ => after.state == before.state,
            }
            &&& (after.terminal is Some) == (before.terminal is Some)
            &&& 0 <= other < app.services@.len() && other != event.service
                ==> next.services@[other] == app.services@[other]
        }),
{
}

/// A session has seen a failure from the first event on that says that a run
/// failed, was ended by a signal or left an exit code other than zero.
pub proof fn an_event_can_tell_of_a_failure(app: App, next: App, event: Event)
    requires
        app.applied_to(next, event),
        event.service < app.services@.len(),
        event.run >= app.services@[event.service as int].run,
    ensures
        next.failed == (app.failed || (event.kind matches EventKind::State(state) && (
        state is Failed || state == State::Exited(None) || (state matches State::Exited(
            Some(code),
        ) && code != 0)))),
{
}

/// Output goes to the terminal of its service, a later start opens a new run on
/// it, and nothing else reaches it.
pub proof fn events_reach_the_terminal(app: App, next: App, event: Event)
    requires
        app.applied_to(next, event),
        event.service < app.services@.len(),
        event.run >= app.services@[event.service as int].run,
        app.services@[event.service as int].terminal is Some,
    ensures
        ({
            let service = app.services@[event.service as int];
            let before = service.terminal->Some_0;
            let after = next.services@[event.service as int].terminal->Some_0;
            let starts = event.kind matches EventKind::State(state) && state is Starting
                && event.run > service.run;
            &&& event.kind matches EventKind::Terminal { bytes, .. } ==> before.processed_to(
                after,
                bytes@,
            )
            &&& starts ==> before.run_started_to(after, event.run)
            &&& !(event.kind is Terminal) && !starts ==> after == before
        }),
{
}

/// A service that is enabled has finished just when it has begun a run and is
/// stopped, exited or failed. Any other one is not waited for.
pub proof fn enabled_services_finish_a_run(service: ServiceView)
    ensures
        service.unfinished() == (service.autostart && (service.run == 0
            || service.state is Starting || service.state is Running
            || service.state is Stopping)),
{
}

/// Every terminal gets the size, and nothing else of a service changes.
pub proof fn every_terminal_is_resized(app: App, next: App, size: TerminalSize, service: int)
    requires
        app.terminals_resized_to(next, size),
        0 <= service < app.services@.len(),
    ensures
        ({
            let before = app.services@[service];
            let after = next.services@[service];
            &&& next.services@.len() == app.services@.len()
            &&& next.selected == app.selected
            &&& next.failed == app.failed
            &&& next.log_height == size.rows
            &&& after.name == before.name
            &&& after.autostart == before.autostart
            &&& after.hide_stderr == before.hide_stderr
            &&& after.run == before.run
            &&& after.state == before.state
            &&& before.terminal is None ==> after.terminal is None
            &&& before.terminal matches Some(terminal) ==> (after.terminal matches Some(resized)
                && terminal.resized_to(resized, size))
        }),
{
}

// ---- What keys do ----

/// A key counts when it goes down. While it is held or when it comes up it does
/// nothing, and neither does any key struck with control or alt, but for control
/// and `c`, which ends the session as an interrupt does.
pub proof fn keys_count_when_struck(app: App, next: App, key: KeyEvent, action: Option<Action>)
    requires
        app.keyed_to(next, key, action),
    ensures
        key.kind is Repeat || key.kind is Release ==> next == app && action is None,
        key.kind is Press && key.modifiers.control && key.code == KeyCode::Char('c') ==> next
            == app && action == Some(Action::Quit(130)),
        key.kind is Press && (key.modifiers.control || key.modifiers.alt) && !(
        key.modifiers.control && key.code == KeyCode::Char('c')) ==> next == app && action is None,
{
}

/// `q` ends the session, with an exit code of one just when a failure was seen.
pub proof fn q_quits(app: App, next: App, action: Option<Action>)
    requires
        app.keyed_to(next, struck(KeyCode::Char('q')), action),
    ensures
        next == app,
        app.failed ==> action == Some(Action::Quit(1)),
        !app.failed ==> action == Some(Action::Quit(0)),
{
}

/// A digit selects the service of that number if there is one, and changes
/// nothing else.
pub proof fn digits_select_services(app: App, next: App, digit: u8, action: Option<Action>)
    requires
        digit <= 9,
        app.keyed_to(next, struck(KeyCode::Char((48 + digit) as char)), action),
    ensures
        action is None,
        next.services == app.services,
        next.failed == app.failed,
        next.log_height == app.log_height,
        digit < app.services@.len() ==> next.selected == digit,
        digit >= app.services@.len() ==> next.selected == app.selected,
{
}

/// The arrows select the service above or below, around both ends of the list,
/// and change nothing else.
pub proof fn arrows_select_neighbours(
    app: App,
    above: App,
    up: Option<Action>,
    below: App,
    down: Option<Action>,
)
    requires
        app.selected < app.services@.len() <= usize::MAX,
        app.keyed_to(above, struck(KeyCode::Up), up),
        app.keyed_to(below, struck(KeyCode::Down), down),
    ensures
        up is None && down is None,
        above.services == app.services && below.services == app.services,
        above.failed == app.failed && below.failed == app.failed,
        above.log_height == app.log_height && below.log_height == app.log_height,
        app.selected > 0 ==> above.selected == app.selected - 1,
        app.selected == 0 ==> above.selected == app.services@.len() - 1,
        app.selected + 1 < app.services@.len() ==> below.selected == app.selected + 1,
        app.selected + 1 == app.services@.len() ==> below.selected == 0,
{
    let len = app.services@.len() as int;
    let selected = app.selected as int;
    if selected == 0 {
        vstd::arithmetic::div_mod::lemma_small_mod((len - 1) as nat, len as nat);
    } else {
        turning_wraps(selected - 1, len);
        assert(selected + len - 1 == selected - 1 + len);
    }
    if selected == len - 1 {
        vstd::arithmetic::div_mod::lemma_mod_self_0(len);
    } else {
        vstd::arithmetic::div_mod::lemma_small_mod((selected + 1) as nat, len as nat);
    }
}

/// Where there are no services, an arrow does nothing.
pub proof fn arrows_need_services(app: App, next: App, code: KeyCode, action: Option<Action>)
    requires
        code is Up || code is Down,
        app.keyed_to(next, struck(code), action),
        app.services@.len() == 0,
    ensures
        next == app,
        action is None,
{
}

/// No key but the arrows and the digits selects another service, and none
/// adds or removes one.
pub proof fn other_keys_select_nothing(
    app: App,
    next: App,
    key: KeyEvent,
    action: Option<Action>,
)
    requires
        app.keyed_to(next, key, action),
        !(key.code is Up) && !(key.code is Down),
        key.code matches KeyCode::Char(c) ==> !('0' <= c <= '9'),
    ensures
        next.selected == app.selected,
        next.services@.len() == app.services@.len(),
        next.failed == app.failed,
        next.log_height == app.log_height,
{
}

/// `s` stops a running service and starts one that is stopped, exited or failed.
/// `r` restarts a running service and starts any other one that is not on its way
/// already. What was asked for shows at once as the state of the service, and
/// nothing else changes.
pub proof fn s_and_r_drive_the_selected_service(
    app: App,
    next: App,
    key: char,
    action: Option<Action>,
)
    requires
        key == 's' || key == 'r',
        app.keyed_to(next, struck(KeyCode::Char(key)), action),
        app.selected < app.services@.len(),
    ensures
        ({
            let before = app.services@[app.selected as int];
            let after = next.services@[app.selected as int];
            let running = before.state is Running;
            let idle = before.state is Stopped || before.state is Exited || before.state is Failed;
            &&& running && key == 's' ==> action == Some(
                Action::Service(app.selected, Command::Stop),
            )
            &&& idle && key == 's' ==> action == Some(
                Action::Service(app.selected, Command::Start),
            )
            &&& (running || idle) && key == 'r' ==> action == Some(
                Action::Service(app.selected, Command::Restart),
            )
            &&& running ==> after.state is Stopping
            &&& idle ==> after.state is Starting
            &&& !running && !idle ==> next == app && action is None
            &&& after.name == before.name && after.autostart == before.autostart
            &&& after.hide_stderr == before.hide_stderr && after.run == before.run
            &&& after.terminal == before.terminal
            &&& forall|i: int|
                0 <= i < app.services@.len() && i != app.selected ==> #[trigger] next.services@[i]
                    == app.services@[i]
        }),
{
}

/// `s` and `r` ask for nothing where no service is selected.
pub proof fn s_and_r_need_a_service(app: App, next: App, key: char, action: Option<Action>)
    requires
        key == 's' || key == 'r',
        app.keyed_to(next, struck(KeyCode::Char(key)), action),
        app.selected >= app.services@.len(),
    ensures
        next == app,
        action is None,
{
}

/// All other keys do nothing.
pub proof fn unknown_keys_do_nothing(app: App, next: App, code: KeyCode, action: Option<Action>)
    requires
        app.keyed_to(next, struck(code), action),
        match code {
            KeyCode::Char(c) => c != 'q' && c != 's' && c != 'r' && !('0' <= c <= '9'),
            KeyCode::Other => true,
            _ => false,
        },
    ensures
        next == app,
        action is None,
{
}

/// The page keys scroll the terminal of the selected service by a page less one
/// row, at least one row, as far as there are rows, and Home and End go all the
/// way to the oldest row and to live output. They ask for nothing, and leave the
/// state of all services and the terminals of the others alone.
pub proof fn page_keys_scroll_the_selected_service(
    app: App,
    next: App,
    code: KeyCode,
    action: Option<Action>,
)
    requires
        code is PageUp || code is PageDown || code is Home || code is End,
        app.keyed_to(next, struck(code), action),
    ensures
        action is None,
        next.services@.len() == app.services@.len(),
        next.selected == app.selected && next.failed == app.failed && next.log_height
            == app.log_height,
        forall|i: int|
            0 <= i < app.services@.len() && i != app.selected ==> #[trigger] next.services@[i]
                == app.services@[i],
        app.selected < app.services@.len() ==> {
            let before = app.services@[app.selected as int];
            let after = next.services@[app.selected as int];
            let page = if app.log_height >= 2 {
                app.log_height - 1
            } else {
                1
            };
            &&& after.name == before.name && after.autostart == before.autostart
            &&& after.hide_stderr == before.hide_stderr && after.run == before.run
            &&& after.state == before.state
            &&& before.terminal is None ==> after.terminal is None
            &&& before.terminal matches Some(terminal) ==> {
                let offset = crate::terminal::screen_offset(terminal.shown());
                let history = crate::terminal::screen_history(terminal.shown());
                let reached = crate::terminal::screen_offset(after.terminal->Some_0.shown());
                &&& after.terminal is Some
                &&& after.terminal->Some_0.pending() == terminal.pending()
                &&& after.terminal->Some_0.unfinished() == terminal.unfinished()
                &&& after.terminal->Some_0.received_output == terminal.received_output
                &&& crate::terminal::screen_size(after.terminal->Some_0.shown())
                    == crate::terminal::screen_size(terminal.shown())
                &&& crate::terminal::screen_history(after.terminal->Some_0.shown()) == history
                &&& code is PageUp && offset + page <= history && offset + page <= usize::MAX
                    ==> reached == offset + page
                &&& code is PageUp && offset + page > history ==> reached == history
                &&& code is PageDown && page <= offset <= history ==> reached == offset - page
                &&& code is PageDown && page > offset ==> reached == 0
                &&& code is Home ==> reached == history
                &&& code is End ==> reached == 0
            }
        },
{
}

/// What is known of services is in order as soon as each of their terminals is.
pub proof fn services_are_in_order_with_their_terminals(app: App)
    requires
        forall|i: int|
            0 <= i < app.services@.len() && (#[trigger] app.services@[i]).terminal is Some
                ==> app.services@[i].terminal->Some_0.wf(),
    ensures
        app.wf(),
{
}

} // verus!
