//! Pseudo-terminal sizes, launch plans and transport decisions.

use crate::config::Service;
use std::path::PathBuf;
use vstd::prelude::*;

verus! {

/// The size of a terminal in character cells.
#[derive(Clone, Copy, Debug, PartialEq, Eq, Structural)]
pub struct TerminalSize {
    pub rows: u16,
    pub cols: u16,
}

impl TerminalSize {
    /// At least one cell: what a terminal can be made with.
    pub open spec fn wf(self) -> bool {
        self.rows > 0 && self.cols > 0
    }

    /// The size with each empty dimension raised to one cell.
    #[must_use]
    pub fn new(rows: u16, cols: u16) -> (size: Self)
        ensures
            size.wf(),
            size.rows == if rows == 0 { 1 } else { rows },
            size.cols == if cols == 0 { 1 } else { cols },
    {
        TerminalSize {
            rows: if rows == 0 { 1 } else { rows },
            cols: if cols == 0 { 1 } else { cols },
        }
    }

    /// Takes on another size and says whether that is a change.
    pub fn replace(&mut self, size: TerminalSize) -> (changed: bool)
        ensures
            *final(self) == size,
            changed == (*old(self) != size),
    {
        let changed = self.rows != size.rows || self.cols != size.cols;
        self.rows = size.rows;
        self.cols = size.cols;
        changed
    }
}

/// The program that runs every command.
pub open spec fn shell() -> Seq<char> {
    "/bin/sh"@
}

/// How a service's process is started.
#[derive(Debug)]
pub struct Launch {
    pub program: String,
    pub arguments: Vec<String>,
    /// Where the process runs.
    pub directory: PathBuf,
    /// Variables to set in the inherited environment.
    pub variables: Vec<(String, String)>,
    /// Variables to take out of the inherited environment.
    pub removed: Vec<String>,
}

impl Launch {
    /// What the arguments say.
    pub open spec fn argument_texts(self) -> Seq<Seq<char>> {
        self.arguments@.map_values(|argument: String| argument@)
    }

    /// What the variables are set to.
    pub open spec fn variable_texts(self) -> Seq<(Seq<char>, Seq<char>)> {
        self.variables@.map_values(|variable: (String, String)| (variable.0@, variable.1@))
    }

    /// Which variables are taken out.
    pub open spec fn removed_texts(self) -> Seq<Seq<char>> {
        self.removed@.map_values(|name: String| name@)
    }

    /// How a service is started whose output goes to pipes.
    #[must_use]
    pub fn piped(service: &Service) -> (launch: Self)
        ensures
            launch.program@ == shell(),
            launch.directory == service.cwd,
            launch.argument_texts() == seq!["-c"@, service.cmd@],
            launch.variables@.len() == 0,
            launch.removed@.len() == 0,
    {
        let launch = Launch {
            program: "/bin/sh".to_owned(),
            arguments: vec!["-c".to_owned(), service.cmd.clone()],
            directory: service.cwd.clone(),
            variables: Vec::new(),
            removed: Vec::new(),
        };
        proof {
            assert(launch.argument_texts() =~= seq!["-c"@, service.cmd@]);
        }
        launch
    }

    /// How a service is started on a terminal. Hidden errors go to `/dev/null`
    /// before the command runs. The command is an argument of its own, which
    /// keeps its quoting.
    #[must_use]
    pub fn terminal(service: &Service) -> (launch: Self)
        ensures
            launch.program@ == shell(),
            launch.directory == service.cwd,
            launch.argument_texts() == if service.hide_stderr {
                seq![
                    "-c"@,
                    "exec 2>/dev/null; exec /bin/sh -c \"$1\""@,
                    "accordo"@,
                    service.cmd@,
                ]
            } else {
                seq!["-c"@, service.cmd@]
            },
            launch.variable_texts() == seq![("TERM"@, "xterm-256color"@)],
            launch.removed_texts() == seq!["COLUMNS"@, "LINES"@],
    {
        let mut arguments = vec!["-c".to_owned()];
        if service.hide_stderr {
            arguments.push("exec 2>/dev/null; exec /bin/sh -c \"$1\"".to_owned());
            arguments.push("accordo".to_owned());
        }
        arguments.push(service.cmd.clone());
        let launch = Launch {
            program: "/bin/sh".to_owned(),
            arguments,
            directory: service.cwd.clone(),
            variables: vec![("TERM".to_owned(), "xterm-256color".to_owned())],
            removed: vec!["COLUMNS".to_owned(), "LINES".to_owned()],
        };
        proof {
            assert(launch.argument_texts() =~= if service.hide_stderr {
                seq![
                    "-c"@,
                    "exec 2>/dev/null; exec /bin/sh -c \"$1\""@,
                    "accordo"@,
                    service.cmd@,
                ]
            } else {
                seq!["-c"@, service.cmd@]
            });
            assert(launch.variable_texts() =~= seq![("TERM"@, "xterm-256color"@)]);
            assert(launch.removed_texts() =~= seq!["COLUMNS"@, "LINES"@]);
        }
        launch
    }
}

/// What came of reading from a terminal.
#[derive(Debug)]
pub enum PtyRead {
    /// So many bytes.
    Bytes(usize),
    /// The last process has closed its end, which some systems call an error.
    HungUp,
    /// An error.
    Failed(String),
}

impl PtyRead {
    /// How many bytes were read; none at the end.
    ///
    /// # Errors
    /// Returns the error, unless it only says that the other end is closed.
    pub fn count(self) -> (count: Result<usize, String>)
        ensures
            count == match self {
                PtyRead::Bytes(count) => Ok::<usize, String>(count),
                PtyRead::HungUp => Ok::<usize, String>(0),
                PtyRead::Failed(error) => Err::<usize, String>(error),
            },
    {
        match self {
            PtyRead::Bytes(count) => Ok(count),
            PtyRead::HungUp => Ok(0),
            PtyRead::Failed(error) => Err(error),
        }
    }
}

/// Replies on their way to a terminal.
#[derive(Debug)]
pub struct Outgoing {
    pub bytes: Vec<u8>,
    /// How many of them are written.
    pub written: usize,
}

/// What is left to do for outgoing bytes.
#[derive(Clone, Copy, Debug, PartialEq, Eq, Structural)]
pub enum Progress {
    /// There is more to write.
    More,
    /// All is written.
    Done,
    /// Nothing could be written.
    Stuck,
}

impl Outgoing {
    /// No more is written than there is.
    pub open spec fn wf(self) -> bool {
        self.written <= self.bytes@.len()
    }

    /// What is left to write.
    pub open spec fn left(self) -> Seq<u8> {
        self.bytes@.skip(self.written as int)
    }

    /// Bytes of which none is written.
    #[must_use]
    pub fn new(bytes: Vec<u8>) -> (outgoing: Self)
        ensures
            outgoing.wf(),
            outgoing.bytes == bytes,
            outgoing.left() == bytes@,
    {
        let outgoing = Outgoing { bytes, written: 0 };
        proof {
            assert(outgoing.left() =~= bytes@);
        }
        outgoing
    }

    /// What is left to write.
    #[must_use]
    pub fn rest(&self) -> (rest: &[u8])
        requires
            self.wf(),
        ensures
            rest@ == self.left(),
    {
        let rest = vstd::slice::slice_subrange(
            self.bytes.as_slice(),
            self.written,
            self.bytes.len(),
        );
        proof {
            assert(rest@ =~= self.left());
        }
        rest
    }

    /// Whether there is anything left to write.
    #[must_use]
    pub fn progress(&self) -> (progress: Progress)
        requires
            self.wf(),
        ensures
            progress == if self.left().len() == 0 {
                Progress::Done
            } else {
                Progress::More
            },
    {
        if self.written == self.bytes.len() {
            Progress::Done
        } else {
            Progress::More
        }
    }

    /// So many of the bytes left were written.
    pub fn wrote(&mut self, count: usize) -> (progress: Progress)
        requires
            old(self).wf(),
            count <= old(self).left().len(),
        ensures
            final(self).wf(),
            final(self).bytes == old(self).bytes,
            final(self).left() == old(self).left().skip(count as int),
            progress == if count == 0 {
                Progress::Stuck
            } else if count == old(self).left().len() {
                Progress::Done
            } else {
                Progress::More
            },
    {
        let left: usize = self.bytes.len() - self.written;
        assert(count <= left);
        self.written += count;
        proof {
            assert(self.left() =~= old(self).left().skip(count as int));
        }
        if count == 0 {
            Progress::Stuck
        } else {
            self.progress()
        }
    }
}

/// Every command runs through the system's shell.
pub proof fn commands_run_through_the_shell()
    ensures
        shell() == "/bin/sh"@,
{
}

/// A size has at least one cell just when neither dimension is empty.
pub proof fn sizes_with_cells(size: TerminalSize)
    ensures
        size.wf() == (size.rows >= 1 && size.cols >= 1),
{
}

/// What is written and what is left to write make up all bytes, in order.
pub proof fn what_is_left_follows_what_is_written(outgoing: Outgoing)
    requires
        outgoing.written <= outgoing.bytes@.len(),
    ensures
        outgoing.wf(),
        outgoing.bytes@.take(outgoing.written as int) + outgoing.left() == outgoing.bytes@,
        outgoing.left().len() == outgoing.bytes@.len() - outgoing.written,
{
    assert(outgoing.bytes@.take(outgoing.written as int) + outgoing.left() =~= outgoing.bytes@);
}

/// What a launch says is what it holds, piece by piece.
pub proof fn launches_say_what_they_hold(launch: Launch, i: int)
    ensures
        launch.argument_texts().len() == launch.arguments@.len(),
        launch.variable_texts().len() == launch.variables@.len(),
        launch.removed_texts().len() == launch.removed@.len(),
        0 <= i < launch.arguments@.len() ==> launch.argument_texts()[i] == launch.arguments@[i]@,
        0 <= i < launch.variables@.len() ==> launch.variable_texts()[i] == (
            launch.variables@[i].0@,
            launch.variables@[i].1@,
        ),
        0 <= i < launch.removed@.len() ==> launch.removed_texts()[i] == launch.removed@[i]@,
{
}

} // verus!
