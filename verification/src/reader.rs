//! The decisions of a task that reads what a service writes.

use crate::logs::Decoder;
use vstd::prelude::*;

verus! {

/// How long an idle stream may stay open after its process ended, in
/// milliseconds. Time spent waiting for room in the queue does not count.
pub const READ_LIMIT: u64 = 2_000;

/// What a reader reads.
#[derive(Debug)]
pub enum Source {
    /// A pipe, of which records are made.
    Pipe(Decoder),
    /// A terminal, whose bytes stay as they are.
    Terminal,
}

/// What a reader is waiting for.
#[derive(Clone, Copy, Debug, PartialEq, Eq, Structural)]
pub enum Position {
    /// More bytes.
    Reading,
    /// Output handed to the queue.
    Delivering,
    /// The last output handed to the queue.
    Closing,
    /// Nothing any more.
    Done,
}

/// Something that a reader reacts to.
#[derive(Debug)]
pub enum Input {
    /// Bytes were read; none at the end of the stream.
    Read(Vec<u8>),
    /// Reading failed.
    Failed(String),
    /// The process has ended.
    ProcessEnded,
    /// Nothing was read for as long as a stream may stay idle.
    TimedOut,
    /// The output was handed to the queue, or nobody takes output any more.
    Delivered { open: bool },
}

/// What a reader does next.
#[derive(Debug)]
pub enum Duty {
    /// Wait for bytes or for the end of the process.
    Wait,
    /// Wait for bytes, but no longer than a stream may stay idle.
    WaitBriefly,
    /// Hand records to the queue, in order.
    Records(Vec<String>),
    /// Hand bytes to the queue.
    Bytes(Vec<u8>),
    /// The reader is done.
    Finish(Result<(), String>),
}

/// A reader under way.
#[derive(Debug)]
pub struct Reader {
    pub source: Source,
    /// The process has ended.
    pub ended: bool,
    pub position: Position,
}

/// What the records say.
pub open spec fn texts(records: Seq<String>) -> Seq<Seq<char>> {
    records.map_values(|record: String| record@)
}

/// How records of bytes read.
pub open spec fn all_shown(records: Seq<Seq<u8>>) -> Seq<Seq<char>> {
    records.map_values(|record: Seq<u8>| crate::logs::shown(record))
}

impl Reader {
    /// The source is in order.
    pub open spec fn wf(self) -> bool {
        self.source matches Source::Pipe(decoder) ==> decoder.wf()
    }

    /// The input can come at this position.
    pub open spec fn expects(self, input: Input) -> bool {
        match self.position {
            Position::Reading => match input {
                Input::Read(_) | Input::Failed(_) => true,
                Input::ProcessEnded => !self.ended,
                Input::TimedOut => self.ended,
                Input::Delivered { .. } => false,
            },
            Position::Delivering | Position::Closing => input is Delivered,
            Position::Done => false,
        }
    }

    /// What to wait with.
    pub open spec fn waiting(self) -> Duty {
        if self.ended {
            Duty::WaitBriefly
        } else {
            Duty::Wait
        }
    }

    /// What is said of a stream that stays open.
    pub open spec fn idle_message(self) -> Seq<char> {
        if self.source is Terminal {
            "PTY remained open after service stopped"@
        } else {
            "output pipe remained open after service stopped"@
        }
    }

    /// The source reads more bytes and hands out what there is to deliver.
    pub open spec fn reads_to(self, bytes: Seq<u8>, next: Source, duty: Duty) -> bool {
        match self.source {
            Source::Pipe(decoder) => {
                &&& next matches Source::Pipe(reached) && reached@ == decoder@.fed_all(bytes)
                &&& duty matches Duty::Records(records) && texts(records@) == all_shown(
                    decoder@.released_all(bytes),
                )
            },
            Source::Terminal => {
                &&& next is Terminal
                &&& duty matches Duty::Bytes(delivered) && delivered@ == bytes
            },
        }
    }

    /// The source comes to its end with a record left over.
    pub open spec fn leaves(self, duty: Duty) -> bool {
        &&& self.source matches Source::Pipe(decoder) && decoder.record@.len() > 0 && (
        duty matches Duty::Records(records) && texts(records@) == seq![
            crate::logs::shown(decoder.record@),
        ])
    }

    /// The source has nothing left over.
    pub open spec fn used_up(self) -> bool {
        self.source matches Source::Pipe(decoder) ==> decoder.record@.len() == 0
    }

    /// What the reader becomes and does next.
    pub open spec fn stepped_to(self, input: Input, next: Reader, duty: Duty) -> bool {
        match (self.position, input) {
            (Position::Reading, Input::Read(bytes)) => {
                &&& next.ended == self.ended
                &&& if bytes@.len() > 0 {
                    &&& next.position is Delivering
                    &&& self.reads_to(bytes@, next.source, duty)
                } else if self.used_up() {
                    &&& next.position is Done
                    &&& duty == Duty::Finish(Ok(()))
                } else {
                    &&& next.position is Closing
                    &&& self.leaves(duty)
                }
            },
            (Position::Reading, Input::Failed(error)) => {
                &&& next.position is Done
                &&& duty == Duty::Finish(Err(error))
            },
            (Position::Reading, Input::ProcessEnded) => {
                &&& next == Reader { ended: true, ..self }
                &&& duty is WaitBriefly
            },
            (Position::Reading, Input::TimedOut) => {
                &&& next.position is Done
                &&& duty matches Duty::Finish(Err(error)) && error@ == self.idle_message()
            },
            (Position::Delivering, Input::Delivered { open: true }) => {
                &&& next == Reader { position: Position::Reading, ..self }
                &&& duty == self.waiting()
            },
            _ => {
                &&& next.position is Done
                &&& duty == Duty::Finish(Ok(()))
            },
        }
    }

    /// A reader of a pipe, and what it does first.
    #[must_use]
    pub fn pipe() -> (begun: (Self, Duty))
        ensures
            begun.0.wf(),
            begun.0.source matches Source::Pipe(decoder) && decoder@ == crate::logs::Line::empty(),
            !begun.0.ended,
            begun.0.position is Reading,
            begun.1 is Wait,
    {
        let source = Source::Pipe(Decoder::default());
        (Reader { source, ended: false, position: Position::Reading }, Duty::Wait)
    }

    /// A reader of a terminal, and what it does first.
    #[must_use]
    pub fn terminal() -> (begun: (Self, Duty))
        ensures
            begun.0 == (Reader {
                source: Source::Terminal,
                ended: false,
                position: Position::Reading,
            }),
            begun.1 is Wait,
    {
        (Reader { source: Source::Terminal, ended: false, position: Position::Reading }, Duty::Wait)
    }

    fn finish(&mut self, result: Result<(), String>) -> (duty: Duty)
        ensures
            *final(self) == (Reader { position: Position::Done, ..*old(self) }),
            duty == Duty::Finish(result),
    {
        self.position = Position::Done;
        Duty::Finish(result)
    }

    fn read(&mut self, bytes: Vec<u8>) -> (duty: Duty)
        requires
            old(self).wf(),
            old(self).position is Reading,
        ensures
            final(self).wf(),
            old(self).stepped_to(Input::Read(bytes), *final(self), duty),
    {
        if bytes.len() == 0 {
            let left = match &mut self.source {
                Source::Pipe(decoder) => decoder.finish(),
                Source::Terminal => None,
            };
            match left {
                Some(record) => {
                    self.position = Position::Closing;
                    let records = vec![record];
                    proof {
                        assert(texts(records@) =~= seq![record@]);
                    }
                    Duty::Records(records)
                },
                None => self.finish(Ok(())),
            }
        } else {
            self.position = Position::Delivering;
            match &mut self.source {
                Source::Pipe(decoder) => Duty::Records(decoder.push(bytes.as_slice())),
                Source::Terminal => Duty::Bytes(bytes),
            }
        }
    }

    /// Take an input and say what to do next.
    pub fn step(&mut self, input: Input) -> (duty: Duty)
        requires
            old(self).wf(),
            old(self).expects(input),
        ensures
            final(self).wf(),
            old(self).stepped_to(input, *final(self), duty),
    {
        match (self.position, input) {
            (Position::Reading, Input::Read(bytes)) => self.read(bytes),
            (Position::Reading, Input::Failed(error)) => self.finish(Err(error)),
            (Position::Reading, Input::ProcessEnded) => {
                self.ended = true;
                Duty::WaitBriefly
            },
            (Position::Reading, Input::TimedOut) => {
                let message = match &self.source {
                    Source::Pipe(_) => "output pipe remained open after service stopped",
                    Source::Terminal => "PTY remained open after service stopped",
                };
                self.finish(Err(message.to_owned()))
            },
            (Position::Delivering, Input::Delivered { open: true }) => {
                self.position = Position::Reading;
                if self.ended {
                    Duty::WaitBriefly
                } else {
                    Duty::Wait
                }
            },
            _ => self.finish(Ok(())),
        }
    }
}

/// What a reader does stays in step with where it is: it hands output over and
/// then waits to hear of it, and it waits with a time limit just when the
/// process has ended. Once it is done, nothing makes it hand over more.
pub proof fn duties_follow_the_position(reader: Reader, input: Input, next: Reader, duty: Duty)
    requires
        reader.expects(input),
        reader.stepped_to(input, next, duty),
    ensures
        match next.position {
            Position::Reading => duty == next.waiting(),
            Position::Delivering => duty is Records || duty is Bytes,
            Position::Closing => duty is Records,
            Position::Done => duty is Finish,
        },
        reader.ended && next.position !is Done ==> next.ended,
        next.position is Done ==> forall|later: Input| !next.expects(later),
{
}

// ---- What each input leads to ----

/// What is read is handed over at once: the bytes of a terminal as they are, and
/// of a pipe the records that they end, as they read, in order. The reader then
/// waits to hear of it, and a pipe goes on where the bytes left off.
pub proof fn what_is_read_is_handed_over(
    reader: Reader,
    bytes: Vec<u8>,
    next: Reader,
    duty: Duty,
)
    requires
        reader.position is Reading,
        reader.stepped_to(Input::Read(bytes), next, duty),
        bytes@.len() > 0,
    ensures
        next.position is Delivering,
        next.ended == reader.ended,
        reader.source is Terminal ==> next.source is Terminal && duty is Bytes
            && duty->Bytes_0@ == bytes@,
        reader.source matches Source::Pipe(decoder) ==> {
            let released = decoder@.released_all(bytes@);
            &&& next.source is Pipe
            &&& next.source->Pipe_0@ == decoder@.fed_all(bytes@)
            &&& duty is Records
            &&& duty->Records_0@.len() == released.len()
            &&& forall|i: int|
                0 <= i < released.len() ==> (#[trigger] duty->Records_0@[i])@
                    == crate::logs::shown(released[i])
        },
{
    if let Source::Pipe(decoder) = reader.source {
        let released = decoder@.released_all(bytes@);
        let records = duty->Records_0@;
        assert(texts(records).len() == all_shown(released).len());
        assert forall|i: int| 0 <= i < released.len() implies (#[trigger] records[i])@
            == crate::logs::shown(released[i]) by {
            assert(texts(records)[i] == all_shown(released)[i]);
        }
    }
}

/// At the end of a stream an unfinished record is still handed over, and then the
/// reader is done. Where there is none, it is done at once.
pub proof fn an_unfinished_record_is_handed_over(reader: Reader, next: Reader, duty: Duty)
    requires
        reader.position is Reading,
        exists|none: Vec<u8>|
            none@.len() == 0 && #[trigger] reader.stepped_to(Input::Read(none), next, duty),
    ensures
        ({
            let left = match reader.source {
                Source::Pipe(decoder) => decoder.record@,
                Source::Terminal => Seq::<u8>::empty(),
            };
            &&& left.len() > 0 ==> {
                &&& next.position is Closing
                &&& duty is Records && duty->Records_0@.len() == 1
                &&& duty->Records_0@[0]@ == crate::logs::shown(left)
            }
            &&& left.len() == 0 ==> next.position is Done && duty == Duty::Finish(Ok(()))
        }),
{
    if let Source::Pipe(decoder) = reader.source {
        if decoder.record@.len() > 0 {
            let records = duty->Records_0@;
            assert(texts(records).len() == 1);
            assert(texts(records)[0] == crate::logs::shown(decoder.record@));
        }
    }
}

/// A reader ends with what went wrong: an error of the stream, or that the stream
/// stayed open and idle after the process ended.
pub proof fn readers_tell_what_went_wrong(
    reader: Reader,
    error: String,
    failed: (Reader, Duty),
    idle: (Reader, Duty),
)
    requires
        reader.position is Reading,
        reader.stepped_to(Input::Failed(error), failed.0, failed.1),
        reader.stepped_to(Input::TimedOut, idle.0, idle.1),
    ensures
        failed.0.position is Done,
        failed.1 == Duty::Finish(Err(error)),
        idle.0.position is Done,
        idle.1 is Finish && idle.1->Finish_0 is Err,
        reader.source is Pipe ==> idle.1->Finish_0->Err_0@
            == "output pipe remained open after service stopped"@,
        reader.source is Terminal ==> idle.1->Finish_0->Err_0@
            == "PTY remained open after service stopped"@,
{
}

/// The end of the process ends no reader: it goes on from where it was, and from
/// then on waits only so long.
pub proof fn readers_outlive_the_process(reader: Reader, next: Reader, duty: Duty)
    requires
        reader.position is Reading,
        reader.stepped_to(Input::ProcessEnded, next, duty),
    ensures
        next == (Reader { source: reader.source, ended: true, position: Position::Reading }),
        duty is WaitBriefly,
{
}

/// Once output is taken, the reader waits for more, with a limit just when the
/// process has ended. It is done where nobody takes output any more, and after
/// the last output.
pub proof fn readers_go_on_while_output_is_taken(
    reader: Reader,
    open: bool,
    next: Reader,
    duty: Duty,
)
    requires
        reader.position is Delivering || reader.position is Closing,
        reader.stepped_to(Input::Delivered { open }, next, duty),
    ensures
        reader.position is Delivering && open ==> next == (Reader {
            source: reader.source,
            ended: reader.ended,
            position: Position::Reading,
        }) && (if reader.ended {
            duty is WaitBriefly
        } else {
            duty is Wait
        }),
        reader.position is Closing || !open ==> next.position is Done && duty == Duty::Finish(
            Ok(()),
        ),
{
}

/// A reader takes whatever can come of its duty: bytes and errors while it reads,
/// the end of the process once, after that the end of its patience, and what came
/// of output that it handed over.
pub proof fn readers_take_what_comes_of_a_duty(reader: Reader, input: Input)
    ensures
        reader.position is Reading ==> reader.expects(input) == (input is Read || input is Failed
            || (input is ProcessEnded && !reader.ended) || (input is TimedOut && reader.ended)),
        reader.position is Delivering || reader.position is Closing ==> reader.expects(input) == (
        input is Delivered),
        reader.position is Done ==> !reader.expects(input),
        reader.wf() == match reader.source {
            Source::Pipe(decoder) => decoder.record@.len() <= 16_384 && (decoder.returned
                ==> decoder.record@.len() == 0),
            Source::Terminal => true,
        },
{
}

} // verus!
