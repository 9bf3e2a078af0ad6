//! Log records cut out of the bytes that a service writes.
//!
//! A record ends at a line feed or a carriage return, and at the latest when it
//! is full. Escape sequences are left out, what is not UTF-8 is replaced, and
//! of the control characters only tabs are kept.

use vstd::prelude::*;

verus! {

/// How many bytes a record holds at most.
pub const RECORD_LIMIT: usize = 16_384;

pub const BELL: u8 = 0x07;

pub const LINE_FEED: u8 = 0x0a;

pub const CARRIAGE_RETURN: u8 = 0x0d;

pub const CANCEL: u8 = 0x18;

pub const SUBSTITUTE: u8 = 0x1a;

pub const ESCAPE: u8 = 0x1b;

/// Where in an escape sequence a stream of bytes stands.
#[derive(Clone, Copy, Debug, PartialEq, Eq, Structural)]
pub enum Mode {
    /// In no sequence.
    Text,
    /// After an escape character.
    Escape,
    /// In a control sequence, before its final byte.
    Control,
    /// In a string that a terminal would take, such as a window title.
    Payload,
    /// After an escape character in such a string.
    PayloadEscape,
}

/// The byte ends a line.
pub open spec fn ends_line(byte: u8) -> bool {
    byte == LINE_FEED || byte == CARRIAGE_RETURN
}

/// Where a stream stands when this byte follows an escape character.
pub open spec fn after_escape(byte: u8) -> Mode {
    if byte == ESCAPE {
        Mode::Escape
    } else if byte == 0x5b {
        Mode::Control
    } else if byte == 0x50 || byte == 0x58 || byte == 0x5d || byte == 0x5e || byte == 0x5f {
        Mode::Payload
    } else if byte == CANCEL || byte == SUBSTITUTE || 0x30 <= byte <= 0x7e || byte >= 0x80 {
        Mode::Text
    } else {
        Mode::Escape
    }
}

/// Where a stream stands after this byte. A line end ends any sequence.
pub open spec fn following(mode: Mode, byte: u8) -> Mode {
    if ends_line(byte) {
        Mode::Text
    } else {
        match mode {
            Mode::Text => if byte == ESCAPE {
                Mode::Escape
            } else {
                Mode::Text
            },
            Mode::Escape => after_escape(byte),
            Mode::Control => if byte == ESCAPE {
                Mode::Escape
            } else if byte == CANCEL || byte == SUBSTITUTE || 0x40 <= byte <= 0x7e || byte
                >= 0x80 {
                Mode::Text
            } else {
                Mode::Control
            },
            Mode::Payload => if byte == ESCAPE {
                Mode::PayloadEscape
            } else if byte == BELL || byte == CANCEL || byte == SUBSTITUTE {
                Mode::Text
            } else {
                Mode::Payload
            },
            Mode::PayloadEscape => if byte == 0x5c {
                Mode::Text
            } else {
                after_escape(byte)
            },
        }
    }
}

/// The byte is text here: outside of sequences, or one that no sequence holds.
pub open spec fn is_text(mode: Mode, byte: u8) -> bool {
    &&& !ends_line(byte)
    &&& byte != ESCAPE
    &&& mode is Text || (!(mode is Payload) && byte >= 0x80)
}

/// How many bytes the character takes that this byte starts.
pub open spec fn width(byte: u8) -> int {
    if 0xc0 <= byte <= 0xdf {
        2
    } else if 0xe0 <= byte <= 0xef {
        3
    } else if 0xf0 <= byte <= 0xf7 {
        4
    } else {
        1
    }
}

/// What is known of a stream of bytes.
pub ghost struct Line {
    pub mode: Mode,
    /// The record so far.
    pub record: Seq<u8>,
    /// A carriage return has just ended a record.
    pub returned: bool,
}

impl Line {
    /// A stream of which nothing has been read.
    pub open spec fn empty() -> Line {
        Line { mode: Mode::Text, record: seq![], returned: false }
    }

    /// The record is not longer than records are, and empty right after a
    /// carriage return.
    pub open spec fn wf(self) -> bool {
        &&& self.record.len() <= RECORD_LIMIT
        &&& self.returned ==> self.record.len() == 0
    }

    /// There is no room for the character that this byte starts.
    pub open spec fn full(self, byte: u8) -> bool {
        self.record.len() + width(byte) > RECORD_LIMIT
    }

    /// The stream after one more byte.
    pub open spec fn fed(self, byte: u8) -> Line {
        let mode = following(self.mode, byte);
        if byte == LINE_FEED {
            Line { mode, record: seq![], returned: false }
        } else if byte == CARRIAGE_RETURN {
            Line { mode, record: seq![], returned: self.returned || self.record.len() > 0 }
        } else if is_text(self.mode, byte) {
            let kept = if self.full(byte) {
                seq![]
            } else {
                self.record
            };
            Line { mode, record: kept.push(byte), returned: false }
        } else {
            Line { mode, ..self }
        }
    }

    /// One more byte ends a record. A line feed that directly follows a carriage
    /// return ends the same line, and a carriage return ends no empty record.
    pub open spec fn released(self, byte: u8) -> Seq<Seq<u8>> {
        let ends = if byte == LINE_FEED {
            !self.returned
        } else if byte == CARRIAGE_RETURN {
            self.record.len() > 0
        } else {
            is_text(self.mode, byte) && self.full(byte)
        };
        if ends {
            seq![self.record]
        } else {
            seq![]
        }
    }

    /// The stream after more bytes.
    pub open spec fn fed_all(self, bytes: Seq<u8>) -> Line
        decreases bytes.len(),
    {
        if bytes.len() == 0 {
            self
        } else {
            self.fed_all(bytes.drop_last()).fed(bytes.last())
        }
    }

    /// The records that more bytes end, in order.
    pub open spec fn released_all(self, bytes: Seq<u8>) -> Seq<Seq<u8>>
        decreases bytes.len(),
    {
        if bytes.len() == 0 {
            seq![]
        } else {
            self.released_all(bytes.drop_last()) + self.fed_all(bytes.drop_last()).released(
                bytes.last(),
            )
        }
    }
}

/// Text decoded from bytes, with replacements for what is not UTF-8.
pub uninterp spec fn utf8_lossy(bytes: Seq<u8>) -> Seq<char>;

/// `String::from_utf8_lossy` decodes UTF-8 and replaces what is not valid; valid
/// UTF-8 comes out unchanged.
#[verifier::external_body]
fn lossy(bytes: &[u8]) -> (text: String)
    ensures
        text@ == utf8_lossy(bytes@),
        vstd::utf8::valid_utf8(bytes@) ==> text@ == vstd::utf8::decode_utf8(bytes@),
{
    String::from_utf8_lossy(bytes).into_owned()
}

/// The character is kept in a record.
pub open spec fn is_printable(c: char) -> bool {
    c == '\t' || !crate::config::control(c)
}

/// The text without control characters other than tabs.
pub open spec fn printable_of(text: Seq<char>) -> Seq<char> {
    text.filter(|c: char| is_printable(c))
}

/// How a record's bytes read: valid UTF-8 as it is, with replacements otherwise,
/// and without control characters other than tabs.
pub open spec fn shown(record: Seq<u8>) -> Seq<char> {
    if vstd::utf8::valid_utf8(record) {
        printable_of(vstd::utf8::decode_utf8(record))
    } else {
        printable_of(utf8_lossy(record))
    }
}

/// Leave out the control characters other than tabs.
#[must_use]
pub fn printable(text: &str) -> (kept: String)
    ensures
        kept@ == printable_of(text@),
{
    let mut kept = String::new();
    for c in iter: text.chars()
        invariant
            iter.seq() == text@,
            kept@ == printable_of(text@.take(iter.index())),
    {
        proof {
            let seen = text@.take(iter.index());
            seen.lemma_filter_push(c, |c: char| is_printable(c));
            assert(text@.take(iter.index() + 1) =~= seen.push(c));
        }
        if c == '\t' || !c.is_control() {
            kept.push(c);
        }
    }
    proof {
        assert(text@.take(text@.len() as int) =~= text@);
    }
    kept
}

fn text_of(record: &Vec<u8>) -> (text: String)
    ensures
        text@ == shown(record@),
{
    let text = lossy(record.as_slice());
    printable(text.as_str())
}

/// What is known of a stream of bytes, and the record that it is in.
#[derive(Debug)]
pub struct Decoder {
    pub mode: Mode,
    pub record: Vec<u8>,
    pub returned: bool,
}

impl View for Decoder {
    type V = Line;

    open spec fn view(&self) -> Line {
        Line { mode: self.mode, record: self.record@, returned: self.returned }
    }
}

impl Default for Decoder {
    fn default() -> (decoder: Self)
        ensures
            decoder@ == Line::empty(),
    {
        Decoder { mode: Mode::Text, record: Vec::new(), returned: false }
    }
}

fn mode_after_escape(byte: u8) -> (mode: Mode)
    ensures
        mode == after_escape(byte),
{
    match byte {
        ESCAPE => Mode::Escape,
        0x5b => Mode::Control,
        0x50 | 0x58 | 0x5d | 0x5e | 0x5f => Mode::Payload,
        CANCEL | SUBSTITUTE => Mode::Text,
        _ => if (0x30 <= byte && byte <= 0x7e) || byte >= 0x80 {
            Mode::Text
        } else {
            Mode::Escape
        },
    }
}

fn mode_after(mode: Mode, byte: u8) -> (next: Mode)
    ensures
        next == following(mode, byte),
{
    if byte == LINE_FEED || byte == CARRIAGE_RETURN {
        return Mode::Text;
    }
    match mode {
        Mode::Text => if byte == ESCAPE {
            Mode::Escape
        } else {
            Mode::Text
        },
        Mode::Escape => mode_after_escape(byte),
        Mode::Control => match byte {
            ESCAPE => Mode::Escape,
            CANCEL | SUBSTITUTE => Mode::Text,
            _ => if (0x40 <= byte && byte <= 0x7e) || byte >= 0x80 {
                Mode::Text
            } else {
                Mode::Control
            },
        },
        Mode::Payload => match byte {
            ESCAPE => Mode::PayloadEscape,
            BELL | CANCEL | SUBSTITUTE => Mode::Text,
            _ => Mode::Payload,
        },
        Mode::PayloadEscape => if byte == 0x5c {
            Mode::Text
        } else {
            mode_after_escape(byte)
        },
    }
}

fn byte_width(byte: u8) -> (bytes: usize)
    ensures
        bytes == width(byte),
{
    match byte {
        0xc0..=0xdf => 2,
        0xe0..=0xef => 3,
        0xf0..=0xf7 => 4,
        _ => 1,
    }
}

impl Decoder {
    /// The decoder's record is not longer than records are.
    pub open spec fn wf(self) -> bool {
        self@.wf()
    }

    fn release(&mut self) -> (text: String)
        ensures
            text@ == shown(old(self).record@),
            final(self)@ == (Line { record: seq![], ..old(self)@ }),
    {
        let text = text_of(&self.record);
        self.record.clear();
        text
    }

    fn feed(&mut self, byte: u8) -> (ended: Option<String>)
        requires
            old(self).wf(),
        ensures
            final(self).wf(),
            final(self)@ == old(self)@.fed(byte),
            match ended {
                Some(text) => old(self)@.released(byte) == seq![old(self).record@] && text@
                    == shown(old(self).record@),
                None => old(self)@.released(byte).len() == 0,
            },
    {
        let mode = self.mode;
        self.mode = mode_after(mode, byte);
        if byte == LINE_FEED {
            let returned = self.returned;
            self.returned = false;
            let text = self.release();
            if returned {
                None
            } else {
                Some(text)
            }
        } else if byte == CARRIAGE_RETURN {
            if self.record.len() > 0 {
                self.returned = true;
                Some(self.release())
            } else {
                proof {
                    assert(self.record@ =~= seq![]);
                }
                None
            }
        } else if byte != ESCAPE && (mode == Mode::Text || (mode != Mode::Payload && byte
            >= 0x80)) {
            let ended = if self.record.len() + byte_width(byte) > RECORD_LIMIT {
                Some(self.release())
            } else {
                None
            };
            self.returned = false;
            self.record.push(byte);
            ended
        } else {
            None
        }
    }

    /// Read more bytes and give the records that they end.
    #[must_use]
    pub fn push(&mut self, bytes: &[u8]) -> (records: Vec<String>)
        requires
            old(self).wf(),
        ensures
            final(self).wf(),
            final(self)@ == old(self)@.fed_all(bytes@),
            records@.map_values(|record: String| record@) == old(self)@.released_all(
                bytes@,
            ).map_values(|record: Seq<u8>| shown(record)),
    {
        let mut records: Vec<String> = Vec::new();
        for i in 0..bytes.len()
            invariant
                self.wf(),
                self@ == old(self)@.fed_all(bytes@.take(i as int)),
                records@.map_values(|record: String| record@) == old(self)@.released_all(
                    bytes@.take(i as int),
                ).map_values(|record: Seq<u8>| shown(record)),
        {
            let ghost before = records@;
            let ghost line = self@;
            proof {
                assert(bytes@.take(i + 1).drop_last() =~= bytes@.take(i as int));
                assert(bytes@.take(i + 1).last() == bytes@[i as int]);
            }
            if let Some(record) = self.feed(bytes[i]) {
                records.push(record);
            }
            proof {
                let read = old(self)@.released_all(bytes@.take(i as int));
                assert((read + line.released(bytes@[i as int])).map_values(
                    |record: Seq<u8>| shown(record),
                ) =~= read.map_values(|record: Seq<u8>| shown(record)) + line.released(
                    bytes@[i as int],
                ).map_values(|record: Seq<u8>| shown(record)));
                assert(records@.map_values(|record: String| record@) =~= before.map_values(
                    |record: String| record@,
                ) + line.released(bytes@[i as int]).map_values(
                    |record: Seq<u8>| shown(record),
                ));
            }
        }
        proof {
            assert(bytes@.take(bytes@.len() as int) =~= bytes@);
        }
        records
    }

    /// Take the record that the stream ended in, if it holds anything.
    #[must_use]
    pub fn finish(&mut self) -> (record: Option<String>)
        requires
            old(self).wf(),
        ensures
            final(self).wf(),
            final(self)@ == (Line { record: seq![], ..old(self)@ }),
            match record {
                Some(text) => old(self).record@.len() > 0 && text@ == shown(old(self).record@),
                None => old(self).record@.len() == 0,
            },
    {
        if self.record.len() == 0 {
            proof {
                assert(self.record@ =~= seq![]);
            }
            None
        } else {
            Some(self.release())
        }
    }
}

/// How a stream is split into chunks makes no difference: two chunks give the
/// records that they give as one, in the same order.
pub proof fn chunks_make_no_difference(line: Line, first: Seq<u8>, second: Seq<u8>)
    ensures
        line.fed_all(first + second) == line.fed_all(first).fed_all(second),
        line.released_all(first + second) == line.released_all(first) + line.fed_all(
            first,
        ).released_all(second),
    decreases second.len(),
{
    if second.len() == 0 {
        assert(first + second =~= first);
        assert(line.released_all(first) + line.fed_all(first).released_all(second)
            =~= line.released_all(first));
    } else {
        chunks_make_no_difference(line, first, second.drop_last());
        assert((first + second).drop_last() =~= first + second.drop_last());
        assert((first + second).last() == second.last());
        assert(line.released_all(first + second) =~= line.released_all(first) + line.fed_all(
            first,
        ).released_all(second));
    }
}

/// Byte strings joined together.
pub open spec fn joined(parts: Seq<Seq<u8>>) -> Seq<u8>
    decreases parts.len(),
{
    if parts.len() == 0 {
        seq![]
    } else {
        joined(parts.drop_last()) + parts.last()
    }
}

/// The records that a stream read in chunks ends, in order.
pub open spec fn released_by(line: Line, chunks: Seq<Seq<u8>>) -> Seq<Seq<u8>>
    decreases chunks.len(),
{
    if chunks.len() == 0 {
        seq![]
    } else {
        released_by(line, chunks.drop_last()) + line.fed_all(
            joined(chunks.drop_last()),
        ).released_all(chunks.last())
    }
}

/// The records of a stream read in any chunks are those of the whole stream.
pub proof fn a_stream_is_read_as_a_whole(line: Line, chunks: Seq<Seq<u8>>)
    ensures
        released_by(line, chunks) == line.released_all(joined(chunks)),
    decreases chunks.len(),
{
    if chunks.len() > 0 {
        a_stream_is_read_as_a_whole(line, chunks.drop_last());
        chunks_make_no_difference(line, joined(chunks.drop_last()), chunks.last());
    }
}

/// No record is longer than the limit, whatever is read.
pub proof fn records_are_bounded(line: Line, bytes: Seq<u8>)
    requires
        line.wf(),
    ensures
        line.fed_all(bytes).wf(),
        forall|i: int|
            0 <= i < line.released_all(bytes).len() ==> (
            #[trigger] line.released_all(bytes)[i]).len() <= RECORD_LIMIT,
    decreases bytes.len(),
{
    if bytes.len() > 0 {
        let before = bytes.drop_last();
        records_are_bounded(line, before);
        assert forall|i: int| 0 <= i < line.released_all(bytes).len() implies (
        #[trigger] line.released_all(bytes)[i]).len() <= RECORD_LIMIT by {
            if i < line.released_all(before).len() {
                assert(line.released_all(bytes)[i] == line.released_all(before)[i]);
            }
        }
    }
}

/// A shown record holds no control character but tabs: no escape sequence and
/// no line end is left in it.
pub proof fn shown_records_hold_no_controls(record: Seq<u8>)
    ensures
        forall|i: int|
            0 <= i < shown(record).len() ==> shown(record)[i] == '\t'
                || !crate::config::control(#[trigger] shown(record)[i]),
{
    let text = if vstd::utf8::valid_utf8(record) {
        vstd::utf8::decode_utf8(record)
    } else {
        utf8_lossy(record)
    };
    assert forall|i: int| 0 <= i < shown(record).len() implies shown(record)[i] == '\t'
        || !crate::config::control(#[trigger] shown(record)[i]) by {
        text.lemma_filter_pred(|c: char| is_printable(c), i);
    }
}

/// The bytes of a stream that are text, in order: no line ends and nothing of an
/// escape sequence.
pub open spec fn text_among(line: Line, bytes: Seq<u8>) -> Seq<u8>
    decreases bytes.len(),
{
    if bytes.len() == 0 {
        seq![]
    } else {
        let before = text_among(line, bytes.drop_last());
        if is_text(line.fed_all(bytes.drop_last()).mode, bytes.last()) {
            before.push(bytes.last())
        } else {
            before
        }
    }
}

/// Nothing of a log is lost, nothing is added and nothing changes places: the
/// records that a stream ends and the one that it leaves unfinished hold just
/// its text.
pub proof fn nothing_is_lost(line: Line, bytes: Seq<u8>)
    requires
        line.wf(),
    ensures
        joined(line.released_all(bytes)) + line.fed_all(bytes).record == line.record + text_among(
            line,
            bytes,
        ),
    decreases bytes.len(),
{
    if bytes.len() == 0 {
        assert(joined(line.released_all(bytes)) + line.record =~= line.record + text_among(
            line,
            bytes,
        ));
    } else {
        let before = bytes.drop_last();
        nothing_is_lost(line, before);
        records_are_bounded(line, before);
        let reached = line.fed_all(before);
        let byte = bytes.last();
        let whole = line.record + text_among(line, before);
        let released = line.released_all(before);
        if reached.released(byte).len() > 0 {
            assert(line.released_all(bytes) =~= released.push(reached.record));
            assert(line.released_all(bytes).drop_last() =~= released);
            assert(joined(line.released_all(bytes)) == whole);
        } else {
            assert(line.released_all(bytes) =~= released);
            assert(reached.fed(byte).record =~= if is_text(reached.mode, byte) {
                reached.record.push(byte)
            } else {
                reached.record
            });
        }
        if is_text(reached.mode, byte) {
            assert(line.record + text_among(line, bytes) =~= whole.push(byte));
            assert(joined(line.released_all(bytes)) + line.fed_all(bytes).record =~= whole.push(
                byte,
            ));
        } else {
            assert(joined(line.released_all(bytes)) + line.fed_all(bytes).record =~= whole);
        }
    }
}

/// The bytes end no line and start no escape sequence.
pub open spec fn plain(bytes: Seq<u8>) -> bool {
    forall|i: int|
        0 <= i < bytes.len() ==> !ends_line(#[trigger] bytes[i]) && bytes[i] != ESCAPE
}

/// All of plain text is text.
pub proof fn plain_text_is_kept(line: Line, bytes: Seq<u8>)
    requires
        line.mode is Text,
        plain(bytes),
    ensures
        line.fed_all(bytes).mode is Text,
        text_among(line, bytes) == bytes,
    decreases bytes.len(),
{
    if bytes.len() > 0 {
        let before = bytes.drop_last();
        plain_text_is_kept(line, before);
        let byte = bytes[bytes.len() - 1];
        assert(is_text(line.fed_all(before).mode, byte));
        assert(bytes =~= before.push(byte));
    }
}

/// Plain text that fits into a record makes one record with the line feed after
/// it, or with the carriage return if it is not empty, and none before.
pub proof fn a_line_is_a_record(bytes: Seq<u8>)
    requires
        plain(bytes),
        forall|i: int| 0 <= i < bytes.len() ==> i + width(#[trigger] bytes[i]) <= RECORD_LIMIT,
    ensures
        Line::empty().released_all(bytes) == Seq::<Seq<u8>>::empty(),
        Line::empty().fed_all(bytes).record == bytes,
        Line::empty().released_all(bytes.push(LINE_FEED)) == seq![bytes],
        bytes.len() > 0 ==> Line::empty().released_all(bytes.push(CARRIAGE_RETURN)) == seq![bytes],
        bytes.len() > 0 ==> Line::empty().released_all(
            bytes.push(CARRIAGE_RETURN).push(LINE_FEED),
        ) == seq![bytes],
    decreases bytes.len(),
{
    let line = Line::empty();
    a_line_stays_unreleased(bytes);
    assert(bytes.push(LINE_FEED).drop_last() =~= bytes);
    assert(line.released_all(bytes.push(LINE_FEED)) =~= seq![bytes]);
    let returned = bytes.push(CARRIAGE_RETURN);
    assert(returned.drop_last() =~= bytes);
    if bytes.len() > 0 {
        assert(line.released_all(returned) =~= seq![bytes]);
        assert(returned.push(LINE_FEED).drop_last() =~= returned);
        assert(line.released_all(returned.push(LINE_FEED)) =~= seq![bytes]);
    }
}

proof fn a_line_stays_unreleased(bytes: Seq<u8>)
    requires
        plain(bytes),
        forall|i: int| 0 <= i < bytes.len() ==> i + width(#[trigger] bytes[i]) <= RECORD_LIMIT,
    ensures
        Line::empty().released_all(bytes) == Seq::<Seq<u8>>::empty(),
        Line::empty().fed_all(bytes) == (Line { mode: Mode::Text, record: bytes, returned: false }),
    decreases bytes.len(),
{
    if bytes.len() > 0 {
        a_line_stays_unreleased(bytes.drop_last());
        assert(bytes =~= bytes.drop_last().push(bytes.last()));
        assert(Line::empty().released_all(bytes) =~= Seq::<Seq<u8>>::empty());
    } else {
        assert(Line::empty().record =~= bytes);
    }
}

/// A control sequence, such as one that sets a colour, leaves no trace: the
/// stream stands where it stood before, and no record ends.
pub proof fn control_sequences_leave_no_trace(line: Line, parameters: Seq<u8>, command: u8)
    requires
        line.mode is Text,
        forall|i: int| 0 <= i < parameters.len() ==> 0x20 <= #[trigger] parameters[i] <= 0x3f,
        0x40 <= command <= 0x7e,
    ensures
        line.fed_all((seq![ESCAPE, 0x5bu8] + parameters).push(command)) == line,
        line.released_all((seq![ESCAPE, 0x5bu8] + parameters).push(command)).len() == 0,
{
    let bytes = seq![ESCAPE, 0x5bu8] + parameters;
    parameters_are_skipped(line, parameters);
    assert(bytes.push(command).drop_last() =~= bytes);
}

proof fn parameters_are_skipped(line: Line, parameters: Seq<u8>)
    requires
        line.mode is Text,
        forall|i: int| 0 <= i < parameters.len() ==> 0x20 <= #[trigger] parameters[i] <= 0x3f,
    ensures
        line.fed_all(seq![ESCAPE, 0x5bu8] + parameters) == (Line { mode: Mode::Control, ..line }),
        line.released_all(seq![ESCAPE, 0x5bu8] + parameters).len() == 0,
    decreases parameters.len(),
{
    let start = seq![ESCAPE, 0x5bu8];
    if parameters.len() == 0 {
        reveal_with_fuel(Line::fed_all, 3);
        reveal_with_fuel(Line::released_all, 3);
        assert(start + parameters =~= start);
        assert(start.drop_last() =~= seq![ESCAPE]);
        assert(seq![ESCAPE].drop_last() =~= Seq::<u8>::empty());
    } else {
        parameters_are_skipped(line, parameters.drop_last());
        assert((start + parameters).drop_last() =~= start + parameters.drop_last());
        assert((start + parameters).last() == parameters.last());
    }
}

/// An escape sequence of two bytes, such as one that saves the cursor, leaves no
/// trace.
pub proof fn two_byte_escapes_leave_no_trace(line: Line, byte: u8)
    requires
        line.mode is Text,
        !ends_line(byte),
        byte < 0x80,
        after_escape(byte) is Text,
    ensures
        line.fed_all(seq![ESCAPE, byte]) == line,
        line.released_all(seq![ESCAPE, byte]).len() == 0,
{
    reveal_with_fuel(Line::fed_all, 3);
    reveal_with_fuel(Line::released_all, 3);
    assert(seq![ESCAPE, byte].drop_last() =~= seq![ESCAPE]);
    assert(seq![ESCAPE].drop_last() =~= Seq::<u8>::empty());
}

/// The bytes stay within a string that a terminal would take.
pub open spec fn payload(bytes: Seq<u8>) -> bool {
    forall|i: int|
        0 <= i < bytes.len() ==> {
            let byte = #[trigger] bytes[i];
            &&& !ends_line(byte)
            &&& byte != ESCAPE && byte != BELL && byte != CANCEL && byte != SUBSTITUTE
        }
}

/// A string that a terminal would take, such as a window title, leaves no trace,
/// whether a bell ends it or an escape character and a backslash.
pub proof fn strings_leave_no_trace(line: Line, introducer: u8, bytes: Seq<u8>)
    requires
        line.mode is Text,
        after_escape(introducer) is Payload,
        payload(bytes),
    ensures
        ({
            let string = seq![ESCAPE, introducer] + bytes;
            &&& line.fed_all(string.push(BELL)) == line
            &&& line.released_all(string.push(BELL)).len() == 0
            &&& line.fed_all(string.push(ESCAPE).push(0x5c)) == line
            &&& line.released_all(string.push(ESCAPE).push(0x5c)).len() == 0
        }),
{
    let string = seq![ESCAPE, introducer] + bytes;
    strings_are_skipped(line, introducer, bytes);
    assert(string.push(BELL).drop_last() =~= string);
    let escaped = string.push(ESCAPE);
    assert(escaped.drop_last() =~= string);
    assert(line.fed_all(escaped) == (Line { mode: Mode::PayloadEscape, ..line }));
    assert(line.released_all(escaped).len() == 0);
    assert(escaped.push(0x5c).drop_last() =~= escaped);
    assert(escaped.push(0x5c).last() == 0x5c);
    assert(line.fed_all(escaped.push(0x5c)) == line.fed_all(escaped).fed(0x5c));
}

proof fn strings_are_skipped(line: Line, introducer: u8, bytes: Seq<u8>)
    requires
        line.mode is Text,
        after_escape(introducer) is Payload,
        payload(bytes),
    ensures
        line.fed_all(seq![ESCAPE, introducer] + bytes) == (Line { mode: Mode::Payload, ..line }),
        line.released_all(seq![ESCAPE, introducer] + bytes).len() == 0,
    decreases bytes.len(),
{
    let start = seq![ESCAPE, introducer];
    if bytes.len() == 0 {
        reveal_with_fuel(Line::fed_all, 3);
        reveal_with_fuel(Line::released_all, 3);
        assert(start + bytes =~= start);
        assert(start.drop_last() =~= seq![ESCAPE]);
        assert(seq![ESCAPE].drop_last() =~= Seq::<u8>::empty());
    } else {
        strings_are_skipped(line, introducer, bytes.drop_last());
        assert((start + bytes).drop_last() =~= start + bytes.drop_last());
        assert((start + bytes).last() == bytes.last());
    }
}

/// The bytes are one character.
pub open spec fn one_character(bytes: Seq<u8>) -> bool {
    &&& vstd::utf8::valid_first_scalar(bytes)
    &&& bytes.len() == vstd::utf8::length_of_first_scalar(bytes)
}

proof fn a_character_is_kept_whole(line: Line, bytes: Seq<u8>)
    requires
        line.mode is Text,
        plain(bytes),
        one_character(bytes),
    ensures
        line.fed_all(bytes).mode is Text,
        ({
            let full = line.record.len() + bytes.len() > RECORD_LIMIT;
            &&& line.released_all(bytes) == if full {
                seq![line.record]
            } else {
                Seq::<Seq<u8>>::empty()
            }
            &&& line.fed_all(bytes).record == if full {
                bytes
            } else {
                line.record + bytes
            }
        }),
{
    let first = bytes[0];
    let kept = if line.full(first) {
        Seq::<u8>::empty()
    } else {
        line.record
    };
    assert(width(first) == bytes.len());
    bytes_of_a_character(line, bytes, bytes.len() as int);
    assert(bytes.take(bytes.len() as int) =~= bytes);
    assert(kept + bytes =~= if line.full(first) {
        bytes
    } else {
        line.record + bytes
    });
}

proof fn bytes_of_a_character(line: Line, bytes: Seq<u8>, count: int)
    requires
        line.mode is Text,
        plain(bytes),
        one_character(bytes),
        1 <= count <= bytes.len(),
    ensures
        ({
            let first = bytes[0];
            let kept = if line.full(first) {
                Seq::<u8>::empty()
            } else {
                line.record
            };
            let reached = line.fed_all(bytes.take(count));
            &&& reached.mode is Text
            &&& reached.record == kept + bytes.take(count)
            &&& line.released_all(bytes.take(count)) == line.released(first)
        }),
    decreases count,
{
    let read = bytes.take(count);
    assert(read.drop_last() =~= bytes.take(count - 1));
    assert(read.last() == bytes[count - 1]);
    if count == 1 {
        assert(bytes.take(0) =~= Seq::<u8>::empty());
        assert(line.fed_all(bytes.take(0)) == line);
        assert(line.released_all(bytes.take(0)) =~= Seq::<Seq<u8>>::empty());
        assert(line.released_all(read) =~= line.released(bytes[0]));
        if line.full(bytes[0]) {
            assert(Seq::<u8>::empty().push(bytes[0]) =~= Seq::<u8>::empty() + read);
        } else {
            assert(line.record.push(bytes[0]) =~= line.record + read);
        }
    } else {
        bytes_of_a_character(line, bytes, count - 1);
        let reached = line.fed_all(bytes.take(count - 1));
        assert(vstd::utf8::is_continuation_byte(bytes[count - 1]));
        assert(!reached.full(bytes[count - 1]));
        assert(line.released_all(read) =~= line.released(bytes[0]));
        if line.full(bytes[0]) {
            assert((Seq::<u8>::empty() + bytes.take(count - 1)).push(bytes[count - 1])
                =~= Seq::<u8>::empty() + read);
        } else {
            assert((line.record + bytes.take(count - 1)).push(bytes[count - 1]) =~= line.record
                + read);
        }
    }
}

/// Long text is cut between characters: records of valid UTF-8 are valid UTF-8.
pub proof fn characters_are_not_cut(line: Line, bytes: Seq<u8>)
    requires
        line.mode is Text,
        plain(bytes),
        vstd::utf8::valid_utf8(line.record),
        vstd::utf8::valid_utf8(bytes),
    ensures
        vstd::utf8::valid_utf8(line.fed_all(bytes).record),
        forall|i: int|
            0 <= i < line.released_all(bytes).len() ==> vstd::utf8::valid_utf8(
                #[trigger] line.released_all(bytes)[i],
            ),
    decreases bytes.len(),
{
    if bytes.len() > 0 {
        let length = vstd::utf8::length_of_first_scalar(bytes);
        let first = bytes.take(length);
        let rest = vstd::utf8::pop_first_scalar(bytes);
        assert(bytes =~= first + rest);
        assert(one_character(first));
        assert(vstd::utf8::valid_utf8(first)) by {
            reveal_with_fuel(vstd::utf8::valid_utf8, 2);
            assert(vstd::utf8::pop_first_scalar(first) =~= Seq::<u8>::empty());
        }
        a_character_is_kept_whole(line, first);
        vstd::utf8::valid_utf8_concat(line.record, first);
        characters_are_not_cut(line.fed_all(first), rest);
        chunks_make_no_difference(line, first, rest);
        assert forall|i: int|
            0 <= i < line.released_all(bytes).len() implies vstd::utf8::valid_utf8(
            #[trigger] line.released_all(bytes)[i],
        ) by {
            let begun = line.released_all(first);
            if i >= begun.len() {
                assert(line.released_all(bytes)[i] == line.fed_all(first).released_all(rest)[i
                    - begun.len()]);
            }
        }
    }
}

// ---- What each byte does ----

/// A line end ends whatever was read before it: after a line feed a stream is as
/// new, and after a carriage return it is in no sequence and its record is empty.
pub proof fn a_line_end_starts_afresh(line: Line)
    ensures
        line.fed(0x0a) == Line::empty(),
        line.fed(0x0d).mode is Text,
        line.fed(0x0d).record.len() == 0,
        line.fed(0x0d).returned == (line.returned || line.record.len() > 0),
        Line::empty().mode is Text,
        Line::empty().record.len() == 0,
        !Line::empty().returned,
{
    assert(line.fed(0x0a).record =~= Line::empty().record);
}

/// A line feed ends a record, also an empty one, unless a carriage return has
/// just done so. A carriage return ends a record that is not empty.
pub proof fn line_ends_release_the_record(line: Line)
    ensures
        !line.returned ==> line.released(0x0a) == seq![line.record],
        line.returned ==> line.released(0x0a).len() == 0,
        line.record.len() > 0 ==> line.released(0x0d) == seq![line.record],
        line.record.len() == 0 ==> line.released(0x0d).len() == 0,
{
}

/// Outside of sequences every byte is text but line ends and the escape
/// character, which starts a sequence. It goes to the end of the record, or
/// where the character that it starts would make the record longer than 16 KiB,
/// to a new one, and only then a record is released.
pub proof fn text_goes_to_the_record(line: Line, byte: u8)
    requires
        line.mode is Text,
        byte != 0x0a && byte != 0x0d && byte != 0x1b,
    ensures
        ({
            let bytes: int = if 0xc0 <= byte <= 0xdf {
                2
            } else if 0xe0 <= byte <= 0xef {
                3
            } else if 0xf0 <= byte <= 0xf7 {
                4
            } else {
                1
            };
            let fits = line.record.len() + bytes <= 16_384;
            &&& line.fed(byte).mode is Text
            &&& !line.fed(byte).returned
            &&& fits ==> line.fed(byte).record == line.record.push(byte) && line.released(
                byte,
            ).len() == 0
            &&& !fits ==> line.fed(byte).record == seq![byte] && line.released(byte) == seq![
                line.record,
            ]
        }),
{
}

/// An escape character is no text and ends no record, wherever it stands.
pub proof fn an_escape_character_starts_a_sequence(line: Line)
    ensures
        line.fed(0x1b).record == line.record,
        line.fed(0x1b).returned == line.returned,
        line.released(0x1b).len() == 0,
        line.mode is Payload ==> line.fed(0x1b).mode is PayloadEscape,
        !(line.mode is Payload) ==> line.fed(0x1b).mode is Escape,
{
}

/// Within a sequence no byte of ASCII is text, and within a string none at all.
pub proof fn sequences_are_left_out(line: Line, byte: u8)
    requires
        !(line.mode is Text),
        byte < 0x80 || line.mode is Payload,
        byte != 0x0a && byte != 0x0d,
    ensures
        line.fed(byte).record == line.record,
        line.fed(byte).returned == line.returned,
        line.released(byte).len() == 0,
{
}

/// A byte beyond ASCII breaks off a sequence that is no string and is text.
pub proof fn other_bytes_break_off_a_sequence(line: Line, byte: u8)
    requires
        line.mode is Escape || line.mode is Control || line.mode is PayloadEscape,
        byte >= 0x80,
    ensures
        line.fed(byte) == (Line { mode: Mode::Text, ..line }).fed(byte),
        line.released(byte) == (Line { mode: Mode::Text, ..line }).released(byte),
        line.fed(byte).mode is Text,
{
}

/// What follows an escape character: an opening bracket starts a control
/// sequence, one of `P`, `X`, `]`, `^` and `_` a string, and any other one from
/// `0` to `~` ends the sequence, as cancelling it does. The rest belongs to the
/// sequence. In a string, a backslash after the escape character ends it too.
pub proof fn a_sequence_is_told_by_its_second_byte(line: Line, byte: u8)
    requires
        line.mode is Escape || line.mode is PayloadEscape,
        byte < 0x80,
        byte != 0x0a && byte != 0x0d && byte != 0x1b,
    ensures
        ({
            let mode = line.fed(byte).mode;
            let string = byte == 0x50 || byte == 0x58 || byte == 0x5d || byte == 0x5e || byte
                == 0x5f;
            &&& byte == 0x5b ==> mode is Control
            &&& string ==> mode is Payload
            &&& 0x30 <= byte <= 0x7e && byte != 0x5b && !string ==> mode is Text
            &&& byte == 0x18 || byte == 0x1a ==> mode is Text
            &&& byte < 0x30 && byte != 0x18 && byte != 0x1a || byte == 0x7f ==> mode is Escape
        }),
{
}

/// A control sequence ends with a byte from `@` to `~`, or where it is cancelled.
pub proof fn a_control_sequence_ends_with_its_command(line: Line, byte: u8)
    requires
        line.mode is Control,
        byte < 0x80,
        byte != 0x0a && byte != 0x0d && byte != 0x1b,
    ensures
        (line.fed(byte).mode is Text) == (0x40 <= byte <= 0x7e || byte == 0x18 || byte == 0x1a),
        line.fed(byte).mode is Text || line.fed(byte).mode is Control,
{
}

/// A string ends with a bell, or where it is cancelled.
pub proof fn a_string_ends_with_a_bell(line: Line, byte: u8)
    requires
        line.mode is Payload,
        byte != 0x0a && byte != 0x0d && byte != 0x1b,
    ensures
        (line.fed(byte).mode is Text) == (byte == 0x07 || byte == 0x18 || byte == 0x1a),
        line.fed(byte).mode is Text || line.fed(byte).mode is Payload,
{
}

// ---- Whole lines ----

/// A part of what is written on a line.
pub ghost enum Piece {
    /// Text, without line ends and escape characters.
    Text(Seq<u8>),
    /// An escape sequence.
    Sequence(Seq<u8>),
}

/// A control sequence: an escape character and an opening bracket, parameters, and
/// a command.
pub open spec fn is_control_sequence(bytes: Seq<u8>) -> bool {
    &&& bytes.len() >= 3
    &&& bytes[0] == 0x1b && bytes[1] == 0x5b
    &&& forall|i: int| 2 <= i < bytes.len() - 1 ==> 0x20 <= #[trigger] bytes[i] <= 0x3f
    &&& 0x40 <= bytes.last() <= 0x7e
}

/// A short sequence: an escape character and a byte that starts nothing longer.
pub open spec fn is_short_sequence(bytes: Seq<u8>) -> bool {
    &&& bytes.len() == 2
    &&& bytes[0] == 0x1b
    &&& 0x30 <= bytes[1] <= 0x7e
    &&& bytes[1] != 0x50 && bytes[1] != 0x58 && bytes[1] != 0x5b && bytes[1] != 0x5d && bytes[1]
        != 0x5e && bytes[1] != 0x5f
}

/// A string for the terminal: an escape character and an introducer, what the
/// string says, and a bell, or an escape character and a backslash.
pub open spec fn is_string_sequence(bytes: Seq<u8>) -> bool {
    let end = if bytes.last() == 0x07 {
        bytes.len() - 1
    } else {
        bytes.len() - 2
    };
    &&& end >= 2
    &&& bytes[0] == 0x1b
    &&& bytes[1] == 0x50 || bytes[1] == 0x58 || bytes[1] == 0x5d || bytes[1] == 0x5e || bytes[1]
        == 0x5f
    &&& forall|i: int|
        2 <= i < end ==> {
            let byte = #[trigger] bytes[i];
            &&& byte != 0x07 && byte != 0x0a && byte != 0x0d
            &&& byte != 0x18 && byte != 0x1a && byte != 0x1b
        }
    &&& bytes.last() == 0x07 || bytes[end] == 0x1b && bytes[end + 1] == 0x5c
}

/// Text without line ends and escape characters.
pub open spec fn is_unbroken(bytes: Seq<u8>) -> bool {
    forall|i: int|
        0 <= i < bytes.len() ==> #[trigger] bytes[i] != 0x0a && bytes[i] != 0x0d && bytes[i]
            != 0x1b
}

/// The piece is what it says it is.
pub open spec fn in_order(piece: Piece) -> bool {
    match piece {
        Piece::Text(bytes) => is_unbroken(bytes),
        Piece::Sequence(bytes) => is_control_sequence(bytes) || is_short_sequence(bytes)
            || is_string_sequence(bytes),
    }
}

/// The bytes of pieces, in order.
pub open spec fn written(pieces: Seq<Piece>) -> Seq<u8>
    decreases pieces.len(),
{
    if pieces.len() == 0 {
        seq![]
    } else {
        written(pieces.drop_last()) + match pieces.last() {
            Piece::Text(bytes) => bytes,
            Piece::Sequence(bytes) => bytes,
        }
    }
}

/// The text among pieces, in order.
pub open spec fn text_of_pieces(pieces: Seq<Piece>) -> Seq<u8>
    decreases pieces.len(),
{
    if pieces.len() == 0 {
        seq![]
    } else {
        text_of_pieces(pieces.drop_last()) + match pieces.last() {
            Piece::Text(bytes) => bytes,
            Piece::Sequence(_) => seq![],
        }
    }
}

/// Lines as they are written, each with a line feed, and with a carriage return
/// before it or not.
pub open spec fn lines_written(lines: Seq<(Seq<Piece>, bool)>) -> Seq<u8>
    decreases lines.len(),
{
    if lines.len() == 0 {
        seq![]
    } else {
        let (pieces, returned) = lines.last();
        lines_written(lines.drop_last()) + written(pieces) + if returned {
            seq![0x0du8, 0x0au8]
        } else {
            seq![0x0au8]
        }
    }
}

/// The line holds pieces that are in order, and no more text than a record has
/// room for, whatever characters it ends with.
pub open spec fn a_line_of_pieces(pieces: Seq<Piece>) -> bool {
    &&& forall|i: int| 0 <= i < pieces.len() ==> in_order(#[trigger] pieces[i])
    &&& text_of_pieces(pieces).len() <= 16_381
}

/// A sequence leaves no trace in a stream, whichever it is.
pub proof fn sequences_leave_no_trace(line: Line, bytes: Seq<u8>)
    requires
        line.mode is Text,
        is_control_sequence(bytes) || is_short_sequence(bytes) || is_string_sequence(bytes),
    ensures
        line.fed_all(bytes) == line,
        line.released_all(bytes).len() == 0,
{
    if is_control_sequence(bytes) {
        let parameters = bytes.subrange(2, bytes.len() - 1);
        assert forall|i: int| 0 <= i < parameters.len() implies 0x20 <= #[trigger] parameters[i]
            <= 0x3f by {
            assert(parameters[i] == bytes[i + 2]);
        }
        control_sequences_leave_no_trace(line, parameters, bytes.last());
        assert(bytes =~= (seq![ESCAPE, 0x5bu8] + parameters).push(bytes.last()));
    } else if is_short_sequence(bytes) {
        two_byte_escapes_leave_no_trace(line, bytes[1]);
        assert(bytes =~= seq![ESCAPE, bytes[1]]);
    } else {
        let end = if bytes.last() == 0x07 {
            bytes.len() - 1
        } else {
            bytes.len() - 2
        };
        let said = bytes.subrange(2, end);
        assert forall|i: int| 0 <= i < said.len() implies {
            let byte = #[trigger] said[i];
            &&& !ends_line(byte)
            &&& byte != ESCAPE && byte != BELL && byte != CANCEL && byte != SUBSTITUTE
        } by {
            assert(said[i] == bytes[i + 2]);
        }
        strings_leave_no_trace(line, bytes[1], said);
        let string = seq![ESCAPE, bytes[1]] + said;
        if bytes.last() == 0x07 {
            assert(bytes =~= string.push(BELL));
        } else {
            assert(bytes =~= string.push(ESCAPE).push(0x5c));
        }
    }
}

proof fn text_is_gathered(line: Line, bytes: Seq<u8>)
    requires
        line.mode is Text,
        is_unbroken(bytes),
        line.record.len() + bytes.len() <= 16_381,
    ensures
        line.fed_all(bytes) == (Line {
            mode: Mode::Text,
            record: line.record + bytes,
            returned: line.returned && bytes.len() == 0,
        }),
        line.released_all(bytes).len() == 0,
    decreases bytes.len(),
{
    if bytes.len() == 0 {
        assert(line.record + bytes =~= line.record);
    } else {
        let before = bytes.drop_last();
        assert forall|i: int| 0 <= i < before.len() implies #[trigger] before[i] != 0x0a
            && before[i] != 0x0d && before[i] != 0x1b by {
            assert(before[i] == bytes[i]);
        }
        text_is_gathered(line, before);
        let byte = bytes[bytes.len() - 1];
        assert((line.record + before).push(byte) =~= line.record + bytes);
    }
}

proof fn pieces_are_gathered(line: Line, pieces: Seq<Piece>)
    requires
        line.mode is Text,
        forall|i: int| 0 <= i < pieces.len() ==> in_order(#[trigger] pieces[i]),
        line.record.len() + text_of_pieces(pieces).len() <= 16_381,
    ensures
        line.fed_all(written(pieces)) == (Line {
            mode: Mode::Text,
            record: line.record + text_of_pieces(pieces),
            returned: line.returned && text_of_pieces(pieces).len() == 0,
        }),
        line.released_all(written(pieces)).len() == 0,
    decreases pieces.len(),
{
    if pieces.len() == 0 {
        assert(line.record + text_of_pieces(pieces) =~= line.record);
    } else {
        let before = pieces.drop_last();
        assert forall|i: int| 0 <= i < before.len() implies in_order(#[trigger] before[i]) by {
            assert(before[i] == pieces[i]);
        }
        assert(in_order(pieces[pieces.len() - 1]));
        pieces_are_gathered(line, before);
        let reached = line.fed_all(written(before));
        match pieces.last() {
            Piece::Text(bytes) => {
                text_is_gathered(reached, bytes);
                chunks_make_no_difference(line, written(before), bytes);
                assert(reached.record + bytes =~= line.record + text_of_pieces(pieces));
            },
            Piece::Sequence(bytes) => {
                sequences_leave_no_trace(reached, bytes);
                chunks_make_no_difference(line, written(before), bytes);
                assert(text_of_pieces(pieces) =~= text_of_pieces(before));
            },
        }
    }
}

/// What is written in lines comes out line by line: each line is one record, in
/// order, which holds just the text of the line, and the escape sequences among
/// it are gone.
pub proof fn lines_are_records(lines: Seq<(Seq<Piece>, bool)>)
    requires
        forall|i: int| 0 <= i < lines.len() ==> a_line_of_pieces((#[trigger] lines[i]).0),
    ensures
        Line::empty().released_all(lines_written(lines)) == lines.map_values(
            |line: (Seq<Piece>, bool)| text_of_pieces(line.0),
        ),
        Line::empty().fed_all(lines_written(lines)) == Line::empty(),
    decreases lines.len(),
{
    let texts = lines.map_values(|line: (Seq<Piece>, bool)| text_of_pieces(line.0));
    let start = Line::empty();
    if lines.len() == 0 {
        assert(texts =~= Seq::<Seq<u8>>::empty());
    } else {
        let before = lines.drop_last();
        assert forall|i: int| 0 <= i < before.len() implies a_line_of_pieces(
            (#[trigger] before[i]).0,
        ) by {
            assert(before[i] == lines[i]);
        }
        lines_are_records(before);
        let (pieces, returned) = lines[lines.len() - 1];
        pieces_are_gathered(start, pieces);
        let text = text_of_pieces(pieces);
        let reached = start.fed_all(written(pieces));
        assert(reached.record =~= text);
        let end = if returned {
            seq![0x0du8, 0x0au8]
        } else {
            seq![0x0au8]
        };
        a_line_is_ended(reached, end);
        chunks_make_no_difference(start, lines_written(before), written(pieces));
        chunks_make_no_difference(start, lines_written(before) + written(pieces), end);
        let whole = start.released_all(lines_written(lines));
        assert(whole =~= start.released_all(lines_written(before)).push(text));
        assert(texts =~= before.map_values(
            |line: (Seq<Piece>, bool)| text_of_pieces(line.0),
        ).push(text));
    }
}

proof fn a_line_is_ended(line: Line, end: Seq<u8>)
    requires
        !line.returned,
        end == seq![0x0au8] || end == seq![0x0du8, 0x0au8],
    ensures
        line.fed_all(end) == Line::empty(),
        line.released_all(end) == seq![line.record],
{
    reveal_with_fuel(Line::fed_all, 3);
    reveal_with_fuel(Line::released_all, 3);
    assert(seq![0x0au8].drop_last() =~= Seq::<u8>::empty());
    assert(seq![0x0du8, 0x0au8].drop_last() =~= seq![0x0du8]);
    assert(seq![0x0du8].drop_last() =~= Seq::<u8>::empty());
    let returned = line.fed(0x0d);
    assert(line.fed(0x0a) == Line::empty()) by {
        a_line_end_starts_afresh(line);
    }
    assert(returned.fed(0x0a) == Line::empty()) by {
        a_line_end_starts_afresh(returned);
    }
    if line.record.len() == 0 {
        assert(returned.record =~= line.record);
    }
    assert(line.released_all(end) =~= seq![line.record]);
}

/// What follows a line feed is read as if nothing had come before it, whatever
/// that was.
pub proof fn lines_are_independent(line: Line, before: Seq<u8>, after: Seq<u8>)
    ensures
        line.fed_all(before.push(0x0a) + after) == Line::empty().fed_all(after),
        line.released_all(before.push(0x0a) + after) == line.released_all(before.push(0x0a))
            + Line::empty().released_all(after),
{
    assert(before.push(0x0a).drop_last() =~= before);
    a_line_end_starts_afresh(line.fed_all(before));
    chunks_make_no_difference(line, before.push(0x0a), after);
}

/// A carriage return turns what is on the line into a record of its own, and
/// what follows starts the next one.
pub proof fn carriage_returns_make_records(pieces: Seq<Piece>)
    requires
        a_line_of_pieces(pieces),
        text_of_pieces(pieces).len() > 0,
    ensures
        Line::empty().released_all(written(pieces).push(0x0d)) == seq![text_of_pieces(pieces)],
        Line::empty().fed_all(written(pieces).push(0x0d)).record.len() == 0,
        Line::empty().fed_all(written(pieces).push(0x0d)).mode is Text,
{
    let start = Line::empty();
    pieces_are_gathered(start, pieces);
    assert(start.record + text_of_pieces(pieces) =~= text_of_pieces(pieces));
    let bytes = written(pieces).push(0x0d);
    assert(bytes.drop_last() =~= written(pieces));
    assert(start.released_all(bytes) =~= seq![text_of_pieces(pieces)]);
}

// ---- What records show ----

/// Just control characters are left out of a text, and of these not the tab:
/// what is shown of two texts is what is shown of each, and a single character
/// is shown or not.
pub proof fn just_controls_are_left_out(first: Seq<char>, second: Seq<char>, c: char)
    ensures
        printable_of(first + second) == printable_of(first) + printable_of(second),
        c == '\t' || '\u{20}' <= c <= '\u{7e}' || c >= '\u{a0}' ==> printable_of(seq![c]) == seq![c],
        c != '\t' && (c <= '\u{1f}' || '\u{7f}' <= c <= '\u{9f}') ==> printable_of(seq![c]).len()
            == 0,
        printable_of(Seq::empty()).len() == 0,
{
    let kept = |c: char| is_printable(c);
    Seq::filter_distributes_over_add(first, second, kept);
    let none = Seq::<char>::empty();
    reveal(Seq::filter);
    none.lemma_filter_push(c, kept);
    assert(none.push(c) =~= seq![c]);
    assert(none.filter(kept) =~= none);
    assert(none.push(c) =~= seq![c]);
}

/// A record of valid UTF-8 without control characters, but for tabs, is shown as
/// the text that it is.
pub proof fn readable_records_are_shown_as_they_are(record: Seq<u8>)
    requires
        vstd::utf8::valid_utf8(record),
        forall|i: int|
            0 <= i < vstd::utf8::decode_utf8(record).len() ==> {
                let c = #[trigger] vstd::utf8::decode_utf8(record)[i];
                c == '\t' || '\u{20}' <= c <= '\u{7e}' || c >= '\u{a0}'
            },
    ensures
        shown(record) == vstd::utf8::decode_utf8(record),
{
    all_of_it_is_kept(vstd::utf8::decode_utf8(record));
}

proof fn all_of_it_is_kept(text: Seq<char>)
    requires
        forall|i: int|
            0 <= i < text.len() ==> {
                let c = #[trigger] text[i];
                c == '\t' || '\u{20}' <= c <= '\u{7e}' || c >= '\u{a0}'
            },
    ensures
        printable_of(text) == text,
    decreases text.len(),
{
    if text.len() == 0 {
        reveal(Seq::filter);
        assert(printable_of(text) =~= text);
    } else {
        let before = text.drop_last();
        let c = text[text.len() - 1];
        all_of_it_is_kept(before);
        before.lemma_filter_push(c, |c: char| is_printable(c));
        assert(text =~= before.push(c));
    }
}

/// Of a record that is not valid UTF-8, what replaces and what is valid is shown
/// by the same rule.
pub proof fn other_records_are_shown_with_replacements(record: Seq<u8>)
    requires
        !vstd::utf8::valid_utf8(record),
    ensures
        shown(record) == printable_of(utf8_lossy(record)),
{
}

/// A decoder is in order as long as its record is no longer than 16 KiB, and empty
/// right after a carriage return, wherever in a sequence the stream stands.
pub proof fn decoders_are_in_order(decoder: Decoder)
    ensures
        decoder.wf() == (decoder.record@.len() <= 16_384 && (decoder.returned
            ==> decoder.record@.len() == 0)),
        decoder@.mode == decoder.mode,
        decoder@.record == decoder.record@,
        decoder@.returned == decoder.returned,
{
}

/// A stream is read byte by byte, from the first to the last, and none is left out
/// or read twice.
pub proof fn streams_are_read_byte_by_byte(line: Line, bytes: Seq<u8>, byte: u8)
    ensures
        line.fed_all(Seq::empty()) == line,
        line.released_all(Seq::empty()).len() == 0,
        line.fed_all(bytes.push(byte)) == line.fed_all(bytes).fed(byte),
        line.released_all(bytes.push(byte)) == line.released_all(bytes) + line.fed_all(
            bytes,
        ).released(byte),
{
    assert(bytes.push(byte).drop_last() =~= bytes);
}

} // verus!
