//! Terminal state and scrollback, emulated by vt100.

use crate::pty::TerminalSize;
use crate::text::{decimal, push_decimal};
use tui_term::vt100;
use vstd::prelude::*;
use vstd::utf8::encode_utf8;

verus! {

/// How many scrolled-off rows each terminal retains.
pub const HISTORY_LIMIT: usize = 10_000;

/// How many bytes of replies wait for the service at most.
pub const REPLY_LIMIT: usize = 32 * 1024;

/// How many rows a terminal has at least.
pub const MIN_ROWS: u16 = 2;

/// How many columns a terminal has at least.
pub const MIN_COLS: u16 = 3;

/// How many columns a terminal has at most.
pub const MAX_COLS: u16 = 65_527;

// ---- Terminal queries ----

/// A control sequence that the emulator hands on, with the cursor and the size
/// of the screen at that moment.
pub struct Query {
    pub intermediate: Option<u8>,
    pub second: Option<u8>,
    pub params: Seq<Seq<u16>>,
    pub command: char,
    pub cursor: (u16, u16),
    pub size: (u16, u16),
}

impl Query {
    /// The first parameter, zero where it is left out.
    pub open spec fn parameter(self) -> u16 {
        if self.params.len() > 0 && self.params[0].len() > 0 {
            self.params[0][0]
        } else {
            0
        }
    }

    /// The reply the query asks for: device status, cursor position (counted
    /// from one), device attributes or screen size. Other queries, and any with
    /// an intermediate byte or more than one parameter, go unanswered.
    pub open spec fn answer(self) -> Option<Seq<char>> {
        if self.intermediate is Some || self.second is Some || self.params.len() > 1 {
            None
        } else if self.command == 'n' && self.parameter() == 5 {
            Some("\x1b[0n"@)
        } else if self.command == 'n' && self.parameter() == 6 {
            Some(
                "\x1b["@ + decimal((self.cursor.0 + 1) as nat) + ";"@ + decimal(
                    (self.cursor.1 + 1) as nat,
                ) + "R"@,
            )
        } else if self.command == 'c' && self.parameter() == 0 {
            Some("\x1b[?1;2c"@)
        } else if self.command == 't' && self.parameter() == 18 {
            Some(
                "\x1b[8;"@ + decimal(self.size.0 as nat) + ";"@ + decimal(self.size.1 as nat)
                    + "t"@,
            )
        } else {
            None
        }
    }

    /// The pending replies once this query is seen: its reply is added whole,
    /// or not at all where it would not fit.
    pub open spec fn added_to(self, pending: Seq<u8>) -> Seq<u8> {
        match self.answer() {
            Some(reply) => if pending.len() + encode_utf8(reply).len() <= REPLY_LIMIT {
                pending + encode_utf8(reply)
            } else {
                pending
            },
            None => pending,
        }
    }
}

/// The pending replies once a sequence of queries is seen, first to last.
pub open spec fn replied(pending: Seq<u8>, queries: Seq<Query>) -> Seq<u8>
    decreases queries.len(),
{
    if queries.len() == 0 {
        pending
    } else {
        queries.last().added_to(replied(pending, queries.drop_last()))
    }
}

/// Pending replies never outgrow their limit, and no reply is lost or changed
/// once it is pending.
pub proof fn replies_are_bounded_and_kept(pending: Seq<u8>, queries: Seq<Query>)
    ensures
        pending.len() <= REPLY_LIMIT ==> replied(pending, queries).len() <= REPLY_LIMIT,
        pending.is_prefix_of(replied(pending, queries)),
    decreases queries.len(),
{
    if queries.len() > 0 {
        replies_are_bounded_and_kept(pending, queries.drop_last());
    }
}

/// The reply to a control sequence, if it asks for one.
pub fn answer(
    intermediate: Option<u8>,
    second: Option<u8>,
    params: &[&[u16]],
    command: char,
    cursor: (u16, u16),
    size: (u16, u16),
) -> (reply: Option<String>)
    ensures
        match (Query {
            intermediate,
            second,
            params: params@.map_values(|values: &[u16]| values@),
            command,
            cursor,
            size,
        }).answer() {
            Some(text) => reply matches Some(reply) && reply@ == text,
            None => reply is None,
        },
{
    if intermediate.is_some() || second.is_some() || params.len() > 1 {
        return None;
    }
    let parameter: u16 = if params.len() > 0 && params[0].len() > 0 {
        params[0][0]
    } else {
        0
    };
    if command == 'n' && parameter == 5 {
        Some("\x1b[0n".to_owned())
    } else if command == 'n' && parameter == 6 {
        let mut reply = "\x1b[".to_owned();
        push_decimal(&mut reply, cursor.0 as u64 + 1);
        reply.push_str(";");
        push_decimal(&mut reply, cursor.1 as u64 + 1);
        reply.push_str("R");
        Some(reply)
    } else if command == 'c' && parameter == 0 {
        Some("\x1b[?1;2c".to_owned())
    } else if command == 't' && parameter == 18 {
        let mut reply = "\x1b[8;".to_owned();
        push_decimal(&mut reply, size.0 as u64);
        reply.push_str(";");
        push_decimal(&mut reply, size.1 as u64);
        reply.push_str("t");
        Some(reply)
    } else {
        None
    }
}

/// Replies that wait to be sent to the service.
pub struct Replies(Vec<u8>);

impl View for Replies {
    type V = Seq<u8>;

    closed spec fn view(&self) -> Seq<u8> {
        self.0@
    }
}

impl vt100::Callbacks for Replies {
    fn unhandled_csi(
        &mut self,
        screen: &mut vt100::Screen,
        intermediate: Option<u8>,
        second: Option<u8>,
        params: &[&[u16]],
        command: char,
    )
        ensures
            final(self)@ == (Query {
                intermediate,
                second,
                params: params@.map_values(|values: &[u16]| values@),
                command,
                cursor: screen_cursor(*old(screen)),
                size: screen_size(*old(screen)),
            }).added_to(old(self)@),
            *final(screen) == *old(screen),
    {
        let cursor = screen.cursor_position();
        let size = screen.size();
        if let Some(reply) = answer(intermediate, second, params, command, cursor, size) {
            let bytes = reply.as_str().as_bytes();
            if bytes.len() <= REPLY_LIMIT && self.0.len() <= REPLY_LIMIT - bytes.len() {
                self.0.extend_from_slice(bytes);
                assert(self.0@ =~= old(self).0@ + bytes@);
            }
        }
    }
}

// ---- Screens ----

/// A vt100 screen: the grid of cells, its scrollback and its cursor.
#[verifier::external_type_specification]
#[verifier::external_body]
pub struct ExScreen(vt100::Screen);

/// The rows and columns of a screen.
pub uninterp spec fn screen_size(screen: vt100::Screen) -> (u16, u16);

/// The row and column of a screen's cursor.
pub uninterp spec fn screen_cursor(screen: vt100::Screen) -> (u16, u16);

/// How many rows a screen is scrolled back.
pub uninterp spec fn screen_offset(screen: vt100::Screen) -> usize;

/// How many scrolled-off rows the normal grid of a screen holds.
pub uninterp spec fn normal_history(screen: vt100::Screen) -> usize;

/// How many scrolled-off rows a screen retains at most.
pub uninterp spec fn screen_limit(screen: vt100::Screen) -> usize;

/// The text of the visible rows of a screen, top to bottom.
pub uninterp spec fn screen_rows(screen: vt100::Screen) -> Seq<Seq<char>>;

/// The text of the rows of the normal grid of a screen, top to bottom, without
/// those that are scrolled off.
pub uninterp spec fn normal_rows(screen: vt100::Screen) -> Seq<Seq<char>>;

/// The alternate grid of a screen is the visible one.
pub uninterp spec fn alternate_shown(screen: vt100::Screen) -> bool;

/// Each half of a double-width character stands beside its other half, in both
/// grids of a screen.
pub uninterp spec fn screen_whole(screen: vt100::Screen) -> bool;

/// No double-width character stands across the edge after this many columns, in
/// either grid of a screen.
pub uninterp spec fn cuttable(screen: vt100::Screen, cols: u16) -> bool;

/// How many scrolled-off rows the visible grid of a screen holds. The alternate
/// grid holds none.
pub open spec fn screen_history(screen: vt100::Screen) -> usize {
    if alternate_shown(screen) {
        0
    } else {
        normal_history(screen)
    }
}

/// A number of rows, cut off at what a screen retains at most.
pub open spec fn held(screen: vt100::Screen, rows: int) -> int {
    if rows <= screen_limit(screen) {
        rows
    } else {
        screen_limit(screen) as int
    }
}

/// The screens that vt100 can work on. On fewer than two rows it cannot wrap a
/// line, on fewer than three columns it cannot place the widest characters, a
/// tab near the last coordinate overflows, and half a double-width character
/// makes it reach past the row.
pub open spec fn workable(screen: vt100::Screen) -> bool {
    &&& screen_size(screen).0 >= MIN_ROWS
    &&& MIN_COLS <= screen_size(screen).1 <= MAX_COLS
    &&& screen_whole(screen)
}

/// `Screen::size` gives the rows and columns.
pub assume_specification[ vt100::Screen::size ](screen: &vt100::Screen) -> (size: (u16, u16))
    ensures
        size == screen_size(*screen),
;

/// `Screen::cursor_position` gives the row and column of the cursor.
pub assume_specification[ vt100::Screen::cursor_position ](screen: &vt100::Screen) -> (cursor: (
    u16,
    u16,
))
    ensures
        cursor == screen_cursor(*screen),
;

/// `Screen::scrollback` gives how many rows the screen is scrolled back.
pub assume_specification[ vt100::Screen::scrollback ](screen: &vt100::Screen) -> (offset: usize)
    ensures
        offset == screen_offset(*screen),
;

/// `Screen::alternate_screen` tells whether the alternate grid is visible.
pub assume_specification[ vt100::Screen::alternate_screen ](screen: &vt100::Screen) -> (alternate:
    bool)
    ensures
        alternate == alternate_shown(*screen),
;

// ---- What the terminal itself writes ----

/// The text that marks a run.
pub open spec fn run_label(run: u64) -> Seq<char> {
    "--- run "@ + decimal(run as nat) + " ---"@
}

/// The text fed to a terminal before a later run: leave the alternate screen,
/// reset the attributes, the margins, wrapping and the cursor, go to the last
/// row and put the run's label on a line of its own.
pub open spec fn run_banner(rows: u16, run: u64) -> Seq<char> {
    "\x1b[?1049l\x1b[0m\x1b[r\x1b[?7h\x1b[?25h\x1b["@ + decimal(rows as nat) + ";1H\r\n"@
        + run_label(run) + "\r\n"@
}

/// A text in rows of a width, each but the last one full.
pub open spec fn in_rows(text: Seq<char>, width: nat) -> Seq<Seq<char>>
    decreases text.len(),
{
    if width == 0 || text.len() <= width {
        seq![text]
    } else {
        seq![text.take(width as int)] + in_rows(text.skip(width as int), width)
    }
}

/// The rows that a run's banner adds below those that were there: its label, in
/// as many rows as it takes, and a blank one.
pub open spec fn banner_rows(cols: u16, run: u64) -> Seq<Seq<char>> {
    in_rows(run_label(run), cols as nat).push(Seq::empty())
}

/// Makes the other grid visible, without clearing it.
pub open spec fn grid_switch(alternate: bool) -> Seq<char> {
    if alternate {
        "\x1b[?47l"@
    } else {
        "\x1b[?47h"@
    }
}

/// Puts the cursor on a row and a column, whatever the margins.
pub open spec fn cursor_put(row: nat, column: nat) -> Seq<char> {
    "\x1b["@ + decimal(row + 1) + "d\x1b["@ + decimal(column + 1) + "G"@
}

/// Clears the first rows of the visible grid after their first columns.
pub open spec fn rows_cleared(rows: nat, cols: u16) -> Seq<char>
    decreases rows,
{
    if rows == 0 {
        seq![]
    } else {
        rows_cleared((rows - 1) as nat, cols) + cursor_put((rows - 1) as nat, cols as nat)
            + "\x1b[K"@
    }
}

/// Clears both grids after their first columns, first the visible grid and then
/// the other one, which is visible in the end. Each grid gets its cursor.
pub open spec fn edge_clearing(
    alternate: bool,
    rows: u16,
    cols: u16,
    first: (u16, u16),
    second: (u16, u16),
) -> Seq<char> {
    rows_cleared(rows as nat, cols) + cursor_put(first.0 as nat, first.1 as nat) + grid_switch(
        alternate,
    ) + rows_cleared(rows as nat, cols) + cursor_put(second.0 as nat, second.1 as nat)
}

fn push_cursor(text: &mut String, row: u16, column: u16)
    ensures
        final(text)@ == old(text)@ + cursor_put(row as nat, column as nat),
{
    text.push_str("\x1b[");
    push_decimal(text, row as u64 + 1);
    text.push_str("d\x1b[");
    push_decimal(text, column as u64 + 1);
    text.push_str("G");
    proof {
        assert(text@ =~= old(text)@ + cursor_put(row as nat, column as nat));
    }
}

fn push_rows_cleared(text: &mut String, rows: u16, cols: u16)
    ensures
        final(text)@ == old(text)@ + rows_cleared(rows as nat, cols),
{
    proof {
        assert(text@ =~= old(text)@ + rows_cleared(0, cols));
    }
    for row in 0..rows
        invariant
            text@ == old(text)@ + rows_cleared(row as nat, cols),
    {
        push_cursor(text, row, cols);
        text.push_str("\x1b[K");
        proof {
            assert(text@ =~= old(text)@ + rows_cleared((row + 1) as nat, cols));
        }
    }
}

fn push_switch(text: &mut String, alternate: bool)
    ensures
        final(text)@ == old(text)@ + grid_switch(alternate),
{
    if alternate {
        text.push_str("\x1b[?47l");
    } else {
        text.push_str("\x1b[?47h");
    }
}

// ---- The emulator ----

/// A vt100 parser whose queries are answered into [`Replies`].
#[verifier::external_body]
pub struct Emulator {
    parser: vt100::Parser<Replies>,
}

/// The screen of an emulator.
pub uninterp spec fn screen_of(emulator: Emulator) -> vt100::Screen;

/// The control sequence or character that an emulator has read only in part.
pub uninterp spec fn unfinished_in(emulator: Emulator) -> Seq<u8>;

/// The replies that wait in an emulator.
pub uninterp spec fn waiting_in(emulator: Emulator) -> Seq<u8>;

/// What becomes of an emulator that is fed output.
pub struct Emulated {
    /// What it shows then.
    pub screen: vt100::Screen,
    /// What it has then read only in part.
    pub unfinished: Seq<u8>,
    /// The control sequences that it handed on, first to last.
    pub queries: Seq<Query>,
    /// How many rows it scrolled off the normal grid.
    pub pushed: nat,
    /// It neither showed the alternate grid nor reset the screen.
    pub undisturbed: bool,
}

/// The screen that an emulator starts with.
pub uninterp spec fn blank_screen(rows: u16, cols: u16, limit: usize) -> vt100::Screen;

/// What becomes of an emulator with this screen, which has read something in
/// part, when it is fed these bytes.
pub uninterp spec fn emulation(
    screen: vt100::Screen,
    unfinished: Seq<u8>,
    bytes: Seq<u8>,
) -> Emulated;

/// A screen given another size.
pub uninterp spec fn resized_screen(screen: vt100::Screen, rows: u16, cols: u16) -> vt100::Screen;

/// A screen scrolled back to a number of rows, as far as it holds as many.
pub uninterp spec fn scrolled_screen(screen: vt100::Screen, rows: usize) -> vt100::Screen;

impl Emulator {
    /// `Parser::new_with_callbacks` makes an emulator with a blank screen of
    /// the given size, nothing scrolled off, nothing scrolled back, and nothing
    /// read in part.
    #[verifier::external_body]
    fn new(rows: u16, cols: u16, limit: usize, replies: Replies) -> (emulator: Self)
        requires
            rows > 0,
            cols > 0,
        ensures
            screen_of(emulator) == blank_screen(rows, cols, limit),
            unfinished_in(emulator) == Seq::<u8>::empty(),
            waiting_in(emulator) == replies@,
            screen_size(screen_of(emulator)) == (rows, cols),
            screen_offset(screen_of(emulator)) == 0,
            !alternate_shown(screen_of(emulator)),
            normal_history(screen_of(emulator)) == 0,
            screen_limit(screen_of(emulator)) == limit,
            screen_whole(screen_of(emulator)),
    {
        Emulator { parser: vt100::Parser::new_with_callbacks(rows, cols, limit, replies) }
    }

    /// `Parser::process` interprets output. It keeps the size and the limit,
    /// never scrolls back a live screen, leaves no half of a double-width
    /// character alone, and hands the queries among the bytes to [`Replies`] in
    /// order. Rows that it scrolls off the normal grid are held as far as the
    /// limit goes, and a scrolled-back view of that grid keeps its place among
    /// them, unless it shows the alternate grid or resets the screen, which takes
    /// an escape character. What else becomes of the screen is vt100's whole
    /// grammar and is only named, but for what the terminal itself writes from a
    /// fresh start. A switch shows the other grid. Clearing an edge leaves no
    /// character across it in either grid, and shows the other one. A run's banner
    /// shows the normal grid, adds its rows below what was there, asks for no
    /// reply and ends with nothing unfinished.
    #[verifier::external_body]
    fn process(&mut self, bytes: &[u8])
        requires
            workable(screen_of(*old(self))),
        ensures
            ({
                let before = screen_of(*old(self));
                let after = emulation(before, unfinished_in(*old(self)), bytes@);
                &&& screen_of(*final(self)) == after.screen
                &&& unfinished_in(*final(self)) == after.unfinished
                &&& waiting_in(*final(self)) == replied(waiting_in(*old(self)), after.queries)
                &&& screen_size(screen_of(*final(self))) == screen_size(before)
                &&& screen_limit(screen_of(*final(self))) == screen_limit(before)
                &&& screen_offset(before) == 0 ==> screen_offset(screen_of(*final(self))) == 0
                &&& screen_whole(screen_of(*final(self)))
            }),
            ({
                let before = screen_of(*old(self));
                let after = emulation(before, unfinished_in(*old(self)), bytes@);
                &&& after.undisturbed && !alternate_shown(before) ==> {
                    &&& kept_in_place(before, screen_of(*final(self)), after.pushed)
                    &&& screen_offset(before) >= screen_size(before).0 && screen_offset(before)
                        + after.pushed <= screen_limit(before) ==> screen_rows(
                        screen_of(*final(self)),
                    ) == screen_rows(before)
                }
                &&& unfinished_in(*old(self)).len() == 0 && !bytes@.contains(0x1b)
                    ==> after.undisturbed
            }),
            ({
                let before = screen_of(*old(self));
                unfinished_in(*old(self)).len() == 0 && bytes@ == encode_utf8(
                    grid_switch(alternate_shown(before)),
                ) ==> {
                    &&& alternate_shown(screen_of(*final(self))) != alternate_shown(before)
                    &&& normal_history(screen_of(*final(self))) == normal_history(before)
                    &&& unfinished_in(*final(self)).len() == 0
                }
            }),
            forall|cols: u16, first: (u16, u16), second: (u16, u16)|
                unfinished_in(*old(self)).len() == 0 && cols < screen_size(screen_of(*old(self))).1
                    && bytes@ == encode_utf8(
                    #[trigger] edge_clearing(
                        alternate_shown(screen_of(*old(self))),
                        screen_size(screen_of(*old(self))).0,
                        cols,
                        first,
                        second,
                    ),
                ) ==> {
                    &&& cuttable(screen_of(*final(self)), cols)
                    &&& alternate_shown(screen_of(*final(self))) != alternate_shown(
                        screen_of(*old(self)),
                    )
                    &&& normal_history(screen_of(*final(self))) == normal_history(
                        screen_of(*old(self)),
                    )
                },
            forall|run: u64|
                unfinished_in(*old(self)).len() == 0 && bytes@ == encode_utf8(
                    #[trigger] run_banner(screen_size(screen_of(*old(self))).0, run),
                ) ==> {
                    let before = screen_of(*old(self));
                    let added = banner_rows(screen_size(before).1, run);
                    let after = emulation(before, unfinished_in(*old(self)), bytes@);
                    &&& unfinished_in(*final(self)).len() == 0
                    &&& waiting_in(*final(self)) == waiting_in(*old(self))
                    &&& !alternate_shown(screen_of(*final(self)))
                    &&& normal_history(screen_of(*final(self))) == held(
                        before,
                        normal_history(before) + added.len(),
                    )
                    &&& normal_rows(screen_of(*final(self))) == (normal_rows(before) + added).skip(
                        added.len() as int,
                    )
                    &&& screen_offset(screen_of(*final(self))) == 0 ==> screen_rows(
                        screen_of(*final(self)),
                    ) == normal_rows(screen_of(*final(self)))
                    &&& alternate_shown(before) ==> screen_offset(screen_of(*final(self))) == 0
                    &&& !alternate_shown(before) ==> after.undisturbed && after.pushed
                        == added.len()
                },
    {
        self.parser.process(bytes);
    }

    /// `Parser::screen` lends the screen. It never holds more scrolled-off rows
    /// than its limit, nor is it scrolled back over more than it holds.
    #[verifier::external_body]
    fn screen(&self) -> (screen: &vt100::Screen)
        ensures
            *screen == screen_of(*self),
            screen_offset(*screen) <= screen_history(*screen) <= screen_limit(*screen),
    {
        self.parser.screen()
    }

    /// `Parser::screen_mut` on both sides and `std::mem::swap`: the screens change
    /// places, the rest of each emulator stays.
    #[verifier::external_body]
    fn swap_screens(&mut self, other: &mut Emulator)
        ensures
            screen_of(*final(self)) == screen_of(*old(other)),
            unfinished_in(*final(self)) == unfinished_in(*old(self)),
            waiting_in(*final(self)) == waiting_in(*old(self)),
            screen_of(*final(other)) == screen_of(*old(self)),
            unfinished_in(*final(other)) == unfinished_in(*old(other)),
            waiting_in(*final(other)) == waiting_in(*old(other)),
    {
        std::mem::swap(self.parser.screen_mut(), other.parser.screen_mut());
    }

    /// `Screen::set_size` gives the screen another size and leaves the scrolled-off
    /// rows and the place among them. Fewer columns cut through what stands
    /// across the new edge.
    #[verifier::external_body]
    fn set_size(&mut self, rows: u16, cols: u16)
        requires
            rows > 0,
            cols > 0,
        ensures
            screen_of(*final(self)) == resized_screen(screen_of(*old(self)), rows, cols),
            unfinished_in(*final(self)) == unfinished_in(*old(self)),
            waiting_in(*final(self)) == waiting_in(*old(self)),
            screen_size(screen_of(*final(self))) == (rows, cols),
            screen_offset(screen_of(*final(self))) == screen_offset(screen_of(*old(self))),
            alternate_shown(screen_of(*final(self))) == alternate_shown(screen_of(*old(self))),
            normal_history(screen_of(*final(self))) == normal_history(screen_of(*old(self))),
            screen_limit(screen_of(*final(self))) == screen_limit(screen_of(*old(self))),
            screen_whole(screen_of(*old(self))) && (cols >= screen_size(screen_of(*old(self))).1
                || cuttable(screen_of(*old(self)), cols)) ==> screen_whole(
                screen_of(*final(self)),
            ),
    {
        self.parser.screen_mut().set_size(rows, cols);
    }

    /// `Screen::set_scrollback` scrolls back to the given number of rows, or to
    /// the oldest row held where there are fewer.
    #[verifier::external_body]
    fn set_scrollback(&mut self, rows: usize)
        ensures
            screen_of(*final(self)) == scrolled_screen(screen_of(*old(self)), rows),
            unfinished_in(*final(self)) == unfinished_in(*old(self)),
            waiting_in(*final(self)) == waiting_in(*old(self)),
            screen_size(screen_of(*final(self))) == screen_size(screen_of(*old(self))),
            screen_offset(screen_of(*final(self))) == if rows <= screen_history(
                screen_of(*old(self)),
            ) {
                rows
            } else {
                screen_history(screen_of(*old(self)))
            },
            alternate_shown(screen_of(*final(self))) == alternate_shown(screen_of(*old(self))),
            normal_history(screen_of(*final(self))) == normal_history(screen_of(*old(self))),
            screen_limit(screen_of(*final(self))) == screen_limit(screen_of(*old(self))),
            screen_whole(screen_of(*old(self))) ==> screen_whole(screen_of(*final(self))),
    {
        self.parser.screen_mut().set_scrollback(rows);
    }

    /// `Parser::callbacks_mut` lends the replies; the emulator itself stays.
    #[verifier::external_body]
    fn replies_mut(&mut self) -> (replies: &mut Replies)
        ensures
            replies@ == waiting_in(*old(self)),
            waiting_in(*final(self)) == final(replies)@,
            screen_of(*final(self)) == screen_of(*old(self)),
            unfinished_in(*final(self)) == unfinished_in(*old(self)),
    {
        self.parser.callbacks_mut()
    }

    /// Blanks the double-width characters that an edge after `cols` columns would
    /// cut, and whatever stands beyond it. The screen is lent to a fresh
    /// emulator for that, so that nothing read in part is disturbed.
    fn clear_edge(&mut self, cols: u16)
        requires
            workable(screen_of(*old(self))),
            cols < screen_size(screen_of(*old(self))).1,
        ensures
            screen_of(*final(self)) == edge_cleared(screen_of(*old(self)), cols),
            unfinished_in(*final(self)) == unfinished_in(*old(self)),
            waiting_in(*final(self)) == waiting_in(*old(self)),
            screen_size(screen_of(*final(self))) == screen_size(screen_of(*old(self))),
            alternate_shown(screen_of(*final(self))) == alternate_shown(screen_of(*old(self))),
            normal_history(screen_of(*final(self))) == normal_history(screen_of(*old(self))),
            screen_limit(screen_of(*final(self))) == screen_limit(screen_of(*old(self))),
            screen_whole(screen_of(*final(self))),
            cuttable(screen_of(*final(self)), cols),
    {
        let cursor = self.screen().cursor_position();
        let alternate = self.screen().alternate_screen();
        let (rows, _) = self.screen().size();
        let mut fresh = Emulator::new(MIN_ROWS, MIN_COLS, 0, Replies(Vec::new()));
        fresh.swap_screens(self);
        assert(unfinished_in(fresh) =~= Seq::<u8>::empty());
        let mut switch = String::new();
        push_switch(&mut switch, alternate);
        assert(switch@ =~= grid_switch(alternate));
        fresh.process(switch.as_str().as_bytes());
        assert(unfinished_in(fresh) =~= Seq::<u8>::empty());
        let other = fresh.screen().cursor_position();
        let mut clearing = String::new();
        push_rows_cleared(&mut clearing, rows, cols);
        push_cursor(&mut clearing, other.0, other.1);
        push_switch(&mut clearing, !alternate);
        push_rows_cleared(&mut clearing, rows, cols);
        push_cursor(&mut clearing, cursor.0, cursor.1);
        assert(clearing@ =~= edge_clearing(!alternate, rows, cols, other, cursor));
        fresh.process(clearing.as_str().as_bytes());
        fresh.swap_screens(self);
    }
}

/// A screen on which the double-width characters are blank that an edge after
/// `cols` columns would cut, and whatever stands beyond it.
pub open spec fn edge_cleared(screen: vt100::Screen, cols: u16) -> vt100::Screen {
    let switch = encode_utf8(grid_switch(alternate_shown(screen)));
    let switched = emulation(screen, Seq::empty(), switch).screen;
    let clearing = encode_utf8(
        edge_clearing(
            alternate_shown(switched),
            screen_size(screen).0,
            cols,
            screen_cursor(switched),
            screen_cursor(screen),
        ),
    );
    emulation(switched, Seq::empty(), clearing).screen
}

/// A screen that shows the normal grid still does after `pushed` rows were
/// scrolled off it. They are held, and a scrolled-back view is as many rows
/// further back, both as far as the limit goes.
pub open spec fn kept_in_place(before: vt100::Screen, after: vt100::Screen, pushed: nat) -> bool {
    &&& !alternate_shown(after)
    &&& normal_history(after) == held(before, normal_history(before) + pushed)
    &&& screen_offset(after) == if screen_offset(before) == 0 {
        0
    } else {
        held(before, screen_offset(before) + pushed)
    }
}

/// What a run's banner makes of a screen. The normal grid is shown, with the
/// label in rows of their own and a blank row below what was there. The rows
/// that this scrolls off are held as far as the limit goes. A live view shows
/// all that, and one that was scrolled back keeps its place.
pub open spec fn banner_shown(before: vt100::Screen, after: vt100::Screen, run: u64) -> bool {
    let added = banner_rows(screen_size(before).1, run);
    &&& !alternate_shown(after)
    &&& normal_history(after) == held(before, normal_history(before) + added.len())
    &&& normal_rows(after) == (normal_rows(before) + added).skip(added.len() as int)
    &&& screen_offset(after) == 0 ==> screen_rows(after) == normal_rows(after)
    &&& alternate_shown(before) ==> screen_offset(after) == 0
    &&& !alternate_shown(before) ==> kept_in_place(before, after, added.len())
}

// ---- The view of one service's terminal ----

/// The number of rows to be scrolled back when scrolling by `rows` from `offset`,
/// however many rows are held: no less than none, no more than can be counted.
pub open spec fn scroll_target(offset: usize, up: bool, rows: usize) -> usize {
    if up {
        if offset + rows <= usize::MAX {
            (offset + rows) as usize
        } else {
            usize::MAX
        }
    } else if rows <= offset {
        (offset - rows) as usize
    } else {
        0
    }
}

/// Where scrolling by `rows` leads from `offset` when `history` rows are held.
pub open spec fn scrolled(offset: usize, history: usize, up: bool, rows: usize) -> usize {
    if scroll_target(offset, up, rows) <= history {
        scroll_target(offset, up, rows)
    } else {
        history
    }
}

/// Scrolling up and then down by as many rows leads back, wherever there were
/// that many older rows to show.
pub proof fn scrolling_is_undone(offset: usize, history: usize, rows: usize)
    requires
        offset + rows <= history,
    ensures
        scrolled(scrolled(offset, history, true, rows), history, false, rows) == offset,
{
}

/// Scrolling up without end shows the oldest rows held, and scrolling down
/// without end resumes live output.
pub proof fn scrolling_reaches_both_ends(offset: usize, history: usize)
    ensures
        scrolled(offset, history, true, usize::MAX) == history,
        scrolled(offset, history, false, usize::MAX) == 0,
{
}

/// The size nearest to `size` that vt100 can work on.
pub open spec fn fitted(size: TerminalSize) -> TerminalSize {
    TerminalSize {
        rows: if size.rows < MIN_ROWS {
            MIN_ROWS
        } else {
            size.rows
        },
        cols: if size.cols < MIN_COLS {
            MIN_COLS
        } else if size.cols > MAX_COLS {
            MAX_COLS
        } else {
            size.cols
        },
    }
}

/// The size nearest to `size` that a terminal can have.
#[must_use]
pub fn fit(size: TerminalSize) -> (fit: TerminalSize)
    ensures
        fit == fitted(size),
{
    let rows: u16 = if size.rows < MIN_ROWS {
        MIN_ROWS
    } else {
        size.rows
    };
    let cols: u16 = if size.cols < MIN_COLS {
        MIN_COLS
    } else if size.cols > MAX_COLS {
        MAX_COLS
    } else {
        size.cols
    };
    TerminalSize { rows, cols }
}

/// A service's terminal: what it shows and what it has to answer.
pub struct TerminalView {
    pub emulator: Emulator,
    pub received_output: bool,
}

impl TerminalView {
    /// What the terminal shows.
    pub open spec fn shown(self) -> vt100::Screen {
        screen_of(self.emulator)
    }

    /// The control sequence or character that the terminal has read only in part.
    pub open spec fn unfinished(self) -> Seq<u8> {
        unfinished_in(self.emulator)
    }

    /// The replies that wait to be sent.
    pub open spec fn pending(self) -> Seq<u8> {
        waiting_in(self.emulator)
    }

    /// vt100 can work on the screen, and the terminal retains no more rows than
    /// the limit and keeps its replies within theirs.
    pub open spec fn wf(self) -> bool {
        &&& workable(self.shown())
        &&& screen_limit(self.shown()) == HISTORY_LIMIT
        &&& self.pending().len() <= REPLY_LIMIT
    }

    /// The terminal is new, blank and of the given size, as far as vt100 can work
    /// on it.
    pub open spec fn made_with(self, size: TerminalSize) -> bool {
        &&& self.shown() == blank_screen(fitted(size).rows, fitted(size).cols, HISTORY_LIMIT)
        &&& self.unfinished() == Seq::<u8>::empty()
        &&& self.pending() == Seq::<u8>::empty()
        &&& !self.received_output
        &&& screen_size(self.shown()) == (fitted(size).rows, fitted(size).cols)
        &&& screen_offset(self.shown()) == 0
        &&& !alternate_shown(self.shown())
        &&& normal_history(self.shown()) == 0
    }

    /// `next` is this terminal after it was fed `bytes`: the size stays, live
    /// output stays live, a scrolled-back view of the normal grid keeps its place
    /// while that grid stays undisturbed, and the queries among the bytes are
    /// answered. A view of nothing but scrolled-off rows stays the same as long
    /// as they are held. Without an escape character, and with nothing read in
    /// part, the grid stays undisturbed.
    pub open spec fn processed_to(self, next: Self, bytes: Seq<u8>) -> bool {
        let after = emulation(self.shown(), self.unfinished(), bytes);
        &&& next.shown() == after.screen
        &&& next.unfinished() == after.unfinished
        &&& next.pending() == replied(self.pending(), after.queries)
        &&& next.received_output == (self.received_output || bytes.len() > 0)
        &&& screen_size(next.shown()) == screen_size(self.shown())
        &&& screen_offset(self.shown()) == 0 ==> screen_offset(next.shown()) == 0
        &&& after.undisturbed && !alternate_shown(self.shown()) ==> {
            &&& kept_in_place(self.shown(), next.shown(), after.pushed)
            &&& screen_offset(self.shown()) >= screen_size(self.shown()).0 && screen_offset(
                self.shown(),
            ) + after.pushed <= screen_limit(self.shown()) ==> screen_rows(next.shown())
                == screen_rows(self.shown())
        }
        &&& self.unfinished().len() == 0 && !bytes.contains(0x1b) ==> after.undisturbed
    }

    /// `next` is this terminal at the start of a run. The first run changes
    /// nothing. A later one drops what was read in part and unsent replies,
    /// keeps the screen and writes the run's banner on it, after which nothing
    /// is read in part and no reply waits.
    pub open spec fn run_started_to(self, next: Self, run: u64) -> bool {
        let size = screen_size(self.shown());
        let banner = encode_utf8(run_banner(size.0, run));
        let after = emulation(self.shown(), Seq::empty(), banner);
        if run <= 1 {
            next == self
        } else {
            &&& next.shown() == after.screen
            &&& next.unfinished() == Seq::<u8>::empty()
            &&& next.pending() == Seq::<u8>::empty()
            &&& next.received_output == self.received_output
            &&& banner_shown(self.shown(), next.shown(), run)
            &&& screen_size(next.shown()) == size
            &&& screen_offset(self.shown()) == 0 ==> screen_offset(next.shown()) == 0
        }
    }

    /// `next` is this terminal with another size, as far as vt100 can work on it;
    /// with the same size, it is this terminal itself. Where columns are lost, a
    /// double-width character that the new edge would cut is blank before, and
    /// the place in the history is the same.
    pub open spec fn resized_to(self, next: Self, size: TerminalSize) -> bool {
        let TerminalSize { rows, cols } = fitted(size);
        if screen_size(self.shown()) == (rows, cols) {
            next == self
        } else {
            &&& next.shown() == if cols < screen_size(self.shown()).1 {
                scrolled_screen(
                    resized_screen(edge_cleared(self.shown(), cols), rows, cols),
                    screen_offset(self.shown()),
                )
            } else {
                resized_screen(self.shown(), rows, cols)
            }
            &&& next.unfinished() == self.unfinished()
            &&& next.pending() == self.pending()
            &&& next.received_output == self.received_output
            &&& screen_size(next.shown()) == (rows, cols)
            &&& screen_offset(next.shown()) == screen_offset(self.shown())
            &&& alternate_shown(next.shown()) == alternate_shown(self.shown())
            &&& normal_history(next.shown()) == normal_history(self.shown())
        }
    }

    /// `next` is this terminal scrolled by `rows`.
    pub open spec fn scrolled_to(self, next: Self, up: bool, rows: usize) -> bool {
        &&& next.shown() == scrolled_screen(
            self.shown(),
            scroll_target(screen_offset(self.shown()), up, rows),
        )
        &&& next.unfinished() == self.unfinished()
        &&& next.pending() == self.pending()
        &&& next.received_output == self.received_output
        &&& screen_size(next.shown()) == screen_size(self.shown())
        &&& screen_offset(next.shown()) == scrolled(
            screen_offset(self.shown()),
            screen_history(self.shown()),
            up,
            rows,
        )
        &&& alternate_shown(next.shown()) == alternate_shown(self.shown())
        &&& normal_history(next.shown()) == normal_history(self.shown())
    }

    #[must_use]
    pub fn new(size: TerminalSize) -> (terminal: Self)
        ensures
            terminal.wf(),
            terminal.made_with(size),
    {
        let TerminalSize { rows, cols } = fit(size);
        TerminalView {
            emulator: Emulator::new(rows, cols, HISTORY_LIMIT, Replies(Vec::new())),
            received_output: false,
        }
    }

    /// Feeds output to the terminal.
    pub fn process(&mut self, bytes: &[u8])
        requires
            old(self).wf(),
        ensures
            final(self).wf(),
            old(self).processed_to(*final(self), bytes@),
    {
        if bytes.len() > 0 {
            self.received_output = true;
        }
        self.emulator.process(bytes);
        proof {
            replies_are_bounded_and_kept(
                old(self).pending(),
                emulation(old(self).shown(), old(self).unfinished(), bytes@).queries,
            );
        }
    }

    /// Separates a later run from what came before, which stays on the screen.
    pub fn start_run(&mut self, run: u64)
        requires
            old(self).wf(),
        ensures
            final(self).wf(),
            old(self).run_started_to(*final(self), run),
    {
        if run <= 1 {
            return;
        }
        let (rows, cols) = self.emulator.screen().size();
        // A new parser drops incomplete escape sequences from the old process.
        let mut renewed = Emulator::new(rows, cols, HISTORY_LIMIT, Replies(Vec::new()));
        renewed.swap_screens(&mut self.emulator);
        self.emulator = renewed;
        assert(self.unfinished() =~= Seq::<u8>::empty());
        assert(self.pending() =~= Seq::<u8>::empty());
        let mut banner = "\x1b[?1049l\x1b[0m\x1b[r\x1b[?7h\x1b[?25h\x1b[".to_owned();
        push_decimal(&mut banner, rows as u64);
        banner.push_str(";1H\r\n");
        banner.push_str("--- run ");
        push_decimal(&mut banner, run);
        banner.push_str(" ---");
        banner.push_str("\r\n");
        assert(banner@ =~= run_banner(rows, run));
        self.emulator.process(banner.as_str().as_bytes());
        assert(self.unfinished() =~= Seq::<u8>::empty());
    }

    /// Gives the terminal another size, unless it has that size already.
    pub fn resize(&mut self, size: TerminalSize)
        requires
            old(self).wf(),
        ensures
            final(self).wf(),
            old(self).resized_to(*final(self), size),
    {
        let TerminalSize { rows, cols } = fit(size);
        let (old_rows, old_cols) = self.emulator.screen().size();
        if cols < old_cols {
            let offset = self.offset();
            self.emulator.clear_edge(cols);
            self.emulator.set_size(rows, cols);
            self.emulator.set_scrollback(offset);
        } else if rows != old_rows || cols != old_cols {
            self.emulator.set_size(rows, cols);
        }
    }

    /// Scrolls up towards older rows or down towards the live screen, as far
    /// as there are rows.
    pub fn scroll(&mut self, up: bool, rows: usize)
        ensures
            old(self).wf() ==> final(self).wf(),
            old(self).scrolled_to(*final(self), up, rows),
    {
        let offset = self.offset();
        self.emulator.set_scrollback(
            if up {
                offset.saturating_add(rows)
            } else {
                offset.saturating_sub(rows)
            },
        );
    }

    /// How many rows the terminal is scrolled back.
    #[must_use]
    pub fn offset(&self) -> (offset: usize)
        ensures
            offset == screen_offset(self.shown()),
            offset <= screen_history(self.shown()),
            self.wf() ==> offset <= HISTORY_LIMIT,
    {
        self.emulator.screen().scrollback()
    }

    /// What the terminal shows.
    #[must_use]
    pub fn screen(&self) -> (screen: &vt100::Screen)
        ensures
            *screen == self.shown(),
    {
        self.emulator.screen()
    }

    /// Takes the replies that wait to be sent.
    pub fn take_replies(&mut self) -> (bytes: Vec<u8>)
        ensures
            bytes@ == old(self).pending(),
            final(self).pending() == Seq::<u8>::empty(),
            final(self).shown() == old(self).shown(),
            final(self).unfinished() == old(self).unfinished(),
            final(self).received_output == old(self).received_output,
            old(self).wf() ==> final(self).wf(),
    {
        let mut bytes = Vec::new();
        let replies = self.emulator.replies_mut();
        std::mem::swap(&mut replies.0, &mut bytes);
        bytes
    }
}

/// A scrolled-back view of the normal grid stays scrolled back while output
/// arrives that neither shows the alternate grid nor resets the screen. It is
/// one row further back for each row that scrolls off, as long as there is room
/// for the rows in between.
pub proof fn scrolled_back_views_keep_their_place(
    terminal: TerminalView,
    next: TerminalView,
    bytes: Seq<u8>,
)
    requires
        terminal.wf(),
        terminal.processed_to(next, bytes),
        !alternate_shown(terminal.shown()),
        screen_offset(terminal.shown()) > 0,
        emulation(terminal.shown(), terminal.unfinished(), bytes).undisturbed,
    ensures
        screen_offset(next.shown()) > 0,
        ({
            let pushed = emulation(terminal.shown(), terminal.unfinished(), bytes).pushed;
            screen_offset(terminal.shown()) + pushed <= HISTORY_LIMIT ==> screen_offset(
                next.shown(),
            ) == screen_offset(terminal.shown()) + pushed
        }),
{
}

/// Output without escape characters leaves a view of nothing but scrolled-off
/// rows as it is, as long as there is room for the rows in between.
pub proof fn plain_output_leaves_the_history_in_view(
    terminal: TerminalView,
    next: TerminalView,
    bytes: Seq<u8>,
)
    requires
        terminal.wf(),
        terminal.processed_to(next, bytes),
        terminal.unfinished().len() == 0,
        !bytes.contains(0x1b),
        !alternate_shown(terminal.shown()),
        screen_offset(terminal.shown()) >= screen_size(terminal.shown()).0,
        screen_offset(terminal.shown()) + emulation(
            terminal.shown(),
            terminal.unfinished(),
            bytes,
        ).pushed <= HISTORY_LIMIT,
    ensures
        screen_rows(next.shown()) == screen_rows(terminal.shown()),
{
}

// ---- Which queries are answered ----

/// A query without intermediate bytes and with at most one parameter is answered:
/// device status, the cursor's row and column counted from one, device
/// attributes, and the size of the screen. A parameter that is left out is zero.
pub proof fn known_queries_are_answered(query: Query)
    requires
        query.intermediate is None && query.second is None,
        query.params.len() <= 1,
    ensures
        ({
            let given = if query.params.len() == 1 && query.params[0].len() > 0 {
                query.params[0][0]
            } else {
                0u16
            };
            &&& query.command == 'n' && given == 5 ==> query.answer() == Some("\x1b[0n"@)
            &&& query.command == 'n' && given == 6 ==> query.answer() == Some(
                "\x1b["@ + decimal((query.cursor.0 + 1) as nat) + ";"@ + decimal(
                    (query.cursor.1 + 1) as nat,
                ) + "R"@,
            )
            &&& query.command == 'c' && given == 0 ==> query.answer() == Some("\x1b[?1;2c"@)
            &&& query.command == 't' && given == 18 ==> query.answer() == Some(
                "\x1b[8;"@ + decimal(query.size.0 as nat) + ";"@ + decimal(query.size.1 as nat)
                    + "t"@,
            )
            &&& !(query.command == 'n' && (given == 5 || given == 6)) && !(query.command == 'c'
                && given == 0) && !(query.command == 't' && given == 18) ==> query.answer() is None
        }),
{
}

/// A query with intermediate bytes or more parameters goes unanswered.
pub proof fn other_queries_go_unanswered(query: Query)
    requires
        query.intermediate is Some || query.second is Some || query.params.len() > 1,
    ensures
        query.answer() is None,
{
}

/// Each answer joins those that wait, whole and at the end, as long as they all
/// stay within 32 KiB. One that would not fit is dropped, and so is nothing else.
pub proof fn answers_wait_in_order(pending: Seq<u8>, queries: Seq<Query>, query: Query)
    ensures
        replied(pending, Seq::empty()) == pending,
        ({
            let before = replied(pending, queries);
            let after = replied(pending, queries.push(query));
            match query.answer() {
                Some(reply) => {
                    let bytes = encode_utf8(reply);
                    &&& before.len() + bytes.len() <= 32_768 ==> after == before + bytes
                    &&& before.len() + bytes.len() > 32_768 ==> after == before
                },
                None => after == before,
            }
        }),
{
    assert(queries.push(query).drop_last() =~= queries);
}

// ---- What a terminal does with output, runs, sizes and scrolling ----

/// Output goes to the screen from where the last output left off, the queries
/// among it are answered, and the terminal has received output from the first
/// byte on. The size stays, and so does a live view.
pub proof fn output_reaches_the_screen(terminal: TerminalView, next: TerminalView, bytes: Seq<u8>)
    requires
        terminal.processed_to(next, bytes),
    ensures
        ({
            let after = emulation(terminal.shown(), terminal.unfinished(), bytes);
            &&& next.shown() == after.screen
            &&& next.unfinished() == after.unfinished
            &&& next.pending() == replied(terminal.pending(), after.queries)
        }),
        bytes.len() > 0 ==> next.received_output,
        bytes.len() == 0 ==> next.received_output == terminal.received_output,
        terminal.received_output ==> next.received_output,
        screen_size(next.shown()) == screen_size(terminal.shown()),
        screen_offset(terminal.shown()) == 0 ==> screen_offset(next.shown()) == 0,
{
}

/// The first run finds the terminal as it is.
pub proof fn the_first_run_changes_nothing(terminal: TerminalView, next: TerminalView, run: u64)
    requires
        terminal.run_started_to(next, run),
        run <= 1,
    ensures
        next == terminal,
{
}

/// A text in rows is the text: nothing is lost or added, every row but the last is
/// full, and none is wider than the screen.
pub proof fn rows_hold_the_text(text: Seq<char>, width: nat)
    requires
        width > 0,
    ensures
        ({
            let rows = in_rows(text, width);
            &&& rows.len() > 0
            &&& rows.flatten() == text
            &&& forall|i: int| 0 <= i < rows.len() ==> (#[trigger] rows[i]).len() <= width
            &&& forall|i: int| 0 <= i < rows.len() - 1 ==> (#[trigger] rows[i]).len() == width
        }),
    decreases text.len(),
{
    reveal_with_fuel(Seq::flatten, 2);
    let rows = in_rows(text, width);
    if text.len() <= width {
        assert(rows.drop_first() =~= Seq::<Seq<char>>::empty());
        assert(rows.flatten() =~= text);
    } else {
        let rest = in_rows(text.skip(width as int), width);
        rows_hold_the_text(text.skip(width as int), width);
        assert(rows.drop_first() =~= rest);
        assert(rows.flatten() =~= text);
        assert forall|i: int| 1 <= i < rows.len() implies #[trigger] rows[i] == rest[i - 1] by {}
    }
}

/// A later run drops what was read in part and the replies that wait, and is
/// announced on the normal grid: below the rows that were there stand the run's
/// label and a blank row, and as many rows are scrolled off as these take. Nothing
/// of that counts as output, and the size stays.
pub proof fn a_later_run_is_announced(terminal: TerminalView, next: TerminalView, run: u64)
    requires
        terminal.run_started_to(next, run),
        run > 1,
    ensures
        ({
            let before = terminal.shown();
            let after = next.shown();
            let label = in_rows(
                "--- run "@ + decimal(run as nat) + " ---"@,
                screen_size(before).1 as nat,
            );
            let added = label.push(Seq::<char>::empty());
            let rows = normal_history(before) + added.len();
            let text = "\x1b[?1049l\x1b[0m\x1b[r\x1b[?7h\x1b[?25h\x1b["@ + decimal(
                screen_size(before).0 as nat,
            ) + ";1H\r\n"@ + ("--- run "@ + decimal(run as nat) + " ---"@) + "\r\n"@;
            &&& after == emulation(before, Seq::empty(), encode_utf8(text)).screen
            &&& next.unfinished().len() == 0
            &&& next.pending().len() == 0
            &&& next.received_output == terminal.received_output
            &&& screen_size(after) == screen_size(before)
            &&& !alternate_shown(after)
            &&& normal_rows(after) == (normal_rows(before) + added).skip(added.len() as int)
            &&& normal_history(after) == if rows <= screen_limit(before) {
                rows
            } else {
                screen_limit(before) as int
            }
            &&& screen_offset(before) == 0 || alternate_shown(before) ==> screen_offset(after) == 0
                && screen_rows(after) == normal_rows(after)
            &&& screen_offset(before) > 0 && !alternate_shown(before) && screen_offset(before)
                + added.len() <= screen_limit(before) ==> screen_offset(after) == screen_offset(
                before,
            ) + added.len()
        }),
{
}

/// A terminal holds ten thousand scrolled-off rows, and a new one holds none, is
/// live, has received nothing and has nothing to answer.
pub proof fn terminals_hold_ten_thousand_rows(terminal: TerminalView, size: TerminalSize)
    ensures
        terminal.wf() ==> screen_limit(terminal.shown()) == 10_000 && terminal.pending().len()
            <= 32_768,
        terminal.made_with(size) ==> {
            &&& terminal.shown() == blank_screen(fitted(size).rows, fitted(size).cols, 10_000)
            &&& screen_size(terminal.shown()) == (fitted(size).rows, fitted(size).cols)
            &&& screen_offset(terminal.shown()) == 0 && normal_history(terminal.shown()) == 0
            &&& !alternate_shown(terminal.shown())
            &&& terminal.unfinished().len() == 0 && terminal.pending().len() == 0
            &&& !terminal.received_output
        },
{
}

/// A terminal has the size that it is given, from two rows and three columns on,
/// and up to the columns that can be counted.
pub proof fn sizes_are_kept_where_they_can_be(size: TerminalSize)
    ensures
        size.rows >= 2 ==> fitted(size).rows == size.rows,
        size.rows < 2 ==> fitted(size).rows == 2,
        3 <= size.cols <= 65_527 ==> fitted(size).cols == size.cols,
        size.cols < 3 ==> fitted(size).cols == 3,
        size.cols > 65_527 ==> fitted(size).cols == 65_527,
{
}

/// Another size changes the screen and nothing else: the place in the history,
/// the rows held, the grid in view, what was read in part and the replies that
/// wait are as they were. The size that a terminal has already changes nothing.
pub proof fn another_size_keeps_the_rest(
    terminal: TerminalView,
    next: TerminalView,
    size: TerminalSize,
)
    requires
        terminal.resized_to(next, size),
    ensures
        screen_size(next.shown()) == (fitted(size).rows, fitted(size).cols),
        screen_offset(next.shown()) == screen_offset(terminal.shown()),
        alternate_shown(next.shown()) == alternate_shown(terminal.shown()),
        normal_history(next.shown()) == normal_history(terminal.shown()),
        next.unfinished() == terminal.unfinished(),
        next.pending() == terminal.pending(),
        next.received_output == terminal.received_output,
        screen_size(terminal.shown()) == (fitted(size).rows, fitted(size).cols) ==> next
            == terminal,
        screen_size(terminal.shown()) != (fitted(size).rows, fitted(size).cols)
            && fitted(size).cols >= screen_size(terminal.shown()).1 ==> next.shown()
            == resized_screen(terminal.shown(), fitted(size).rows, fitted(size).cols),
{
}

/// Scrolling up shows as many older rows, and scrolling down as many newer ones,
/// as far as there are any, and changes nothing but what is in view.
pub proof fn scrolling_moves_the_view(
    terminal: TerminalView,
    next: TerminalView,
    up: bool,
    rows: usize,
)
    requires
        terminal.scrolled_to(next, up, rows),
        screen_offset(terminal.shown()) <= screen_history(terminal.shown()),
    ensures
        ({
            let offset = screen_offset(terminal.shown());
            let history = screen_history(terminal.shown());
            let reached = screen_offset(next.shown());
            &&& up && offset + rows <= history ==> reached == offset + rows
            &&& up && offset + rows > history ==> reached == history
            &&& !up && rows <= offset ==> reached == offset - rows
            &&& !up && rows > offset ==> reached == 0
            &&& next.shown() == scrolled_screen(
                terminal.shown(),
                if up && offset + rows > usize::MAX {
                    usize::MAX
                } else if up {
                    (offset + rows) as usize
                } else if rows > offset {
                    0
                } else {
                    (offset - rows) as usize
                },
            )
        }),
        screen_size(next.shown()) == screen_size(terminal.shown()),
        normal_history(next.shown()) == normal_history(terminal.shown()),
        alternate_shown(next.shown()) == alternate_shown(terminal.shown()),
        next.unfinished() == terminal.unfinished(),
        next.pending() == terminal.pending(),
        next.received_output == terminal.received_output,
{
}

/// Fewer columns cut nothing in half: first both grids are cleared beyond the new
/// edge, row by row, each with its cursor put back, and only then the screen gets
/// its size and its place in the history.
pub proof fn fewer_columns_cut_nothing_in_half(
    terminal: TerminalView,
    next: TerminalView,
    size: TerminalSize,
)
    requires
        terminal.resized_to(next, size),
        fitted(size).cols < screen_size(terminal.shown()).1,
    ensures
        ({
            let before = terminal.shown();
            let (rows, cols) = (screen_size(before).0, fitted(size).cols);
            let there = if alternate_shown(before) {
                "\x1b[?47l"@
            } else {
                "\x1b[?47h"@
            };
            let other = emulation(before, Seq::empty(), encode_utf8(there)).screen;
            let back = if alternate_shown(other) {
                "\x1b[?47l"@
            } else {
                "\x1b[?47h"@
            };
            let (first, second) = (screen_cursor(other), screen_cursor(before));
            let text = rows_cleared(rows as nat, cols) + cursor_put(
                first.0 as nat,
                first.1 as nat,
            ) + back + rows_cleared(rows as nat, cols) + cursor_put(
                second.0 as nat,
                second.1 as nat,
            );
            let cleared = emulation(other, Seq::empty(), encode_utf8(text)).screen;
            next.shown() == scrolled_screen(
                resized_screen(cleared, fitted(size).rows, cols),
                screen_offset(before),
            )
        }),
{
}

/// Rows are cleared one after the other, each from the edge to its end, and rows
/// and columns are counted from one.
pub proof fn rows_are_cleared_one_by_one(rows: nat, cols: u16, column: nat)
    ensures
        rows_cleared(0, cols).len() == 0,
        rows_cleared(rows + 1, cols) == rows_cleared(rows, cols) + cursor_put(rows, cols as nat)
            + "\x1b[K"@,
        cursor_put(rows, column) == "\x1b["@ + decimal(rows + 1) + "d\x1b["@ + decimal(column + 1)
            + "G"@,
{
}

} // verus!
