//! Terminal screens, their history and their replies.

use accordo::pty::TerminalSize;
use accordo::terminal::{answer, TerminalView, HISTORY_LIMIT, MAX_COLS, REPLY_LIMIT};
use tui_term::vt100;

#[test]
fn handles_colors_redraws_partial_sequences_and_alternate_screens() {
    let mut terminal = TerminalView::new(TerminalSize::new(4, 20));
    terminal.process(b"old progress\r\x1b[2K\x1b[3");
    terminal.process(b"1mready\x1b[0m");
    assert_eq!(terminal.screen().contents(), "ready");
    assert_eq!(
        terminal.screen().cell(0, 0).unwrap().fgcolor(),
        vt100::Color::Idx(1)
    );
    terminal.process(b"\x1b[?1049h\x1b[2J\x1b[Hother");
    assert_eq!(terminal.screen().contents(), "other");
    terminal.process(b"\x1b[?1049l");
    assert_eq!(terminal.screen().contents(), "ready");
}

#[test]
fn scrollback_stays_anchored_and_is_bounded() {
    let mut terminal = TerminalView::new(TerminalSize::new(3, 20));
    for index in 0..20 {
        terminal.process(format!("line-{index}\r\n").as_bytes());
    }
    terminal.scroll(true, 4);
    let before = terminal.screen().contents();
    terminal.process(b"another\r\n");
    assert_eq!(terminal.screen().contents(), before);
    assert_eq!(terminal.offset(), 5);
    terminal.scroll(false, usize::MAX);
    assert!(terminal.screen().contents().contains("another"));
    for _ in 0..HISTORY_LIMIT + 10 {
        terminal.process(b"line\r\n");
    }
    terminal.scroll(true, usize::MAX);
    assert_eq!(terminal.offset(), HISTORY_LIMIT);
    terminal.resize(TerminalSize::new(10, 40));
    assert_eq!(terminal.screen().size(), (10, 40));
}

#[test]
fn restarts_drop_partial_sequences_and_answer_terminal_queries() {
    let mut terminal = TerminalView::new(TerminalSize::new(4, 20));
    terminal.process(b"previous\x1b[");
    terminal.start_run(2);
    terminal.process(b"new\x1b[6n\x1b[5n");
    assert!(terminal.screen().contents().contains("--- run 2 ---"));
    assert!(terminal.screen().contents().contains("new"));
    assert!(terminal.take_replies().ends_with(b"R\x1b[0n"));
    terminal.scroll(true, usize::MAX);
    assert!(terminal.screen().contents().contains("previous"));
}

#[test]
fn every_known_query_has_its_reply() {
    let ask = |params: &[&[u16]], command| answer(None, None, params, command, (3, 9), (24, 80));
    assert_eq!(ask(&[&[5]], 'n').unwrap(), "\x1b[0n");
    assert_eq!(ask(&[&[6]], 'n').unwrap(), "\x1b[4;10R");
    assert_eq!(ask(&[], 'c').unwrap(), "\x1b[?1;2c");
    assert_eq!(ask(&[&[]], 'c').unwrap(), "\x1b[?1;2c");
    assert_eq!(ask(&[&[0]], 'c').unwrap(), "\x1b[?1;2c");
    assert_eq!(ask(&[&[18]], 't').unwrap(), "\x1b[8;24;80t");
    assert_eq!(ask(&[&[1]], 'c'), None);
    assert_eq!(ask(&[&[7]], 'n'), None);
    assert_eq!(ask(&[&[5], &[6]], 'n'), None);
    assert_eq!(ask(&[&[5]], 'x'), None);
    assert_eq!(answer(Some(b'?'), None, &[&[5]], 'n', (0, 0), (1, 1)), None);
    assert_eq!(
        answer(Some(b'?'), Some(b'$'), &[&[5]], 'n', (0, 0), (1, 1)),
        None
    );
    assert_eq!(
        answer(
            None,
            None,
            &[&[6]],
            'n',
            (u16::MAX, u16::MAX),
            (u16::MAX, u16::MAX)
        )
        .unwrap(),
        "\x1b[65536;65536R"
    );
}

#[test]
fn queries_are_answered_from_the_screen() {
    let mut terminal = TerminalView::new(TerminalSize::new(4, 20));
    terminal.process(b"\x1b[3;5H\x1b[6n\x1b[c\x1b[18t");
    assert_eq!(terminal.take_replies(), b"\x1b[3;5R\x1b[?1;2c\x1b[8;4;20t");
    assert!(terminal.take_replies().is_empty());
    terminal.process(b"\x1b[5");
    assert!(terminal.take_replies().is_empty());
    terminal.process(b"n");
    assert_eq!(terminal.take_replies(), b"\x1b[0n");
}

#[test]
fn replies_are_bounded_and_kept() {
    let mut terminal = TerminalView::new(TerminalSize::new(4, 20));
    for _ in 0..REPLY_LIMIT / 4 {
        terminal.process(b"\x1b[5n");
    }
    terminal.process(b"\x1b[6n");
    let replies = terminal.take_replies();
    assert_eq!(replies.len(), REPLY_LIMIT);
    assert_eq!(replies, b"\x1b[0n".repeat(REPLY_LIMIT / 4));
    terminal.process(b"\x1b[5n");
    assert_eq!(terminal.take_replies(), b"\x1b[0n");
}

#[test]
fn the_first_run_changes_nothing() {
    let mut terminal = TerminalView::new(TerminalSize::new(4, 20));
    terminal.process(b"text\x1b[5n");
    terminal.start_run(1);
    terminal.start_run(0);
    assert_eq!(terminal.screen().contents(), "text");
    assert_eq!(terminal.take_replies(), b"\x1b[0n");
}

#[test]
fn a_later_run_drops_replies_and_leaves_the_alternate_screen() {
    let mut terminal = TerminalView::new(TerminalSize::new(4, 20));
    terminal.process(b"kept\x1b[5n\x1b[31m\x1b[?1049hother");
    terminal.start_run(12);
    assert!(terminal.take_replies().is_empty());
    assert!(terminal.screen().contents().contains("--- run 12 ---"));
    assert!(!terminal.screen().contents().contains("other"));
    assert_eq!(terminal.screen().size(), (4, 20));
    terminal.process(b"x");
    let (row, column) = terminal.screen().cursor_position();
    let cell = terminal.screen().cell(row, column - 1).unwrap();
    assert_eq!(cell.contents(), "x");
    assert_eq!(cell.fgcolor(), vt100::Color::Default);
}

#[test]
fn only_output_counts_as_received() {
    let mut terminal = TerminalView::new(TerminalSize::new(4, 20));
    terminal.process(b"");
    assert!(!terminal.received_output);
    terminal.process(b"x");
    assert!(terminal.received_output);
    terminal.process(b"");
    assert!(terminal.received_output);
}

#[test]
fn scrolling_is_undone_and_reaches_both_ends() {
    let mut terminal = TerminalView::new(TerminalSize::new(3, 20));
    for index in 0..20 {
        terminal.process(format!("line-{index}\r\n").as_bytes());
    }
    terminal.scroll(true, 7);
    terminal.scroll(true, 5);
    terminal.scroll(false, 5);
    assert_eq!(terminal.offset(), 7);
    terminal.scroll(true, usize::MAX);
    assert_eq!(terminal.offset(), 18);
    terminal.scroll(true, 1);
    assert_eq!(terminal.offset(), 18);
    terminal.scroll(false, usize::MAX);
    assert_eq!(terminal.offset(), 0);
    terminal.scroll(false, 1);
    assert_eq!(terminal.offset(), 0);
}

#[test]
fn live_output_stays_live_and_a_size_keeps_the_place() {
    let mut terminal = TerminalView::new(TerminalSize::new(3, 20));
    for index in 0..20 {
        terminal.process(format!("line-{index}\r\n").as_bytes());
        assert_eq!(terminal.offset(), 0);
        assert_eq!(terminal.screen().size(), (3, 20));
    }
    terminal.scroll(true, 6);
    terminal.resize(TerminalSize::new(5, 30));
    assert_eq!(terminal.offset(), 6);
    assert_eq!(terminal.screen().size(), (5, 30));
    terminal.scroll(true, usize::MAX);
    assert_eq!(terminal.offset(), 18);
    terminal.resize(TerminalSize::new(5, 30));
    assert_eq!(terminal.offset(), 18);
}

fn rows(terminal: &TerminalView) -> Vec<String> {
    let (_, cols) = terminal.screen().size();
    terminal.screen().rows(0, cols).collect()
}

#[test]
fn small_terminals_have_room_to_wrap() {
    let mut terminal = TerminalView::new(TerminalSize::new(1, 4));
    assert_eq!(terminal.screen().size(), (2, 4));
    terminal.process(b"abcde");
    assert_eq!(rows(&terminal), ["abcd", "e"]);
    terminal.resize(TerminalSize::new(1, 1));
    assert_eq!(terminal.screen().size(), (2, 3));
    terminal.process("漢字漢\u{17d8}\u{17d8}".as_bytes());
    let mut terminal = TerminalView::new(TerminalSize::new(0, 0));
    assert_eq!(terminal.screen().size(), (2, 3));
    terminal.resize(TerminalSize::new(5, 9));
    assert_eq!(terminal.screen().size(), (5, 9));
}

#[test]
fn wide_terminals_have_room_for_a_tab() {
    let mut terminal = TerminalView::new(TerminalSize::new(2, u16::MAX));
    assert_eq!(terminal.screen().size(), (2, MAX_COLS));
    terminal.process(b"\x1b[65535Gx\t\ty");
    assert_eq!(terminal.screen().size(), (2, MAX_COLS));
}

#[test]
fn narrowing_blanks_what_the_edge_would_cut() {
    let mut terminal = TerminalView::new(TerminalSize::new(3, 6));
    terminal.process("ab漢cd\r\n漢字ef\r\nx".as_bytes());
    terminal.resize(TerminalSize::new(3, 3));
    assert_eq!(rows(&terminal), ["ab", "漢", "x"]);
    assert_eq!(terminal.screen().cursor_position(), (2, 1));
    terminal.process(b"\x1b[1;1H\x1b[K\x1b[2;3Hz");
    assert_eq!(rows(&terminal), ["", "漢z", "x"]);
    let mut terminal = TerminalView::new(TerminalSize::new(2, 4));
    terminal.process("ab漢".as_bytes());
    terminal.resize(TerminalSize::new(2, 3));
    terminal.process(b"\r\x1b[K");
    assert_eq!(rows(&terminal), ["", ""]);
}

#[test]
fn narrowing_minds_the_hidden_grid_and_both_cursors() {
    let mut terminal = TerminalView::new(TerminalSize::new(3, 6));
    terminal.process("ab漢cd\x1b[2;2H\x1b[?47h\x1b[3;1H漢漢漢\x1b[2;5H".as_bytes());
    assert!(terminal.screen().alternate_screen());
    terminal.resize(TerminalSize::new(3, 3));
    assert!(terminal.screen().alternate_screen());
    assert_eq!(rows(&terminal), ["", "", "漢"]);
    assert_eq!(terminal.screen().cursor_position(), (1, 2));
    terminal.process(b"\x1b[?47l");
    assert_eq!(rows(&terminal), ["ab", "", ""]);
    assert_eq!(terminal.screen().cursor_position(), (1, 1));
    terminal.process(b"\x1b[1;1H\x1b[K");
    let mut terminal = TerminalView::new(TerminalSize::new(3, 6));
    terminal.process("\x1b[?47h\x1b[3;1Ha漢漢\x1b[2;5H\x1b[?47lx".as_bytes());
    terminal.resize(TerminalSize::new(3, 4));
    assert!(!terminal.screen().alternate_screen());
    assert_eq!(rows(&terminal), ["x", "", ""]);
    assert_eq!(terminal.screen().cursor_position(), (0, 1));
    terminal.process(b"\x1b[?47h");
    assert_eq!(rows(&terminal), ["", "", "a漢"]);
    assert_eq!(terminal.screen().cursor_position(), (1, 3));
}

#[test]
fn narrowing_keeps_the_place_the_history_and_what_is_read_in_part() {
    let mut terminal = TerminalView::new(TerminalSize::new(3, 20));
    for index in 0..20 {
        terminal.process(format!("line-{index}\r\n").as_bytes());
    }
    terminal.process(b"\x1b[31m\x1b[3;2r\x1b[?6h\x1b[4");
    terminal.scroll(true, 7);
    terminal.resize(TerminalSize::new(3, 10));
    assert_eq!(terminal.offset(), 7);
    assert!(terminal.take_replies().is_empty());
    terminal.scroll(true, usize::MAX);
    assert_eq!(terminal.offset(), 18);
    terminal.scroll(false, usize::MAX);
    terminal.process(b"mX");
    let (row, column) = terminal.screen().cursor_position();
    let cell = terminal.screen().cell(row, column - 1).unwrap();
    assert_eq!(cell.contents(), "X");
    assert!(cell.underline());
    assert_eq!(cell.fgcolor(), vt100::Color::Idx(1));
}

#[test]
fn a_banner_stands_below_the_old_rows_and_asks_for_nothing() {
    let mut terminal = TerminalView::new(TerminalSize::new(4, 20));
    terminal.process(b"one\r\ntwo\r\nthree\r\nfour\x1b[5n\x1b[2;3r\x1b[?6h\x1b[1;1H");
    terminal.start_run(7);
    assert_eq!(rows(&terminal), ["three", "four", "--- run 7 ---", ""]);
    assert!(terminal.take_replies().is_empty());
    terminal.process(b"next");
    assert_eq!(rows(&terminal), ["three", "four", "--- run 7 ---", "next"]);
    terminal.scroll(true, usize::MAX);
    assert_eq!(terminal.offset(), 2);
    assert_eq!(rows(&terminal), ["one", "two", "three", "four"]);
}

#[test]
fn a_banner_wider_than_the_screen_takes_several_rows() {
    let mut terminal = TerminalView::new(TerminalSize::new(3, 12));
    terminal.process(b"one\r\ntwo\r\nthree");
    terminal.start_run(2);
    assert_eq!(rows(&terminal), ["--- run 2 --", "-", ""]);
    terminal.scroll(true, usize::MAX);
    assert_eq!(terminal.offset(), 3);
    assert_eq!(rows(&terminal), ["one", "two", "three"]);
    let mut terminal = TerminalView::new(TerminalSize::new(3, 13));
    terminal.process(b"one\r\ntwo\r\nthree");
    terminal.start_run(2);
    assert_eq!(rows(&terminal), ["three", "--- run 2 ---", ""]);
    let mut terminal = TerminalView::new(TerminalSize::new(2, 4));
    terminal.start_run(20);
    assert_eq!(rows(&terminal), ["--", ""]);
    terminal.scroll(true, usize::MAX);
    assert_eq!(terminal.offset(), 5);
    terminal.scroll(false, 3);
    assert_eq!(rows(&terminal), ["run ", "20 -"]);
}

#[test]
fn a_banner_follows_the_normal_rows_from_the_alternate_screen() {
    let mut terminal = TerminalView::new(TerminalSize::new(3, 12));
    terminal.process(b"one\r\ntwo\r\nthree\r\nfour\x1b[?1049h\x1b[2J\x1b[Hother");
    terminal.start_run(3);
    assert!(!terminal.screen().alternate_screen());
    assert_eq!(terminal.offset(), 0);
    assert_eq!(rows(&terminal), ["--- run 3 --", "-", ""]);
    terminal.scroll(true, usize::MAX);
    assert_eq!(terminal.offset(), 4);
    assert_eq!(rows(&terminal), ["one", "two", "three"]);
}

#[test]
fn a_banner_leaves_a_scrolled_back_view_in_its_place() {
    let mut terminal = TerminalView::new(TerminalSize::new(3, 20));
    for index in 0..20 {
        terminal.process(format!("line-{index}\r\n").as_bytes());
    }
    terminal.scroll(true, 6);
    let before = rows(&terminal);
    terminal.start_run(2);
    assert_eq!(terminal.offset(), 8);
    assert_eq!(rows(&terminal), before);
    terminal.scroll(false, usize::MAX);
    assert_eq!(rows(&terminal), ["", "--- run 2 ---", ""]);
}

#[test]
fn scrolled_back_views_keep_their_place() {
    let mut terminal = TerminalView::new(TerminalSize::new(3, 10));
    for _ in 0..HISTORY_LIMIT {
        terminal.process(b"line\r\n");
    }
    terminal.scroll(true, HISTORY_LIMIT - 5);
    assert_eq!(terminal.offset(), HISTORY_LIMIT - 5);
    // Two rows fill the history, and a wrapped line scrolls off two more.
    terminal.process(b"a\r\nb\r\n");
    assert_eq!(terminal.offset(), HISTORY_LIMIT - 3);
    terminal.process(b"twelve chars\r\n");
    assert_eq!(terminal.offset(), HISTORY_LIMIT - 1);
    terminal.process(b"c\r\nd\r\ne\r\n");
    assert_eq!(terminal.offset(), HISTORY_LIMIT);
    // The alternate screen is live, and a reset holds nothing.
    terminal.process(b"\x1b[?1049h");
    assert_eq!(terminal.offset(), 0);
    terminal.process(b"\x1b[?1049l");
    terminal.scroll(true, 7);
    assert_eq!(terminal.offset(), 7);
    terminal.process(b"\x1bc");
    assert_eq!(terminal.offset(), 0);
    terminal.scroll(true, 7);
    assert_eq!(terminal.offset(), 0);
}

#[test]
fn no_output_and_no_size_brings_a_terminal_down() {
    let pieces: [&[u8]; 36] = [
        b"a", b"bcdefgh", "漢".as_bytes(), "字漢".as_bytes(), "\u{17d8}".as_bytes(),
        "\u{301}".as_bytes(), "\u{1f600}".as_bytes(), b"\xff", b"\xe6", b"\xbc\xa2", b"\r", b"\n",
        b"\t", b"\x08", b"\x1b7", b"\x1b8", b"\x1bM", b"\x1bc", b"\x1b[?47h", b"\x1b[?47l",
        b"\x1b[?1049h", b"\x1b[?1049l", b"\x1b[?6h", b"\x1b[2;3r", b"\x1b[r", b"\x1b[K", b"\x1b[1K",
        b"\x1b[1J", b"\x1b[2@", b"\x1b[3P", b"\x1b[2X", b"\x1b[L", b"\x1b[2M", b"\x1b[2;3H",
        b"\x1b[S\x1b[2T", b"\x1b[1;4H\x1b[6n",
    ];
    let mut seed: u32 = 1;
    let mut next = |below: usize| {
        seed = seed.wrapping_mul(1_664_525).wrapping_add(1_013_904_223);
        usize::try_from(seed >> 8).unwrap() % below
    };
    let mut terminal = TerminalView::new(TerminalSize::new(1, 1));
    for step in 0..60_000_u64 {
        match next(12) {
            0 => {
                let size = TerminalSize::new(
                    u16::try_from(next(5)).unwrap(),
                    u16::try_from(next(9)).unwrap(),
                );
                terminal.resize(size);
                let fitted = (size.rows.max(2), size.cols.max(3));
                assert_eq!(terminal.screen().size(), fitted);
            }
            1 => terminal.scroll(next(2) == 0, next(9)),
            2 if next(20) == 0 => terminal.start_run(step),
            _ => terminal.process(pieces[next(pieces.len())]),
        }
        let _ = terminal.take_replies();
    }
}
