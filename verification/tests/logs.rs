//! Records cut out of streams of bytes.

use accordo::logs::{printable, Decoder, RECORD_LIMIT};

fn records(chunks: &[&[u8]]) -> Vec<String> {
    let mut decoder = Decoder::default();
    let mut records = Vec::new();
    for chunk in chunks {
        records.extend(decoder.push(chunk));
    }
    records.extend(decoder.finish());
    records
}

#[test]
fn lines_become_records() {
    assert_eq!(records(&[b"one\ntwo\n\nfour\n"]), ["one", "two", "", "four"]);
    assert_eq!(records(&[b""]), Vec::<String>::new());
    assert_eq!(records(&[b"\n"]), [""]);
}

#[test]
fn an_unterminated_record_comes_last() {
    let mut decoder = Decoder::default();
    assert_eq!(decoder.push(b"done\nfin"), ["done"]);
    assert!(decoder.push(b"al").is_empty());
    assert_eq!(decoder.finish().unwrap(), "final");
    assert_eq!(decoder.finish(), None);
}

#[test]
fn carriage_returns_separate_records() {
    assert_eq!(records(&[b"10%\r20%\r30%\n"]), ["10%", "20%", "30%"]);
    assert_eq!(records(&[b"one\r\ntwo\r\n"]), ["one", "two"]);
    assert_eq!(records(&[b"one\r\r\ntwo"]), ["one", "two"]);
    assert_eq!(records(&[b"\r\nafter"]), ["", "after"]);
    assert_eq!(records(&[b"one\r\n\ntwo"]), ["one", "", "two"]);
    assert_eq!(records(&[b"\r\r\r"]), Vec::<String>::new());
}

#[test]
fn escape_sequences_are_left_out() {
    assert_eq!(records(&[b"\x1b[31merr\x1b[0m\n"]), ["err"]);
    assert_eq!(records(&[b"\x1b]0;title\x07text\n"]), ["text"]);
    assert_eq!(records(&[b"\x1b]8;;http://x\x1b\\link\x1b]8;;\x1b\\\n"]), ["link"]);
    assert_eq!(records(&[b"\x1bP1$r\x1b\\a\x1b_x\x1b\\b\x1b^y\x1b\\c\x1bXz\x1b\\d"]), ["abcd"]);
    assert_eq!(records(&[b"\x1b(Ba\x1b7b\x1b=c\x1b#8d"]), ["abcd"]);
    assert_eq!(records(&[b"a\x1b[1;2\x1b[3mb"]), ["ab"]);
    assert_eq!(records(&[b"a\x1b[1\x18b\x1b]t\x1ac\x1b\x18d"]), ["abcd"]);
    assert_eq!(records(&[b"a\x1b]t\x1b[31mb"]), ["ab"]);
    assert_eq!(records(&[b"x\x1b[K\rabc\x1b[K\n"]), ["x", "abc"]);
}

#[test]
fn a_line_end_ends_a_sequence() {
    assert_eq!(records(&[b"a\x1b[31\nb"]), ["a", "b"]);
    assert_eq!(records(&[b"a\x1b]title\nb"]), ["a", "b"]);
    assert_eq!(records(&[b"a\x1b\rb"]), ["a", "b"]);
    assert_eq!(records(&["a\u{1b}[é".as_bytes()]), ["aé"]);
}

#[test]
fn controls_are_dropped_and_tabs_kept() {
    assert_eq!(records(&[b"a\x07b\tc\x08d\x7fe\x00f\n"]), ["ab\tcdef"]);
    assert_eq!(records(&["a\u{9b}b\u{85}c\n".as_bytes()]), ["abc"]);
    assert_eq!(printable("a\u{1}\tb\u{80}"), "a\tb");
    for c in '\0'..=char::MAX {
        let kept = printable(c.encode_utf8(&mut [0; 4]));
        assert_eq!(!kept.is_empty(), c == '\t' || !c.is_control(), "{c:?}");
    }
}

#[test]
fn invalid_utf8_is_replaced() {
    assert_eq!(records(&[b"a\xffb\n"]), ["a\u{fffd}b"]);
    assert_eq!(records(&[b"\xe2\x82\n"]), ["\u{fffd}"]);
    assert_eq!(records(&["grün\n".as_bytes()]), ["grün"]);
}

#[test]
fn chunks_make_no_difference() {
    let text = "on\u{1b}[31me€\u{1f600}\r\ntw\u{1b}]0;t\u{1b}\\o\rthr\tee\n\nlast\u{1b}[".as_bytes();
    let whole = records(&[text]);
    assert_eq!(whole, ["one€\u{1f600}", "two", "thr\tee", "", "last"]);
    for cut in 0..=text.len() {
        assert_eq!(records(&[&text[..cut], &text[cut..]]), whole, "{cut}");
    }
    let bytes: Vec<&[u8]> = text.chunks(1).collect();
    assert_eq!(records(&bytes), whole);
}

#[test]
fn long_records_are_split_at_the_limit() {
    assert_eq!(RECORD_LIMIT, 16 * 1024);
    let mut text = vec![b'x'; RECORD_LIMIT];
    text.push(b'\n');
    assert_eq!(records(&[&text]), ["x".repeat(RECORD_LIMIT)]);
    let long = vec![b'y'; 2 * RECORD_LIMIT + 5];
    assert_eq!(
        records(&[&long]),
        [
            "y".repeat(RECORD_LIMIT),
            "y".repeat(RECORD_LIMIT),
            "yyyyy".to_owned()
        ]
    );
}

#[test]
fn characters_are_not_cut_at_the_limit() {
    for (character, width) in [("é", 2), ("€", 3), ("\u{1f600}", 4)] {
        for offset in 0..4 {
            let text = "a".repeat(offset) + &character.repeat(RECORD_LIMIT / width + 2);
            let records = records(&[text.as_bytes()]);
            assert!(records.len() > 1);
            assert_eq!(records.concat(), text);
            for record in &records {
                assert!(record.len() <= RECORD_LIMIT);
                assert!(!record.contains('\u{fffd}'));
            }
        }
    }
}

#[test]
fn no_text_is_lost_between_sequences_and_line_ends() {
    let stream = b"a\x1b7b\x1b[1mc\r\nd\x1b]0;t\x07e\rf\x1bPx\x1b\\g\n\nh";
    let records = records(&[stream]);
    assert_eq!(records, ["abc", "de", "fg", "", "h"]);
    assert_eq!(records.concat(), "abcdefgh");
}
