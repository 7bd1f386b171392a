use match_console::console::{
    color_of, stream_of, Console, ConsoleOp, ConsoleTextKind, Stream, BRIGHT_CYAN, BRIGHT_GREEN,
    BRIGHT_RED, BRIGHT_YELLOW, WHITE,
};
use match_console::line::{expand_to_line, Match};

fn plain_console() -> Console {
    let mut c = Console::new();
    c.is_color = false;
    c
}

fn write(s: Stream, t: &str) -> ConsoleOp {
    ConsoleOp::Write(s, t.to_string())
}

fn flushes() -> Vec<ConsoleOp> {
    vec![ConsoleOp::Flush(Stream::Stdout), ConsoleOp::Flush(Stream::Stderr)]
}

fn stdout_text(ops: &[ConsoleOp]) -> String {
    let mut out = String::new();
    for op in ops {
        if let ConsoleOp::Write(Stream::Stdout, t) = op {
            out.push_str(t);
        }
    }
    out
}

#[test]
fn middle_line_is_bounded_by_separators() {
    let src = b"abc\nXYZ\ndef";
    assert_eq!(expand_to_line(src, &Match { beg: 4, end: 7 }), (4, 7));
}

#[test]
fn middle_line_match_has_no_prefix_or_suffix() {
    let src = b"abc\nXYZ\ndef";
    let mut c = plain_console();
    c.write_match_line(src, &Match { beg: 4, end: 7 });
    let mut expected = vec![write(Stream::Stdout, "XYZ")];
    expected.extend(flushes());
    expected.push(write(Stream::Stdout, "\n"));
    expected.extend(flushes());
    assert_eq!(c.take_ops(), expected);
}

#[test]
fn last_line_without_separator_ends_at_buffer_end() {
    let src = b"hello world";
    let (b, e) = expand_to_line(src, &Match { beg: 6, end: 11 });
    assert_eq!(e, 11);
    assert_eq!(e, src.len());
    assert_eq!(b, 0);
}

#[test]
fn last_line_match_shows_prefix() {
    let src = b"hello world";
    let mut c = plain_console();
    c.write_match_line(src, &Match { beg: 6, end: 11 });
    let ops = c.take_ops();
    assert_eq!(stdout_text(&ops), "hello world\n");
    assert_eq!(ops[0], write(Stream::Stdout, "hello "));
    assert_eq!(ops[3], write(Stream::Stdout, "world"));
}

#[test]
fn match_at_start_begins_line_at_zero() {
    assert_eq!(expand_to_line(b"\nabc", &Match { beg: 0, end: 1 }).0, 0);
    assert_eq!(expand_to_line(b"xyz", &Match { beg: 0, end: 0 }).0, 0);
}

#[test]
fn scan_without_separator_reaches_start() {
    assert_eq!(expand_to_line(b"abcdef", &Match { beg: 4, end: 5 }), (0, 6));
    // the first byte is never tested as a separator
    assert_eq!(expand_to_line(b"\nabc", &Match { beg: 2, end: 3 }), (0, 4));
}

#[test]
fn separator_before_match_starts_line() {
    assert_eq!(expand_to_line(b"ab\rcd\r\nef", &Match { beg: 4, end: 5 }), (3, 5));
    assert_eq!(expand_to_line(b"ab\ncd", &Match { beg: 3, end: 5 }), (3, 5));
}

#[test]
fn empty_match_lies_in_its_line() {
    let src = b"one\ntwo\nthree";
    assert_eq!(expand_to_line(src, &Match { beg: 5, end: 5 }), (4, 7));
    let mut c = plain_console();
    c.write_match_line(src, &Match { beg: 5, end: 5 });
    let ops = c.take_ops();
    assert_eq!(ops[0], write(Stream::Stdout, "t"));
    assert_eq!(ops[3], write(Stream::Stdout, ""));
    assert_eq!(ops[6], write(Stream::Stdout, "wo"));
    assert_eq!(stdout_text(&ops), "two\n");
}

#[test]
fn empty_match_at_buffer_end() {
    let src = b"ab\ncd";
    assert_eq!(expand_to_line(src, &Match { beg: 5, end: 5 }), (3, 5));
    assert_eq!(expand_to_line(b"", &Match { beg: 0, end: 0 }), (0, 0));
}

#[test]
fn empty_match_on_separator_starts_after_it() {
    assert_eq!(expand_to_line(b"a\nb", &Match { beg: 1, end: 1 }), (2, 1));
    let mut c = plain_console();
    c.write_match_line(b"a\nb", &Match { beg: 1, end: 1 });
    assert_eq!(stdout_text(&c.take_ops()), "\n");
}

#[test]
fn plain_output_is_repeatable_and_has_no_colour() {
    let src = b"first\nsecond match here\nthird";
    let m = Match { beg: 13, end: 18 };
    let mut a = plain_console();
    let mut b = plain_console();
    a.write_match_line(src, &m);
    b.write_match_line(src, &m);
    let (oa, ob) = (a.take_ops(), b.take_ops());
    assert_eq!(oa, ob);
    assert!(oa.iter().all(|o| !matches!(o, ConsoleOp::Fg(..) | ConsoleOp::Reset(..))));
    assert_eq!(stdout_text(&oa), "second match here\n");
}

#[test]
fn coloured_output_wraps_each_segment() {
    let src = b"first\nsecond match here\nthird";
    let m = Match { beg: 13, end: 18 };
    let mut plain = plain_console();
    let mut coloured = Console::new();
    plain.write_match_line(src, &m);
    coloured.write_match_line(src, &m);
    let (p, c) = (plain.take_ops(), coloured.take_ops());
    assert_eq!(stdout_text(&p), stdout_text(&c));
    assert_eq!(c.len(), 4 * 7);
    assert_eq!(
        &c[7..14],
        &[
            ConsoleOp::Fg(Stream::Stdout, BRIGHT_YELLOW),
            ConsoleOp::Fg(Stream::Stderr, BRIGHT_YELLOW),
            write(Stream::Stdout, "match"),
            ConsoleOp::Reset(Stream::Stdout),
            ConsoleOp::Reset(Stream::Stderr),
            ConsoleOp::Flush(Stream::Stdout),
            ConsoleOp::Flush(Stream::Stderr),
        ][..]
    );
    assert_eq!(c[0], ConsoleOp::Fg(Stream::Stdout, WHITE));
    assert_eq!(c[21], ConsoleOp::Fg(Stream::Stdout, BRIGHT_CYAN));
}

#[test]
fn match_line_ends_with_one_newline() {
    for (src, m) in [
        (&b"abc\nXYZ\ndef"[..], Match { beg: 4, end: 7 }),
        (&b"abc"[..], Match { beg: 0, end: 3 }),
        (&b"ab\ncd\n"[..], Match { beg: 1, end: 4 }),
    ] {
        let mut c = plain_console();
        c.write_match_line(src, &m);
        let ops = c.take_ops();
        let n = ops.len();
        assert_eq!(ops[n - 3], write(Stream::Stdout, "\n"));
        let text = stdout_text(&ops);
        assert!(text.ends_with('\n'));
        assert!(!text[..text.len() - 1].ends_with('\n'));
    }
}

#[test]
fn suffix_stops_before_carriage_return() {
    let mut c = plain_console();
    c.write_match_line(b"key = value\r\nnext", &Match { beg: 0, end: 3 });
    let ops = c.take_ops();
    assert_eq!(ops[0], write(Stream::Stdout, "key"));
    assert_eq!(ops[3], write(Stream::Stdout, " = value"));
    assert_eq!(stdout_text(&ops), "key = value\n");
}

#[test]
fn invalid_bytes_are_replaced() {
    let mut c = plain_console();
    c.write_match_line(b"a\xffb", &Match { beg: 1, end: 2 });
    let ops = c.take_ops();
    assert_eq!(ops[3], write(Stream::Stdout, "\u{FFFD}"));
    assert_eq!(stdout_text(&ops), "a\u{FFFD}b\n");
}

#[test]
fn errors_go_to_stderr_in_red() {
    let mut c = Console::new();
    c.write(ConsoleTextKind::Error, "failed");
    assert_eq!(
        c.take_ops(),
        vec![
            ConsoleOp::Fg(Stream::Stdout, BRIGHT_RED),
            ConsoleOp::Fg(Stream::Stderr, BRIGHT_RED),
            write(Stream::Stderr, "failed"),
            ConsoleOp::Reset(Stream::Stdout),
            ConsoleOp::Reset(Stream::Stderr),
            ConsoleOp::Flush(Stream::Stdout),
            ConsoleOp::Flush(Stream::Stderr),
        ]
    );
}

#[test]
fn plain_write_only_writes_and_flushes() {
    let mut c = plain_console();
    c.write(ConsoleTextKind::Filename, "src/main.rs");
    let mut expected = vec![write(Stream::Stdout, "src/main.rs")];
    expected.extend(flushes());
    assert_eq!(c.take_ops(), expected);
    assert!(c.take_ops().is_empty());
}

#[test]
fn write_with_clear_clears_first() {
    let mut c = plain_console();
    c.write_with_clear(ConsoleTextKind::Other, "10 files");
    let mut expected = vec![ConsoleOp::CarriageReturn, ConsoleOp::DeleteLine, write(Stream::Stdout, "10 files")];
    expected.extend(flushes());
    assert_eq!(c.take_ops(), expected);
}

#[test]
fn cursor_operations_are_queued_in_order() {
    let mut c = Console::new();
    c.cursor_up();
    c.carriage_return();
    c.delete_line();
    assert_eq!(c.take_ops(), vec![ConsoleOp::CursorUp, ConsoleOp::CarriageReturn, ConsoleOp::DeleteLine]);
    assert!(c.is_color);
}

#[test]
fn palette_matches_terminal_colours() {
    assert_eq!(color_of(ConsoleTextKind::Filename), term::color::BRIGHT_GREEN);
    assert_eq!(color_of(ConsoleTextKind::Text), term::color::WHITE);
    assert_eq!(color_of(ConsoleTextKind::MatchText), term::color::BRIGHT_YELLOW);
    assert_eq!(color_of(ConsoleTextKind::Other), term::color::BRIGHT_CYAN);
    assert_eq!(color_of(ConsoleTextKind::Error), term::color::BRIGHT_RED);
    assert_eq!(BRIGHT_GREEN, term::color::BRIGHT_GREEN);
}

#[test]
fn only_errors_go_to_stderr() {
    assert_eq!(stream_of(ConsoleTextKind::Error), Stream::Stderr);
    assert_eq!(stream_of(ConsoleTextKind::Filename), Stream::Stdout);
    assert_eq!(stream_of(ConsoleTextKind::Text), Stream::Stdout);
    assert_eq!(stream_of(ConsoleTextKind::MatchText), Stream::Stdout);
    assert_eq!(stream_of(ConsoleTextKind::Other), Stream::Stdout);
}
