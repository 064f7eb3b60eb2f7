use gateway_support::lines::split_lines;
use std::io::BufRead;

fn std_lines(bytes: &[u8]) -> Vec<String> {
    bytes.lines().filter_map(|line| line.ok()).collect()
}

#[test]
fn split_at_line_feeds() {
    let found = split_lines(b"one\ntwo\nthree\n");
    assert_eq!(found.lines, vec!["one", "two", "three"]);
    assert_eq!(found.skipped, 0);
}

#[test]
fn last_line_needs_no_line_feed() {
    let found = split_lines(b"one\ntwo");
    assert_eq!(found.lines, vec!["one", "two"]);
    assert_eq!(found.skipped, 0);
}

#[test]
fn carriage_return_before_line_feed_is_dropped() {
    let found = split_lines(b"one\r\ntwo\r\n");
    assert_eq!(found.lines, vec!["one", "two"]);
}

#[test]
fn lone_carriage_return_stays() {
    let found = split_lines(b"a\rb\nc\r");
    assert_eq!(found.lines, vec!["a\rb", "c\r"]);
    let found = split_lines(b"a\r\r\n");
    assert_eq!(found.lines, vec!["a\r"]);
}

#[test]
fn empty_file_has_no_lines() {
    let found = split_lines(b"");
    assert!(found.lines.is_empty());
    assert_eq!(found.skipped, 0);
}

#[test]
fn empty_lines_are_lines() {
    let found = split_lines(b"\n\nx\n\n");
    assert_eq!(found.lines, vec!["", "", "x", ""]);
}

#[test]
fn undecodable_lines_are_left_out_and_counted() {
    let found = split_lines(b"good\n\xff\xfe bad\nalso good\n\xc3\n");
    assert_eq!(found.lines, vec!["good", "also good"]);
    assert_eq!(found.skipped, 2);
}

#[test]
fn multibyte_text_is_decoded() {
    let found = split_lines("gr\u{fc}\u{df}e\n\u{65e5}\u{672c}\u{8a9e}\n\u{1f600}".as_bytes());
    assert_eq!(found.lines, vec!["gr\u{fc}\u{df}e", "\u{65e5}\u{672c}\u{8a9e}", "\u{1f600}"]);
    assert_eq!(found.skipped, 0);
}

#[test]
fn split_agrees_with_std_line_reader() {
    let samples: [&[u8]; 10] = [
        b"",
        b"\n",
        b"\r\n",
        b"\r",
        b"a",
        b"a\nb\r\nc",
        b"a\n\nb\n",
        b"\xff\n ok\n\xe2\x82\n\xe2\x82\xac\n",
        b"tail\r",
        b"x\r\r\n\ry\n",
    ];
    for sample in samples {
        assert_eq!(split_lines(sample).lines, std_lines(sample));
    }
}
