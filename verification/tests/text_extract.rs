use lsproxy::text::extract_range;
use lsproxy::{Position, TextRange};

fn range(sl: u32, sc: u32, el: u32, ec: u32) -> TextRange {
    TextRange::new(Position::new(sl, sc), Position::new(el, ec))
}

#[test]
fn zero_range_yields_empty() {
    assert_eq!(extract_range("Hello, world!\nsecond", &range(0, 0, 0, 0)), "");
    assert_eq!(extract_range("", &range(0, 0, 0, 0)), "");
    assert_eq!(extract_range("\n\n\n", &range(0, 0, 0, 0)), "");
}

#[test]
fn full_range_yields_whole_content() {
    let content = "Hello, world!\nThis is a test.";
    assert_eq!(extract_range(content, &range(0, 0, 1, 15)), content);
    let one_line = "just one line";
    assert_eq!(extract_range(one_line, &range(0, 0, 0, 13)), one_line);
}

#[test]
fn character_past_line_end_yields_empty_slice() {
    assert_eq!(extract_range("short\nlonger line", &range(0, 99, 0, 120)), "");
    // The overlong start clamps to the first line's end; the rest of the
    // range still comes through.
    assert_eq!(
        extract_range("short\nlonger line", &range(0, 99, 1, 6)),
        "\nlonger"
    );
}

#[test]
fn end_line_clamps_to_last_line() {
    assert_eq!(
        extract_range("alpha\nbeta", &range(1, 0, 9, 99)),
        "beta"
    );
}

#[test]
fn middle_lines_come_whole() {
    let content = "aa\nbb\ncc\ndd";
    assert_eq!(extract_range(content, &range(0, 1, 3, 1)), "a\nbb\ncc\nd");
}

#[test]
fn start_past_content_yields_empty() {
    assert_eq!(extract_range("one\ntwo", &range(5, 0, 6, 10)), "");
}

#[test]
fn inverted_character_range_on_one_line_yields_empty() {
    assert_eq!(extract_range("abcdef", &range(0, 4, 0, 2)), "");
}
