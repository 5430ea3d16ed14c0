use faiss_rabitq::jsonl::{content_line, json_line_error, trim_line};

#[test]
fn trimming_lines() {
    assert_eq!(trim_line("  {\"embedding\":[1]}\t\r"), "{\"embedding\":[1]}");
    assert_eq!(trim_line("abc"), "abc");
    assert_eq!(trim_line(" \u{3000}a b\u{a0}"), "a b");
    assert_eq!(trim_line("   "), "");
    for s in ["", " x ", "\u{2028}y\u{85}", "\u{200b}z"] {
        assert_eq!(trim_line(s), s.trim());
    }
}

#[test]
fn blank_lines_are_skipped() {
    assert_eq!(content_line(""), None);
    assert_eq!(content_line(" \t "), None);
    assert_eq!(
        content_line(" {\"id\":\"a1\",\"embedding\":[0.12,0.34,0.56]} "),
        Some("{\"id\":\"a1\",\"embedding\":[0.12,0.34,0.56]}")
    );
}

#[test]
fn parse_errors_name_the_line() {
    assert_eq!(
        json_line_error(0, "expected value at line 1 column 1"),
        "failed to parse JSON on line 1: expected value at line 1 column 1"
    );
    assert_eq!(json_line_error(41, "eof"), "failed to parse JSON on line 42: eof");
}

#[test]
fn white_space_agrees_with_std() {
    for code in 0u32..0x3100 {
        if let Some(c) = char::from_u32(code) {
            let s = format!("{c}x{c}");
            assert_eq!(trim_line(&s), s.trim(), "U+{code:04X}");
        }
    }
}
