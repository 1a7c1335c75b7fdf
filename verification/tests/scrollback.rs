use stuart::scrollback::{
    all_lines_exec, append_to_scrollback, lines_of_exec, normalize_newlines_for_parser, normalize_text_exec,
    received_text_exec, scrollback_text, MAX_SCROLLBACK,
};
use stuart::serial::NewlineEncoding;

fn chars(s: &str) -> Vec<char> {
    s.chars().collect()
}

fn strings(v: &[&str]) -> Vec<String> {
    v.iter().map(|s| s.to_string()).collect()
}

#[test]
fn parser_bytes_widen_the_line_ending() {
    assert_eq!(normalize_newlines_for_parser(b"a\rb", NewlineEncoding::CR), b"a\r\nb".to_vec());
    assert_eq!(normalize_newlines_for_parser(b"a\nb\n", NewlineEncoding::LF), b"a\r\nb\r\n".to_vec());
    assert_eq!(normalize_newlines_for_parser(b"a\r\nb\n", NewlineEncoding::CRLF), b"a\r\nb\n".to_vec());
    assert_eq!(normalize_newlines_for_parser(b"a\nb", NewlineEncoding::CR), b"a\nb".to_vec());
    assert_eq!(normalize_newlines_for_parser(b"", NewlineEncoding::LF), Vec::<u8>::new());
}

#[test]
fn received_text_drops_escape_sequences() {
    let text = received_text_exec(b"\x1b[32mgreen\x1b[0m\n", NewlineEncoding::LF);
    assert_eq!(text, chars("green\n"));
}

#[test]
fn received_text_replaces_invalid_utf8() {
    let text = received_text_exec(&[b'a', 0xff, b'b'], NewlineEncoding::LF);
    assert_eq!(text, chars("a\u{fffd}b"));
}

#[test]
fn line_endings_become_line_feeds() {
    assert_eq!(normalize_text_exec(&chars("a\rb\r"), NewlineEncoding::CR), chars("a\nb\n"));
    assert_eq!(normalize_text_exec(&chars("a\r\nb\r\r\n"), NewlineEncoding::CRLF), chars("a\nb\r\n"));
    assert_eq!(normalize_text_exec(&chars("a\r\nb"), NewlineEncoding::LF), chars("a\r\nb"));
}

#[test]
fn text_continues_an_unfinished_line() {
    let mut sb: Vec<String> = Vec::new();
    append_to_scrollback(&mut sb, &chars("hel"));
    assert_eq!(sb, strings(&["hel"]));
    append_to_scrollback(&mut sb, &chars("lo\nwor"));
    assert_eq!(sb, strings(&["hello\n", "wor"]));
    append_to_scrollback(&mut sb, &chars("ld\n\n"));
    assert_eq!(sb, strings(&["hello\n", "world\n", "\n"]));
    append_to_scrollback(&mut sb, &chars(""));
    assert_eq!(sb, strings(&["hello\n", "world\n", "\n"]));
}

#[test]
fn scrollback_keeps_the_newest_entries() {
    let mut sb: Vec<String> = Vec::new();
    let mut text = String::new();
    for i in 0..(MAX_SCROLLBACK + 5) {
        text.push_str(&format!("{}\n", i));
    }
    append_to_scrollback(&mut sb, &chars(&text));
    assert_eq!(sb.len(), MAX_SCROLLBACK);
    assert_eq!(sb[0], "5\n");
    assert_eq!(sb[MAX_SCROLLBACK - 1], format!("{}\n", MAX_SCROLLBACK + 4));
}

#[test]
fn lines_of_an_entry() {
    assert_eq!(lines_of_exec(&chars("ab\n")), vec![chars("ab")]);
    assert_eq!(lines_of_exec(&chars("ab")), vec![chars("ab")]);
    assert_eq!(lines_of_exec(&chars("")), Vec::<Vec<char>>::new());
    assert_eq!(lines_of_exec(&chars("a\nb")), vec![chars("a"), chars("b")]);
    let sb = strings(&["x\n", "y"]);
    assert_eq!(all_lines_exec(&sb), vec![chars("x"), chars("y")]);
}

#[test]
fn copied_text_drops_blank_lines_at_both_ends() {
    let sb = strings(&["\n", "  \n", "first\n", "\n", "second  \n", " \t\n"]);
    assert_eq!(scrollback_text(&sb), "first\n\nsecond  ");
    assert_eq!(scrollback_text(&strings(&["\n", " "])), "");
    assert_eq!(scrollback_text(&Vec::new()), "");
}
