use clipboard_picker::text::{join_lines, split_lines, trim_trailing};

#[test]
fn split_lines_on_plain_listing() {
    assert_eq!(split_lines("foo\nbar"), vec!["foo", "bar"]);
}

#[test]
fn split_lines_ignores_trailing_newline() {
    assert_eq!(split_lines("foo\nbar\n"), vec!["foo", "bar"]);
}

#[test]
fn split_lines_of_empty_output_is_empty() {
    assert_eq!(split_lines(""), Vec::<String>::new());
}

#[test]
fn split_lines_keeps_inner_empty_lines() {
    assert_eq!(split_lines("\n\n"), vec!["", ""]);
    assert_eq!(split_lines("a\n\nb"), vec!["a", "", "b"]);
}

#[test]
fn split_lines_handles_carriage_returns() {
    assert_eq!(split_lines("a\r\nb\r\n"), vec!["a", "b"]);
    // A carriage return not followed by a line feed stays in the line.
    assert_eq!(split_lines("a\rb"), vec!["a\rb"]);
}

#[test]
fn join_lines_separates_with_single_newlines() {
    let lines = vec!["  foo".to_string(), "\u{25BA} bar".to_string()];
    assert_eq!(join_lines(&lines), "  foo\n\u{25BA} bar");
}

#[test]
fn join_lines_of_one_line_adds_nothing() {
    assert_eq!(join_lines(&vec!["only".to_string()]), "only");
    assert_eq!(join_lines(&Vec::new()), "");
}

#[test]
fn join_then_split_round_trips() {
    let lines = vec!["foo".to_string(), "".to_string(), "bar".to_string()];
    assert_eq!(split_lines(&join_lines(&lines)), lines);
}

#[test]
fn trim_trailing_removes_trailing_whitespace_only() {
    assert_eq!(trim_trailing("foo\n"), "foo");
    assert_eq!(trim_trailing("foo \t\r\n"), "foo");
    assert_eq!(trim_trailing("  foo\n"), "  foo");
    assert_eq!(trim_trailing("foo"), "foo");
    assert_eq!(trim_trailing("   \n"), "");
    assert_eq!(trim_trailing(""), "");
}
