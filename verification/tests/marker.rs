use clipboard_picker::fingerprint::fingerprint;
use clipboard_picker::marker::{clean_marker, mark_entries, mark_entry};

#[test]
fn mark_entry_current_uses_pointer_glyph() {
    assert_eq!(mark_entry("foo", true), "\u{25BA} foo");
}

#[test]
fn mark_entry_blank_keeps_display_width() {
    assert_eq!(mark_entry("foo", false), "  foo");
    assert_eq!(mark_entry("", false), "  ");
}

#[test]
fn clean_marker_recovers_marked_line() {
    assert_eq!(clean_marker("\u{25BA} bar"), "bar");
    assert_eq!(clean_marker("  foo"), "foo");
    assert_eq!(clean_marker(&mark_entry("entry 42", true)), "entry 42");
    assert_eq!(clean_marker(&mark_entry("entry 42", false)), "entry 42");
}

#[test]
fn clean_marker_leaves_unmarked_line_alone() {
    assert_eq!(clean_marker("bar"), "bar");
    assert_eq!(clean_marker(""), "");
    assert_eq!(clean_marker(" x"), " x");
}

#[test]
fn clean_marker_strips_exactly_one_marker() {
    // A history line beginning with two spaces keeps them: only the
    // marker itself goes.
    assert_eq!(clean_marker(&mark_entry("  indented", false)), "  indented");
    assert_eq!(clean_marker("    indented"), "  indented");
}

#[test]
fn clean_marker_is_idempotent_without_marker() {
    let once = clean_marker("\u{25BA} bar");
    assert_eq!(clean_marker(&once), once);
}

#[test]
fn mark_entries_marks_only_the_matching_entry() {
    let lines = vec!["foo".to_string(), "bar".to_string(), "baz".to_string()];
    let decoded = vec![
        "hello".to_string(),
        "world".to_string(),
        "other".to_string(),
    ];
    let current = fingerprint("world");
    let marked = mark_entries(&lines, &decoded, &current);
    assert_eq!(marked, vec!["  foo", "\u{25BA} bar", "  baz"]);
}

#[test]
fn mark_entries_marks_nothing_without_a_match() {
    let lines = vec!["foo".to_string(), "bar".to_string()];
    let decoded = vec!["hello".to_string(), "world".to_string()];
    let current = fingerprint("nothing like these");
    let marked = mark_entries(&lines, &decoded, &current);
    assert_eq!(marked, vec!["  foo", "  bar"]);
}
