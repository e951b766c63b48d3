use wizard::logs::{label_width, log_lines, texts_of_chunk};

#[test]
fn label_width_is_longest_name() {
    assert_eq!(label_width(&vec!["ab".to_string(), "abcd".to_string(), "a".to_string()]), Some(4));
    assert_eq!(label_width(&vec![]), None);
}

#[test]
fn chunk_split_into_lines_without_empty_ones() {
    assert_eq!(texts_of_chunk("one\ntwo\n", 4, 80), vec!["one", "two"]);
}

#[test]
fn wide_line_is_split_at_column_budget() {
    // 20 columns, label 4: a line of 18 does not fit; split at 20 - 4 - 6 = 10.
    let line = "abcdefghijklmnopqr";
    assert_eq!(texts_of_chunk(line, 4, 20), vec!["abcdefghij", "klmnopqr"]);
}

#[test]
fn narrow_terminal_keeps_line_whole() {
    assert_eq!(texts_of_chunk("abcdef", 4, 8), vec!["abcdef"]);
}

#[test]
fn labelled_lines() {
    let lines = log_lines("db", "ready\n", 5, 80);
    assert_eq!(lines.len(), 1);
    assert_eq!(lines[0].label, "db   ");
    assert!(lines[0].short_name);
    assert_eq!(lines[0].text, "ready");
    let lines = log_lines("web-1", "x", 5, 80);
    assert_eq!(lines[0].label, "web-1");
    assert!(!lines[0].short_name);
}
