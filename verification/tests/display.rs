use asenix::display::{column_widths, default_working_dir, format_row, guess_content_type, table_lines, truncate};

#[test]
fn truncate_short_string_unchanged() {
    assert_eq!(truncate("hello", 10), "hello");
}

#[test]
fn truncate_exact_length_unchanged() {
    assert_eq!(truncate("hello", 5), "hello");
}

#[test]
fn truncate_long_string_appends_ellipsis() {
    let result = truncate("hello world this is long", 10);
    assert!(result.len() <= 10, "result: {result}");
    assert!(result.ends_with("..."), "result: {result}");
}

#[test]
fn truncate_very_short_max() {
    let result = truncate("hello", 3);
    assert!(result.len() <= 3, "result: {result}");
}

#[test]
fn truncate_counts_characters() {
    assert_eq!(truncate("hello world this is long", 10), "hello w...");
    assert_eq!(truncate("héllo wörld", 8), "héllo...");
    assert_eq!(truncate("hello", 2), "..");
    assert_eq!(truncate("hello", 0), "");
}

#[test]
fn print_table_does_not_panic_with_empty_rows() {
    let lines = table_lines(&["A", "B", "C"], &[]);
    assert_eq!(lines.len(), 2);
    assert_eq!(lines[0], "A  B  C");
    assert_eq!(lines[1], "─  ─  ─");
}

#[test]
fn print_table_does_not_panic_with_rows() {
    let rows = vec![
        vec!["foo".to_string(), "bar".to_string()],
        vec!["a longer name".to_string(), "a longer value".to_string()],
    ];
    let lines = table_lines(&["Name", "Value"], &rows);
    assert_eq!(lines.len(), 4);
    assert_eq!(column_widths(&["Name", "Value"], &rows), vec![13, 14]);
    assert_eq!(lines[0], "Name           Value         ");
    assert_eq!(lines[2], "foo            bar           ");
    assert_eq!(lines[3], "a longer name  a longer value");
}

#[test]
fn rows_are_cut_to_the_shorter_list() {
    let cells = vec!["x".to_string(), "y".to_string(), "z".to_string()];
    assert_eq!(format_row(&cells, &[3, 1]), "x    y");
    assert_eq!(format_row(&cells[..1], &[2, 2]), "x ");
}

#[test]
fn content_types_by_extension() {
    assert_eq!(guess_content_type("train.py"), "text/x-python");
    assert_eq!(guess_content_type("a.b.JSON"), "application/octet-stream");
    assert_eq!(guess_content_type("data.csv"), "text/csv");
    assert_eq!(guess_content_type("photo.jpeg"), "image/jpeg");
    assert_eq!(guess_content_type("config.yml"), "application/yaml");
    assert_eq!(guess_content_type("README"), "application/octet-stream");
    assert_eq!(guess_content_type("json"), "application/json");
    assert_eq!(guess_content_type("archive."), "application/octet-stream");
    assert_eq!(default_working_dir(), ".");
}
