use code_lines::aggregate::Aggregator;
use code_lines::report::{
    digits, format_row, render_report, rule_line, sort_rows_desc, tail_chars, Row,
};

#[test]
fn digits_render_decimal() {
    assert_eq!(digits(0), "0");
    assert_eq!(digits(7), "7");
    assert_eq!(digits(10), "10");
    assert_eq!(digits(90210), "90210");
    assert_eq!(digits(1000000), "1000000");
}

#[test]
fn quiet_output_is_one_line_with_one_integer() {
    for n in [0usize, 1, 9, 10, 99, 12345] {
        let line = digits(n);
        assert!(!line.is_empty());
        assert!(line.chars().all(|c| c.is_ascii_digit()));
        assert!(!line.contains('\n'));
        assert_eq!(line.parse::<usize>().unwrap(), n);
    }
}

#[test]
fn rule_line_is_one_short_of_width() {
    assert_eq!(rule_line("=", 5), "====");
    assert_eq!(rule_line("-", 80), "-".repeat(79));
    assert_eq!(rule_line("=", 1), "");
    assert_eq!(rule_line("=", 0), "");
}

#[test]
fn tail_chars_keeps_the_tail() {
    assert_eq!(tail_chars(&"abcdef".to_string(), 3), "def");
    assert_eq!(tail_chars(&"abcdef".to_string(), 6), "abcdef");
    assert_eq!(tail_chars(&"abc".to_string(), 10), "abc");
    assert_eq!(tail_chars(&"abc".to_string(), 0), "");
}

#[test]
fn format_row_right_aligns_count_to_width() {
    assert_eq!(format_row(&"abc".to_string(), 7, 10), format!("{:<7} {}", "abc", 7));
    assert_eq!(format_row(&"abc".to_string(), 7, 10).chars().count(), 9);
    assert_eq!(format_row(&"Total:".to_string(), 123, 12), format!("{:<7} {}", "Total:", 123));
    // A label longer than its field is not truncated by the row formatter.
    assert_eq!(format_row(&"longlabel".to_string(), 1, 5), "longlabel 1");
}

#[test]
fn sort_rows_is_descending_by_count() {
    let mut rows = vec![
        Row { label: "a".to_string(), lines: 1 },
        Row { label: "b".to_string(), lines: 5 },
        Row { label: "c".to_string(), lines: 3 },
    ];
    sort_rows_desc(&mut rows);
    let counts: Vec<usize> = rows.iter().map(|r| r.lines).collect();
    assert_eq!(counts, vec![5, 3, 1]);
    let labels: Vec<&str> = rows.iter().map(|r| r.label.as_str()).collect();
    assert_eq!(labels, vec!["b", "c", "a"]);
}

#[test]
fn render_report_lays_out_both_tables() {
    let mut agg = Aggregator::new();
    assert!(agg.add_record("root/a.py".to_string(), &"Python".to_string(), 3));
    assert!(agg.add_record("root/b.rs".to_string(), &"Rust".to_string(), 0));
    let out = render_report(&agg, 20);
    let expected = vec![
        "code-lines v0.1.0".to_string(),
        String::new(),
        "Files (2)".to_string(),
        "=".repeat(19),
        format!("{:<17} {}", "root/a.py", 3),
        String::new(),
        "Languages".to_string(),
        "=".repeat(19),
        format!("{:<17} {}", "Python", 3),
        format!("{:<17} {}", "Rust", 0),
        "-".repeat(19),
        String::new(),
        format!("{:<17} {}", "Total:", 3),
    ];
    assert_eq!(out, expected);
}

#[test]
fn render_report_truncates_long_paths_from_the_left() {
    let mut agg = Aggregator::new();
    let long_path = "deeply/nested/directory/structure/file.py".to_string();
    assert!(agg.add_record(long_path.clone(), &"Python".to_string(), 12));
    let out = render_report(&agg, 20);
    // Field width is 20 - 2 - 2 = 16: the path keeps its last 16 characters.
    let row = &out[4];
    assert_eq!(row, &format!("{} {}", &long_path[long_path.len() - 16..], 12));
}

#[test]
fn render_report_empty_run() {
    let agg = Aggregator::new();
    let out = render_report(&agg, 20);
    let expected = vec![
        "code-lines v0.1.0".to_string(),
        String::new(),
        "Files (0)".to_string(),
        "=".repeat(19),
        String::new(),
        "Languages".to_string(),
        "=".repeat(19),
        "-".repeat(19),
        String::new(),
        format!("{:<17} {}", "Total:", 0),
    ];
    assert_eq!(out, expected);
    assert_eq!(digits(agg.total), "0");
}
