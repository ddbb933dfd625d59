use safeedit::logging::LoggedEntry;
use safeedit::report::{
    build_report, entries_since, report_table, summarize_log, Report, ReportError, ReportRow,
};

fn logged(command: &str, action: &str) -> LoggedEntry {
    LoggedEntry {
        timestamp: "2024-01-01T00:00:00Z".to_string(),
        command: command.to_string(),
        action: action.to_string(),
        path: "a.txt".to_string(),
        line_summary: "L1".to_string(),
        spans: Vec::new(),
    }
}

fn row(command: &str, action: &str, count: usize) -> ReportRow {
    ReportRow { command: command.to_string(), action: action.to_string(), count }
}

#[test]
fn report_counts_by_command_and_action() {
    let entries = vec![
        logged("replace", "dry-run"),
        logged("block", "applied"),
        logged("replace", "applied"),
        logged("replace", "dry-run"),
        logged("apply", "skipped"),
        logged("block", "applied"),
        logged("replace", "dry-run"),
    ];
    assert_eq!(
        summarize_log(&entries),
        vec![
            row("apply", "skipped", 1),
            row("block", "applied", 2),
            row("replace", "applied", 1),
            row("replace", "dry-run", 3),
        ]
    );
    assert!(summarize_log(&Vec::new()).is_empty());
}

#[test]
fn report_orders_prefixes_first() {
    let entries = vec![logged("ab", "x"), logged("a", "y"), logged("a", "x"), logged("", "z")];
    assert_eq!(
        summarize_log(&entries),
        vec![row("", "z", 1), row("a", "x", 1), row("a", "y", 1), row("ab", "x", 1)]
    );
}

fn at(timestamp: &str, command: &str, action: &str) -> LoggedEntry {
    LoggedEntry { timestamp: timestamp.to_string(), ..logged(command, action) }
}

fn stamps(entries: &[LoggedEntry]) -> Vec<String> {
    entries.iter().map(|entry| entry.timestamp.clone()).collect()
}

#[test]
fn window_keeps_what_is_not_earlier() {
    let entries = vec![
        at("2024-01-01T00:00:00Z", "replace", "applied"),
        at("not a timestamp", "replace", "applied"),
        at("2024-01-02T00:00:00+01:00", "block", "applied"),
        at("2024-01-01T12:00:00Z", "block", "skipped"),
    ];
    let noon = time::OffsetDateTime::parse(
        "2024-01-01T12:00:00Z",
        &time::format_description::well_known::Rfc3339,
    )
    .expect("timestamp")
    .unix_timestamp_nanos();
    assert_eq!(
        stamps(&entries_since(&entries, Some(noon))),
        vec!["2024-01-02T00:00:00+01:00", "2024-01-01T12:00:00Z"]
    );
    assert_eq!(
        stamps(&entries_since(&entries, None)),
        vec!["2024-01-01T00:00:00Z", "2024-01-02T00:00:00+01:00", "2024-01-01T12:00:00Z"]
    );
    assert!(entries_since(&Vec::new(), None).is_empty());
}

#[test]
fn window_compares_instants_not_texts() {
    let entries = vec![
        at("2024-01-01T01:00:00+02:00", "replace", "applied"),
        at("2023-12-31T23:30:00-01:00", "replace", "skipped"),
    ];
    match build_report(&entries, Some("2024-01-01T00:00:00Z"), "json").expect("report") {
        Report::Rows(rows) => assert_eq!(rows, vec![row("replace", "skipped", 1)]),
        other => panic!("unexpected report {other:?}"),
    }
}

#[test]
fn table_pads_its_columns() {
    let rows = vec![row("replace", "applied", 2), row("a-very-long-command", "dry-run-twice", 10)];
    assert_eq!(
        report_table(&rows, 12, None),
        vec![
            "Report entries: 12 (since beginning of log)",
            "replace      applied    2",
            "a-very-long-command dry-run-twice 10",
        ]
    );
    assert_eq!(
        report_table(&Vec::new(), 0, Some("2024-01-01T00:00:00Z")),
        vec!["Report entries: 0 (since 2024-01-01T00:00:00Z)"]
    );
    assert_eq!(report_table(&[row("éé", "x", 1)].to_vec(), 1, None)[1], "éé           x          1");
}

#[test]
fn report_as_table() {
    let entries = vec![
        at("2024-03-01T00:00:00Z", "replace", "applied"),
        at("2024-03-02T00:00:00Z", "replace", "applied"),
        at("2024-02-01T00:00:00Z", "block", "dry-run"),
    ];
    match build_report(&entries, Some("2024-02-15T00:00:00Z"), "Table").expect("report") {
        Report::Table(lines) => assert_eq!(
            lines,
            vec![
                "Report entries: 2 (since 2024-02-15T00:00:00Z)",
                "replace      applied    2",
            ]
        ),
        other => panic!("unexpected report {other:?}"),
    }
    match build_report(&entries, None, "table").expect("report") {
        Report::Table(lines) => assert_eq!(
            lines,
            vec![
                "Report entries: 3 (since beginning of log)",
                "block        dry-run    1",
                "replace      applied    2",
            ]
        ),
        other => panic!("unexpected report {other:?}"),
    }
}

#[test]
fn report_refusals_and_notes() {
    let entries = vec![at("2024-03-01T00:00:00Z", "replace", "applied")];
    assert!(matches!(build_report(&Vec::new(), Some("bad"), "xml"), Ok(Report::EmptyLog)));
    match build_report(&entries, Some("yesterday"), "xml") {
        Err(ReportError::InvalidSince(raw)) => assert_eq!(raw, "yesterday"),
        other => panic!("unexpected outcome {other:?}"),
    }
    match build_report(&entries, None, "XML") {
        Err(error) => {
            assert!(matches!(&error, ReportError::UnsupportedFormat(name) if name == "xml"));
            assert_eq!(
                error.message(),
                "unsupported report-format 'xml' (expected table or json)"
            );
        }
        other => panic!("unexpected outcome {other:?}"),
    }
    assert_eq!(
        ReportError::InvalidSince("x".to_string()).message(),
        "parsing --since 'x' as RFC3339 timestamp"
    );
    assert!(matches!(
        build_report(&entries, Some("2025-01-01T00:00:00Z"), "table"),
        Ok(Report::EmptyWindow)
    ));
    let unreadable = vec![at("soon", "replace", "applied")];
    assert!(matches!(build_report(&unreadable, None, "json"), Ok(Report::EmptyWindow)));
}
