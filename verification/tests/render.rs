use safeedit::render::{
    truncate_line, ChangeLine, ChangeTag, DiffBuffer, TruncateReason, DIFF_LINE_TRUNCATION_SUFFIX,
    DIFF_MAX_BYTES, DIFF_MAX_LINES, DIFF_MAX_LINE_BYTES,
};

fn change(tag: ChangeTag, text: &str) -> ChangeLine {
    ChangeLine { tag, text: text.to_string() }
}

fn lines_of(buffer: &DiffBuffer) -> Vec<String> {
    (0..buffer.line_count()).map(|i| buffer.line(i).to_string()).collect()
}

#[test]
fn build_renders_signs_and_elisions() {
    let groups = vec![
        vec![
            change(ChangeTag::Equal, "one\n"),
            change(ChangeTag::Delete, "old\n"),
            change(ChangeTag::Insert, "new\n"),
        ],
        vec![change(ChangeTag::Insert, "tail\n")],
    ];
    let buffer = DiffBuffer::build_from(&groups, false);
    assert_eq!(lines_of(&buffer), vec!["  one\n", "- old\n", "+ new\n", "...\n", "+ tail\n"]);
    assert_eq!(buffer.truncate_reason(), None);
    assert!(buffer.warnings().is_empty());
    let colored = DiffBuffer::build_from(&groups, true);
    assert_eq!(
        lines_of(&colored),
        vec![
            "  one\n",
            "\x1b[31m- old\n\x1b[0m",
            "\x1b[32m+ new\n\x1b[0m",
            "...\n",
            "\x1b[32m+ tail\n\x1b[0m"
        ]
    );
}

#[test]
fn build_from_texts_diffs_lines() {
    let buffer = DiffBuffer::build("one\nold\nthree\n", "one\nnew\nthree", 1, false);
    assert_eq!(lines_of(&buffer), vec!["  one\n", "- old\n", "- three\n", "+ new\n", "+ three\n"]);
    assert_eq!(DiffBuffer::build("same\n", "same\n", 3, false).line_count(), 0);
    let far = DiffBuffer::build("a\nb\nc\nd\ne\nf\ng\nh\n", "A\nb\nc\nd\ne\nf\ng\nH\n", 1, false);
    assert_eq!(
        lines_of(&far),
        vec!["- a\n", "+ A\n", "  b\n", "...\n", "  g\n", "- h\n", "+ H\n"]
    );
}

#[test]
fn rendering_stops_at_the_line_cap() {
    let many: Vec<ChangeLine> = (0..6000).map(|i| change(ChangeTag::Insert, &format!("{i}\n"))).collect();
    let buffer = DiffBuffer::build_from(&vec![many], false);
    assert_eq!(buffer.line_count(), DIFF_MAX_LINES);
    assert_eq!(buffer.truncate_reason(), Some(TruncateReason::LineCount));
    assert_eq!(
        buffer.warnings(),
        vec!["(diff truncated at ~5000 lines; rerun with --pager never and narrower targets to view everything)".to_string()]
    );
}

#[test]
fn rendering_stops_at_the_byte_cap_and_cuts_long_lines() {
    let long = "x".repeat(100000);
    let many: Vec<ChangeLine> = (0..200).map(|_| change(ChangeTag::Equal, &long)).collect();
    let buffer = DiffBuffer::build_from(&vec![many], false);
    assert_eq!(buffer.line_count(), 80);
    assert_eq!(buffer.truncate_reason(), Some(TruncateReason::ByteCount));
    assert_eq!(buffer.line_truncations(), 80);
    let mut total = 0;
    for i in 0..buffer.line_count() {
        assert!(buffer.line(i).len() <= DIFF_MAX_LINE_BYTES);
        assert!(buffer.line(i).ends_with(DIFF_LINE_TRUNCATION_SUFFIX));
        total += buffer.line(i).len();
    }
    assert_eq!(total, DIFF_MAX_BYTES);
    assert_eq!(buffer.total_bytes(), DIFF_MAX_BYTES);
    assert_eq!(
        buffer.warnings(),
        vec![
            "(diff truncated after ~5242880 bytes; rerun with --pager never and narrower targets to view everything)".to_string(),
            "(note: 80 diff line(s) exceeded 65536 bytes and were truncated; rerun with --pager never to inspect the full line)".to_string(),
        ]
    );
}

#[test]
fn push_line_after_a_cap_adds_nothing() {
    let mut buffer = DiffBuffer::new();
    for i in 0..4999 {
        assert!(buffer.push_line(format!("{i}\n")));
    }
    assert!(!buffer.push_line("last\n".to_string()));
    assert_eq!(buffer.line_count(), 5000);
    assert!(!buffer.push_line("more\n".to_string()));
    assert_eq!(buffer.line_count(), 5000);
    assert_eq!(buffer.line(4999), "last\n");
}

#[test]
fn truncate_line_cuts_at_character_boundaries() {
    let mut tiny = "short\n".to_string();
    truncate_line(&mut tiny);
    assert_eq!(tiny, "... (line truncated)\n");
    let mut long = "x".repeat(70000);
    truncate_line(&mut long);
    assert_eq!(long.len(), 65536);
    assert!(long.ends_with("x... (line truncated)\n"));
    let mut wide = format!("a{}", "é".repeat(40000));
    truncate_line(&mut wide);
    assert_eq!(wide.len(), 65536);
    let mut odd = "é".repeat(40000);
    truncate_line(&mut odd);
    assert_eq!(odd.len(), 65535);
    let mut with_break = format!("{}\n{}", "y".repeat(65514), "z".repeat(100));
    truncate_line(&mut with_break);
    assert_eq!(with_break, format!("{}... (line truncated)\n", "y".repeat(65514)));
    let mut medium = "m".repeat(30);
    truncate_line(&mut medium);
    assert_eq!(medium, format!("{}... (line truncated)\n", "m".repeat(30)));
}

#[test]
fn a_line_that_would_pass_the_byte_cap_is_not_stored() {
    let mut buffer = DiffBuffer::new();
    for _ in 0..79 {
        assert!(buffer.push_line("x".repeat(DIFF_MAX_LINE_BYTES)));
    }
    assert!(buffer.push_line("y".repeat(DIFF_MAX_LINE_BYTES - 1)));
    assert_eq!(buffer.total_bytes(), DIFF_MAX_BYTES - 1);
    assert_eq!(buffer.truncate_reason(), None);
    assert!(!buffer.push_line("z".repeat(DIFF_MAX_LINE_BYTES)));
    assert_eq!(buffer.line_count(), 80);
    assert_eq!(buffer.total_bytes(), DIFF_MAX_BYTES - 1);
    assert_eq!(buffer.truncate_reason(), Some(TruncateReason::ByteCount));
    assert!(!buffer.push_line("a".to_string()));
    assert_eq!(buffer.line_count(), 80);
    assert_eq!(buffer.line_truncations(), 0);
    assert_eq!(
        buffer.warnings(),
        vec!["(diff truncated after ~5242880 bytes; rerun with --pager never and narrower targets to view everything)".to_string()]
    );
}

#[test]
fn any_context_can_be_asked_for() {
    let wide = DiffBuffer::build("a\nb\nc\n", "a\nB\nc\n", usize::MAX, false);
    assert_eq!(lines_of(&wide), vec!["  a\n", "- b\n", "+ B\n", "  c\n"]);
    let half = DiffBuffer::build("a\nb\nc\n", "a\nB\nc\n", usize::MAX / 2 + 1, false);
    assert_eq!(lines_of(&half), lines_of(&wide));
}
