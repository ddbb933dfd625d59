use safeedit::normalize::{
    count_trailing_ws, is_control_char, is_zero_width_char, normalize_text, NormalizeOptions,
};

fn base_opts() -> NormalizeOptions {
    NormalizeOptions {
        strip_zero_width: false,
        strip_control: false,
        trim_trailing_space: false,
        ensure_eol: false,
        detect_zero_width: true,
        detect_control: true,
        detect_trailing_space: true,
        detect_final_newline: true,
    }
}

#[test]
fn detection_can_be_disabled() {
    let mut opts = base_opts();
    opts.detect_zero_width = false;
    let report = normalize_text("a\u{200B}b", &opts).report;
    assert!(report.zero_width.is_none());
}

#[test]
fn missing_final_newline_reported() {
    let report = normalize_text("no newline", &base_opts()).report;
    assert_eq!(report.missing_final_newline, Some(true));
}

#[test]
fn trim_trailing_space_handles_crlf() {
    let mut opts = base_opts();
    opts.trim_trailing_space = true;
    let outcome = normalize_text("hello  \r\nworld\t \r\n", &opts);
    assert_eq!(outcome.cleaned, Some("hello\r\nworld\r\n".to_string()));
}

#[test]
fn clean_text_reports_zeroes_and_no_change() {
    let outcome = normalize_text("alpha\nbeta\n", &base_opts());
    assert_eq!(outcome.report.zero_width, Some(0));
    assert_eq!(outcome.report.control_chars, Some(0));
    assert_eq!(outcome.report.trailing_spaces, Some(0));
    assert_eq!(outcome.report.missing_final_newline, Some(false));
    assert!(outcome.cleaned.is_none());
}

#[test]
fn counts_without_stripping_leave_text_alone() {
    let outcome = normalize_text("a\u{200B}b\u{0007} \t\nc  ", &base_opts());
    assert_eq!(outcome.report.zero_width, Some(1));
    assert_eq!(outcome.report.control_chars, Some(1));
    assert_eq!(outcome.report.trailing_spaces, Some(4));
    assert_eq!(outcome.report.missing_final_newline, Some(true));
    assert!(outcome.cleaned.is_none());
}

#[test]
fn stripping_removes_zero_width_and_control() {
    let mut opts = base_opts();
    opts.strip_zero_width = true;
    opts.strip_control = true;
    let outcome = normalize_text("a\u{200B}b\u{0007}c\tx\r\n\u{FEFF}", &opts);
    assert_eq!(outcome.cleaned, Some("abc\tx\r\n".to_string()));
    assert_eq!(outcome.report.zero_width, Some(2));
    assert_eq!(outcome.report.control_chars, Some(1));
}

#[test]
fn ensure_eol_appends_one_newline() {
    let mut opts = base_opts();
    opts.ensure_eol = true;
    assert_eq!(normalize_text("abc", &opts).cleaned, Some("abc\n".to_string()));
    assert_eq!(normalize_text("", &opts).cleaned, Some("\n".to_string()));
    assert!(normalize_text("abc\n", &opts).cleaned.is_none());
}

#[test]
fn empty_text_has_no_missing_newline() {
    let report = normalize_text("", &base_opts()).report;
    assert_eq!(report.missing_final_newline, Some(false));
}

#[test]
fn trailing_space_is_counted_after_stripping() {
    let mut opts = base_opts();
    opts.strip_zero_width = true;
    opts.trim_trailing_space = true;
    let outcome = normalize_text("x \u{200B}\ny\n", &opts);
    assert_eq!(outcome.report.trailing_spaces, Some(1));
    assert_eq!(outcome.cleaned, Some("x\ny\n".to_string()));
}

#[test]
fn char_classes() {
    assert!(is_zero_width_char('\u{200B}'));
    assert!(is_zero_width_char('\u{FEFF}'));
    assert!(!is_zero_width_char(' '));
    assert!(is_control_char('\u{0007}'));
    assert!(is_control_char('\u{009F}'));
    assert!(!is_control_char('\n'));
    assert!(!is_control_char('\t'));
    assert!(!is_control_char('\r'));
    assert!(!is_control_char('a'));
    assert_eq!(count_trailing_ws("ab \t "), 3);
    assert_eq!(count_trailing_ws("ab"), 0);
    assert_eq!(count_trailing_ws(" \t"), 2);
}
