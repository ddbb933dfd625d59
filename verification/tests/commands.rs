use safeedit::block::{
    adjust_block_body, apply_block, block_indent, extract_trailing_indent, has_leading_linebreak,
    has_trailing_linebreak, needs_indent, normalize_line_endings_to, preferred_line_ending,
    restore_line_endings,
};
use safeedit::casing::{adjust_case, capitalize, detect_case_kind, CaseKind};
use safeedit::commands::{
    apply_rename, apply_replace, build_replace_options, rename_matches, replace_matches,
    BlockMode, BlockOptions, RenameOptions, ReplaceOptions, TransformError,
};
use safeedit::matcher::{matches_fit_in_order, spans_fit_in_order};
use safeedit::options::{ColorChoice, CommonArgs, PagerMode, ReplaceCommand};
use safeedit::encoding::{DecodedText, EncodingStrategy};
use safeedit::lineindex::LineIndex;
use safeedit::matcher::FoundMatch;

fn decoded_text(text: &str) -> DecodedText {
    EncodingStrategy::new(None)
        .expect("strategy")
        .decode(text.as_bytes())
        .expect("decode")
}

fn literal_options(pattern: &str, replacement: &str, after_line: Option<usize>) -> ReplaceOptions {
    ReplaceOptions {
        pattern: regex::escape(pattern),
        replacement: replacement.to_string(),
        allow_captures: false,
        count: None,
        expect: None,
        after_line,
    }
}

#[test]
fn replace_after_line_skips_early_matches() {
    let decoded = decoded_text("alpha\nfoo\nbeta\nfoo\n");
    let options = literal_options("foo", "FOO", Some(2));
    let replaced = apply_replace(&decoded, &options)
        .expect("replace")
        .new_text
        .expect("text");
    assert_eq!(replaced, "alpha\nfoo\nbeta\nFOO\n");
}

#[test]
fn replace_after_line_returns_none_when_no_late_matches() {
    let decoded = decoded_text("foo\nfoo\n");
    let options = literal_options("foo", "FOO", Some(5));
    let result = apply_replace(&decoded, &options).expect("replace");
    assert!(result.new_text.is_none());
    assert_eq!(result.replacements, 0);
    assert_eq!(result.filtered_by_line, 2);
}

#[test]
fn rename_word_boundary_and_case_aware() {
    let decoded = decoded_text("Foo foo FOO");
    let options = RenameOptions {
        from: "foo".into(),
        to: "bar".into(),
        word_boundary: true,
        case_aware: true,
    };
    let replaced = apply_rename(&decoded, &options)
        .expect("rename")
        .expect("text");
    assert_eq!(replaced, "Bar bar BAR");
}

#[test]
fn rename_reports_when_no_match() {
    let decoded = decoded_text("alpha beta");
    let options = RenameOptions {
        from: "nope".into(),
        to: "noop".into(),
        word_boundary: true,
        case_aware: false,
    };
    let result = apply_rename(&decoded, &options).expect("rename");
    assert!(result.is_none());
}

#[test]
fn block_replace_swaps_body() {
    let decoded = decoded_text("/*start*/\nold\n/*end*/");
    let options = BlockOptions {
        start_marker: "/*start*/".into(),
        end_marker: "/*end*/".into(),
        mode: BlockMode::Replace,
        body: "\nnew\n".into(),
    };
    let replaced = apply_block(&decoded, &options)
        .expect("block")
        .expect("text");
    assert_eq!(replaced, "/*start*/\nnew\n/*end*/");
}

#[test]
fn block_replace_injects_missing_linebreaks() {
    let decoded = decoded_text("// begin\nold\n// end\n");
    let options = BlockOptions {
        start_marker: "// begin".into(),
        end_marker: "// end".into(),
        mode: BlockMode::Replace,
        body: "updated line".into(),
    };
    let replaced = apply_block(&decoded, &options)
        .expect("block")
        .expect("text");
    assert_eq!(replaced, "// begin\nupdated line\n// end\n");
}

#[test]
fn block_replace_keeps_inline_segments_flat() {
    let decoded = decoded_text("/*start*/old/*end*/");
    let options = BlockOptions {
        start_marker: "/*start*/".into(),
        end_marker: "/*end*/".into(),
        mode: BlockMode::Replace,
        body: "new".into(),
    };
    let replaced = apply_block(&decoded, &options)
        .expect("block")
        .expect("text");
    assert_eq!(replaced, "/*start*/new/*end*/");
}

#[test]
fn block_insert_errors_when_region_not_empty() {
    let decoded = decoded_text("// begin\nkeep\n// end");
    let options = BlockOptions {
        start_marker: "// begin".into(),
        end_marker: "// end".into(),
        mode: BlockMode::Insert,
        body: "\nnew\n".into(),
    };
    let err = apply_block(&decoded, &options).expect_err("should fail");
    assert!(err.message().contains("insert mode"));
}

#[test]
fn replace_counts_and_expectations() {
    let decoded = decoded_text("a a a a");
    let mut options = literal_options("a", "b", None);
    options.count = Some(2);
    let outcome = apply_replace(&decoded, &options).expect("replace");
    assert_eq!(outcome.new_text.as_deref(), Some("b b a a"));
    assert_eq!(outcome.replacements, 2);
    assert_eq!(outcome.filtered_by_line, 0);

    options.expect = Some(3);
    match apply_replace(&decoded, &options) {
        Err(TransformError::CountMismatch { expected, found }) => {
            assert_eq!(expected, 3);
            assert_eq!(found, 2);
        }
        other => panic!("unexpected {other:?}"),
    }
    options.expect = Some(2);
    assert!(apply_replace(&decoded, &options).is_ok());

    options.count = Some(0);
    options.expect = Some(7);
    match apply_replace(&decoded, &options) {
        Err(TransformError::CountMismatch { expected, found }) => {
            assert_eq!(expected, 7);
            assert_eq!(found, 0);
        }
        other => panic!("unexpected {other:?}"),
    }
    options.expect = Some(0);
    let outcome = apply_replace(&decoded, &options).expect("nothing expected, nothing done");
    assert!(outcome.new_text.is_none());
    assert_eq!(outcome.replacements, 0);
}

#[test]
fn replace_expecting_matches_fails_without_any() {
    let decoded = decoded_text("xyz");
    let mut options = literal_options("a", "b", None);
    options.expect = Some(1);
    match apply_replace(&decoded, &options) {
        Err(error) => {
            assert!(matches!(error, TransformError::CountMismatch { expected: 1, found: 0 }));
            assert_eq!(error.message(), "expected 1 matches but found 0");
        }
        other => panic!("unexpected {other:?}"),
    }
    let decoded = decoded_text("a\nb\n");
    let mut options = literal_options("a", "b", None);
    options.after_line = Some(1);
    options.expect = Some(1);
    assert!(matches!(
        apply_replace(&decoded, &options),
        Err(TransformError::CountMismatch { expected: 1, found: 0 })
    ));
}

#[test]
fn replace_expands_captures_only_when_allowed() {
    let decoded = decoded_text("key=value");
    let options = ReplaceOptions {
        pattern: r"(\w+)=(\w+)".into(),
        replacement: "$2=$1".into(),
        allow_captures: true,
        count: None,
        expect: None,
        after_line: None,
    };
    assert_eq!(
        apply_replace(&decoded, &options).unwrap().new_text.as_deref(),
        Some("value=key")
    );
    let literal = ReplaceOptions { allow_captures: false, ..options };
    assert_eq!(
        apply_replace(&decoded, &literal).unwrap().new_text.as_deref(),
        Some("$2=$1")
    );
}

#[test]
fn replace_reports_invalid_pattern() {
    let decoded = decoded_text("text");
    let options = ReplaceOptions {
        pattern: "(".into(),
        replacement: "x".into(),
        allow_captures: true,
        count: None,
        expect: None,
        after_line: None,
    };
    let error = apply_replace(&decoded, &options).expect_err("invalid");
    assert!(matches!(error, TransformError::InvalidPattern(_)));
    assert!(error.message().starts_with("invalid pattern: "));
    let literal = ReplaceOptions { allow_captures: false, ..options };
    assert!(matches!(
        apply_replace(&decoded, &literal),
        Err(TransformError::InvalidPattern(_))
    ));
}

#[test]
fn replace_handles_multibyte_text() {
    let decoded = decoded_text("naïve café\nnaïve\n");
    let options = literal_options("naïve", "naive", Some(1));
    let outcome = apply_replace(&decoded, &options).expect("replace");
    assert_eq!(outcome.new_text.as_deref(), Some("naïve café\nnaive\n"));
    assert_eq!(outcome.filtered_by_line, 1);
}

#[test]
fn replace_matches_splices_by_byte_spans() {
    let matches = vec![
        FoundMatch { start: 0, end: 1, replacement: "X".into() },
        FoundMatch { start: 3, end: 5, replacement: "".into() },
        FoundMatch { start: 6, end: 6, replacement: "!".into() },
    ];
    let outcome = replace_matches("aébcdz", &matches, None, None, None).expect("replace");
    assert_eq!(outcome.new_text.as_deref(), Some("Xéd!z"));
    assert_eq!(outcome.replacements, 3);
}

#[test]
fn replace_matches_without_matches_changes_nothing() {
    let outcome = replace_matches("abc", &Vec::new(), None, None, Some(1)).expect("replace");
    assert!(outcome.new_text.is_none());
    assert_eq!(outcome.replacements, 0);
    assert_eq!(outcome.filtered_by_line, 0);
    assert!(matches!(
        replace_matches("abc", &Vec::new(), None, Some(4), Some(1)),
        Err(TransformError::CountMismatch { expected: 4, found: 0 })
    ));
}

#[test]
fn rename_matches_adjusts_case_per_occurrence() {
    let spans = vec![(0usize, 3usize), (4, 7), (8, 11), (12, 15)];
    let renamed = rename_matches("Foo foo FOO fOo", &spans, "bar", true).expect("text");
    assert_eq!(renamed, "Bar bar BAR bar");
    let plain = rename_matches("Foo foo FOO fOo", &spans, "bar", false).expect("text");
    assert_eq!(plain, "bar bar bar bar");
    assert!(rename_matches("abc", &Vec::new(), "x", true).is_none());
}

#[test]
fn rename_without_word_boundary_matches_inside_words() {
    let decoded = decoded_text("foobar a.b axb");
    let options = RenameOptions {
        from: "foo".into(),
        to: "x".into(),
        word_boundary: false,
        case_aware: false,
    };
    assert_eq!(apply_rename(&decoded, &options).unwrap().as_deref(), Some("xbar a.b axb"));
    let dotted = RenameOptions {
        from: "a.b".into(),
        to: "Z".into(),
        word_boundary: true,
        case_aware: false,
    };
    assert_eq!(apply_rename(&decoded, &dotted).unwrap().as_deref(), Some("foobar Z axb"));
}

#[test]
fn case_kinds() {
    assert_eq!(detect_case_kind("FOO"), CaseKind::Upper);
    assert_eq!(detect_case_kind("foo"), CaseKind::Lower);
    assert_eq!(detect_case_kind("Foo"), CaseKind::Capitalized);
    assert_eq!(detect_case_kind("fOo"), CaseKind::Mixed);
    assert_eq!(detect_case_kind("123"), CaseKind::Mixed);
    assert_eq!(detect_case_kind(""), CaseKind::Mixed);
    assert_eq!(detect_case_kind("F"), CaseKind::Upper);
    assert_eq!(detect_case_kind("FOO_1"), CaseKind::Upper);
    assert_eq!(detect_case_kind("Foo_bar"), CaseKind::Capitalized);
    assert_eq!(detect_case_kind("FooBar"), CaseKind::Mixed);
}

#[test]
fn case_rendering() {
    assert_eq!(capitalize("hELLO"), "Hello");
    assert_eq!(capitalize(""), "");
    assert_eq!(capitalize("ßa"), "SSa");
    assert_eq!(adjust_case("ABC", "new_name"), "NEW_NAME");
    assert_eq!(adjust_case("abc", "New_Name"), "new_name");
    assert_eq!(adjust_case("Abc", "new_name"), "New_name");
    assert_eq!(adjust_case("aBc", "New_Name"), "New_Name");
}

#[test]
fn line_index_counts_lines_from_one() {
    let index = LineIndex::new("alpha\nfoo\nbeta\n");
    assert_eq!(index.line_at(0), 1);
    assert_eq!(index.line_at(5), 1);
    assert_eq!(index.line_at(6), 2);
    assert_eq!(index.line_at(9), 2);
    assert_eq!(index.line_at(10), 3);
    assert_eq!(index.line_at(15), 4);
    assert_eq!(index.line_at(1000), 4);
    assert_eq!(LineIndex::new("").line_at(0), 1);
    assert_eq!(LineIndex::new("é\nx").line_at(3), 2);
    assert_eq!(LineIndex::new("é\nx").line_at(2), 1);
}

#[test]
fn block_reports_missing_markers() {
    let decoded = decoded_text("nothing here // end");
    let options = BlockOptions {
        start_marker: "// begin".into(),
        end_marker: "// end".into(),
        mode: BlockMode::Replace,
        body: "x".into(),
    };
    match apply_block(&decoded, &options) {
        Err(TransformError::StartMarkerNotFound(marker)) => assert_eq!(marker, "// begin"),
        other => panic!("unexpected {other:?}"),
    }
    let decoded = decoded_text("// end // begin tail");
    match apply_block(&decoded, &options) {
        Err(error) => {
            assert!(matches!(error, TransformError::EndMarkerNotFound(_)));
            assert_eq!(error.message(), "end marker '// end' not found after start marker");
        }
        other => panic!("unexpected {other:?}"),
    }
}

#[test]
fn block_is_unchanged_when_region_already_matches() {
    let decoded = decoded_text("<!--s-->\n  body\n<!--e-->");
    let options = BlockOptions {
        start_marker: "<!--s-->".into(),
        end_marker: "<!--e-->".into(),
        mode: BlockMode::Replace,
        body: "  body".into(),
    };
    assert!(apply_block(&decoded, &options).expect("block").is_none());
}

#[test]
fn block_insert_fills_blank_region() {
    let decoded = decoded_text("[a] \n [b]");
    let options = BlockOptions {
        start_marker: "[a]".into(),
        end_marker: "[b]".into(),
        mode: BlockMode::Insert,
        body: "x".into(),
    };
    assert_eq!(apply_block(&decoded, &options).unwrap().as_deref(), Some("[a]x\n [b]"));
}

#[test]
fn block_reindents_and_keeps_crlf() {
    let decoded = decoded_text("fn f() {\r\n    // begin\r\n    old();\r\n    // end\r\n}\r\n");
    let options = BlockOptions {
        start_marker: "// begin".into(),
        end_marker: "// end".into(),
        mode: BlockMode::Replace,
        body: "one();\n  two();\n\nthree();".into(),
    };
    assert_eq!(
        apply_block(&decoded, &options).unwrap().as_deref(),
        Some(
            "fn f() {\r\n    // begin\r\n    one();\r\n  two();\r\n\r\n    three();\r\n    // end\r\n}\r\n"
        )
    );
}

#[test]
fn block_helpers() {
    assert_eq!(preferred_line_ending("a\n", "b\r\n"), "\r\n");
    assert_eq!(preferred_line_ending("a\r\n", "b\n"), "\r\n");
    assert_eq!(preferred_line_ending("a\r", "b\n"), "\n");
    assert!(has_leading_linebreak("\nx"));
    assert!(has_leading_linebreak("\r\nx"));
    assert!(!has_leading_linebreak("\rx"));
    assert!(!has_leading_linebreak(""));
    assert!(has_trailing_linebreak("x\n"));
    assert!(has_trailing_linebreak("x\r\n"));
    assert!(!has_trailing_linebreak("x\r"));
    assert_eq!(normalize_line_endings_to("a\r\nb\rc\nd", "|"), "a|b|c|d");
    assert_eq!(normalize_line_endings_to("", "\n"), "");
    assert_eq!(restore_line_endings("a\nb\n", "\r\n"), "a\r\nb\r\n");
    assert_eq!(restore_line_endings("a\nb\n", "\n"), "a\nb\n");
    assert!(needs_indent("x", "  "));
    assert!(!needs_indent(" x", "  "));
    assert!(!needs_indent("\tx", "  "));
    assert!(!needs_indent("", "  "));
    assert!(!needs_indent("x", ""));
    assert_eq!(block_indent("a\n \t // m", 5), " \t ");
    assert_eq!(block_indent("  x // m", 4), "  ");
    assert_eq!(block_indent("// m", 0), "");
    assert_eq!(extract_trailing_indent("\nold\n    "), "    ");
    assert_eq!(extract_trailing_indent("old    "), "");
    assert_eq!(extract_trailing_indent("\nold\n  x "), "");
    assert_eq!(extract_trailing_indent("\nold\n"), "");
    assert_eq!(adjust_block_body("\nold\n  ", "new", "doc", "  "), "\n  new\n  ");
    assert_eq!(adjust_block_body("", "", "doc", "  "), "");
}

#[test]
fn transform_error_messages() {
    assert_eq!(
        TransformError::CountMismatch { expected: 3, found: 10 }.message(),
        "expected 3 matches but found 10"
    );
    assert_eq!(
        TransformError::StartMarkerNotFound("<<".into()).message(),
        "start marker '<<' not found"
    );
    assert_eq!(
        TransformError::RegionNotEmpty.message(),
        "insert mode requires the block region to be empty"
    );
}

#[test]
fn block_unchanged_exactly_when_region_is_identical() {
    let options = BlockOptions {
        start_marker: "[".into(),
        end_marker: "]".into(),
        mode: BlockMode::Replace,
        body: "x\ny".into(),
    };
    for (text, same) in
        [("[x\ny]", true), ("[x\ny\n]", true), ("[x\nz]", false), ("a [x\r\ny] b", true), ("[]", false)]
    {
        let decoded = decoded_text(text);
        let region = &text[text.find('[').unwrap() + 1..text.find(']').unwrap()];
        let desired = adjust_block_body(region, "x\ny", text, "");
        assert_eq!(desired == region, same);
        assert_eq!(apply_block(&decoded, &options).unwrap().is_none(), same);
    }
}

fn replace_command(pattern: &str, regex: bool, literal: bool) -> ReplaceCommand {
    ReplaceCommand {
        common: CommonArgs {
            globs: Vec::new(),
            targets: Vec::new(),
            encoding: None,
            apply: false,
            auto_apply: false,
            no_backup: false,
            context: 3,
            pager: PagerMode::Auto,
            color: ColorChoice::Auto,
            json: false,
            include_hidden: false,
            exclude: Vec::new(),
            undo_log: None,
            extra_args: Vec::new(),
        },
        pattern: pattern.to_string(),
        replacement: None,
        with_stdin: false,
        with_clipboard: false,
        with_here: None,
        regex,
        literal,
        diff_only: false,
        count: Some(2),
        expect: Some(1),
        after_line: Some(4),
    }
}

#[test]
fn replace_options_escape_a_literal_pattern() {
    let literal = build_replace_options(&replace_command("a.b*(c)-#~", false, false), "$1");
    assert_eq!(literal.pattern, "a\\.b\\*\\(c\\)\\-\\#\\~");
    assert_eq!(literal.replacement, "$1");
    assert!(!literal.allow_captures);
    assert_eq!((literal.count, literal.expect, literal.after_line), (Some(2), Some(1), Some(4)));
    let forced = build_replace_options(&replace_command("a.b", true, true), "x");
    assert_eq!(forced.pattern, "a\\.b");
    assert!(!forced.allow_captures);
    let pattern = build_replace_options(&replace_command("a.b", true, false), "x");
    assert_eq!(pattern.pattern, "a.b");
    assert!(pattern.allow_captures);
    let plain = build_replace_options(&replace_command("plain text_9", false, false), "");
    assert_eq!(plain.pattern, "plain text_9");
}

#[test]
fn spans_are_checked_before_they_are_used() {
    assert!(spans_fit_in_order("aébc", &vec![(0, 1), (1, 3), (3, 3), (4, 5)]));
    assert!(spans_fit_in_order("aébc", &Vec::new()));
    assert!(!spans_fit_in_order("aébc", &vec![(0, 2)]));
    assert!(!spans_fit_in_order("aébc", &vec![(2, 3)]));
    assert!(!spans_fit_in_order("aébc", &vec![(3, 1)]));
    assert!(!spans_fit_in_order("aébc", &vec![(0, 3), (1, 4)]));
    assert!(!spans_fit_in_order("aébc", &vec![(3, 4), (0, 1)]));
    assert!(!spans_fit_in_order("aébc", &vec![(4, 6)]));
    let matches = vec![
        FoundMatch { start: 0, end: 1, replacement: "X".into() },
        FoundMatch { start: 3, end: 5, replacement: "".into() },
    ];
    assert!(matches_fit_in_order("aébcdz", &matches));
    assert!(!matches_fit_in_order("aé", &matches));
}
