use safeedit::pager::{
    display_diff, display_plan, page_bounds, page_count, pager_step, parse_pager_command, DisplayPlan,
    PagerCommand, PagerOutcome,
};
use safeedit::options::PagerMode;
use safeedit::review::{
    build_interactive_regex, slice_heading, SearchError, build_matcher, find_next_match, find_prev_match, highlight_line, highlight_spans,
    line_matches, numbered_line, parse_jump_target, parse_line_context, parse_range_spec,
    parse_step_command, slice_bounds, step_transition, to_indices, truncate_line_to_limit,
    ReviewFailure, ReviewInput, ReviewLimiter, ReviewOptions, ReviewSlice, ReviewTruncateReason,
    StepCommand, StepNote, StepState,
};

#[test]
fn parse_range() {
    assert_eq!(parse_range_spec("10:20").unwrap(), (10, 20));
}

#[test]
fn parse_line_ctx() {
    assert_eq!(parse_line_context("42:5").unwrap(), (42, 5));
}

#[test]
fn highlight_literal() {
    let regex = build_matcher(Some("foo"), false).unwrap().unwrap();
    assert_eq!(highlight_line("foo bar foo", Some(&regex)), ">>foo<< bar >>foo<<");
}

#[test]
fn parse_step_command_numeric_jump() {
    assert_eq!(parse_step_command("12"), StepCommand::Jump(11));
}

#[test]
fn parse_step_command_goto() {
    assert_eq!(parse_step_command("g 2"), StepCommand::Jump(1));
}

#[test]
fn parse_step_command_invalid_defaults_to_help() {
    assert_eq!(parse_step_command("zzz"), StepCommand::Help);
}

#[test]
fn parse_step_command_search() {
    assert_eq!(parse_step_command("/todo"), StepCommand::Search("todo".into()));
}

#[test]
fn parse_step_command_next_match() {
    assert_eq!(parse_step_command("n"), StepCommand::FindNext);
    assert_eq!(parse_step_command("N"), StepCommand::FindPrev);
}

#[test]
fn parse_step_command_bookmarks() {
    assert_eq!(parse_step_command("m"), StepCommand::SetBookmark);
    assert_eq!(parse_step_command("'"), StepCommand::JumpBookmark);
}

#[test]
fn range_specs() {
    assert_eq!(parse_range_spec(" 3 - 7 ").unwrap(), (3, 7));
    assert_eq!(parse_range_spec("5:5").unwrap(), (5, 5));
    assert!(matches!(parse_range_spec("10"), Err(ReviewFailure::RangeNeedsEnd)));
    assert!(matches!(parse_range_spec(""), Err(ReviewFailure::RangeNeedsEnd)));
    assert!(matches!(parse_range_spec("1:2:3"), Err(ReviewFailure::RangeTooManyParts)));
    assert!(matches!(parse_range_spec("a:2:x"), Err(ReviewFailure::RangeTooManyParts)));
    assert!(matches!(parse_range_spec("a:2"), Err(ReviewFailure::InvalidNumber(_))));
    assert!(matches!(parse_range_spec("1:"), Err(ReviewFailure::InvalidNumber(_))));
    assert!(matches!(parse_range_spec("0:2"), Err(ReviewFailure::LineNumbersStartAtOne)));
    assert!(matches!(parse_range_spec("2:0"), Err(ReviewFailure::LineNumbersStartAtOne)));
    assert!(matches!(parse_range_spec("7:3"), Err(ReviewFailure::RangeStartAfterEnd)));
    assert_eq!(ReviewFailure::RangeStartAfterEnd.message(), "range start must be <= end");
}

#[test]
fn line_context_specs() {
    assert_eq!(parse_line_context("42,5").unwrap(), (42, 5));
    assert_eq!(parse_line_context("7:0").unwrap(), (7, 0));
    assert_eq!(parse_line_context("7:2:99").unwrap(), (7, 2));
    assert!(matches!(parse_line_context("42"), Err(ReviewFailure::AroundNeedsContext)));
    assert!(matches!(parse_line_context("0:5"), Err(ReviewFailure::LineNumbersStartAtOne)));
    assert!(matches!(parse_line_context("x:5"), Err(ReviewFailure::InvalidNumber(_))));
    assert!(matches!(parse_line_context("5:-1"), Err(ReviewFailure::InvalidNumber(_))));
}

#[test]
fn step_commands() {
    assert_eq!(parse_step_command(""), StepCommand::NextLine);
    assert_eq!(parse_step_command("   "), StepCommand::NextLine);
    assert_eq!(parse_step_command("J"), StepCommand::NextLine);
    assert_eq!(parse_step_command("next"), StepCommand::NextLine);
    assert_eq!(parse_step_command("K"), StepCommand::PrevLine);
    assert_eq!(parse_step_command("p"), StepCommand::PrevLine);
    assert_eq!(parse_step_command("b"), StepCommand::PrevLine);
    assert_eq!(parse_step_command("PREV"), StepCommand::PrevLine);
    assert_eq!(parse_step_command("g"), StepCommand::Head);
    assert_eq!(parse_step_command("h"), StepCommand::Head);
    assert_eq!(parse_step_command("head"), StepCommand::Head);
    assert_eq!(parse_step_command("G"), StepCommand::Tail);
    assert_eq!(parse_step_command("t"), StepCommand::Tail);
    assert_eq!(parse_step_command("Tail"), StepCommand::Tail);
    assert_eq!(parse_step_command("q"), StepCommand::Quit);
    assert_eq!(parse_step_command("quit"), StepCommand::Quit);
    assert_eq!(parse_step_command("?"), StepCommand::Help);
    assert_eq!(parse_step_command("help"), StepCommand::Help);
    assert_eq!(parse_step_command("mark"), StepCommand::SetBookmark);
    assert_eq!(parse_step_command("jumpmark"), StepCommand::JumpBookmark);
    assert_eq!(parse_step_command("return"), StepCommand::JumpBookmark);
    assert_eq!(parse_step_command(" /a b "), StepCommand::Search("a b".into()));
    assert_eq!(parse_step_command("/"), StepCommand::Search("".into()));
    assert_eq!(parse_step_command("G7"), StepCommand::Jump(6));
    assert_eq!(parse_step_command("0"), StepCommand::Help);
    assert_eq!(parse_step_command("g x"), StepCommand::Help);
    assert_eq!(parse_step_command("+3"), StepCommand::Jump(2));
}

#[test]
fn jump_targets() {
    assert_eq!(parse_jump_target("12"), Some(11));
    assert_eq!(parse_jump_target("  g   5 rest"), Some(4));
    assert_eq!(parse_jump_target("G5"), Some(4));
    assert_eq!(parse_jump_target("0"), None);
    assert_eq!(parse_jump_target(""), None);
    assert_eq!(parse_jump_target("g"), None);
    assert_eq!(parse_jump_target("x1"), None);
    assert_eq!(parse_jump_target("99999999999999999999999999"), None);
}

#[test]
fn indices() {
    assert_eq!(to_indices(1, 3, 10), (0, 3));
    assert_eq!(to_indices(0, 0, 10), (0, 1));
    assert_eq!(to_indices(5, 2, 10), (4, 5));
    assert_eq!(to_indices(8, 20, 10), (7, 10));
    assert_eq!(to_indices(50, 60, 10), (9, 10));
    assert_eq!(to_indices(1, 5, 0), (0, 0));
    assert_eq!(slice_bounds(ReviewSlice::Head(3), 10), (0, 3));
    assert_eq!(slice_bounds(ReviewSlice::Head(30), 10), (0, 10));
    assert_eq!(slice_bounds(ReviewSlice::Tail(3), 10), (7, 10));
    assert_eq!(slice_bounds(ReviewSlice::Tail(30), 10), (0, 10));
    assert_eq!(slice_bounds(ReviewSlice::Range { start: 2, end: 4 }, 10), (1, 4));
    assert_eq!(slice_bounds(ReviewSlice::Around { line: 5, context: 2 }, 10), (2, 7));
    assert_eq!(slice_bounds(ReviewSlice::Around { line: 1, context: 3 }, 10), (0, 4));
    assert_eq!(
        slice_bounds(ReviewSlice::Around { line: 9, context: usize::MAX }, 10),
        (0, 10)
    );
}

fn input<'a>() -> ReviewInput<'a> {
    ReviewInput {
        head: None,
        tail: None,
        lines: None,
        around: None,
        follow: false,
        step: false,
        search: None,
        regex: false,
    }
}

#[test]
fn review_options_from_input() {
    let options = ReviewOptions::from_input(input()).expect("options");
    assert_eq!(options.slices, vec![ReviewSlice::Head(40)]);
    assert!(options.matcher().is_none());
    assert!(!options.step_mode());

    let options = ReviewOptions::from_input(ReviewInput {
        head: Some(3),
        tail: Some(4),
        lines: Some("2:5"),
        around: Some("9,1"),
        step: true,
        search: Some("a.b"),
        ..input()
    })
    .expect("options");
    assert_eq!(
        options.slices,
        vec![
            ReviewSlice::Range { start: 2, end: 5 },
            ReviewSlice::Around { line: 9, context: 1 },
            ReviewSlice::Head(3),
            ReviewSlice::Tail(4),
        ]
    );
    assert_eq!(options.matcher(), Some("a\\.b"));
    assert!(options.step_mode());

    let options =
        ReviewOptions::from_input(ReviewInput { search: Some("a.b"), regex: true, ..input() })
            .expect("options");
    assert_eq!(options.matcher(), Some("a.b"));

    assert!(matches!(
        ReviewOptions::from_input(ReviewInput { follow: true, step: true, ..input() }),
        Err(ReviewFailure::FollowWithStep)
    ));
    assert!(matches!(
        ReviewOptions::from_input(ReviewInput { lines: Some("9:1"), ..input() }),
        Err(ReviewFailure::RangeStartAfterEnd)
    ));
    assert!(matches!(
        ReviewOptions::from_input(ReviewInput { around: Some("9"), ..input() }),
        Err(ReviewFailure::AroundNeedsContext)
    ));
    assert!(matches!(
        ReviewOptions::from_input(ReviewInput { search: Some("("), regex: true, ..input() }),
        Err(ReviewFailure::InvalidSearch(_))
    ));
}

#[test]
fn highlighting() {
    assert_eq!(highlight_line("plain", None), "plain");
    assert_eq!(highlight_line("a.b axb", Some("a\\.b")), ">>a.b<< axb");
    assert_eq!(highlight_line("naïve café", Some("caf.")), "naïve >>café<<");
    assert_eq!(highlight_line("text", Some("(")), "text");
    assert_eq!(highlight_spans("abcdef", &vec![(1, 2), (4, 6)]), "a>>b<<cd>>ef<<");
    assert_eq!(highlight_spans("abc", &Vec::new()), "abc");
    assert!(line_matches("b+", "abbc"));
    assert!(!line_matches("z", "abbc"));
    assert!(!line_matches("(", "abbc"));
}

#[test]
fn limiter_stops_at_line_cap() {
    let mut limiter = ReviewLimiter::new();
    for i in 0..4999 {
        assert_eq!(limiter.push_line(format!("line {i}")), Some(format!("line {i}")));
        assert!(!limiter.truncated());
    }
    assert_eq!(limiter.push_line("last".to_string()).as_deref(), Some("last"));
    assert!(limiter.truncated());
    assert_eq!(limiter.reason(), Some(ReviewTruncateReason::LineCount));
    assert_eq!(limiter.push_line("more".to_string()), None);
    assert_eq!(
        limiter.warnings(),
        vec![
            "(output truncated at ~5000 lines; narrow your selection or review smaller ranges)"
                .to_string()
        ]
    );
}

#[test]
fn limiter_stops_at_byte_cap_and_counts_cuts() {
    let mut limiter = ReviewLimiter::new();
    let long = "x".repeat(70000);
    let mut printed_lines = 0;
    let mut printed_bytes = 0;
    while let Some(printed) = limiter.push_line(long.clone()) {
        assert_eq!(printed.len(), 65536);
        assert!(printed.ends_with("... (line truncated)"));
        printed_lines += 1;
        printed_bytes += printed.len() + 1;
    }
    assert_eq!(printed_lines, 79);
    assert!(printed_bytes <= 5242880);
    assert!(printed_bytes + 65537 > 5242880);
    assert!(limiter.truncated());
    assert!(limiter.push_line("short".to_string()).is_none());
    assert_eq!(limiter.reason(), Some(ReviewTruncateReason::ByteCount));
    assert_eq!(limiter.line_truncations(), 79);
    assert_eq!(
        limiter.warnings(),
        vec![
            "(truncated 79 long line(s) to ~65536 bytes each)".to_string(),
            "(output truncated after ~5242880 bytes; narrow your selection or limit context)"
                .to_string(),
        ]
    );
    assert!(ReviewLimiter::new().warnings().is_empty());
}

#[test]
fn truncation_respects_character_boundaries() {
    let mut short = "short".to_string();
    assert!(!truncate_line_to_limit(&mut short));
    assert_eq!(short, "short");
    let mut exact = "y".repeat(65536);
    assert!(!truncate_line_to_limit(&mut exact));
    let mut wide = "é".repeat(40000);
    assert!(truncate_line_to_limit(&mut wide));
    assert!(wide.ends_with("... (line truncated)"));
    assert_eq!(wide.len(), 65536);
    assert_eq!(wide.chars().filter(|c| *c == 'é').count(), 32758);
    let mut odd = format!("a{}", "é".repeat(40000));
    assert!(truncate_line_to_limit(&mut odd));
    assert_eq!(odd.len(), 65535);
}

#[test]
fn match_search() {
    let hits = vec![false, true, false, false, true];
    assert_eq!(find_next_match(&hits, 0), Some(1));
    assert_eq!(find_next_match(&hits, 1), Some(4));
    assert_eq!(find_next_match(&hits, 4), None);
    assert_eq!(find_next_match(&hits, 99), None);
    assert_eq!(find_prev_match(&hits, 4), Some(1));
    assert_eq!(find_prev_match(&hits, 1), None);
    assert_eq!(find_prev_match(&hits, 0), None);
    assert_eq!(find_prev_match(&hits, 99), Some(4));
}

#[test]
fn step_transitions() {
    let start = StepState { index: 0, bookmark: None };
    assert_eq!(
        step_transition(start, 3, &StepCommand::NextLine),
        (StepState { index: 1, bookmark: None }, StepNote::Silent)
    );
    assert_eq!(
        step_transition(StepState { index: 2, bookmark: None }, 3, &StepCommand::NextLine),
        (StepState { index: 2, bookmark: None }, StepNote::EndOfFile)
    );
    assert_eq!(step_transition(start, 3, &StepCommand::PrevLine), (start, StepNote::StartOfFile));
    assert_eq!(
        step_transition(start, 3, &StepCommand::Tail),
        (StepState { index: 2, bookmark: None }, StepNote::Silent)
    );
    assert_eq!(
        step_transition(start, 3, &StepCommand::Jump(2)),
        (StepState { index: 2, bookmark: None }, StepNote::Silent)
    );
    assert_eq!(
        step_transition(start, 3, &StepCommand::Jump(3)),
        (start, StepNote::OutOfRange(3))
    );
    assert_eq!(step_transition(start, 3, &StepCommand::JumpBookmark), (start, StepNote::NoBookmark));
    let marked = step_transition(StepState { index: 1, bookmark: None }, 3, &StepCommand::SetBookmark);
    assert_eq!(marked, (StepState { index: 1, bookmark: Some(1) }, StepNote::BookmarkSet));
    assert_eq!(
        step_transition(StepState { index: 0, bookmark: Some(1) }, 3, &StepCommand::JumpBookmark),
        (StepState { index: 1, bookmark: Some(1) }, StepNote::Silent)
    );
    assert_eq!(step_transition(start, 3, &StepCommand::Quit), (start, StepNote::Silent));
    assert_eq!(
        step_transition(StepState { index: 2, bookmark: None }, 3, &StepCommand::Head),
        (start, StepNote::Silent)
    );
}

#[test]
fn numbered_lines() {
    assert_eq!(numbered_line(7, "text"), "     7 | text");
    assert_eq!(numbered_line(123456, ""), "123456 | ");
    assert_eq!(numbered_line(1234567, "x"), "1234567 | x");
}

#[test]
fn pager_commands() {
    assert_eq!(parse_pager_command(""), PagerCommand::Next);
    assert_eq!(parse_pager_command("N"), PagerCommand::Next);
    assert_eq!(parse_pager_command("p"), PagerCommand::Prev);
    assert_eq!(parse_pager_command("H"), PagerCommand::Head);
    assert_eq!(parse_pager_command("t"), PagerCommand::Tail);
    assert_eq!(parse_pager_command("Q"), PagerCommand::Quit);
    assert_eq!(parse_pager_command("?"), PagerCommand::Help);
    assert_eq!(parse_pager_command("g 15"), PagerCommand::GotoLine(15));
    assert_eq!(parse_pager_command("G  +15 x"), PagerCommand::GotoLine(15));
    assert_eq!(parse_pager_command("g"), PagerCommand::Help);
    assert_eq!(parse_pager_command("g x"), PagerCommand::Help);
    assert_eq!(parse_pager_command("42"), PagerCommand::GotoLine(42));
    assert_eq!(parse_pager_command("+42"), PagerCommand::Help);
    assert_eq!(parse_pager_command(" n"), PagerCommand::Help);
    assert_eq!(parse_pager_command("99999999999999999999999"), PagerCommand::Help);
}

#[test]
fn pager_moves() {
    assert_eq!(page_count(0), 0);
    assert_eq!(page_count(200), 1);
    assert_eq!(page_count(201), 2);
    assert_eq!(page_bounds(0, 450), (0, 200));
    assert_eq!(page_bounds(2, 450), (400, 450));
    assert_eq!(page_bounds(3, 450), (450, 450));
    assert_eq!(page_bounds(usize::MAX, 450), (450, 450));
    assert_eq!(pager_step(0, 450, PagerCommand::Next), (1, PagerOutcome::Show));
    assert_eq!(pager_step(2, 450, PagerCommand::Next), (2, PagerOutcome::Leave));
    assert_eq!(pager_step(0, 450, PagerCommand::Prev), (0, PagerOutcome::AtBeginning));
    assert_eq!(pager_step(2, 450, PagerCommand::Prev), (1, PagerOutcome::Show));
    assert_eq!(pager_step(2, 450, PagerCommand::Head), (0, PagerOutcome::Show));
    assert_eq!(pager_step(0, 450, PagerCommand::Tail), (2, PagerOutcome::Show));
    assert_eq!(pager_step(1, 450, PagerCommand::GotoLine(0)), (1, PagerOutcome::LineZero));
    assert_eq!(pager_step(0, 450, PagerCommand::GotoLine(201)), (1, PagerOutcome::Show));
    assert_eq!(pager_step(0, 450, PagerCommand::GotoLine(9999)), (2, PagerOutcome::Show));
    assert_eq!(pager_step(1, 450, PagerCommand::Quit), (1, PagerOutcome::Leave));
    assert_eq!(pager_step(1, 450, PagerCommand::Help), (1, PagerOutcome::Help));
}

#[test]
fn display_plans() {
    assert_eq!(display_plan(0, PagerMode::Always, true), DisplayPlan::Nothing);
    assert_eq!(display_plan(10, PagerMode::Always, true), DisplayPlan::Paged);
    assert_eq!(
        display_plan(10, PagerMode::Always, false),
        DisplayPlan::Inline { pager_suppressed: true }
    );
    assert_eq!(
        display_plan(10, PagerMode::Auto, true),
        DisplayPlan::Inline { pager_suppressed: false }
    );
    assert_eq!(display_plan(201, PagerMode::Auto, true), DisplayPlan::Paged);
    assert_eq!(
        display_plan(201, PagerMode::Never, true),
        DisplayPlan::Inline { pager_suppressed: false }
    );
}

#[test]
fn display_diff_renders_and_plans() {
    let config = safeedit::diff::DiffDisplayConfig {
        context: 3,
        colorize: false,
        pager_mode: PagerMode::Always,
        interactive: false,
    };
    let (buffer, plan) = display_diff("a\nb\n", "a\nc\n", &config);
    assert_eq!(buffer.line_count(), 3);
    assert_eq!(buffer.line(1), "- b\n");
    assert_eq!(plan, DisplayPlan::Inline { pager_suppressed: true });
    let (buffer, plan) = display_diff("same", "same", &config);
    assert_eq!(buffer.line_count(), 0);
    assert_eq!(plan, DisplayPlan::Nothing);
}

#[test]
fn review_runs() {
    let shown = ReviewOptions::from_input(input()).expect("options");
    assert_eq!(safeedit::review::run(0, &shown), safeedit::review::ReviewRun::ShowEach);
    assert_eq!(safeedit::review::run(3, &shown), safeedit::review::ReviewRun::ShowEach);
    let followed =
        ReviewOptions::from_input(ReviewInput { follow: true, ..input() }).expect("options");
    assert_eq!(safeedit::review::run(1, &followed), safeedit::review::ReviewRun::FollowFirst);
    assert_eq!(safeedit::review::run(0, &followed), safeedit::review::ReviewRun::Nothing);
}

#[test]
fn interactive_searches() {
    assert_eq!(build_interactive_regex("a.b").unwrap(), "a\\.b");
    assert_eq!(build_interactive_regex("re: a.b ").unwrap(), "a.b");
    assert_eq!(build_interactive_regex("re").unwrap(), "re");
    assert!(matches!(build_interactive_regex(""), Err(SearchError::EmptyPattern)));
    assert!(matches!(build_interactive_regex("re:"), Err(SearchError::EmptyRegex)));
    assert!(matches!(build_interactive_regex("re:   "), Err(SearchError::EmptyRegex)));
    match build_interactive_regex("re:(") {
        Err(error) => {
            assert!(matches!(error, SearchError::Invalid(_)));
            assert!(error.message().starts_with("invalid regex: "));
        }
        Ok(_) => panic!("pattern should be refused"),
    }
    assert_eq!(SearchError::EmptyPattern.message(), "pattern cannot be empty");
}

#[test]
fn slice_headings() {
    assert_eq!(slice_heading(ReviewSlice::Head(40)), "-- head (40 lines) --");
    assert_eq!(slice_heading(ReviewSlice::Tail(5)), "-- tail (5 lines) --");
    assert_eq!(slice_heading(ReviewSlice::Range { start: 2, end: 10 }), "-- lines 2 to 10 --");
    assert_eq!(
        slice_heading(ReviewSlice::Around { line: 7, context: 3 }),
        "-- around line 7 \u{b1} 3 --"
    );
}
