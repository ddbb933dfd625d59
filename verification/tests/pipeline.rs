use safeedit::batch::{
    build_normalize_command, build_replace_command, merge_common, plan_format, BatchPlan,
    NormalizePlan, PlanCommon, PlanEntry, PlanError, PlanFormat, ReplacePlan,
};
use safeedit::commands::{BlockMode, BlockOptions, RenameOptions, ReplaceOptions};
use safeedit::encoding::EncodingStrategy;
use safeedit::files::{FileEntry, FileMetadata};
use safeedit::lineending::LineEndingChoice;
use safeedit::logging::{change_log_entry, LineSpan, LineSpanKind};
use safeedit::options::{
    BlockCommand, ColorChoice, CommonArgs, NormalizeCommand, PagerMode, ReplaceCommand,
};
use safeedit::patch::{PatchError, PatchKind};
use safeedit::pipeline::{
    describe_spans, display_label, follow_allowed, format_bool, format_detection, heredoc_step,
    heredoc_tag_ok, judge_patch, normalize_report_lines, normalize_step, preview_change,
    preview_patch, parse_approval, patch_kind_label, plan_normalize, plan_patch,
    plan_write, resolve_block_body, resolve_body_from_sources, resolve_replacement_text, temp_file_name,
    undo_patch_name, write_body, ApprovalDecision, CommandStats, DecisionAction, FileAction,
    FileEvent, HeredocStep, NormalizeWrite, PatchVerdict, PipelineState, PlanningError,
    ReportFormat, TextSource, WriteStep,
};
use safeedit::transform::{
    run_block, run_rename, run_replace, run_transform, CommandError, TransformContext,
    TransformResult,
};

fn common() -> CommonArgs {
    CommonArgs {
        globs: vec!["*.rs".to_string()],
        targets: vec!["a.txt".to_string()],
        encoding: None,
        apply: false,
        auto_apply: false,
        no_backup: false,
        context: 3,
        pager: PagerMode::Auto,
        color: ColorChoice::Auto,
        json: false,
        include_hidden: false,
        exclude: Vec::new(),
        undo_log: None,
        extra_args: vec!["x".to_string()],
    }
}

#[test]
fn approvals() {
    assert_eq!(parse_approval("y\n"), Some(ApprovalDecision::Apply));
    assert_eq!(parse_approval(" YES "), Some(ApprovalDecision::Apply));
    assert_eq!(parse_approval(""), Some(ApprovalDecision::Apply));
    assert_eq!(parse_approval("n"), Some(ApprovalDecision::Skip));
    assert_eq!(parse_approval("No"), Some(ApprovalDecision::Skip));
    assert_eq!(parse_approval("a"), Some(ApprovalDecision::ApplyAll));
    assert_eq!(parse_approval("ALL"), Some(ApprovalDecision::ApplyAll));
    assert_eq!(parse_approval("q"), Some(ApprovalDecision::Quit));
    assert_eq!(parse_approval("quit"), Some(ApprovalDecision::Quit));
    assert_eq!(parse_approval("maybe"), None);
    assert_eq!(parse_approval("y e s"), None);
}

#[test]
fn dry_run_never_asks_or_writes() {
    let mut state = PipelineState::new(false, true);
    assert!(!state.apply_all);
    assert_eq!(state.on_file(FileEvent::Changed), FileAction::PreviewOnly);
    assert_eq!(state.on_file(FileEvent::Unchanged), FileAction::RecordNoOp);
    assert_eq!(state.on_file(FileEvent::Binary), FileAction::RecordSkipped);
    assert_eq!(
        state.stats,
        CommandStats { applied: 0, skipped: 1, dry_run: 1, no_op: 1 }
    );
}

#[test]
fn apply_all_is_sticky_and_quit_halts() {
    let mut state = PipelineState::new(true, false);
    assert_eq!(state.on_file(FileEvent::Changed), FileAction::PreviewAndAsk);
    assert_eq!(state.on_decision(ApprovalDecision::Skip, true), DecisionAction::RecordSkipped);
    assert_eq!(state.on_file(FileEvent::Changed), FileAction::PreviewAndAsk);
    assert_eq!(state.on_decision(ApprovalDecision::Apply, true), DecisionAction::Write);
    state.on_written();
    assert!(!state.apply_all);
    assert_eq!(state.on_file(FileEvent::Changed), FileAction::PreviewAndAsk);
    assert_eq!(state.on_decision(ApprovalDecision::ApplyAll, true), DecisionAction::Write);
    state.on_written();
    assert!(state.apply_all);
    assert_eq!(state.on_file(FileEvent::Changed), FileAction::PreviewAndWrite);
    state.on_written();
    assert_eq!(state.on_file(FileEvent::Unchanged), FileAction::RecordNoOp);
    assert_eq!(state.stats, CommandStats { applied: 3, skipped: 1, dry_run: 0, no_op: 1 });

    let mut state = PipelineState::new(true, false);
    assert_eq!(state.on_file(FileEvent::Changed), FileAction::PreviewAndAsk);
    assert_eq!(state.on_decision(ApprovalDecision::Quit, true), DecisionAction::Stop);
    assert!(state.stopped);
    assert_eq!(state.stats.skipped, 1);
    assert_eq!(state.on_file(FileEvent::Changed), FileAction::Halt);
    assert_eq!(state.on_file(FileEvent::Binary), FileAction::Halt);
    assert_eq!(state.stats, CommandStats { applied: 0, skipped: 1, dry_run: 0, no_op: 0 });

    let mut cleanup = PipelineState::new(true, false);
    assert_eq!(cleanup.on_decision(ApprovalDecision::Quit, false), DecisionAction::Stop);
    assert_eq!(cleanup.stats.skipped, 0);

    let auto = PipelineState::new(true, true);
    assert!(auto.apply_all);
}

#[test]
fn counts_saturate() {
    let mut state = PipelineState::new(true, true);
    state.stats.applied = usize::MAX;
    state.on_written();
    assert_eq!(state.stats.applied, usize::MAX);
}

#[test]
fn stats_summary() {
    assert_eq!(CommandStats::default().summary_line("replace"), None);
    let stats = CommandStats { applied: 2, skipped: 0, dry_run: 10, no_op: 1 };
    assert_eq!(
        stats.summary_line("replace").as_deref(),
        Some("replace summary: applied=2, skipped=0, dry-run=10, no-op=1")
    );
}

#[test]
fn patch_plans() {
    let plan = plan_patch(PatchKind::Modify, Some("old"), Some("new")).unwrap();
    assert_eq!(plan.read_from.as_deref(), Some("new"));
    assert_eq!(plan.write_to.as_deref(), Some("new"));
    assert_eq!(plan.remove, None);
    assert_eq!(plan.must_be_free, None);
    let plan = plan_patch(PatchKind::Modify, Some("old"), None).unwrap();
    assert_eq!(plan.read_from.as_deref(), Some("old"));
    assert_eq!(plan_patch(PatchKind::Modify, None, None).unwrap_err(), PlanningError::ModifyMissingPath);

    let plan = plan_patch(PatchKind::Create, None, Some("new")).unwrap();
    assert_eq!(plan.read_from, None);
    assert_eq!(plan.write_to.as_deref(), Some("new"));
    assert_eq!(plan.must_be_free.as_deref(), Some("new"));
    assert_eq!(
        plan_patch(PatchKind::Create, Some("x"), None).unwrap_err(),
        PlanningError::CreateMissingTarget
    );

    let plan = plan_patch(PatchKind::Delete, Some("old"), None).unwrap();
    assert_eq!(plan.read_from.as_deref(), Some("old"));
    assert_eq!(plan.write_to, None);
    assert_eq!(plan.remove.as_deref(), Some("old"));
    assert_eq!(
        plan_patch(PatchKind::Delete, None, Some("x")).unwrap_err(),
        PlanningError::DeleteMissingSource
    );

    let plan = plan_patch(PatchKind::Rename, Some("old"), Some("new")).unwrap();
    assert_eq!(plan.read_from.as_deref(), Some("old"));
    assert_eq!(plan.write_to.as_deref(), Some("new"));
    assert_eq!(plan.remove.as_deref(), Some("old"));
    assert_eq!(plan.must_be_free.as_deref(), Some("new"));
    let plan = plan_patch(PatchKind::Rename, Some("same"), Some("same")).unwrap();
    assert_eq!(plan.must_be_free, None);
    assert_eq!(
        plan_patch(PatchKind::Rename, None, Some("x")).unwrap_err(),
        PlanningError::RenameMissingSource
    );
    assert_eq!(
        plan_patch(PatchKind::Rename, Some("x"), None).unwrap_err(),
        PlanningError::RenameMissingDestination
    );
    assert_eq!(PlanningError::ModifyMissingPath.message(), "modify patch missing path");
}

#[test]
fn patch_verdicts() {
    assert_eq!(judge_patch(PatchKind::Modify, "a", "a").unwrap(), PatchVerdict::NoOp);
    assert_eq!(judge_patch(PatchKind::Modify, "a", "b").unwrap(), PatchVerdict::Change);
    assert_eq!(judge_patch(PatchKind::Create, "", "").unwrap(), PatchVerdict::NoOp);
    assert_eq!(judge_patch(PatchKind::Create, "", "x").unwrap(), PatchVerdict::Change);
    assert_eq!(judge_patch(PatchKind::Delete, "x", "").unwrap(), PatchVerdict::Change);
    assert!(matches!(
        judge_patch(PatchKind::Delete, "x\ny\n", "y\n"),
        Err(PatchError::DeleteNotEmpty)
    ));
    assert_eq!(judge_patch(PatchKind::Rename, "a", "a").unwrap(), PatchVerdict::RenameOnly);
    assert_eq!(judge_patch(PatchKind::Rename, "a", "b").unwrap(), PatchVerdict::Change);
}

#[test]
fn labels() {
    assert_eq!(patch_kind_label(PatchKind::Modify), "modify");
    assert_eq!(patch_kind_label(PatchKind::Create), "create");
    assert_eq!(patch_kind_label(PatchKind::Delete), "delete");
    assert_eq!(patch_kind_label(PatchKind::Rename), "rename");
    assert_eq!(display_label(Some("a"), Some("b")), "a -> b");
    assert_eq!(display_label(Some("a"), Some("a")), "a");
    assert_eq!(display_label(None, Some("b")), "b");
    assert_eq!(display_label(Some("a"), None), "a");
    assert_eq!(display_label(None, None), "(unknown path)");
    assert_eq!(format_detection(Some(12)), "12");
    assert_eq!(format_detection(None), "n/a");
    assert_eq!(format_bool(Some(true)), "yes");
    assert_eq!(format_bool(Some(false)), "no");
    assert_eq!(format_bool(None), "n/a");
    assert_eq!(ReportFormat::from_str("Table"), Some(ReportFormat::Table));
    assert_eq!(ReportFormat::from_str("JSON"), Some(ReportFormat::Json));
    assert_eq!(ReportFormat::from_str("xml"), None);
}

#[test]
fn spans_are_described() {
    let spans = vec![
        LineSpan { kind: LineSpanKind::Modified, start: 2, end: 2 },
        LineSpan { kind: LineSpanKind::Added, start: 4, end: 10 },
    ];
    assert_eq!(describe_spans(&spans), "M L2, A L4-L10");
    assert_eq!(describe_spans(&Vec::new()), "");
    assert_eq!(LineSpanKind::Modified.label(), "modified");
    assert_eq!(LineSpanKind::Added.label(), "added");
}

#[test]
fn change_log_entries_leave_out_empty_spans() {
    let entry = change_log_entry("t", "replace", "a.txt", "applied", "L2", &Vec::new());
    assert!(entry.spans.is_none());
    assert_eq!(entry.command, "replace");
    assert_eq!(entry.line_summary, "L2");
    let spans = vec![LineSpan { kind: LineSpanKind::Added, start: 1, end: 1 }];
    let entry = change_log_entry("t", "replace", "a.txt", "applied", "+L1", &spans);
    assert_eq!(entry.spans, Some(spans));
}

#[test]
fn write_plans_and_names() {
    assert_eq!(
        plan_write(true, false, true),
        vec![
            WriteStep::WriteUndo,
            WriteStep::Encode,
            WriteStep::CreateParent,
            WriteStep::Backup,
            WriteStep::WriteTemp,
            WriteStep::Rename
        ]
    );
    assert_eq!(
        plan_write(false, true, true),
        vec![WriteStep::Encode, WriteStep::CreateParent, WriteStep::WriteTemp, WriteStep::Rename]
    );
    assert_eq!(
        plan_write(false, false, false),
        vec![WriteStep::Encode, WriteStep::CreateParent, WriteStep::WriteTemp, WriteStep::Rename]
    );
    for undo in [false, true] {
        for no_backup in [false, true] {
            for exists in [false, true] {
                let steps = plan_write(undo, no_backup, exists);
                assert_eq!(steps.last(), Some(&WriteStep::Rename));
                assert_eq!(steps.iter().filter(|s| **s == WriteStep::Rename).count(), 1);
                assert_eq!(steps.contains(&WriteStep::Backup), !no_backup && exists);
                assert_eq!(steps.first() == Some(&WriteStep::WriteUndo), undo);
            }
        }
    }
    assert_eq!(
        undo_patch_name("2024-01-02T03:04:05Z", "src/a b.rs"),
        "2024-01-02T03:04:05Z_src_a b.rs.patch"
    );
    assert_eq!(temp_file_name(42, 1700000000000000000), ".safeedit-tmp-42-1700000000000000000");
}

#[test]
fn heredocs() {
    assert_eq!(heredoc_step("EOF\n", "EOF"), HeredocStep::End);
    assert_eq!(heredoc_step("EOF\r\n", "EOF"), HeredocStep::End);
    assert_eq!(heredoc_step("EOF", "EOF"), HeredocStep::End);
    assert_eq!(heredoc_step(" EOF\n", "EOF"), HeredocStep::Append);
    assert_eq!(heredoc_step("EOF \n", "EOF"), HeredocStep::Append);
    assert!(heredoc_tag_ok("EOF"));
    assert!(!heredoc_tag_ok("  \t"));
    assert!(!heredoc_tag_ok(""));
}

#[test]
fn body_sources() {
    let lines = vec!["a".to_string(), "b".to_string()];
    assert_eq!(
        resolve_body_from_sources(&lines, &Some("f".into()), true, true, &Some("T".into())),
        Some(TextSource::Literal("a\nb".to_string()))
    );
    let none: Vec<String> = Vec::new();
    assert_eq!(
        resolve_body_from_sources(&none, &Some("f".into()), true, true, &Some("T".into())),
        Some(TextSource::File("f".to_string()))
    );
    assert_eq!(
        resolve_body_from_sources(&none, &None, true, true, &Some("T".into())),
        Some(TextSource::Heredoc("T".to_string()))
    );
    assert_eq!(resolve_body_from_sources(&none, &None, true, true, &None), Some(TextSource::Stdin));
    assert_eq!(
        resolve_body_from_sources(&none, &None, false, true, &None),
        Some(TextSource::Clipboard)
    );
    assert_eq!(resolve_body_from_sources(&none, &None, false, false, &None), None);
    assert_eq!(TextSource::Stdin.label(), "stdin");
    assert_eq!(TextSource::Literal(String::new()).label(), "literal");
}

fn replace_command() -> ReplaceCommand {
    ReplaceCommand {
        common: common(),
        pattern: "p".to_string(),
        replacement: None,
        with_stdin: false,
        with_clipboard: false,
        with_here: None,
        regex: false,
        literal: false,
        diff_only: false,
        count: None,
        expect: None,
        after_line: None,
    }
}

#[test]
fn replacement_sources() {
    let mut cmd = replace_command();
    assert_eq!(resolve_replacement_text(&cmd), None);
    cmd.with_here = Some("END".to_string());
    assert_eq!(resolve_replacement_text(&cmd), Some(TextSource::Heredoc("END".to_string())));
    cmd.with_clipboard = true;
    assert_eq!(resolve_replacement_text(&cmd), Some(TextSource::Clipboard));
    cmd.with_stdin = true;
    assert_eq!(resolve_replacement_text(&cmd), Some(TextSource::Stdin));
    cmd.replacement = Some("text".to_string());
    assert_eq!(resolve_replacement_text(&cmd), Some(TextSource::Literal("text".to_string())));
    assert!(cmd.literal_mode());
    cmd.regex = true;
    assert!(!cmd.literal_mode());
    cmd.literal = true;
    assert!(cmd.literal_mode());
    assert!(!cmd.apply_mode());
    cmd.common.apply = true;
    assert!(cmd.apply_mode());
    cmd.diff_only = true;
    assert!(!cmd.apply_mode());
}

#[test]
fn write_bodies() {
    assert_eq!(write_body("a\r\nb\n", LineEndingChoice::Lf, Some("x\r\n")), "a\nb\n");
    assert_eq!(write_body("a\r\nb\n", LineEndingChoice::Crlf, None), "a\r\nb\r\n");
    assert_eq!(write_body("a\nb\n", LineEndingChoice::Cr, None), "a\rb\r");
    assert_eq!(write_body("a\nb\n", LineEndingChoice::Auto, Some("x\r\ny")), "a\r\nb\r\n");
    assert_eq!(write_body("a\r\nb\r\n", LineEndingChoice::Auto, Some("plain")), "a\nb\n");
}

#[test]
fn normalize_writes() {
    assert_eq!(
        plan_normalize(Some("clean".into()), true, "dirty"),
        NormalizeWrite::Cleaned("clean".into())
    );
    assert_eq!(plan_normalize(None, true, "same"), NormalizeWrite::ConvertOnly("same".into()));
    assert_eq!(plan_normalize(None, false, "same"), NormalizeWrite::Nothing);
    assert!(follow_allowed(false, 0));
    assert!(follow_allowed(true, 1));
    assert!(!follow_allowed(true, 2));
    assert!(!follow_allowed(true, 0));
}

#[test]
fn plan_entries_and_formats() {
    let plan = BatchPlan {
        steps: vec![
            PlanEntry::Replace(ReplacePlan {
                common: PlanCommon::default(),
                pattern: "p".into(),
                replacement: Some("r".into()),
                regex: false,
                literal: false,
                diff_only: false,
                count: None,
                expect: None,
                after_line: None,
                with_stdin: false,
                with_clipboard: false,
            }),
            PlanEntry::Normalize(normalize_plan()),
        ],
    };
    assert_eq!(plan.steps[0].kind(), "replace");
    assert_eq!(plan.steps[1].kind(), "normalize");
    assert_eq!(plan_format(Some("JSON")), PlanFormat::Json);
    assert_eq!(plan_format(Some("json")), PlanFormat::Json);
    assert_eq!(plan_format(Some("yaml")), PlanFormat::Yaml);
    assert_eq!(plan_format(Some("jsonx")), PlanFormat::Yaml);
    assert_eq!(plan_format(None), PlanFormat::Yaml);
}

fn normalize_plan() -> NormalizePlan {
    NormalizePlan {
        common: PlanCommon::default(),
        convert_encoding: None,
        strip_zero_width: None,
        strip_control: None,
        trim_trailing_space: None,
        ensure_eol: None,
        report_format: None,
        scan_encoding: None,
        scan_zero_width: None,
        scan_control: None,
        scan_trailing_space: None,
        scan_final_newline: None,
    }
}

#[test]
fn merging_lays_step_options_over_the_command_line() {
    let base = common();
    let merged = merge_common(&base, &PlanCommon::default());
    assert_eq!(merged.targets, base.targets);
    assert_eq!(merged.globs, base.globs);
    assert_eq!(merged.context, 3);
    assert_eq!(merged.extra_args, base.extra_args);
    let overrides = PlanCommon {
        targets: Some(vec!["b.txt".to_string()]),
        globs: Some(Vec::new()),
        encoding: Some("utf-8".to_string()),
        apply: Some(true),
        auto_apply: Some(true),
        no_backup: Some(true),
        context: Some(9),
        pager: Some(PagerMode::Never),
        color: Some(ColorChoice::Always),
        json: Some(true),
        include_hidden: Some(true),
        exclude: Some(vec!["target".to_string()]),
        undo_log: Some("undo".to_string()),
    };
    let merged = merge_common(&base, &overrides);
    assert_eq!(merged.targets, vec!["b.txt".to_string()]);
    assert!(merged.globs.is_empty());
    assert_eq!(merged.encoding.as_deref(), Some("utf-8"));
    assert!(merged.apply && merged.auto_apply && merged.no_backup && merged.json);
    assert!(merged.include_hidden);
    assert_eq!(merged.context, 9);
    assert_eq!(merged.pager, PagerMode::Never);
    assert_eq!(merged.color, ColorChoice::Always);
    assert_eq!(merged.exclude, vec!["target".to_string()]);
    assert_eq!(merged.undo_log.as_deref(), Some("undo"));
    assert_eq!(merged.extra_args, base.extra_args);
}

#[test]
fn building_commands_from_steps() {
    let mut step = ReplacePlan {
        common: PlanCommon::default(),
        pattern: "p".into(),
        replacement: None,
        regex: true,
        literal: false,
        diff_only: true,
        count: Some(2),
        expect: Some(3),
        after_line: Some(4),
        with_stdin: false,
        with_clipboard: false,
    };
    let error = build_replace_command(&common(), &step).unwrap_err();
    assert_eq!(error, PlanError::MissingReplacement);
    assert_eq!(error.message(), "replace step missing replacement text or input source");
    step.with_stdin = true;
    let cmd = build_replace_command(&common(), &step).expect("command");
    assert_eq!(cmd.pattern, "p");
    assert!(cmd.regex && cmd.diff_only && cmd.with_stdin);
    assert_eq!((cmd.count, cmd.expect, cmd.after_line), (Some(2), Some(3), Some(4)));
    assert_eq!(cmd.with_here, None);

    let cmd: NormalizeCommand = build_normalize_command(&common(), &normalize_plan()).expect("command");
    assert_eq!(cmd.report_format, "table");
    assert!(!cmd.strip_zero_width && !cmd.ensure_eol && !cmd.scan_control);
    let plan = cmd.scan_plan();
    assert!(plan.encoding && plan.zero_width && plan.control && plan.trailing_space && plan.final_newline);
    let mut plan_step = normalize_plan();
    plan_step.scan_control = Some(true);
    plan_step.strip_control = Some(true);
    plan_step.report_format = Some("json".into());
    let cmd = build_normalize_command(&common(), &plan_step).expect("command");
    assert_eq!(cmd.report_format, "json");
    let plan = cmd.scan_plan();
    assert!(plan.control && !plan.encoding && !plan.zero_width);
    let opts = cmd.normalize_options();
    assert!(opts.strip_control && opts.detect_control && !opts.detect_zero_width);
}

#[test]
fn display_config_follows_the_options() {
    let mut args = common();
    let config = args.diff_display_config(true, true, true);
    assert!(config.colorize && config.interactive);
    assert_eq!(config.context, 3);
    assert_eq!(config.pager_mode, PagerMode::Auto);
    assert!(!args.allow_interactive_pager(true, false));
    args.json = true;
    assert!(!args.allow_interactive_pager(true, true));
    assert!(ColorChoice::Always.should_color(false));
    assert!(!ColorChoice::Never.should_color(true));
    assert!(ColorChoice::Auto.should_color(true));
    assert!(!ColorChoice::Auto.should_color(false));
    assert_eq!(ColorChoice::default(), ColorChoice::Auto);
    assert_eq!(PagerMode::default(), PagerMode::Auto);
}

fn file(binary: bool) -> FileEntry {
    FileEntry {
        path: "a.txt".to_string(),
        metadata: FileMetadata { len: 3, is_probably_binary: binary },
    }
}

#[test]
fn runs_skip_binary_files_and_keep_only_changes() {
    let strategy = EncodingStrategy::new(None).unwrap();
    let options = ReplaceOptions {
        pattern: "foo".into(),
        replacement: "bar".into(),
        allow_captures: false,
        count: None,
        expect: None,
        after_line: None,
    };
    let outcome = run_replace(&file(true), &strategy, b"foo", &options).unwrap();
    assert!(outcome.skipped_binary && outcome.result.is_none());
    let outcome = run_replace(&file(false), &strategy, b"foo foo", &options).unwrap();
    let result = outcome.result.expect("change");
    assert_eq!(result.new_text(), "bar bar");
    assert_eq!(result.decoded().text, "foo foo");
    assert!(!outcome.skipped_binary && !outcome.had_decoding_errors);
    let outcome = run_replace(&file(false), &strategy, b"nothing", &options).unwrap();
    assert!(outcome.result.is_none());
    let same = ReplaceOptions { replacement: "foo".into(), ..options.clone() };
    let outcome = run_replace(&file(false), &strategy, b"foo", &same).unwrap();
    assert!(outcome.result.is_none());
    let bad = ReplaceOptions { pattern: "(".into(), ..options.clone() };
    assert!(matches!(
        run_replace(&file(false), &strategy, b"foo", &bad),
        Err(CommandError::Transform(_))
    ));
    let late = ReplaceOptions { after_line: Some(3), ..options };
    let outcome = run_replace(&file(false), &strategy, b"foo\nfoo\n", &late).unwrap();
    assert!(outcome.result.is_none());
    assert_eq!(outcome.filtered_by_line, 2);
}

#[test]
fn runs_of_block_and_rename() {
    let strategy = EncodingStrategy::new(None).unwrap();
    let block = BlockOptions {
        start_marker: "<a>".into(),
        end_marker: "</a>".into(),
        mode: BlockMode::Replace,
        body: "new".into(),
    };
    let outcome = run_block(&file(false), &strategy, b"<a>old</a>", &block).unwrap();
    assert_eq!(outcome.result.expect("change").new_text(), "<a>new</a>");
    assert!(run_block(&file(false), &strategy, b"<a>new</a>", &block).unwrap().result.is_none());
    assert!(run_block(&file(true), &strategy, b"<a>old</a>", &block).unwrap().skipped_binary);
    let error = run_block(&file(false), &strategy, b"none", &block).unwrap_err();
    assert_eq!(error.message(), "start marker '<a>' not found");
    let rename = RenameOptions {
        from: "old".into(),
        to: "new".into(),
        word_boundary: true,
        case_aware: true,
    };
    let outcome = run_rename(&file(false), &strategy, b"Old old_x OLD", &rename).unwrap();
    assert_eq!(outcome.result.expect("change").new_text(), "New old_x NEW");
    let bytes = [b'o', b'l', b'd', 0xFF];
    let forced = EncodingStrategy::new(Some("utf-8")).unwrap();
    let outcome = run_rename(&file(false), &forced, &bytes, &rename).unwrap();
    assert!(outcome.had_decoding_errors);
    assert_eq!(outcome.result.expect("change").new_text(), "new\u{FFFD}");
}

#[test]
fn transform_results_always_change_the_text() {
    let strategy = EncodingStrategy::new(None).unwrap();
    let decoded = strategy.decode(b"text").unwrap();
    assert!(TransformResult::new(decoded.clone(), None).is_none());
    assert!(TransformResult::new(decoded.clone(), Some("text".to_string())).is_none());
    let result = TransformResult::new(decoded, Some("other".to_string())).expect("result");
    assert_eq!(result.new_text(), "other");
    assert_eq!(result.decoded().text, "text");
}

#[test]
fn run_transform_hands_the_decoded_text_to_the_transformer() {
    let strategy = EncodingStrategy::new(None).unwrap();
    let entry = file(false);
    let ctx = TransformContext { entry: &entry, encoding: &strategy };
    let outcome = run_transform(&ctx, b"abc", |decoded| Ok(Some(decoded.text.to_uppercase())))
        .expect("outcome");
    assert_eq!(outcome.result.expect("change").new_text(), "ABC");
    let outcome = run_transform(&ctx, b"abc", |decoded| Ok(Some(decoded.text.clone())))
        .expect("outcome");
    assert!(outcome.result.is_none());
    let outcome = run_transform(&ctx, b"abc", |_| Ok(None)).expect("outcome");
    assert!(outcome.result.is_none() && !outcome.skipped_binary);
    let binary = file(true);
    let ctx = TransformContext { entry: &binary, encoding: &strategy };
    let outcome =
        run_transform(&ctx, b"abc", |_| Ok(Some("never".to_string()))).expect("outcome");
    assert!(outcome.skipped_binary && outcome.result.is_none());
}

#[test]
fn block_body_sources() {
    let mut cmd = BlockCommand {
        common: common(),
        start_marker: "<".into(),
        end_marker: ">".into(),
        mode: BlockMode::Replace,
        body: Vec::new(),
        body_file: None,
        with_stdin: false,
        with_clipboard: true,
        body_here: None,
    };
    assert_eq!(resolve_block_body(&cmd), Some(TextSource::Clipboard));
    cmd.body_file = Some("body.txt".to_string());
    assert_eq!(resolve_block_body(&cmd), Some(TextSource::File("body.txt".to_string())));
    cmd.body = vec!["one".to_string(), "two".to_string()];
    assert_eq!(resolve_block_body(&cmd), Some(TextSource::Literal("one\ntwo".to_string())));
}

#[test]
fn normalize_report_as_table() {
    let report = safeedit::normalize::normalize_text("a \u{200B}\n", &safeedit::normalize::NormalizeOptions {
        strip_zero_width: false,
        strip_control: false,
        trim_trailing_space: false,
        ensure_eol: false,
        detect_zero_width: true,
        detect_control: false,
        detect_trailing_space: true,
        detect_final_newline: true,
    })
    .report;
    assert_eq!(
        normalize_report_lines("a.txt", &report, Some("UTF-8"), Some("UTF-16LE")),
        vec![
            "a.txt -> zero-width: 1, control: n/a, trailing spaces: 0, missing final newline: no"
                .to_string(),
            "    encoding: UTF-8 -> UTF-16LE".to_string(),
        ]
    );
    assert_eq!(
        normalize_report_lines("a.txt", &report, Some("UTF-8"), None)[1],
        "    encoding: UTF-8"
    );
    assert_eq!(
        normalize_report_lines("a.txt", &report, None, Some("GBK"))[1],
        "    convert encoding: GBK"
    );
    assert_eq!(normalize_report_lines("a.txt", &report, None, None).len(), 1);
}

#[test]
fn block_modes_are_named() {
    assert_eq!(BlockMode::from_str("insert"), Some(BlockMode::Insert));
    assert_eq!(BlockMode::from_str("REPLACE"), Some(BlockMode::Replace));
    assert_eq!(BlockMode::from_str("append"), None);
}

#[test]
fn patch_previews() {
    let patch = "--- a/f\n+++ b/f\n@@ -1,2 +1,2 @@\n alpha\n-beta\n+beta2\n";
    let preview = preview_patch(PatchKind::Modify, "alpha\r\nbeta\r\n", patch).expect("preview");
    assert_eq!(preview.new_text, "alpha\r\nbeta2\r\n");
    assert_eq!(preview.verdict, PatchVerdict::Change);
    assert_eq!(preview.preview.line_summary, "L2");
    assert_eq!(
        preview.preview.line_spans,
        vec![LineSpan { kind: LineSpanKind::Modified, start: 2, end: 2 }]
    );
    let create = "--- /dev/null\n+++ b/new\n@@ -0,0 +1,2 @@\n+one\n+two\n";
    let preview = preview_patch(PatchKind::Create, "", create).expect("preview");
    assert_eq!(preview.new_text, "one\ntwo\n");
    assert_eq!(preview.preview.line_summary, "+L1");
    let delete = "--- a/f\n+++ /dev/null\n@@ -1,2 +0,0 @@\n-one\n-two\n";
    let preview = preview_patch(PatchKind::Delete, "one\ntwo\n", delete).expect("preview");
    assert_eq!(preview.new_text, "");
    assert_eq!(preview.verdict, PatchVerdict::Change);
    let partial = "--- a/f\n+++ /dev/null\n@@ -1,1 +0,0 @@\n-one\n";
    assert!(matches!(
        preview_patch(PatchKind::Delete, "one\ntwo\n", partial),
        Err(PatchError::DeleteNotEmpty)
    ));
    assert!(matches!(
        preview_patch(PatchKind::Modify, "other\n", patch),
        Err(PatchError::HunkMismatch(_))
    ));
    let nothing = "--- a/f\n+++ b/g\n";
    let preview = preview_patch(PatchKind::Rename, "text\n", nothing).expect("preview");
    assert_eq!(preview.verdict, PatchVerdict::RenameOnly);
    assert_eq!(preview.preview.line_summary, "rename-only");
    assert!(preview.preview.line_spans.is_empty());
}

#[test]
fn normalize_steps() {
    let mut options = safeedit::normalize::NormalizeOptions {
        strip_zero_width: false,
        strip_control: false,
        trim_trailing_space: true,
        ensure_eol: false,
        detect_zero_width: true,
        detect_control: true,
        detect_trailing_space: true,
        detect_final_newline: true,
    };
    let step = normalize_step("a  \nb\n", &options, None);
    assert_eq!(step.write, NormalizeWrite::Cleaned("a\nb\n".to_string()));
    assert_eq!(step.report.trailing_spaces, Some(2));
    assert_eq!(step.preview.expect("preview").line_summary, "L1");
    options.trim_trailing_space = false;
    let step = normalize_step("a  \nb\n", &options, None);
    assert_eq!(step.write, NormalizeWrite::Nothing);
    assert!(step.preview.is_none());
    let step = normalize_step("a  \nb\n", &options, Some("utf-16le"));
    assert_eq!(step.write, NormalizeWrite::ConvertOnly("a  \nb\n".to_string()));
    let preview = step.preview.expect("preview");
    assert_eq!(preview.line_summary, "encoding conversion to utf-16le");
    assert!(preview.line_spans.is_empty());
    let change = preview_change("a\n", "a\nb\n");
    assert_eq!(change.line_summary, "+L2");
    assert_eq!(change.line_spans, vec![LineSpan { kind: LineSpanKind::Added, start: 2, end: 2 }]);
}
