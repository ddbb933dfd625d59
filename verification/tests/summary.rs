use safeedit::files::{FileEntry, FileMetadata};
use safeedit::options::{ColorChoice, CommonArgs, PagerMode};
use safeedit::summary::command_summary;

fn bare_options() -> CommonArgs {
    CommonArgs {
        globs: Vec::new(),
        targets: Vec::new(),
        encoding: None,
        apply: false,
        auto_apply: false,
        no_backup: false,
        context: 3,
        pager: PagerMode::Auto,
        color: ColorChoice::Auto,
        json: false,
        include_hidden: false,
        exclude: Vec::new(),
        undo_log: None,
        extra_args: Vec::new(),
    }
}

fn entry(path: &str, len: u64, binary: bool) -> FileEntry {
    FileEntry {
        path: path.to_string(),
        metadata: FileMetadata { len, is_probably_binary: binary },
    }
}

#[test]
fn summary_of_a_bare_command() {
    let lines = command_summary("replace", &bare_options(), "auto-detect", &Vec::new(), &Vec::new());
    assert_eq!(
        lines,
        vec![
            "command: replace",
            "mode: dry-run",
            "targets: (none)",
            "encoding strategy: auto-detect",
            "context lines: 3",
            "pager: Auto",
            "json output: false",
            "include hidden: false",
            "resolved files: (none)",
            "---",
        ]
    );
}

#[test]
fn summary_with_every_setting() {
    let options = CommonArgs {
        globs: vec!["src/**/*.rs".to_string()],
        targets: vec!["a.txt".to_string(), "b.txt".to_string()],
        apply: true,
        auto_apply: true,
        no_backup: true,
        context: 12,
        pager: PagerMode::Never,
        json: true,
        include_hidden: true,
        exclude: vec!["*.log".to_string(), "a\"b".to_string()],
        undo_log: Some("undo".to_string()),
        extra_args: vec!["--x".to_string()],
        ..bare_options()
    };
    let entries = vec![entry("a.txt", 10, false), entry("b.bin", 2048, true)];
    let details = vec!["pattern: foo".to_string(), "count: 1".to_string()];
    let lines = command_summary("rename", &options, "override 'utf-8'", &entries, &details);
    assert_eq!(
        lines,
        vec![
            "command: rename",
            "mode: apply (auto-approve)",
            "targets:",
            "  - a.txt",
            "  - b.txt",
            "encoding strategy: override 'utf-8'",
            "context lines: 12",
            "pager: Never",
            "json output: true",
            "include hidden: true",
            "exclude globs: [\"*.log\", \"a\\\"b\"]",
            "backups disabled",
            "undo log dir: undo",
            "globs:",
            "  - src/**/*.rs",
            "resolved files (2):",
            "  - a.txt (10 bytes)",
            "  - b.bin (2048 bytes, binary? yes)",
            "extra args: [\"--x\"]",
            "pattern: foo",
            "count: 1",
            "---",
        ]
    );
}

#[test]
fn summary_lists_ten_files_at_most() {
    let entries: Vec<FileEntry> =
        (0..12).map(|i| entry(&format!("file{i}.txt"), i as u64, false)).collect();
    let options = CommonArgs { pager: PagerMode::Always, ..bare_options() };
    let lines = command_summary("block", &options, "s", &entries, &Vec::new());
    assert_eq!(lines[5], "pager: Always");
    assert_eq!(lines[8], "resolved files (12):");
    assert_eq!(lines[9], "  - file0.txt (0 bytes)");
    assert_eq!(lines[18], "  - file9.txt (9 bytes)");
    assert_eq!(lines[19], "  ...");
    assert_eq!(lines[20], "---");
    assert_eq!(lines.len(), 21);
    let ten: Vec<FileEntry> = entries.iter().take(10).cloned().collect();
    let lines = command_summary("block", &options, "s", &ten, &Vec::new());
    assert_eq!(lines[18], "  - file9.txt (9 bytes)");
    assert_eq!(lines[19], "---");
}
