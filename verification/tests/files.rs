use safeedit::files::{
    any_part_dotted, backup_candidate, backup_file_name, backup_name, backup_name_beside,
    check_candidate, collect_simple_names, collect_suffixes, dedup_by_path, detect_binary,
    format_patch_sources, has_hidden_component, is_backup_file, names_backup, names_of_one_part,
    normalize_slashes, note_candidates, path_components_start_with_dot, push_suffixes,
    resolve_patch_target, sanitize_path, should_skip, try_direct_candidates, FileEntry,
    FileMetadata, PathPart,
};

fn entry(path: &str, len: u64) -> FileEntry {
    FileEntry {
        path: path.to_string(),
        metadata: FileMetadata { len, is_probably_binary: false },
    }
}

#[test]
fn hidden_detection_basic() {
    assert!(path_components_start_with_dot("./.git/config"));
    assert!(!path_components_start_with_dot("src/main.rs"));
}

#[test]
fn normalize_slashes_handles_backslashes() {
    assert_eq!(normalize_slashes("foo\\bar\\baz.txt"), "foo/bar/baz.txt");
}

#[test]
fn dedup_removes_duplicates() {
    let mut entries = vec![
        FileEntry {
            path: "a.txt".to_string(),
            metadata: FileMetadata { len: 0, is_probably_binary: false },
        },
        FileEntry {
            path: "a.txt".to_string(),
            metadata: FileMetadata { len: 0, is_probably_binary: false },
        },
    ];

    dedup_by_path(&mut entries);
    assert_eq!(entries.len(), 1);
}

#[test]
fn backup_detector_flags_basic_suffix() {
    assert!(is_backup_file("foo.txt.bak"));
}

#[test]
fn backup_detector_flags_incremental_suffix() {
    assert!(is_backup_file("docs/plan.md.bak12"));
}

#[test]
fn backup_detector_ignores_other_files() {
    assert!(!is_backup_file("notes/backup-plan.md"));
    assert!(!is_backup_file("README.md"));
    assert!(!is_backup_file("file.bakup"));
}

#[test]
fn dedup_sorts_and_keeps_first_of_each_path() {
    let mut entries = vec![
        entry("b.txt", 1),
        entry("a/z.txt", 2),
        entry("b.txt", 3),
        entry("a.txt", 4),
        entry("a/z.txt", 5),
        entry("", 6),
    ];
    dedup_by_path(&mut entries);
    let seen: Vec<(String, u64)> =
        entries.iter().map(|e| (e.path.clone(), e.metadata.len)).collect();
    assert_eq!(
        seen,
        vec![
            ("".to_string(), 6),
            ("a.txt".to_string(), 4),
            ("a/z.txt".to_string(), 2),
            ("b.txt".to_string(), 1),
        ]
    );
    let mut none: Vec<FileEntry> = Vec::new();
    dedup_by_path(&mut none);
    assert!(none.is_empty());
}

#[test]
fn hidden_component_counts_ordinary_names_only() {
    assert!(has_hidden_component("src/.cache/file"));
    assert!(has_hidden_component(".hidden"));
    assert!(!has_hidden_component("./src/file"));
    assert!(!has_hidden_component("../src/file"));
    assert!(path_components_start_with_dot("../src/file"));
}

#[test]
fn dotted_parts() {
    let parts = vec![
        PathPart { normal: false, text: ".".to_string() },
        PathPart { normal: true, text: "src".to_string() },
        PathPart { normal: true, text: "".to_string() },
    ];
    assert!(any_part_dotted(&parts, false));
    assert!(!any_part_dotted(&parts, true));
    assert!(!any_part_dotted(&Vec::new(), false));
}

#[test]
fn backup_names() {
    assert!(backup_name("a.bak"));
    assert!(backup_name("A.BAK7"));
    assert!(backup_name("x.bak.bak12"));
    assert!(backup_name(".bak"));
    assert!(!backup_name("x.bak1a"));
    assert!(!backup_name("x.bak1.bakx"));
    assert!(!backup_name("bak"));
    assert!(!backup_name(""));
    assert!(!is_backup_file(""));
    assert_eq!(backup_file_name("notes.txt", 0), "notes.txt.bak");
    assert_eq!(backup_file_name("notes.txt", 1), "notes.txt.bak1");
    assert_eq!(backup_file_name("notes.txt", 12), "notes.txt.bak12");
    assert_eq!(backup_candidate("dir/notes.txt", 0), "dir/notes.txt.bak");
    assert_eq!(backup_candidate("dir/notes.txt", 3), "dir/notes.txt.bak3");
    assert_eq!(backup_candidate("notes.txt", 2), "notes.txt.bak2");
}

#[test]
fn sanitize_replaces_separators() {
    assert_eq!(sanitize_path("/tmp/a b:c*?.txt"), "_tmp_a b_c__.txt");
    assert_eq!(sanitize_path("C:\\x\\y|z<>\""), "C__x_y_z___");
    assert_eq!(sanitize_path("plain-name.rs"), "plain-name.rs");
}

#[test]
fn patch_targets_and_sources() {
    assert_eq!(resolve_patch_target("/root", "src/a.rs"), "/root/src/a.rs");
    assert_eq!(resolve_patch_target("/root", "/abs/a.rs"), "/abs/a.rs");
    assert_eq!(format_patch_sources(&Vec::new()), "");
    assert_eq!(format_patch_sources(&vec!["a.patch".to_string()]), "a.patch");
    assert_eq!(
        format_patch_sources(&vec!["a.patch".to_string(), "b.diff".to_string(), "c".to_string()]),
        "a.patch, b.diff, c"
    );
}

#[test]
fn suffixes_are_collected_without_repetition() {
    assert_eq!(
        collect_suffixes("a/b/c.txt"),
        vec!["a/b/c.txt".to_string(), "b/c.txt".to_string(), "c.txt".to_string()]
    );
    assert_eq!(collect_suffixes("c.txt"), vec!["c.txt".to_string()]);
    assert!(collect_suffixes("").is_empty());
    assert_eq!(
        push_suffixes(&vec![
            "x".to_string(),
            "".to_string(),
            "y".to_string(),
            "x".to_string(),
            "z".to_string(),
            "y".to_string()
        ]),
        vec!["x".to_string(), "y".to_string(), "z".to_string()]
    );
    assert!(detect_binary(&[b'a', 0, b'b']));
    assert!(!detect_binary(b"plain text"));
    assert!(!detect_binary(&[]));
    let mut late = vec![b'x'; 4096];
    late.push(0);
    assert!(!detect_binary(&late));
    late[4095] = 0;
    assert!(detect_binary(&late));
    assert!(should_skip(false, true, None));
    assert!(!should_skip(true, true, None));
    assert!(should_skip(true, true, Some(true)));
    assert!(!should_skip(false, false, Some(false)));
    assert!(should_skip(false, false, Some(true)));
}

#[test]
fn candidates_are_looked_at_once() {
    let mut checked: Vec<String> = Vec::new();
    assert_eq!(check_candidate("a".to_string(), &mut checked).as_deref(), Some("a"));
    assert_eq!(check_candidate("b".to_string(), &mut checked).as_deref(), Some("b"));
    assert_eq!(check_candidate("a".to_string(), &mut checked), None);
    assert_eq!(checked, vec!["a".to_string(), "b".to_string()]);
    let suffixes = vec!["x/y.txt".to_string(), "y.txt".to_string(), "x/y.txt".to_string()];
    let mut checked = vec!["/base/y.txt".to_string()];
    assert_eq!(
        try_direct_candidates("/base", &suffixes, &mut checked),
        vec!["/base/x/y.txt".to_string()]
    );
    assert_eq!(checked, vec!["/base/y.txt".to_string(), "/base/x/y.txt".to_string()]);
    assert!(try_direct_candidates("/base", &suffixes, &mut checked).is_empty());
}

#[test]
fn simple_names_are_single_components() {
    let suffixes = vec!["a/b.txt".to_string(), "b.txt".to_string(), "c".to_string()];
    assert_eq!(collect_simple_names(&suffixes), vec!["b.txt".to_string(), "c".to_string()]);
}

#[test]
fn new_candidates_are_noted_once() {
    let mut checked = vec!["a".to_string(), "b".to_string()];
    let fresh = note_candidates(
        vec!["b".to_string(), "c".to_string(), "a".to_string(), "c".to_string(), "d".to_string()],
        &mut checked,
    );
    assert_eq!(fresh, vec!["c", "d"]);
    assert_eq!(checked, vec!["a", "b", "c", "d"]);
    let again = note_candidates(vec!["d".to_string(), "c".to_string()], &mut checked);
    assert!(again.is_empty());
    assert_eq!(checked, vec!["a", "b", "c", "d"]);
    let mut none: Vec<String> = Vec::new();
    assert_eq!(note_candidates(vec!["x".to_string(), "x".to_string()], &mut none), vec!["x"]);
    assert_eq!(none, vec!["x"]);
}

#[test]
fn names_with_one_component_are_kept_in_order() {
    let suffixes = vec!["a/b".to_string(), "b".to_string(), "c".to_string(), "d/e/f".to_string()];
    assert_eq!(names_of_one_part(&suffixes, &vec![2, 1, 1, 3]), vec!["b", "c"]);
    assert_eq!(names_of_one_part(&suffixes, &vec![1, 0, 2, 1]), vec!["a/b", "d/e/f"]);
    assert_eq!(names_of_one_part(&suffixes, &vec![1]), vec!["a/b"]);
    assert!(names_of_one_part(&suffixes, &Vec::new()).is_empty());
    assert!(names_of_one_part(&Vec::new(), &vec![1, 1]).is_empty());
}

#[test]
fn backup_names_beside_a_file() {
    assert_eq!(backup_name_beside(Some("notes.txt"), 0), "notes.txt.bak");
    assert_eq!(backup_name_beside(Some("notes.txt"), 12), "notes.txt.bak12");
    assert_eq!(backup_name_beside(None, 0), "safeedit_file.bak");
    assert_eq!(backup_name_beside(None, 3), "safeedit_file.bak3");
    assert!(names_backup(Some("notes.txt.bak")));
    assert!(names_backup(Some("notes.txt.BAK7")));
    assert!(!names_backup(Some("notes.txt")));
    assert!(!names_backup(Some("notes.bak.txt")));
    assert!(!names_backup(None));
}

#[test]
fn backup_candidates_end_with_the_backup_suffix() {
    assert!(backup_candidate("dir/notes.txt", 0).ends_with("notes.txt.bak"));
    assert!(backup_candidate("dir/notes.txt", 7).ends_with("notes.txt.bak7"));
    assert!(backup_candidate("notes", 10).ends_with(".bak10"));
    assert!(backup_candidate("", 0).ends_with("safeedit_file.bak"));
    assert!(backup_candidate("dir/..", 2).ends_with(".bak2"));
}
