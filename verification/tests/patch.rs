use safeedit::patch::{
    apply_patch_preserving_newlines, classify_paths, finalize_segment, hunk_headers_fit,
    label_to_path, load_file_patches, paths_agree, split_segments, PatchError, PatchKind, Segment,
};

#[test]
fn split_segments_finds_multiple_entries() {
    let text = "\
diff --git a/foo.txt b/foo.txt
index 111..222 100644
--- a/foo.txt
+++ b/foo.txt
@@ -1 +1 @@
-old
+new

--- a/bar.txt
+++ b/bar.txt
@@ -2 +2 @@
-before
+after
";
    let segments = split_segments(text).expect("segments");
    assert_eq!(segments.len(), 2);
    assert_eq!(segments[0].old_label, "a/foo.txt");
    assert_eq!(segments[1].new_label, "b/bar.txt");
}

#[test]
fn split_segments_handles_git_headers_between_files() {
    let text = "\
diff --git a/foo.txt b/foo.txt
index 111..222 100644
--- a/foo.txt
+++ b/foo.txt
@@ -1,2 +1,3 @@
 line1
-line2
+line2 edit
+line3

diff --git a/new.txt b/new.txt
new file mode 100644
index 0000000..3333333
--- /dev/null
+++ b/new.txt
@@ -0,0 +1,2 @@
+hello
+world
";
    let segments = split_segments(text).expect("segments");
    assert_eq!(segments.len(), 2);
    assert_eq!(segments[0].old_label, "a/foo.txt");
    assert_eq!(segments[1].new_label, "b/new.txt");
    assert!(
        !segments[0].body.contains("diff --git"),
        "first body should not include next diff header:\n{}",
        segments[0].body
    );
    assert!(
        !segments[1].body.contains("diff --git"),
        "second body should not include diff header:\n{}",
        segments[1].body
    );
}

#[test]
fn label_to_path_strips_prefixes() {
    let path = label_to_path("a/src/main.rs").expect("path");
    assert_eq!(path, "src/main.rs");
}

#[test]
fn classify_detects_create_and_delete() {
    let (kind_new, old_new, new_new) = classify_paths("/dev/null", "b/new.rs").expect("create");
    assert_eq!(kind_new, PatchKind::Create);
    assert!(old_new.is_none());
    assert_eq!(new_new.unwrap(), "new.rs");

    let (kind_del, old_del, new_del) = classify_paths("a/old.rs", "/dev/null").expect("delete");
    assert_eq!(kind_del, PatchKind::Delete);
    assert_eq!(old_del.unwrap(), "old.rs");
    assert!(new_del.is_none());
}

#[test]
fn classify_detects_renames() {
    let (kind, old, new) = classify_paths("a/src/lib.rs", "b/src/new.rs").expect("rename");
    assert_eq!(kind, PatchKind::Rename);
    assert_eq!(old.unwrap(), "src/lib.rs");
    assert_eq!(new.unwrap(), "src/new.rs");
}

#[test]
fn apply_patch_respects_crlf_inputs() {
    let source = "alpha\r\nbeta\r\n";
    let patch_text = "\
--- a/file.txt
+++ b/file.txt
@@ -1,2 +1,2 @@
 alpha
-beta
+beta2
";
    let patched =
        apply_patch_preserving_newlines(source, patch_text).expect("patch applies cleanly");
    assert_eq!(patched, "alpha\r\nbeta2\r\n");
}

#[test]
fn classify_detects_modify_and_rejects_absent_pair() {
    let (kind, old, new) = classify_paths("a/x.rs", "b/x.rs").expect("modify");
    assert_eq!(kind, PatchKind::Modify);
    assert_eq!(old.unwrap(), "x.rs");
    assert_eq!(new.unwrap(), "x.rs");
    assert!(matches!(
        classify_paths("/dev/null", "/dev/null"),
        Err(PatchError::MissingLabels)
    ));
    assert!(matches!(classify_paths("", "  "), Err(PatchError::MissingLabels)));
}

#[test]
fn label_to_path_handles_quotes_dots_and_blanks() {
    assert_eq!(label_to_path("  \"a/dir/file.txt\"  ").unwrap(), "dir/file.txt");
    assert_eq!(label_to_path("b/././x").unwrap(), "x");
    assert_eq!(label_to_path("./a/x").unwrap(), "a/x");
    assert_eq!(label_to_path("c/x").unwrap(), "c/x");
    assert!(label_to_path(" /dev/null ").is_none());
    assert!(label_to_path("a/").is_none());
    assert!(label_to_path("./").is_none());
    assert!(label_to_path("\"\"").is_none());
}

#[test]
fn split_segments_reports_missing_new_header() {
    let text = "--- a/foo.txt\n@@ -1 +1 @@\n-old\n+new\n";
    assert!(matches!(split_segments(text), Err(PatchError::MissingNewHeader)));
    let text = "--- a/foo.txt\n--- a/bar.txt\n+++ b/bar.txt\n";
    assert!(matches!(split_segments(text), Err(PatchError::MissingNewHeader)));
    let text = "--- a/foo.txt\ndiff --git a/x b/x\n";
    assert!(matches!(split_segments(text), Err(PatchError::MissingNewHeader)));
}

#[test]
fn split_segments_keeps_body_without_carriage_returns() {
    let text = "junk\r\n--- a/f  \r\n+++ b/f\r\n@@ -1 +1 @@\r\n-x\r\n+y\r\n";
    let segments = split_segments(text).expect("segments");
    assert_eq!(segments.len(), 1);
    assert_eq!(segments[0].old_label, "a/f");
    assert_eq!(segments[0].new_label, "b/f");
    assert_eq!(segments[0].body, "--- a/f  \n+++ b/f\n@@ -1 +1 @@\n-x\n+y\n");
}

#[test]
fn split_segments_of_nothing_is_empty() {
    assert!(split_segments("").expect("segments").is_empty());
    assert!(split_segments("no headers here\n").expect("segments").is_empty());
}

#[test]
fn second_plus_line_stays_in_the_body() {
    let text = "--- a/f\n+++ b/f\n@@ -1 +1,2 @@\n x\n+++ not a header\n";
    let segments = split_segments(text).expect("segments");
    assert_eq!(segments[0].new_label, "b/f");
    assert!(segments[0].body.ends_with("+++ not a header\n"));
}

#[test]
fn load_file_patches_numbers_and_classifies() {
    let raw = "\
--- a/foo.txt
+++ b/foo.txt
@@ -1 +1 @@
-old
+new
--- /dev/null
+++ b/new.txt
@@ -0,0 +1 @@
+hello
";
    let patches = load_file_patches("changes.patch", raw).expect("patches");
    assert_eq!(patches.len(), 2);
    assert_eq!(patches[0].index, 1);
    assert_eq!(patches[0].source, "changes.patch");
    assert_eq!(patches[0].kind, PatchKind::Modify);
    assert_eq!(patches[0].old_path.as_deref(), Some("foo.txt"));
    assert_eq!(patches[1].index, 2);
    assert_eq!(patches[1].kind, PatchKind::Create);
    assert_eq!(patches[1].old_path, None);
    assert_eq!(patches[1].new_path.as_deref(), Some("new.txt"));
    assert!(patches[1].patch_text.starts_with("--- /dev/null\n"));
}

#[test]
fn load_file_patches_reports_bad_segments() {
    let raw = "--- a/foo.txt\n+++ b/foo.txt\n@@ broken @@\n";
    assert!(matches!(
        load_file_patches("p", raw),
        Err(PatchError::Malformed { index: 1, .. })
    ));
    let raw = "--- /dev/null\n+++ /dev/null\n";
    assert!(matches!(
        load_file_patches("p", raw),
        Err(PatchError::UnsupportedPaths { index: 1 })
    ));
}

#[test]
fn apply_patch_keeps_lf_and_cr_styles() {
    let patch_text = "--- a/f\n+++ b/f\n@@ -1,2 +1,2 @@\n alpha\n-beta\n+beta2\n";
    assert_eq!(
        apply_patch_preserving_newlines("alpha\nbeta\n", patch_text).unwrap(),
        "alpha\nbeta2\n"
    );
    assert_eq!(
        apply_patch_preserving_newlines("alpha\rbeta\r", patch_text).unwrap(),
        "alpha\rbeta2\r"
    );
}

#[test]
fn apply_patch_reports_mismatch_and_garbage() {
    let patch_text = "--- a/f\n+++ b/f\n@@ -1,2 +1,2 @@\n alpha\n-beta\n+beta2\n";
    assert!(matches!(
        apply_patch_preserving_newlines("something\nelse\n", patch_text),
        Err(PatchError::HunkMismatch(_))
    ));
    assert!(matches!(
        apply_patch_preserving_newlines("x\n", "--- a/f\n+++ b/f\n@@ nonsense\n"),
        Err(PatchError::Malformed { index: 1, .. })
    ));
}

#[test]
fn patch_error_messages() {
    assert_eq!(PatchError::MissingOldHeader.message(), "patch segment missing --- header");
    assert_eq!(PatchError::MissingNewHeader.message(), "patch segment missing +++ header");
    assert_eq!(
        PatchError::MissingLabels.message(),
        "patch is missing both old and new file labels"
    );
    assert_eq!(
        PatchError::UnsupportedPaths { index: 12 }.message(),
        "segment 12 has unsupported paths"
    );
    assert_eq!(
        PatchError::Malformed { index: 3, detail: "bad".to_string() }.message(),
        "failed to parse patch segment 3: bad"
    );
}

#[test]
fn finalize_segment_needs_both_headers() {
    let mut segments: Vec<Segment> = Vec::new();
    let mut buffer = String::from("--- a/f\n+++ b/f\n");
    let mut old_label = Some("a/f".to_string());
    let mut new_label = Some("b/f".to_string());
    finalize_segment(&mut segments, &mut buffer, &mut old_label, &mut new_label).expect("segment");
    assert_eq!(segments.len(), 1);
    assert_eq!(segments[0].old_label, "a/f");
    assert_eq!(segments[0].new_label, "b/f");
    assert_eq!(segments[0].body, "--- a/f\n+++ b/f\n");
    assert!(buffer.is_empty() && old_label.is_none() && new_label.is_none());

    let mut none: Option<String> = None;
    let mut some = Some("b/f".to_string());
    assert!(matches!(
        finalize_segment(&mut segments, &mut buffer, &mut none, &mut some),
        Err(PatchError::MissingOldHeader)
    ));
    let mut old_only = Some("a/f".to_string());
    let mut missing: Option<String> = None;
    assert!(matches!(
        finalize_segment(&mut segments, &mut buffer, &mut old_only, &mut missing),
        Err(PatchError::MissingNewHeader)
    ));
    assert_eq!(segments.len(), 1);
}

#[test]
fn paths_are_compared_by_components() {
    assert!(paths_agree("x/y", "x//y"));
    assert!(paths_agree("x/y/", "x/y"));
    assert!(paths_agree("x/./y", "x/y"));
    assert!(paths_agree("/x/y", "//x/y"));
    assert!(paths_agree("", ""));
    assert!(paths_agree("./x", "./x"));
    assert!(!paths_agree("./x", "x"));
    assert!(!paths_agree("/x/y", "x/y"));
    assert!(!paths_agree("x/y", "x/z"));
    assert!(!paths_agree("x/y", "x/y/z"));
    assert!(!paths_agree("x/../y", "y"));
    assert!(!paths_agree("xy", "x/y"));
    let (kind, old, new) = classify_paths("a/x//y", "b/x/y").expect("modify");
    assert_eq!(kind, PatchKind::Modify);
    assert_eq!(old.as_deref(), Some("x//y"));
    assert_eq!(new.as_deref(), Some("x/y"));
    let (kind, _, _) = classify_paths("a/x/y", "b/x/z").expect("rename");
    assert_eq!(kind, PatchKind::Rename);
}

#[test]
fn hunk_headers_with_huge_numbers_are_refused() {
    let huge = "--- a/f\n+++ b/f\n@@ -18446744073709551615,1 +1,1 @@\n-a\n+b\n@@ -3,1 +3,1 @@\n-c\n+d\n";
    assert!(!hunk_headers_fit(huge));
    match apply_patch_preserving_newlines("a\nx\nc\n", huge) {
        Err(error) => {
            assert!(matches!(&error, PatchError::Malformed { index: 1, .. }));
            assert_eq!(
                error.message(),
                "failed to parse patch segment 1: hunk header holds a number that is too large"
            );
        }
        other => panic!("unexpected {other:?}"),
    }
    assert!(matches!(
        load_file_patches("p.patch", huge),
        Err(PatchError::Malformed { index: 1, .. })
    ));
    let limit = usize::MAX / 2;
    assert!(hunk_headers_fit(&format!("@@ -{limit},1 +{limit},1 @@\n")));
    assert!(!hunk_headers_fit(&format!("@@ -{},1 +1,1 @@\n", limit + 1)));
    assert!(!hunk_headers_fit(&format!("--- a\n@@ -1,{} +1 @@ tail\n", limit + 1)));
    assert!(hunk_headers_fit("@@ -1,2 +1,2 @@ let x = 340282366920938463463374607431768211455;\n"));
    assert!(hunk_headers_fit(" 99999999999999999999999999\n+88888888888888888888888888\n"));
    assert!(hunk_headers_fit(""));
    let fine = "--- a/f\n+++ b/f\n@@ -1,1 +1,1 @@\n-a\n+b\n";
    assert!(hunk_headers_fit(fine));
    assert_eq!(apply_patch_preserving_newlines("a\n", fine).expect("applies"), "b\n");
}
