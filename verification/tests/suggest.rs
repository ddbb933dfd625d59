use safeedit::distance::levenshtein;
use safeedit::suggest::{best_window, collect_suggestions, render_diff_hint};

#[test]
fn levenshtein_exact() {
    assert_eq!(levenshtein("foo", "foo"), 0);
}

#[test]
fn levenshtein_single_change() {
    assert_eq!(levenshtein("foo", "foa"), 1);
}

#[test]
fn levenshtein_handles_unicode() {
    assert_eq!(levenshtein("café", "cafe"), 1);
    assert_eq!(levenshtein("naïve", "naive"), 1);
}

#[test]
fn collect_suggestions_orders_by_score() {
    let text = "alpha beta\naplha bent\nsomething else";
    let suggestions = collect_suggestions(text, "alpha beta", 2);
    assert_eq!(suggestions.len(), 2);
    assert_eq!(suggestions[0].line_idx, 0);
    assert_eq!(suggestions[0].score, 0);
    assert_eq!(suggestions[1].line_idx, 1);
    assert!(suggestions[1].score > 0);
}

#[test]
fn best_window_handles_multibyte_chars() {
    let line = "café example";
    let pattern = "cafe";
    let result = best_window(line, pattern).expect("suggestion");
    assert_eq!(result.1, 0);
    assert!(result.0 <= 1);
}

#[test]
fn render_diff_marks_variances() {
    let (pattern_line, diff) = render_diff_hint("alpha", "alpah");
    assert_eq!(pattern_line, "alpah");
    assert_eq!(diff.trim_end(), "   ^^");
}

#[test]
fn levenshtein_known_distances() {
    assert_eq!(levenshtein("", ""), 0);
    assert_eq!(levenshtein("", "abc"), 3);
    assert_eq!(levenshtein("abc", ""), 3);
    assert_eq!(levenshtein("kitten", "sitting"), 3);
    assert_eq!(levenshtein("flaw", "lawn"), 2);
    assert_eq!(levenshtein("saturday", "sunday"), 3);
}

#[test]
fn levenshtein_is_zero_on_equal_inputs() {
    for word in ["", "a", "alpha", "naïve café", "日本語"] {
        assert_eq!(levenshtein(word, word), 0);
    }
}

#[test]
fn levenshtein_is_symmetric() {
    let words = ["", "a", "ab", "kitten", "sitting", "café", "cafe"];
    for a in words {
        for b in words {
            assert_eq!(levenshtein(a, b), levenshtein(b, a));
        }
    }
}

#[test]
fn levenshtein_obeys_triangle_inequality() {
    let words = ["", "a", "abc", "abd", "kitten", "sitting", "mitten", "naïve"];
    for a in words {
        for b in words {
            for c in words {
                assert!(levenshtein(a, c) <= levenshtein(a, b) + levenshtein(b, c));
            }
        }
    }
}

#[test]
fn best_window_of_empty_line_is_none() {
    assert!(best_window("", "abc").is_none());
}

#[test]
fn best_window_prefers_lowest_score_then_earliest_start() {
    let (score, start, snippet) = best_window("xx foo yy foo", "foo").expect("window");
    assert_eq!(score, 0);
    assert_eq!(start, 3);
    assert_eq!(snippet, "foo");
}

#[test]
fn best_window_prefers_shorter_snippet_on_ties() {
    let (score, start, snippet) = best_window("abcdef", "zzz").expect("window");
    assert_eq!(score, 3);
    assert_eq!(start, 0);
    assert_eq!(snippet, "abc");
}

#[test]
fn best_window_with_empty_pattern_uses_width_one() {
    let (score, start, snippet) = best_window("ab", "").expect("window");
    assert_eq!(score, 1);
    assert_eq!(start, 0);
    assert_eq!(snippet, "a");
}

#[test]
fn collect_suggestions_empty_pattern_gives_nothing() {
    assert!(collect_suggestions("alpha\nbeta", "", 3).is_empty());
}

#[test]
fn collect_suggestions_skips_empty_lines_and_respects_limit() {
    let text = "zzzz\n\nfoo\nfop\nfxx";
    let found = collect_suggestions(text, "foo", 3);
    assert_eq!(found.len(), 3);
    assert_eq!(found[0].line_idx, 2);
    assert_eq!(found[0].score, 0);
    assert_eq!(found[0].column, 0);
    assert_eq!(found[0].line, "foo");
    assert_eq!(found[0].snippet, "foo");
    assert_eq!(found[1].line_idx, 3);
    assert_eq!(found[1].score, 1);
    assert_eq!(found[2].line_idx, 4);
    assert_eq!(found[2].score, 2);
}

#[test]
fn collect_suggestions_breaks_score_ties_by_line() {
    let found = collect_suggestions("abd\nabe\nabc", "abc", 5);
    assert_eq!(found.len(), 3);
    assert_eq!(found[0].line_idx, 2);
    assert_eq!(found[1].line_idx, 0);
    assert_eq!(found[2].line_idx, 1);
}

#[test]
fn collect_suggestions_handles_crlf_lines() {
    let found = collect_suggestions("foo\r\nbar\r\n", "bar", 1);
    assert_eq!(found.len(), 1);
    assert_eq!(found[0].line_idx, 1);
    assert_eq!(found[0].line, "bar");
}

#[test]
fn render_diff_hint_pads_the_shorter_side() {
    let (pattern, markers) = render_diff_hint("ab", "abcd");
    assert_eq!(pattern, "abcd");
    assert_eq!(markers, "  ^^");
    let (_, markers) = render_diff_hint("ab d", "ab");
    assert_eq!(markers, "   ^");
}
