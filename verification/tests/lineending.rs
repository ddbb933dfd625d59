use safeedit::lineending::{
    detect_line_ending_style, native_line_ending, normalize_to_lf, restore_from_lf,
    system_default_line_ending, LineEndingChoice, LineEndingStyle,
};

#[test]
fn line_ending_choice_prefers_existing_style() {
    assert_eq!(
        LineEndingChoice::Auto.resolve(Some(LineEndingStyle::Cr)),
        LineEndingStyle::Cr
    );
}

#[test]
fn line_ending_choice_specific_variants() {
    assert_eq!(
        LineEndingChoice::Lf.resolve(Some(LineEndingStyle::Crlf)),
        LineEndingStyle::Lf
    );
    assert_eq!(
        LineEndingChoice::Crlf.resolve(Some(LineEndingStyle::Lf)),
        LineEndingStyle::Crlf
    );
    assert_eq!(
        LineEndingChoice::Cr.resolve(Some(LineEndingStyle::Lf)),
        LineEndingStyle::Cr
    );
}

#[test]
fn line_ending_choice_auto_uses_platform_default() {
    let expected = if std::path::MAIN_SEPARATOR == '\\' {
        LineEndingStyle::Crlf
    } else {
        LineEndingStyle::Lf
    };
    assert_eq!(LineEndingChoice::Auto.resolve(None), expected);
    assert_eq!(system_default_line_ending(), expected);
}

#[test]
fn detect_style_prefers_crlf_over_cr() {
    assert_eq!(detect_line_ending_style("a\nb\n"), LineEndingStyle::Lf);
    assert_eq!(detect_line_ending_style(""), LineEndingStyle::Lf);
    assert_eq!(detect_line_ending_style("a\rb\r"), LineEndingStyle::Cr);
    assert_eq!(detect_line_ending_style("a\rb\r\n"), LineEndingStyle::Crlf);
}

#[test]
fn normalize_to_lf_handles_all_breaks() {
    assert_eq!(normalize_to_lf("a\r\nb\rc\nd"), "a\nb\nc\nd");
    assert_eq!(normalize_to_lf("\r\r\n\n"), "\n\n\n");
    assert_eq!(normalize_to_lf("plain"), "plain");
    assert_eq!(normalize_to_lf(""), "");
}

#[test]
fn restore_from_lf_uses_the_style() {
    assert_eq!(restore_from_lf("a\nb\n".to_string(), LineEndingStyle::Lf), "a\nb\n");
    assert_eq!(restore_from_lf("a\nb\n".to_string(), LineEndingStyle::Crlf), "a\r\nb\r\n");
    assert_eq!(restore_from_lf("a\nb\n".to_string(), LineEndingStyle::Cr), "a\rb\r");
}

#[test]
fn default_choice_is_auto() {
    assert_eq!(LineEndingChoice::default(), LineEndingChoice::Auto);
}

#[test]
fn native_line_ending_follows_the_separator() {
    assert_eq!(native_line_ending('\\'), LineEndingStyle::Crlf);
    assert_eq!(native_line_ending('/'), LineEndingStyle::Lf);
    assert_eq!(native_line_ending(':'), LineEndingStyle::Lf);
    let native = system_default_line_ending();
    assert_eq!(native, native_line_ending(std::path::MAIN_SEPARATOR));
}
