use safeedit::encoding::{
    decode_as, detect_auto, detect_bom, encode_as, EncodingError, EncodingSource, EncodingStrategy,
};

#[test]
fn override_validation() {
    let strategy = EncodingStrategy::new(Some("utf-16le")).expect("valid encoding");
    assert_eq!(strategy.override_label(), Some("utf-16le"));
}

#[test]
fn utf8_detection_without_bom() {
    let data = b"hello world";
    let decision = detect_auto(data);
    assert_eq!(decision.source, EncodingSource::AssumedUtf8);
    assert_eq!(decision.encoding, "UTF-8");
}

#[test]
fn bom_detection_takes_precedence() {
    let data = [0xFF, 0xFE, 0x61, 0x00];
    let decision = detect_auto(&data);
    assert_eq!(decision.source, EncodingSource::Bom);
    assert_eq!(decision.encoding, "UTF-16LE");
}

#[test]
fn unknown_label_is_refused() {
    match EncodingStrategy::new(Some("  no-such-charset ")) {
        Err(error) => {
            assert!(matches!(error, EncodingError::UnknownEncoding(_)));
            assert_eq!(error.message(), "unknown encoding override 'no-such-charset'");
        }
        Ok(_) => panic!("label should be refused"),
    }
}

#[test]
fn override_wins_over_bom_and_is_trimmed() {
    let strategy = EncodingStrategy::new(Some("  latin1\t")).expect("strategy");
    assert_eq!(strategy.override_label(), Some("latin1"));
    let decision = strategy.decide(&[0xEF, 0xBB, 0xBF, b'a']);
    assert_eq!(decision.source, EncodingSource::Override);
    assert_eq!(decision.encoding, "windows-1252");
    assert_eq!(
        strategy.describe(),
        "override 'latin1' (windows-1252), auto-detect disabled"
    );
}

#[test]
fn auto_strategy_describes_itself() {
    let strategy = EncodingStrategy::new(None).expect("strategy");
    assert_eq!(strategy.override_label(), None);
    assert_eq!(strategy.describe(), "auto-detect (BOM → detector → UTF-8)");
}

#[test]
fn bom_kinds() {
    assert_eq!(detect_bom(&[0xEF, 0xBB, 0xBF]).as_deref(), Some("UTF-8"));
    assert_eq!(detect_bom(&[0xFF, 0xFE]).as_deref(), Some("UTF-16LE"));
    assert_eq!(detect_bom(&[0xFE, 0xFF, 0x00]).as_deref(), Some("UTF-16BE"));
    assert_eq!(detect_bom(&[0xEF, 0xBB]), None);
    assert_eq!(detect_bom(&[]), None);
}

#[test]
fn invalid_utf8_goes_to_the_detector() {
    let data = [b'c', b'a', b'f', 0xE9, b' ', b'c', b'r', 0xE8, b'm', b'e'];
    let decision = detect_auto(&data);
    assert_eq!(decision.source, EncodingSource::Detector);
    let decoded = EncodingStrategy::new(None).unwrap().decode(&data).expect("decode");
    assert_eq!(decoded.decision.source, EncodingSource::Detector);
    assert_eq!(decoded.text, "café crème");
    assert!(!decoded.had_errors);
}

#[test]
fn decode_strips_bom_and_flags_errors() {
    let strategy = EncodingStrategy::new(None).unwrap();
    let decoded = strategy.decode(&[0xEF, 0xBB, 0xBF, b'h', b'i']).expect("decode");
    assert_eq!(decoded.text, "hi");
    assert_eq!(decoded.decision.source, EncodingSource::Bom);
    assert!(!decoded.had_errors);
    let forced = EncodingStrategy::new(Some("utf-8")).unwrap();
    let decoded = forced.decode(&[b'a', 0xFF, b'b']).expect("decode");
    assert_eq!(decoded.text, "a\u{FFFD}b");
    assert!(decoded.had_errors);
    let utf16 = strategy.decode(&[0xFF, 0xFE, 0x61, 0x00]).expect("decode");
    assert_eq!(utf16.text, "a");
}

#[test]
fn encode_then_decode_gives_the_text_back() {
    for (label, text) in [
        ("UTF-8", "plain ascii"),
        ("UTF-8", "naïve café 日本語"),
        ("windows-1252", "café crème"),
        ("Shift_JIS", "日本語"),
    ] {
        let (bytes, lossy) = encode_as(label, text).expect("encode");
        assert!(!lossy);
        let (back, had_errors) = decode_as(label, &bytes).expect("decode");
        assert!(!had_errors);
        assert_eq!(back, text);
    }
}

#[test]
fn encode_reports_unmappable_characters() {
    let (bytes, lossy) = encode_as("windows-1252", "a日b").expect("encode");
    assert!(lossy);
    assert_eq!(bytes, b"a&#26085;b");
}

#[test]
fn unknown_names_are_refused() {
    assert!(matches!(decode_as("nonsense", b"abc"), Err(EncodingError::UnknownEncoding(_))));
    assert!(matches!(encode_as("nonsense", "abc"), Err(EncodingError::UnknownEncoding(_))));
}

#[test]
fn source_labels() {
    assert_eq!(EncodingSource::Override.label(), "override");
    assert_eq!(EncodingSource::Bom.label(), "bom");
    assert_eq!(EncodingSource::Detector.label(), "detector");
    assert_eq!(EncodingSource::AssumedUtf8.label(), "assumed-utf8");
}

#[test]
fn utf16_output_is_utf8_and_does_not_come_back() {
    let (bytes, fallback) = encode_as("UTF-16LE", "hi").expect("encode");
    assert!(fallback);
    assert_eq!(bytes, b"hi");
    let (back, _) = decode_as("UTF-16LE", &bytes).expect("decode");
    assert_ne!(back, "hi");
}

#[test]
fn leading_byte_order_mark_is_dropped_by_decoding() {
    let (bytes, lossy) = encode_as("UTF-8", "\u{FEFF}abc").expect("encode");
    assert!(!lossy);
    let (back, had_errors) = decode_as("UTF-8", &bytes).expect("decode");
    assert!(!had_errors);
    assert_eq!(back, "abc");
}

#[test]
fn utf8_text_survives_encoding_and_detection() {
    let text = "naïve café 日本語\r\nsecond line\n";
    let (bytes, lossy) = encode_as("UTF-8", text).expect("encode");
    assert!(!lossy);
    assert_eq!(bytes, text.as_bytes());
    let detected = EncodingStrategy::new(None).expect("strategy").decode(&bytes).expect("decode");
    assert_eq!(detected.text, text);
    assert!(!detected.had_errors);
    assert_eq!(detected.decision.encoding, "UTF-8");
    let forced = EncodingStrategy::new(Some("utf-8")).expect("strategy").decode(&bytes).expect("decode");
    assert_eq!(forced.text, text);
    assert!(!forced.had_errors);
}

#[test]
fn utf8_encoding_of_a_two_byte_character() {
    let (bytes, lossy) = encode_as("UTF-8", "é").expect("encode");
    assert!(!lossy);
    assert_eq!(bytes, vec![0xC3u8, 0xA9u8]);
    let (back, had_errors) = decode_as("UTF-8", &[0xC3u8, 0xA9u8]).expect("decode");
    assert_eq!(back, "é");
    assert!(!had_errors);
}

#[test]
fn encoding_by_any_label_of_an_encoding_is_no_fallback() {
    let (bytes, flagged) = encode_as("utf8", "é").expect("encode");
    assert_eq!(bytes, vec![0xC3u8, 0xA9u8]);
    assert!(!flagged);
    let (bytes, flagged) = encode_as("latin1", "é").expect("encode");
    assert_eq!(bytes, vec![0xE9u8]);
    assert!(!flagged);
    let (_, flagged) = encode_as("utf-16be", "é").expect("encode");
    assert!(flagged);
}
