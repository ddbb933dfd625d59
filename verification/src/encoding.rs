//! Choosing the character encoding of a file and converting between bytes and
//! text.
//!
//! The conversions themselves are done by the `encoding_rs` crate and the
//! statistical guess by `chardetng`; this module decides which encoding is
//! used and reports how the decision was reached. An encoding is held by its
//! canonical name.

use vstd::prelude::*;
use vstd::string::StringExecFns;

use vstd::utf8::{decode_utf8, encode_utf8, valid_utf8};
use crate::chars::{trim_bounds, trimmed, CharClass};
use crate::offsets::{byte_len, byte_length, lemma_byte_len_encoded};
use crate::text::{chars_of, opt_view, same_chars, string_of};

verus! {

/// How an encoding was chosen.
#[derive(Debug, Clone, Copy, PartialEq, Eq)]
pub enum EncodingSource {
    Override,
    Bom,
    Detector,
    AssumedUtf8,
}

impl EncodingSource {
    /// The word for this source in reports.
    pub fn label(&self) -> (r: String)
        ensures
            r@ == match self {
                EncodingSource::Override => "override"@,
                EncodingSource::Bom => "bom"@,
                EncodingSource::Detector => "detector"@,
                EncodingSource::AssumedUtf8 => "assumed-utf8"@,
            },
    {
        match self {
            EncodingSource::Override => "override".to_owned(),
            EncodingSource::Bom => "bom".to_owned(),
            EncodingSource::Detector => "detector".to_owned(),
            EncodingSource::AssumedUtf8 => "assumed-utf8".to_owned(),
        }
    }
}

/// The outcome of one detection run: the canonical name of the encoding and
/// how it was chosen.
#[derive(Debug, Clone)]
pub struct EncodingDecision {
    pub encoding: String,
    pub source: EncodingSource,
}

/// A decoded file: its text, whether decoding had to substitute anything, and
/// the decision it was decoded by.
#[derive(Debug, Clone)]
pub struct DecodedText {
    pub text: String,
    pub had_errors: bool,
    pub decision: EncodingDecision,
}

/// Why bytes and text could not be converted.
#[derive(Debug, Clone)]
pub enum EncodingError {
    /// The label names no known encoding.
    UnknownEncoding(String),
    /// The input is longer than the converter can size a buffer for.
    InputTooLarge,
}

impl EncodingError {
    /// The message for the user.
    pub open spec fn message_spec(&self) -> Seq<char> {
        match self {
            EncodingError::UnknownEncoding(label) => "unknown encoding override '"@ + label@ + "'"@,
            EncodingError::InputTooLarge => "input too large to convert"@,
        }
    }

    /// The message for the user.
    pub fn message(&self) -> (r: String)
        ensures
            r@ == self.message_spec(),
    {
        match self {
            EncodingError::UnknownEncoding(label) => {
                let mut out = "unknown encoding override '".to_owned();
                out.append(label.as_str());
                out.append("'");
                out
            },
            EncodingError::InputTooLarge => "input too large to convert".to_owned(),
        }
    }
}

/// The canonical name of the encoding that `label` stands for, `None` where it
/// stands for none.
pub uninterp spec fn encoding_named(label: Seq<char>) -> Option<Seq<char>>;

/// What decoding `bytes` as the encoding labelled `label` gives: the text, and
/// whether malformed input was replaced. `None` where the label is unknown.
pub uninterp spec fn decoded_as(label: Seq<char>, bytes: Seq<u8>) -> Option<(Seq<char>, bool)>;

/// What encoding `text` as the encoding labelled `label` gives: the bytes,
/// the canonical name of the encoding that the bytes are in, and whether
/// unmappable characters were replaced. `None` where the label is unknown.
pub uninterp spec fn encoded_as(label: Seq<char>, text: Seq<char>) -> Option<
    (Seq<u8>, Seq<char>, bool),
>;

/// The canonical name of the encoding that the statistical detector guesses
/// for `bytes`.
pub uninterp spec fn detected_encoding(bytes: Seq<u8>) -> Seq<char>;

/// The longest input, in bytes, that is handed to the decoder.
pub open spec fn decode_limit() -> int {
    (usize::MAX / 4) as int
}

/// The longest text, in bytes of UTF-8, that is handed to the encoder.
pub open spec fn encode_limit() -> int {
    (usize::MAX / 32) as int
}

/// `Encoding::for_label` resolves a label; `Encoding::name` gives the name of
/// the encoding found. `UTF-8` labels the encoding of that name.
#[verifier::external_body]
fn lookup_encoding(label: &str) -> (r: Option<String>)
    ensures
        match r {
            Some(name) => encoding_named(label@) == Some(name@),
            None => encoding_named(label@) is None,
        },
        label@ == "UTF-8"@ ==> opt_view(r) == Some("UTF-8"@),
{
    encoding_rs::Encoding::for_label(label.as_bytes()).map(|encoding| encoding.name().to_string())
}

/// `Encoding::decode` on the encoding that `Encoding::for_label` finds for
/// `label`: the text, with malformed sequences replaced, and whether there
/// were any. The decoder sizes its buffer at up to three times the input and
/// panics where that overflows, so long inputs are kept out. `UTF-8` labels
/// the UTF-8 encoding; `decode` first looks for a byte-order mark, and without
/// one it decodes well-formed UTF-8 to the text that the bytes encode, without
/// loss.
#[verifier::external_body]
fn decode_bytes(label: &str, bytes: &[u8]) -> (r: Option<(String, bool)>)
    requires
        bytes@.len() <= decode_limit(),
    ensures
        match r {
            Some(pair) => decoded_as(label@, bytes@) == Some((pair.0@, pair.1)),
            None => decoded_as(label@, bytes@) is None,
        },
        label@ == "UTF-8"@ ==> decodes_utf8(bytes@, r),
{
    let encoding = encoding_rs::Encoding::for_label(label.as_bytes())?;
    let (text, _, had_errors) = encoding.decode(bytes);
    Some((text.into_owned(), had_errors))
}

/// `Encoding::encode` on the encoding that `Encoding::for_label` finds for
/// `label`: the bytes, the name of the encoding that was used for them, and
/// whether unmappable characters were replaced by numeric character
/// references. The encoding used is not always the one asked for: the UTF-16
/// encodings are written as UTF-8. The encoder panics where the size of its
/// buffer overflows, so long texts are kept out. `UTF-8` labels the UTF-8
/// encoding, for which `encode` hands back the bytes of the text as they are,
/// as UTF-8 and without loss.
#[verifier::external_body]
fn encode_chars(label: &str, text: &str) -> (r: Option<(Vec<u8>, String, bool)>)
    requires
        byte_len(text@) <= encode_limit(),
    ensures
        match r {
            Some(out) => encoded_as(label@, text@) == Some((out.0@, out.1@, out.2)),
            None => encoded_as(label@, text@) is None,
        },
        label@ == "UTF-8"@ ==> encodes_utf8(text@, r),
{
    let encoding = encoding_rs::Encoding::for_label(label.as_bytes())?;
    let (bytes, used, had_errors) = encoding.encode(text);
    Some((bytes.into_owned(), used.name().to_string(), had_errors))
}

/// A fresh `chardetng::EncodingDetector` is fed all of `bytes` as the whole
/// stream and asked for its guess, UTF-8 allowed and no domain hint given.
#[verifier::external_body]
fn guess_encoding(bytes: &[u8]) -> (r: String)
    ensures
        r@ == detected_encoding(bytes@),
{
    let mut detector = chardetng::EncodingDetector::new();
    detector.feed(bytes, true);
    detector.guess(None, true).name().to_string()
}

/// `std::str::from_utf8` accepts exactly the well-formed UTF-8 sequences.
#[verifier::external_body]
fn is_valid_utf8(bytes: &[u8]) -> (r: bool)
    ensures
        r == valid_utf8(bytes@),
{
    std::str::from_utf8(bytes).is_ok()
}

/// The encoding that a byte-order mark at the start of `bytes` announces.
pub open spec fn bom_encoding(bytes: Seq<u8>) -> Option<Seq<char>> {
    if bytes.len() >= 3 && bytes[0] == 0xEF && bytes[1] == 0xBB && bytes[2] == 0xBF {
        Some("UTF-8"@)
    } else if bytes.len() >= 2 && bytes[0] == 0xFF && bytes[1] == 0xFE {
        Some("UTF-16LE"@)
    } else if bytes.len() >= 2 && bytes[0] == 0xFE && bytes[1] == 0xFF {
        Some("UTF-16BE"@)
    } else {
        None
    }
}

/// What encoding `text` as UTF-8 gives: its UTF-8 form, without loss.
pub open spec fn utf8_encoding(text: Seq<char>) -> (Seq<u8>, bool) {
    (encode_utf8(text), false)
}

/// What decoding `bytes` as UTF-8 gives where they are well-formed and start
/// with no byte-order mark: the text that they encode, without loss. Nothing
/// is said of other bytes.
pub open spec fn utf8_decoding(bytes: Seq<u8>) -> Option<(Seq<char>, bool)> {
    if valid_utf8(bytes) && bom_encoding(bytes) is None {
        Some((decode_utf8(bytes), false))
    } else {
        None
    }
}

/// `r` is what encoding `text` as UTF-8 gives: its UTF-8 form, in UTF-8,
/// without loss.
pub open spec fn encodes_utf8(text: Seq<char>, r: Option<(Vec<u8>, String, bool)>) -> bool {
    match r {
        Some(out) => out.0@ == utf8_encoding(text).0 && out.1@ == "UTF-8"@ && out.2
            == utf8_encoding(text).1,
        None => false,
    }
}

/// What `encode_as` owes where the text is not too long: the bytes that the
/// encoder gives, and a flag that is raised where the output is not a
/// faithful form of the text in the encoding asked for, because characters
/// were replaced or because the bytes are in another encoding.
pub open spec fn encode_contract(
    encoding: Seq<char>,
    text: Seq<char>,
    r: Result<(Vec<u8>, bool), EncodingError>,
) -> bool {
    match encoded_as(encoding, text) {
        Some(out) => r matches Ok(pair) && pair.0@ == out.0 && pair.1 == (out.2 || encoding_named(
            encoding,
        ) != Some(out.1)),
        None => r matches Err(EncodingError::UnknownEncoding(label)) && label@ == encoding,
    }
}

/// `r` is a text, and it is what decoding `bytes` as UTF-8 gives, as far as
/// that is said.
pub open spec fn decodes_utf8(bytes: Seq<u8>, r: Option<(String, bool)>) -> bool {
    match (r, utf8_decoding(bytes)) {
        (Some(pair), Some(known)) => pair.0@ == known.0 && pair.1 == known.1,
        (Some(_), None) => true,
        (None, _) => false,
    }
}

/// Encoding a text as UTF-8 and decoding the bytes gives the text back,
/// without loss, for every text that does not start with a byte-order mark.
pub proof fn lemma_utf8_round_trip(text: Seq<char>)
    requires
        text.len() == 0 || text[0] != '\u{FEFF}',
    ensures
        utf8_decoding(utf8_encoding(text).0) == Some((text, false)),
{
    let bytes = encode_utf8(text);
    vstd::utf8::encode_utf8_valid_utf8(text);
    vstd::utf8::encode_utf8_decode_utf8(text);
    if text.len() > 0 {
        vstd::utf8::encode_utf8_first_scalar(text);
        if bytes.len() >= 3 && bytes[0] == 0xEF && bytes[1] == 0xBB && bytes[2] == 0xBF {
            assert((((0xEFu8 & 0x0F) as u32) << 12) | (((0xBBu8 & 0x3f) as u32) << 6) | ((0xBFu8
                & 0x3f) as u32) == 0xFEFFu32) by (bit_vector);
            assert(text[0] as u32 == 0xFEFF);
            vstd::utf8::char_u32_cast(text[0], 0xFEFFu32);
            vstd::utf8::char_u32_cast('\u{FEFF}', 0xFEFFu32);
        }
    } else {
        assert(bytes.len() == 0);
    }
}

/// The encoding chosen for `bytes` and how: an override wins; else a
/// byte-order mark decides; else well-formed UTF-8 is taken as UTF-8; else the
/// detector's guess is accepted.
pub open spec fn decision_for(override_name: Option<Seq<char>>, bytes: Seq<u8>) -> (
    Seq<char>,
    EncodingSource,
) {
    match override_name {
        Some(name) => (name, EncodingSource::Override),
        None => match bom_encoding(bytes) {
            Some(name) => (name, EncodingSource::Bom),
            None => if valid_utf8(bytes) {
                ("UTF-8"@, EncodingSource::AssumedUtf8)
            } else {
                (detected_encoding(bytes), EncodingSource::Detector)
            },
        },
    }
}

/// The encoding that a byte-order mark at the start of `bytes` announces.
pub fn detect_bom(bytes: &[u8]) -> (r: Option<String>)
    ensures
        match r {
            Some(name) => bom_encoding(bytes@) == Some(name@),
            None => bom_encoding(bytes@) is None,
        },
{
    if bytes.len() >= 3 && bytes[0] == 0xEF && bytes[1] == 0xBB && bytes[2] == 0xBF {
        return Some("UTF-8".to_owned());
    }
    if bytes.len() >= 2 && bytes[0] == 0xFF && bytes[1] == 0xFE {
        return Some("UTF-16LE".to_owned());
    }
    if bytes.len() >= 2 && bytes[0] == 0xFE && bytes[1] == 0xFF {
        return Some("UTF-16BE".to_owned());
    }
    None
}

/// The encoding chosen for `bytes` when nothing overrides detection.
pub fn detect_auto(bytes: &[u8]) -> (r: EncodingDecision)
    ensures
        (r.encoding@, r.source) == decision_for(None, bytes@),
{
    if let Some(encoding) = detect_bom(bytes) {
        return EncodingDecision { encoding, source: EncodingSource::Bom };
    }
    if is_valid_utf8(bytes) {
        return EncodingDecision {
            encoding: "UTF-8".to_owned(),
            source: EncodingSource::AssumedUtf8,
        };
    }
    EncodingDecision { encoding: guess_encoding(bytes), source: EncodingSource::Detector }
}

/// Decodes `bytes` as the encoding named `encoding`, substituting the
/// replacement character for malformed input.
pub fn decode_as(encoding: &str, bytes: &[u8]) -> (r: Result<(String, bool), EncodingError>)
    ensures
        match r {
            Ok(pair) => bytes@.len() <= decode_limit() && decoded_as(encoding@, bytes@) == Some(
                (pair.0@, pair.1),
            ),
            Err(EncodingError::InputTooLarge) => bytes@.len() > decode_limit(),
            Err(EncodingError::UnknownEncoding(label)) => bytes@.len() <= decode_limit()
                && decoded_as(encoding@, bytes@) is None && label@ == encoding@,
        },
        encoding@ == "UTF-8"@ && bytes@.len() <= decode_limit() ==> r is Ok && decodes_utf8(
            bytes@,
            Some(r->Ok_0),
        ),
{
    if bytes.len() > usize::MAX / 4 {
        return Err(EncodingError::InputTooLarge);
    }
    match decode_bytes(encoding, bytes) {
        Some(pair) => Ok(pair),
        None => Err(EncodingError::UnknownEncoding(encoding.to_owned())),
    }
}

/// Encodes `text` as the encoding named `encoding`. The flag tells whether
/// the output is lossy or a fallback: whether characters that the encoding
/// cannot express were replaced, or the bytes are in another encoding than
/// the one asked for. The caller must surface it.
pub fn encode_as(encoding: &str, text: &str) -> (r: Result<(Vec<u8>, bool), EncodingError>)
    ensures
        byte_len(text@) > encode_limit() ==> r matches Err(EncodingError::InputTooLarge),
        byte_len(text@) <= encode_limit() ==> encode_contract(encoding@, text@, r),
        encoding@ == "UTF-8"@ && byte_len(text@) <= encode_limit() ==> (r matches Ok(pair)
            && pair.0@ == utf8_encoding(text@).0 && !pair.1),
{
    let size: usize = byte_length(text);
    if size > usize::MAX / 32 {
        return Err(EncodingError::InputTooLarge);
    }
    match encode_chars(encoding, text) {
        Some(out) => {
            let asked = lookup_encoding(encoding);
            let faithful = match asked {
                Some(name) => same_chars(
                    chars_of(name.as_str()).as_slice(),
                    chars_of(out.1.as_str()).as_slice(),
                ),
                None => false,
            };
            Ok((out.0, out.2 || !faithful))
        },
        None => Err(EncodingError::UnknownEncoding(encoding.to_owned())),
    }
}

/// How files are decoded: by an encoding the user forces, or by detection.
#[derive(Debug)]
pub struct EncodingStrategy {
    override_encoding: Option<String>,
    override_label: Option<String>,
}

impl Clone for EncodingStrategy {
    fn clone(&self) -> (r: Self)
        ensures
            r.forced_encoding() == self.forced_encoding(),
            r.forced_label() == self.forced_label(),
    {
        proof {
            use_type_invariant(self);
        }
        match (&self.override_encoding, &self.override_label) {
            (Some(name), Some(label)) => EncodingStrategy {
                override_encoding: Some(name.clone()),
                override_label: Some(label.clone()),
            },
            _ => EncodingStrategy { override_encoding: None, override_label: None },
        }
    }
}

impl EncodingStrategy {
    /// The canonical name of the forced encoding, if one is forced.
    pub closed spec fn forced_encoding(&self) -> Option<Seq<char>> {
        match self.override_encoding {
            Some(name) => Some(name@),
            None => None,
        }
    }

    /// The label by which the encoding was forced, trimmed.
    pub closed spec fn forced_label(&self) -> Option<Seq<char>> {
        match self.override_label {
            Some(label) => Some(label@),
            None => None,
        }
    }

    /// A forced encoding always comes with its label.
    #[verifier::type_invariant]
    spec fn paired(&self) -> bool {
        self.override_encoding is Some <==> self.override_label is Some
    }

    /// A strategy that forces the encoding labelled `override_label`, or one
    /// that detects where no label is given. The label is trimmed; one that
    /// names no encoding is refused.
    pub fn new(override_label: Option<&str>) -> (r: Result<Self, EncodingError>)
        ensures
            match override_label {
                None => r matches Ok(s) && s.forced_encoding() is None
                    && s.forced_label() is None,
                Some(label) => {
                    let wanted = trimmed(label@, CharClass::Whitespace);
                    match encoding_named(wanted) {
                        Some(name) => r matches Ok(s) && s.forced_encoding() == Some(name)
                            && s.forced_label() == Some(wanted),
                        None => r matches Err(EncodingError::UnknownEncoding(l)) && l@ == wanted,
                    }
                },
            },
    {
        match override_label {
            Some(label) => {
                let chars = chars_of(label);
                let bounds = trim_bounds(chars.as_slice(), CharClass::Whitespace);
                let wanted = string_of(
                    vstd::slice::slice_subrange(chars.as_slice(), bounds.0, bounds.1),
                );
                match lookup_encoding(wanted.as_str()) {
                    Some(name) => Ok(
                        EncodingStrategy {
                            override_encoding: Some(name),
                            override_label: Some(wanted),
                        },
                    ),
                    None => Err(EncodingError::UnknownEncoding(wanted)),
                }
            },
            None => Ok(EncodingStrategy { override_encoding: None, override_label: None }),
        }
    }

    /// The label by which the encoding was forced, if one was.
    pub fn override_label(&self) -> (r: Option<&str>)
        ensures
            match r {
                Some(label) => self.forced_label() == Some(label@),
                None => self.forced_label() is None,
            },
    {
        match &self.override_label {
            Some(label) => Some(label.as_str()),
            None => None,
        }
    }

    /// One line that tells the user how files will be decoded.
    pub fn describe(&self) -> (r: String)
        ensures
            r@ == match self.forced_encoding() {
                Some(name) => "override '"@ + self.forced_label()->0 + "' ("@ + name
                    + "), auto-detect disabled"@,
                None => "auto-detect (BOM \u{2192} detector \u{2192} UTF-8)"@,
            },
    {
        proof {
            use_type_invariant(self);
        }
        match (&self.override_label, &self.override_encoding) {
            (Some(label), Some(name)) => {
                let mut out = "override '".to_owned();
                out.append(label.as_str());
                out.append("' (");
                out.append(name.as_str());
                out.append("), auto-detect disabled");
                out
            },
            _ => "auto-detect (BOM \u{2192} detector \u{2192} UTF-8)".to_owned(),
        }
    }

    /// Chooses the encoding for `bytes`.
    pub fn decide(&self, bytes: &[u8]) -> (r: EncodingDecision)
        ensures
            (r.encoding@, r.source) == decision_for(self.forced_encoding(), bytes@),
    {
        if let Some(encoding) = &self.override_encoding {
            return EncodingDecision { encoding: encoding.clone(), source: EncodingSource::Override };
        }
        detect_auto(bytes)
    }

    /// Decodes `bytes` by the encoding chosen for them.
    pub fn decode(&self, bytes: &[u8]) -> (r: Result<DecodedText, EncodingError>)
        ensures
            decode_contract(self.forced_encoding(), bytes@, r),
    {
        let decision = self.decide(bytes);
        match decode_as(decision.encoding.as_str(), bytes) {
            Ok(pair) => Ok(DecodedText { text: pair.0, had_errors: pair.1, decision }),
            Err(error) => Err(error),
        }
    }
}

/// What decoding `bytes` owes under a strategy that forces `forced`: the
/// decision made for the bytes, and the text that the decided encoding gives;
/// or the reason why there is none.
pub open spec fn decode_contract(
    forced: Option<Seq<char>>,
    bytes: Seq<u8>,
    r: Result<DecodedText, EncodingError>,
) -> bool {
    match r {
        Ok(decoded) => {
            &&& (decoded.decision.encoding@, decoded.decision.source) == decision_for(forced, bytes)
            &&& bytes.len() <= decode_limit()
            &&& decoded_as(decoded.decision.encoding@, bytes) == Some(
                (decoded.text@, decoded.had_errors),
            )
            &&& decoded.decision.encoding@ == "UTF-8"@ ==> decodes_utf8(
                bytes,
                Some((decoded.text, decoded.had_errors)),
            )
        },
        Err(EncodingError::InputTooLarge) => bytes.len() > decode_limit(),
        Err(EncodingError::UnknownEncoding(label)) => bytes.len() <= decode_limit() && label@
            == decision_for(forced, bytes).0 && decoded_as(label@, bytes) is None && label@
            != "UTF-8"@,
    }
}

/// Decoding inverts encoding where nothing is lost: a text that does not start
/// with a byte-order mark, encoded as UTF-8, is decoded to itself, without
/// loss, both where UTF-8 is forced and where the encoding is left to
/// detection.
pub proof fn lemma_decode_inverts_encode(
    text: Seq<char>,
    forced: Option<Seq<char>>,
    decoded: Result<DecodedText, EncodingError>,
)
    requires
        text.len() == 0 || text[0] != '\u{FEFF}',
        forced is None || forced == Some("UTF-8"@),
        byte_len(text) <= decode_limit(),
        decode_contract(forced, utf8_encoding(text).0, decoded),
    ensures
        decoded matches Ok(d) && d.text@ == text && !d.had_errors,
{
    lemma_utf8_round_trip(text);
    lemma_byte_len_encoded(text);
}

} // verus!
