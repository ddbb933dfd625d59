//! Running a transformation on one file: decode, transform, and keep the
//! result only if it changes the text.

use vstd::prelude::*;
use crate::block::apply_block;
use crate::block::apply_block_contract;
use crate::commands::{
    apply_rename, apply_rename_contract, apply_replace, apply_replace_contract, BlockOptions,
    RenameOptions, ReplaceOptions, ReplaceOutcome, TransformError,
};
use crate::encoding::{decode_contract, DecodedText, EncodingError, EncodingStrategy};
use crate::files::FileEntry;
use crate::text::{chars_of, same_chars};

verus! {

/// What a transformation of one file works with.
pub struct TransformContext<'a> {
    pub entry: &'a FileEntry,
    pub encoding: &'a EncodingStrategy,
}

/// A candidate change of one file: the text as it was decoded, and the new
/// text. A result always changes the text: a transformation that leaves the
/// text as it is has no result.
#[derive(Debug)]
pub struct TransformResult {
    decoded: DecodedText,
    new_text: String,
}

impl TransformResult {
    #[verifier::type_invariant]
    spec fn changes_text(&self) -> bool {
        self.new_text@ != self.decoded.text@
    }

    /// The text as it was.
    pub closed spec fn old_view(&self) -> Seq<char> {
        self.decoded.text@
    }

    /// The text as it is to be.
    pub closed spec fn new_view(&self) -> Seq<char> {
        self.new_text@
    }

    /// The result of turning the decoded text into `candidate`; none where
    /// there is no candidate, and none where the candidate is the text as it
    /// was.
    pub fn new(decoded: DecodedText, candidate: Option<String>) -> (r: Option<Self>)
        ensures
            match r {
                Some(result) => candidate matches Some(text) && text@ != decoded.text@
                    && result.new_view() == text@ && result.old_view() == decoded.text@
                    && result.decoded_spec() == decoded,
                None => candidate matches Some(text) ==> text@ == decoded.text@,
            },
    {
        match candidate {
            Some(new_text) => {
                let old_chars = chars_of(decoded.text.as_str());
                let new_chars = chars_of(new_text.as_str());
                if same_chars(old_chars.as_slice(), new_chars.as_slice()) {
                    None
                } else {
                    Some(TransformResult { decoded, new_text })
                }
            },
            None => None,
        }
    }

    /// The decoded file.
    pub closed spec fn decoded_spec(&self) -> DecodedText {
        self.decoded
    }

    /// The decoded file.
    pub fn decoded(&self) -> (r: &DecodedText)
        ensures
            *r == self.decoded_spec(),
            r.text@ == self.old_view(),
    {
        &self.decoded
    }

    /// The new text.
    pub fn new_text(&self) -> (r: &str)
        ensures
            r@ == self.new_view(),
            r@ != self.old_view(),
    {
        proof {
            use_type_invariant(self);
        }
        self.new_text.as_str()
    }
}

/// Why a command failed on a file.
#[derive(Debug, Clone)]
pub enum CommandError {
    Encoding(EncodingError),
    Transform(TransformError),
}

impl CommandError {
    /// The message for the user.
    pub fn message(&self) -> (r: String)
        ensures
            r@ == match self {
                CommandError::Encoding(e) => e.message_spec(),
                CommandError::Transform(e) => e.message_spec(),
            },
    {
        match self {
            CommandError::Encoding(e) => e.message(),
            CommandError::Transform(e) => e.message(),
        }
    }
}

/// How the run of a transformation on one file ended.
#[derive(Debug)]
pub struct RunOutcome {
    /// The change, where there is one.
    pub result: Option<TransformResult>,
    /// The file was passed over because it looks binary.
    pub skipped_binary: bool,
    /// Decoding the file had to replace malformed input.
    pub had_decoding_errors: bool,
    /// For a replacement: how many matches were passed over because of their
    /// line.
    pub filtered_by_line: usize,
    /// For a replacement: how many matches were replaced.
    pub replacements: usize,
}

/// The outcome for a file that is passed over because it looks binary.
fn skipped() -> (r: RunOutcome)
    ensures
        r.result is None,
        r.skipped_binary,
        !r.had_decoding_errors,
        r.filtered_by_line == 0,
{
    RunOutcome {
        result: None,
        skipped_binary: true,
        had_decoding_errors: false,
        filtered_by_line: 0,
        replacements: 0,
    }
}

/// `outcome` is what the candidate `candidate` for the decoded file `decoded`
/// comes to.
pub open spec fn outcome_of(decoded: DecodedText, candidate: Option<String>, outcome: RunOutcome)
    -> bool {
    &&& !outcome.skipped_binary
    &&& outcome.had_decoding_errors == decoded.had_errors
    &&& match outcome.result {
        Some(result) => candidate matches Some(text) && text@ != decoded.text@ && result.new_view()
            == text@ && result.decoded_spec() == decoded,
        None => candidate matches Some(text) ==> text@ == decoded.text@,
    }
}

/// What the run of a transformation on a file owes, where `transformed` tells
/// what the transformation owes for a decoded file: a file that looks binary
/// is passed over; any other is decoded, an error of the decoding or of the
/// transformation is handed on, and the candidate is kept where it changes
/// the text.
pub open spec fn run_contract(
    entry: FileEntry,
    encoding: EncodingStrategy,
    bytes: Seq<u8>,
    transformed: spec_fn(DecodedText, Result<Option<String>, TransformError>) -> bool,
    r: Result<RunOutcome, CommandError>,
) -> bool {
    if entry.metadata.is_probably_binary {
        r matches Ok(outcome) && outcome.skipped_binary && outcome.result is None
    } else {
        match r {
            Ok(outcome) => exists|decoded: DecodedText, candidate: Option<String>|
                decode_contract(
                    encoding.forced_encoding(),
                    bytes,
                    Ok::<DecodedText, EncodingError>(decoded),
                ) && transformed(decoded, Ok::<Option<String>, TransformError>(candidate))
                    && #[trigger] outcome_of(decoded, candidate, outcome),
            Err(CommandError::Encoding(e)) => decode_contract(
                encoding.forced_encoding(),
                bytes,
                Err::<DecodedText, EncodingError>(e),
            ),
            Err(CommandError::Transform(e)) => exists|decoded: DecodedText| #[trigger]
                decode_contract(
                    encoding.forced_encoding(),
                    bytes,
                    Ok::<DecodedText, EncodingError>(decoded),
                ) && transformed(decoded, Err::<Option<String>, TransformError>(e)),
        }
    }
}

/// `outcome` is what the replacement `found` in the decoded file `decoded`
/// comes to.
pub open spec fn replace_outcome_of(decoded: DecodedText, found: ReplaceOutcome, outcome: RunOutcome)
    -> bool {
    &&& outcome_of(decoded, found.new_text, outcome)
    &&& outcome.filtered_by_line == found.filtered_by_line
    &&& outcome.replacements == found.replacements
}

/// What the run of a replacement on a file owes: a file that looks binary is
/// passed over; any other is decoded and handed to `apply_replace`, an error
/// of either is handed on, and the new text is kept where it changes the
/// text.
pub open spec fn run_replace_contract(
    entry: FileEntry,
    encoding: EncodingStrategy,
    bytes: Seq<u8>,
    options: ReplaceOptions,
    r: Result<RunOutcome, CommandError>,
) -> bool {
    if entry.metadata.is_probably_binary {
        r matches Ok(outcome) && outcome.skipped_binary && outcome.result is None
    } else {
        match r {
            Ok(outcome) => exists|decoded: DecodedText, found: ReplaceOutcome|
                decode_contract(
                    encoding.forced_encoding(),
                    bytes,
                    Ok::<DecodedText, EncodingError>(decoded),
                ) && apply_replace_contract(
                    decoded.text@,
                    options,
                    Ok::<ReplaceOutcome, TransformError>(found),
                ) && #[trigger] replace_outcome_of(decoded, found, outcome),
            Err(CommandError::Encoding(e)) => decode_contract(
                encoding.forced_encoding(),
                bytes,
                Err::<DecodedText, EncodingError>(e),
            ),
            Err(CommandError::Transform(e)) => exists|decoded: DecodedText| #[trigger]
                decode_contract(
                    encoding.forced_encoding(),
                    bytes,
                    Ok::<DecodedText, EncodingError>(decoded),
                ) && apply_replace_contract(
                    decoded.text@,
                    options,
                    Err::<ReplaceOutcome, TransformError>(e),
                ),
        }
    }
}

/// Replaces in one file whose content is `bytes`. A file that looks binary is
/// passed over unread. The result is what `apply_replace` makes of the decoded
/// text, where that changes it.
pub fn run_replace(
    entry: &FileEntry,
    encoding: &EncodingStrategy,
    bytes: &[u8],
    options: &ReplaceOptions,
) -> (r: Result<RunOutcome, CommandError>)
    ensures
        run_replace_contract(*entry, *encoding, bytes@, *options, r),
{
    if entry.metadata.is_probably_binary {
        return Ok(skipped());
    }
    let decoded = match encoding.decode(bytes) {
        Ok(decoded) => decoded,
        Err(e) => {
            return Err(CommandError::Encoding(e));
        },
    };
    let had_decoding_errors = decoded.had_errors;
    match apply_replace(&decoded, options) {
        Ok(found) => {
            let ghost candidate = found.new_text;
            let ghost witness = found;
            let filtered_by_line = found.filtered_by_line;
            let replacements = found.replacements;
            let outcome = RunOutcome {
                filtered_by_line,
                replacements,
                result: TransformResult::new(decoded, found.new_text),
                skipped_binary: false,
                had_decoding_errors,
            };
            proof {
                assert(apply_replace_contract(
                    decoded.text@,
                    *options,
                    Ok::<ReplaceOutcome, TransformError>(witness),
                ));
                assert(replace_outcome_of(decoded, witness, outcome));
            }
            Ok(outcome)
        },
        Err(e) => Err(CommandError::Transform(e)),
    }
}

/// Runs `transformer` on one file whose content is `bytes`: a file that
/// looks binary is passed over unread; any other is decoded and handed to
/// `transformer`, and what it gives is kept where it changes the text.
pub fn run_transform<F>(ctx: &TransformContext<'_>, bytes: &[u8], transformer: F) -> (r: Result<
    RunOutcome,
    CommandError,
>) where F: Fn(&DecodedText) -> Result<Option<String>, TransformError>
    requires
        forall|decoded: &DecodedText| call_requires(transformer, (decoded,)),
    ensures
        run_contract(
            *ctx.entry,
            *ctx.encoding,
            bytes@,
            |d: DecodedText, c: Result<Option<String>, TransformError>|
                call_ensures(transformer, (&d,), c),
            r,
        ),
{
    if ctx.entry.metadata.is_probably_binary {
        return Ok(skipped());
    }
    let decoded = match ctx.encoding.decode(bytes) {
        Ok(decoded) => decoded,
        Err(e) => {
            return Err(CommandError::Encoding(e));
        },
    };
    let had_decoding_errors = decoded.had_errors;
    match transformer(&decoded) {
        Ok(candidate) => {
            let ghost given = candidate;
            let outcome = RunOutcome {
                result: TransformResult::new(decoded, candidate),
                skipped_binary: false,
                had_decoding_errors,
                filtered_by_line: 0,
                replacements: 0,
            };
            proof {
                assert(outcome_of(decoded, given, outcome));
            }
            Ok(outcome)
        },
        Err(e) => Err(CommandError::Transform(e)),
    }
}

/// Rewrites a block in one file whose content is `bytes`. A file that looks
/// binary is passed over unread.
pub fn run_block(
    entry: &FileEntry,
    encoding: &EncodingStrategy,
    bytes: &[u8],
    options: &BlockOptions,
) -> (r: Result<RunOutcome, CommandError>)
    ensures
        run_contract(*entry, *encoding, bytes@, |d: DecodedText, c: Result<Option<String>, TransformError>| apply_block_contract(d.text@, *options, c), r),
{
    let ctx = TransformContext { entry, encoding };
    let transformer = |decoded: &DecodedText| -> (c: Result<Option<String>, TransformError>)
        ensures
            apply_block_contract(decoded.text@, *options, c),
        {
            apply_block(decoded, options)
        };
    let r = run_transform(&ctx, bytes, transformer);
    let ghost given = r;
    proof {
        if !entry.metadata.is_probably_binary {
            match given {
                Ok(outcome) => {
                    let (decoded, candidate) = choose|decoded: DecodedText, candidate: Option<String>|
                        decode_contract(
                            encoding.forced_encoding(),
                            bytes@,
                            Ok::<DecodedText, EncodingError>(decoded),
                        ) && apply_block_contract(
                            decoded.text@,
                            *options,
                            Ok::<Option<String>, TransformError>(candidate),
                        ) && #[trigger] outcome_of(decoded, candidate, outcome);
                    assert(outcome_of(decoded, candidate, outcome));
                },
                Err(CommandError::Encoding(e)) => {},
                Err(CommandError::Transform(e)) => {
                    let decoded = choose|decoded: DecodedText| #[trigger]
                        decode_contract(
                            encoding.forced_encoding(),
                            bytes@,
                            Ok::<DecodedText, EncodingError>(decoded),
                        ) && apply_block_contract(
                            decoded.text@,
                            *options,
                            Err::<Option<String>, TransformError>(e),
                        );
                    assert(decode_contract(
                        encoding.forced_encoding(),
                        bytes@,
                        Ok::<DecodedText, EncodingError>(decoded),
                    ));
                },
            }
        }
    }
    r
}

/// Renames a token in one file whose content is `bytes`. A file that looks
/// binary is passed over unread.
pub fn run_rename(
    entry: &FileEntry,
    encoding: &EncodingStrategy,
    bytes: &[u8],
    options: &RenameOptions,
) -> (r: Result<RunOutcome, CommandError>)
    ensures
        run_contract(*entry, *encoding, bytes@, |d: DecodedText, c: Result<Option<String>, TransformError>| apply_rename_contract(d.text@, *options, c), r),
{
    let ctx = TransformContext { entry, encoding };
    let transformer = |decoded: &DecodedText| -> (c: Result<Option<String>, TransformError>)
        ensures
            apply_rename_contract(decoded.text@, *options, c),
        {
            apply_rename(decoded, options)
        };
    let r = run_transform(&ctx, bytes, transformer);
    let ghost given = r;
    proof {
        if !entry.metadata.is_probably_binary {
            match given {
                Ok(outcome) => {
                    let (decoded, candidate) = choose|decoded: DecodedText, candidate: Option<String>|
                        decode_contract(
                            encoding.forced_encoding(),
                            bytes@,
                            Ok::<DecodedText, EncodingError>(decoded),
                        ) && apply_rename_contract(
                            decoded.text@,
                            *options,
                            Ok::<Option<String>, TransformError>(candidate),
                        ) && #[trigger] outcome_of(decoded, candidate, outcome);
                    assert(outcome_of(decoded, candidate, outcome));
                },
                Err(CommandError::Encoding(e)) => {},
                Err(CommandError::Transform(e)) => {
                    let decoded = choose|decoded: DecodedText| #[trigger]
                        decode_contract(
                            encoding.forced_encoding(),
                            bytes@,
                            Ok::<DecodedText, EncodingError>(decoded),
                        ) && apply_rename_contract(
                            decoded.text@,
                            *options,
                            Err::<Option<String>, TransformError>(e),
                        );
                    assert(decode_contract(
                        encoding.forced_encoding(),
                        bytes@,
                        Ok::<DecodedText, EncodingError>(decoded),
                    ));
                },
            }
        }
    }
    r
}

} // verus!
