//! The apply pipeline: what happens to each file of a command.
//!
//! A command walks its files one at a time. For each, the pipeline decides
//! from what is known so far what is done next: pass the file over, preview
//! its change, ask the user, write. Reading, showing, asking and writing are
//! the caller's part; counting and deciding are done here.

use vstd::prelude::*;
use vstd::string::StringExecFns;

use crate::casing::lower_text;
use crate::chars::{
    trim_bounds, trimmed, without_trailing, count_trailing, all_in, all_of, CharClass,
};
use crate::diff::{diff_ops, line_spans_of, spans_ascending, summary_of};
use crate::files::{sanitize_path, sanitized};
use crate::lineending::{
    detect_line_ending_style, normalize_to_lf, restore_from_lf, style_of, with_lf_as,
    with_line_breaks, LineEndingChoice, LineEndingStyle,
};
use crate::lines::texts;
use crate::logging::{LineSpan, LineSpanKind};
use crate::numbers::{decimal, decimal_chars};
use crate::patch::{PatchError, PatchKind};
use crate::text::{chars_of, lf, opt_str_view, opt_view, same_chars, string_of};

verus! {

/// What the user answers when asked whether to write a change.
#[derive(Debug, Clone, Copy, PartialEq, Eq)]
pub enum ApprovalDecision {
    /// Write this change.
    Apply,
    /// Do not write this change.
    Skip,
    /// Write this change and every later one without asking.
    ApplyAll,
    /// Write nothing more and stop the command.
    Quit,
}

/// The decision that an answer, trimmed and in small letters, spells.
pub open spec fn decision_of(answer: Seq<char>) -> Option<ApprovalDecision> {
    if answer == "y"@ || answer == "yes"@ || answer == ""@ {
        Some(ApprovalDecision::Apply)
    } else if answer == "n"@ || answer == "no"@ {
        Some(ApprovalDecision::Skip)
    } else if answer == "a"@ || answer == "all"@ {
        Some(ApprovalDecision::ApplyAll)
    } else if answer == "q"@ || answer == "quit"@ {
        Some(ApprovalDecision::Quit)
    } else {
        None
    }
}

fn says(answer: &[char], word: &str) -> (r: bool)
    ensures
        r == (answer@ == word@),
{
    let w = chars_of(word);
    same_chars(answer, w.as_slice())
}

/// Reads an answer to the approval prompt; `None` for an answer that is to be
/// asked for again. An empty answer approves.
pub fn parse_approval(input: &str) -> (r: Option<ApprovalDecision>)
    ensures
        r == decision_of(lower_text(trimmed(input@, CharClass::Whitespace))),
{
    let chars = chars_of(input);
    let bounds = trim_bounds(chars.as_slice(), CharClass::Whitespace);
    let bare = string_of(vstd::slice::slice_subrange(chars.as_slice(), bounds.0, bounds.1));
    let lowered = bare.as_str().to_lowercase();
    let answer = chars_of(lowered.as_str());
    let a = answer.as_slice();
    if says(a, "y") || says(a, "yes") || says(a, "") {
        Some(ApprovalDecision::Apply)
    } else if says(a, "n") || says(a, "no") {
        Some(ApprovalDecision::Skip)
    } else if says(a, "a") || says(a, "all") {
        Some(ApprovalDecision::ApplyAll)
    } else if says(a, "q") || says(a, "quit") {
        Some(ApprovalDecision::Quit)
    } else {
        None
    }
}

/// The counts of one command. They never wrap: a count that has reached the
/// largest number stays there.
#[derive(Debug, Clone, Copy, PartialEq, Eq)]
pub struct CommandStats {
    pub applied: usize,
    pub skipped: usize,
    pub dry_run: usize,
    pub no_op: usize,
}

impl Default for CommandStats {
    fn default() -> (r: Self)
        ensures
            r == (CommandStats { applied: 0, skipped: 0, dry_run: 0, no_op: 0 }),
    {
        CommandStats { applied: 0, skipped: 0, dry_run: 0, no_op: 0 }
    }
}

/// One more than `n`, as far as the machine can count.
pub open spec fn bumped(n: usize) -> usize {
    if n < usize::MAX {
        (n + 1) as usize
    } else {
        n
    }
}

impl CommandStats {
    /// Whether nothing was counted.
    pub open spec fn is_empty(&self) -> bool {
        self.applied == 0 && self.skipped == 0 && self.dry_run == 0 && self.no_op == 0
    }

    /// The line that sums the command up.
    pub open spec fn summary(&self, label: Seq<char>) -> Seq<char> {
        label + " summary: applied="@ + decimal(self.applied as nat) + ", skipped="@ + decimal(
            self.skipped as nat,
        ) + ", dry-run="@ + decimal(self.dry_run as nat) + ", no-op="@ + decimal(self.no_op as nat)
    }

    /// The line that sums the command up; none where nothing was counted.
    pub fn summary_line(&self, label: &str) -> (r: Option<String>)
        ensures
            match r {
                Some(line) => !self.is_empty() && line@ == self.summary(label@),
                None => self.is_empty(),
            },
    {
        if self.applied == 0 && self.skipped == 0 && self.dry_run == 0 && self.no_op == 0 {
            return None;
        }
        let mut out = label.to_owned();
        out.append(" summary: applied=");
        out.append(string_of(decimal_chars(self.applied as u128).as_slice()).as_str());
        out.append(", skipped=");
        out.append(string_of(decimal_chars(self.skipped as u128).as_slice()).as_str());
        out.append(", dry-run=");
        out.append(string_of(decimal_chars(self.dry_run as u128).as_slice()).as_str());
        out.append(", no-op=");
        out.append(string_of(decimal_chars(self.no_op as u128).as_slice()).as_str());
        Some(out)
    }
}

/// What a command carries from file to file: whether it writes at all,
/// whether the user has approved all further changes, whether the user has
/// stopped it, and its counts.
#[derive(Debug, Clone, Copy, PartialEq, Eq)]
pub struct PipelineState {
    pub apply_mode: bool,
    pub apply_all: bool,
    pub stopped: bool,
    pub stats: CommandStats,
}

/// What is known of a file once it has been looked at.
#[derive(Debug, Clone, Copy, PartialEq, Eq)]
pub enum FileEvent {
    /// The file looks binary.
    Binary,
    /// The command changes nothing in the file.
    Unchanged,
    /// The command changes the file.
    Changed,
}

/// What is done with a file next.
#[derive(Debug, Clone, Copy, PartialEq, Eq)]
pub enum FileAction {
    /// The command has been stopped: nothing is done.
    Halt,
    /// Record the file as skipped.
    RecordSkipped,
    /// Record that there was nothing to do.
    RecordNoOp,
    /// Show the change and record a dry run.
    PreviewOnly,
    /// Show the change and write it.
    PreviewAndWrite,
    /// Show the change and ask the user.
    PreviewAndAsk,
}

/// What is done after the user has answered.
#[derive(Debug, Clone, Copy, PartialEq, Eq)]
pub enum DecisionAction {
    /// Write the change.
    Write,
    /// Record the file as skipped and go on.
    RecordSkipped,
    /// Stop the command.
    Stop,
}

/// The state and the action after a file has been looked at.
pub open spec fn after_file(state: PipelineState, event: FileEvent) -> (PipelineState, FileAction) {
    if state.stopped {
        (state, FileAction::Halt)
    } else {
        match event {
            FileEvent::Binary => (
                PipelineState {
                    stats: CommandStats { skipped: bumped(state.stats.skipped), ..state.stats },
                    ..state
                },
                FileAction::RecordSkipped,
            ),
            FileEvent::Unchanged => (
                PipelineState {
                    stats: CommandStats { no_op: bumped(state.stats.no_op), ..state.stats },
                    ..state
                },
                FileAction::RecordNoOp,
            ),
            FileEvent::Changed => if !state.apply_mode {
                (
                    PipelineState {
                        stats: CommandStats { dry_run: bumped(state.stats.dry_run), ..state.stats },
                        ..state
                    },
                    FileAction::PreviewOnly,
                )
            } else if state.apply_all {
                (state, FileAction::PreviewAndWrite)
            } else {
                (state, FileAction::PreviewAndAsk)
            },
        }
    }
}

/// The state and the action after the user has answered. Approval of all
/// changes sticks; quitting stops the command and counts the file as skipped
/// where `quit_counts_as_skip` says so.
pub open spec fn after_decision(
    state: PipelineState,
    decision: ApprovalDecision,
    quit_counts_as_skip: bool,
) -> (PipelineState, DecisionAction) {
    match decision {
        ApprovalDecision::Apply => (state, DecisionAction::Write),
        ApprovalDecision::ApplyAll => (
            PipelineState { apply_all: true, ..state },
            DecisionAction::Write,
        ),
        ApprovalDecision::Skip => (
            PipelineState {
                stats: CommandStats { skipped: bumped(state.stats.skipped), ..state.stats },
                ..state
            },
            DecisionAction::RecordSkipped,
        ),
        ApprovalDecision::Quit => (
            PipelineState {
                stopped: true,
                stats: if quit_counts_as_skip {
                    CommandStats { skipped: bumped(state.stats.skipped), ..state.stats }
                } else {
                    state.stats
                },
                ..state
            },
            DecisionAction::Stop,
        ),
    }
}

/// The state after a change has been written.
pub open spec fn after_write(state: PipelineState) -> PipelineState {
    PipelineState {
        stats: CommandStats { applied: bumped(state.stats.applied), ..state.stats },
        ..state
    }
}

fn bump(n: usize) -> (r: usize)
    ensures
        r == bumped(n),
{
    n.saturating_add(1)
}

impl PipelineState {
    /// The state at the start of a command: nothing counted, nothing
    /// stopped; all changes are approved from the start where the user asked
    /// for automatic approval and the command writes.
    pub fn new(apply_mode: bool, auto_apply: bool) -> (r: Self)
        ensures
            r == (PipelineState {
                apply_mode,
                apply_all: auto_apply && apply_mode,
                stopped: false,
                stats: CommandStats { applied: 0, skipped: 0, dry_run: 0, no_op: 0 },
            }),
    {
        PipelineState {
            apply_mode,
            apply_all: auto_apply && apply_mode,
            stopped: false,
            stats: CommandStats { applied: 0, skipped: 0, dry_run: 0, no_op: 0 },
        }
    }

    /// Takes note of a file that has been looked at and tells what is done
    /// with it next.
    pub fn on_file(&mut self, event: FileEvent) -> (action: FileAction)
        ensures
            (*final(self), action) == after_file(*old(self), event),
    {
        if self.stopped {
            return FileAction::Halt;
        }
        match event {
            FileEvent::Binary => {
                self.stats.skipped = bump(self.stats.skipped);
                FileAction::RecordSkipped
            },
            FileEvent::Unchanged => {
                self.stats.no_op = bump(self.stats.no_op);
                FileAction::RecordNoOp
            },
            FileEvent::Changed => {
                if !self.apply_mode {
                    self.stats.dry_run = bump(self.stats.dry_run);
                    FileAction::PreviewOnly
                } else if self.apply_all {
                    FileAction::PreviewAndWrite
                } else {
                    FileAction::PreviewAndAsk
                }
            },
        }
    }

    /// Takes note of the user's answer and tells what is done next.
    pub fn on_decision(&mut self, decision: ApprovalDecision, quit_counts_as_skip: bool) -> (action:
        DecisionAction)
        ensures
            (*final(self), action) == after_decision(*old(self), decision, quit_counts_as_skip),
    {
        match decision {
            ApprovalDecision::Apply => DecisionAction::Write,
            ApprovalDecision::ApplyAll => {
                self.apply_all = true;
                DecisionAction::Write
            },
            ApprovalDecision::Skip => {
                self.stats.skipped = bump(self.stats.skipped);
                DecisionAction::RecordSkipped
            },
            ApprovalDecision::Quit => {
                self.stopped = true;
                if quit_counts_as_skip {
                    self.stats.skipped = bump(self.stats.skipped);
                }
                DecisionAction::Stop
            },
        }
    }

    /// Takes note of a change that has been written.
    pub fn on_written(&mut self)
        ensures
            *final(self) == after_write(*old(self)),
    {
        self.stats.applied = bump(self.stats.applied);
    }
}

/// Once all changes are approved they stay approved, and once the command is
/// stopped it stays stopped, whatever file or answer comes next.
pub proof fn lemma_approval_is_sticky(
    state: PipelineState,
    event: FileEvent,
    decision: ApprovalDecision,
    quit_counts_as_skip: bool,
)
    ensures
        state.apply_all ==> after_file(state, event).0.apply_all && after_decision(
            state,
            decision,
            quit_counts_as_skip,
        ).0.apply_all && after_write(state).apply_all,
        state.stopped ==> after_file(state, event) == (state, FileAction::Halt),
        state.stopped ==> after_decision(state, decision, quit_counts_as_skip).0.stopped,
        after_file(state, event).0.apply_mode == state.apply_mode,
{
}

/// Nothing is written without the apply flag: a command that does not write
/// never asks and never writes, whatever it finds.
pub proof fn lemma_dry_run_never_writes(state: PipelineState, event: FileEvent)
    requires
        !state.apply_mode,
    ensures
        after_file(state, event).1 != FileAction::PreviewAndWrite,
        after_file(state, event).1 != FileAction::PreviewAndAsk,
        after_file(state, event).0.stats.applied == state.stats.applied,
{
}

/// The word for a kind of patch.
pub fn patch_kind_label(kind: PatchKind) -> (r: &'static str)
    ensures
        r@ == match kind {
            PatchKind::Modify => "modify"@,
            PatchKind::Create => "create"@,
            PatchKind::Delete => "delete"@,
            PatchKind::Rename => "rename"@,
        },
{
    match kind {
        PatchKind::Modify => "modify",
        PatchKind::Create => "create",
        PatchKind::Delete => "delete",
        PatchKind::Rename => "rename",
    }
}

/// What applying a patch of some kind does on disk.
#[derive(Debug, Clone)]
pub struct PatchPlan {
    /// The file whose text the hunks are applied to; none for a creation,
    /// which starts from nothing.
    pub read_from: Option<String>,
    /// The file that receives the result; none for a deletion.
    pub write_to: Option<String>,
    /// The file that is removed after the result is written.
    pub remove: Option<String>,
    /// The file that must not exist before anything is done.
    pub must_be_free: Option<String>,
}

/// Why a patch cannot be planned.
#[derive(Debug, Clone, Copy, PartialEq, Eq)]
pub enum PlanningError {
    /// A modification names no path.
    ModifyMissingPath,
    /// A creation names no target.
    CreateMissingTarget,
    /// A deletion names no source.
    DeleteMissingSource,
    /// A rename names no source.
    RenameMissingSource,
    /// A rename names no destination.
    RenameMissingDestination,
}

impl PlanningError {
    /// The message for the user.
    pub fn message(&self) -> (r: &'static str)
        ensures
            r@ == match self {
                PlanningError::ModifyMissingPath => "modify patch missing path"@,
                PlanningError::CreateMissingTarget => "create patch missing target path"@,
                PlanningError::DeleteMissingSource => "delete patch missing source path"@,
                PlanningError::RenameMissingSource => "rename patch missing source path"@,
                PlanningError::RenameMissingDestination => "rename patch missing destination path"@,
            },
    {
        match self {
            PlanningError::ModifyMissingPath => "modify patch missing path",
            PlanningError::CreateMissingTarget => "create patch missing target path",
            PlanningError::DeleteMissingSource => "delete patch missing source path",
            PlanningError::RenameMissingSource => "rename patch missing source path",
            PlanningError::RenameMissingDestination => "rename patch missing destination path",
        }
    }
}

/// What a patch of kind `kind` with the paths `old_path` and `new_path` does
/// on disk. A modification works in place, on the new path where it has one;
/// a creation needs its target to be free; a deletion removes its source; a
/// rename reads the source, writes the destination, which must be free unless
/// it is the source, and removes the source.
pub open spec fn planned(kind: PatchKind, old_path: Option<Seq<char>>, new_path: Option<Seq<char>>)
    -> Result<(Option<Seq<char>>, Option<Seq<char>>, Option<Seq<char>>, Option<Seq<char>>),
    PlanningError,
> {
    match kind {
        PatchKind::Modify => match (new_path, old_path) {
            (Some(path), _) => Ok((Some(path), Some(path), None, None)),
            (None, Some(path)) => Ok((Some(path), Some(path), None, None)),
            (None, None) => Err(PlanningError::ModifyMissingPath),
        },
        PatchKind::Create => match new_path {
            Some(path) => Ok((None, Some(path), None, Some(path))),
            None => Err(PlanningError::CreateMissingTarget),
        },
        PatchKind::Delete => match old_path {
            Some(path) => Ok((Some(path), None, Some(path), None)),
            None => Err(PlanningError::DeleteMissingSource),
        },
        PatchKind::Rename => match (old_path, new_path) {
            (None, _) => Err(PlanningError::RenameMissingSource),
            (Some(_), None) => Err(PlanningError::RenameMissingDestination),
            (Some(old), Some(new)) => Ok(
                (
                    Some(old),
                    Some(new),
                    Some(old),
                    if new != old {
                        Some(new)
                    } else {
                        None
                    },
                ),
            ),
        },
    }
}

/// Plans what a patch does on disk.
pub fn plan_patch(kind: PatchKind, old_path: Option<&str>, new_path: Option<&str>) -> (r: Result<
    PatchPlan,
    PlanningError,
>)
    ensures
        match r {
            Ok(plan) => planned(
                kind,
                opt_str_view(old_path),
                opt_str_view(new_path),
            ) == Ok::<
                (Option<Seq<char>>, Option<Seq<char>>, Option<Seq<char>>, Option<Seq<char>>),
                PlanningError,
            >(
                (
                    opt_view(plan.read_from),
                    opt_view(plan.write_to),
                    opt_view(plan.remove),
                    opt_view(plan.must_be_free),
                ),
            ),
            Err(e) => planned(
                kind,
                opt_str_view(old_path),
                opt_str_view(new_path),
            ) == Err::<
                (Option<Seq<char>>, Option<Seq<char>>, Option<Seq<char>>, Option<Seq<char>>),
                PlanningError,
            >(e),
        },
{
    match kind {
        PatchKind::Modify => {
            let path = match (new_path, old_path) {
                (Some(path), _) => path,
                (None, Some(path)) => path,
                (None, None) => {
                    return Err(PlanningError::ModifyMissingPath);
                },
            };
            Ok(
                PatchPlan {
                    read_from: Some(path.to_owned()),
                    write_to: Some(path.to_owned()),
                    remove: None,
                    must_be_free: None,
                },
            )
        },
        PatchKind::Create => match new_path {
            Some(path) => Ok(
                PatchPlan {
                    read_from: None,
                    write_to: Some(path.to_owned()),
                    remove: None,
                    must_be_free: Some(path.to_owned()),
                },
            ),
            None => Err(PlanningError::CreateMissingTarget),
        },
        PatchKind::Delete => match old_path {
            Some(path) => Ok(
                PatchPlan {
                    read_from: Some(path.to_owned()),
                    write_to: None,
                    remove: Some(path.to_owned()),
                    must_be_free: None,
                },
            ),
            None => Err(PlanningError::DeleteMissingSource),
        },
        PatchKind::Rename => {
            let old = match old_path {
                Some(path) => path,
                None => {
                    return Err(PlanningError::RenameMissingSource);
                },
            };
            let new = match new_path {
                Some(path) => path,
                None => {
                    return Err(PlanningError::RenameMissingDestination);
                },
            };
            let same = same_chars(chars_of(old).as_slice(), chars_of(new).as_slice());
            Ok(
                PatchPlan {
                    read_from: Some(old.to_owned()),
                    write_to: Some(new.to_owned()),
                    remove: Some(old.to_owned()),
                    must_be_free: if same {
                        None
                    } else {
                        Some(new.to_owned())
                    },
                },
            )
        },
    }
}

/// What the result of applying a patch amounts to.
#[derive(Debug, Clone, Copy, PartialEq, Eq)]
pub enum PatchVerdict {
    /// Nothing changes: there is nothing to do.
    NoOp,
    /// The text changes.
    Change,
    /// A rename that leaves the text as it is.
    RenameOnly,
}

/// What turning `old_text` into `new_text` amounts to for a patch of kind
/// `kind`. A creation starts from nothing, so what it compares with is the
/// empty text. A deletion must leave nothing behind. A rename always has
/// something to do.
pub open spec fn verdict_of(kind: PatchKind, old_text: Seq<char>, new_text: Seq<char>) -> Result<
    PatchVerdict,
    PatchError,
> {
    match kind {
        PatchKind::Modify => if new_text == old_text {
            Ok(PatchVerdict::NoOp)
        } else {
            Ok(PatchVerdict::Change)
        },
        PatchKind::Create => if new_text.len() == 0 {
            Ok(PatchVerdict::NoOp)
        } else {
            Ok(PatchVerdict::Change)
        },
        PatchKind::Delete => if new_text.len() != 0 {
            Err(PatchError::DeleteNotEmpty)
        } else {
            Ok(PatchVerdict::Change)
        },
        PatchKind::Rename => if new_text == old_text {
            Ok(PatchVerdict::RenameOnly)
        } else {
            Ok(PatchVerdict::Change)
        },
    }
}

/// Judges the result of applying a patch.
pub fn judge_patch(kind: PatchKind, old_text: &str, new_text: &str) -> (r: Result<
    PatchVerdict,
    PatchError,
>)
    ensures
        r == verdict_of(kind, old_text@, new_text@),
{
    let old_chars = chars_of(old_text);
    let new_chars = chars_of(new_text);
    let same = same_chars(old_chars.as_slice(), new_chars.as_slice());
    match kind {
        PatchKind::Modify => if same {
            Ok(PatchVerdict::NoOp)
        } else {
            Ok(PatchVerdict::Change)
        },
        PatchKind::Create => if new_chars.len() == 0 {
            Ok(PatchVerdict::NoOp)
        } else {
            Ok(PatchVerdict::Change)
        },
        PatchKind::Delete => if new_chars.len() != 0 {
            Err(PatchError::DeleteNotEmpty)
        } else {
            Ok(PatchVerdict::Change)
        },
        PatchKind::Rename => if same {
            Ok(PatchVerdict::RenameOnly)
        } else {
            Ok(PatchVerdict::Change)
        },
    }
}

/// How a patch is named to the user: `old -> new` for two different paths,
/// else the new path, else the old one.
pub open spec fn patch_label(old_path: Option<Seq<char>>, new_path: Option<Seq<char>>) -> Seq<
    char,
> {
    match (old_path, new_path) {
        (Some(old), Some(new)) => if old != new {
            old + " -> "@ + new
        } else {
            new
        },
        (None, Some(new)) => new,
        (Some(old), None) => old,
        (None, None) => "(unknown path)"@,
    }
}

/// How a patch is named to the user.
pub fn display_label(old_path: Option<&str>, new_path: Option<&str>) -> (r: String)
    ensures
        r@ == patch_label(opt_str_view(old_path), opt_str_view(new_path)),
{
    match (old_path, new_path) {
        (Some(old), Some(new)) => {
            if same_chars(chars_of(old).as_slice(), chars_of(new).as_slice()) {
                new.to_owned()
            } else {
                let mut out = old.to_owned();
                out.append(" -> ");
                out.append(new);
                out
            }
        },
        (None, Some(new)) => new.to_owned(),
        (Some(old), None) => old.to_owned(),
        (None, None) => "(unknown path)".to_owned(),
    }
}

/// One step of a write.
#[derive(Debug, Clone, Copy, PartialEq, Eq)]
pub enum WriteStep {
    /// Write the reverse diff, from the new text to the old, to the undo
    /// directory.
    WriteUndo,
    /// Encode the new text; a lossy encoding is told to the user.
    Encode,
    /// Create the directory of the destination.
    CreateParent,
    /// Copy the destination to the first free backup name.
    Backup,
    /// Write the encoded text to a temporary file beside the destination,
    /// flush it and sync it.
    WriteTemp,
    /// Rename the temporary file over the destination.
    Rename,
}

/// The steps of one write, in the order in which they are taken: the undo
/// patch where an undo directory is configured; the encoding; the
/// directory; a backup unless backups are off or there is nothing to back up;
/// the temporary file; the rename.
pub open spec fn steps_of_write(undo_configured: bool, no_backup: bool, destination_exists: bool)
    -> Seq<WriteStep> {
    let head: Seq<WriteStep> = if undo_configured {
        seq![WriteStep::WriteUndo]
    } else {
        Seq::empty()
    };
    let middle = head + seq![WriteStep::Encode, WriteStep::CreateParent];
    let backed = if !no_backup && destination_exists {
        middle.push(WriteStep::Backup)
    } else {
        middle
    };
    backed + seq![WriteStep::WriteTemp, WriteStep::Rename]
}

/// The steps of one write, in the order in which they are taken.
pub fn plan_write(undo_configured: bool, no_backup: bool, destination_exists: bool) -> (steps: Vec<
    WriteStep,
>)
    ensures
        steps@ == steps_of_write(undo_configured, no_backup, destination_exists),
{
    let mut steps: Vec<WriteStep> = Vec::new();
    if undo_configured {
        steps.push(WriteStep::WriteUndo);
    }
    steps.push(WriteStep::Encode);
    steps.push(WriteStep::CreateParent);
    if !no_backup && destination_exists {
        steps.push(WriteStep::Backup);
    }
    steps.push(WriteStep::WriteTemp);
    steps.push(WriteStep::Rename);
    assert(steps@ =~= steps_of_write(undo_configured, no_backup, destination_exists));
    steps
}

/// The destination is touched by the last step alone: every write ends with
/// the rename, the rename occurs nowhere else, and the temporary file is
/// complete just before it. Whatever comes before the rename can be abandoned.
pub proof fn lemma_rename_is_last(undo_configured: bool, no_backup: bool, destination_exists: bool)
    ensures
        ({
            let steps = steps_of_write(undo_configured, no_backup, destination_exists);
            &&& steps.len() >= 4
            &&& steps.last() == WriteStep::Rename
            &&& steps[steps.len() - 2] == WriteStep::WriteTemp
            &&& forall|i: int| 0 <= i < steps.len() - 1 ==> steps[i] != WriteStep::Rename
            &&& (steps.contains(WriteStep::WriteUndo) <==> undo_configured)
            &&& (undo_configured ==> steps[0] == WriteStep::WriteUndo)
            &&& (steps.contains(WriteStep::Backup) <==> (!no_backup && destination_exists))
        }),
{
    let steps = steps_of_write(undo_configured, no_backup, destination_exists);
    if undo_configured {
        assert(steps[0] == WriteStep::WriteUndo);
    }
    if !no_backup && destination_exists {
        let at = if undo_configured { 3int } else { 2int };
        assert(steps[at] == WriteStep::Backup);
    }
}

/// The name of the undo patch for the file at `path`, written at
/// `timestamp`.
pub fn undo_patch_name(timestamp: &str, path: &str) -> (r: String)
    ensures
        r@ == timestamp@ + "_"@ + sanitized(path@) + ".patch"@,
{
    let mut out = timestamp.to_owned();
    out.append("_");
    out.append(sanitize_path(path).as_str());
    out.append(".patch");
    out
}

/// The name of the temporary file that a write goes through: it lies beside
/// the destination and is told apart by the process and the time.
pub fn temp_file_name(process: u32, nanos: u128) -> (r: String)
    ensures
        r@ == ".safeedit-tmp-"@ + decimal(process as nat) + "-"@ + decimal(nanos as nat),
{
    let mut out = ".safeedit-tmp-".to_owned();
    out.append(string_of(decimal_chars(process as u128).as_slice()).as_str());
    out.append("-");
    out.append(string_of(decimal_chars(nanos).as_slice()).as_str());
    out
}

/// The spans of a change in one line: `M L3-L5` for modified lines, `A L7`
/// for added ones.
pub open spec fn span_text(span: LineSpan) -> Seq<char> {
    let kind = match span.kind {
        LineSpanKind::Modified => seq!['M'],
        LineSpanKind::Added => seq!['A'],
    };
    if span.end > span.start {
        kind + seq![' ', 'L'] + decimal(span.start as nat) + seq!['-', 'L'] + decimal(
            span.end as nat,
        )
    } else {
        kind + seq![' ', 'L'] + decimal(span.start as nat)
    }
}

/// The texts of `spans`, joined by a comma and a space.
pub open spec fn spans_text(spans: Seq<LineSpan>) -> Seq<char>
    decreases spans.len(),
{
    if spans.len() == 0 {
        Seq::empty()
    } else if spans.len() == 1 {
        span_text(spans[0])
    } else {
        spans_text(spans.drop_last()) + seq![',', ' '] + span_text(spans.last())
    }
}

/// The spans of a change in one line.
pub fn describe_spans(spans: &Vec<LineSpan>) -> (r: String)
    ensures
        r@ == spans_text(spans@),
{
    let mut out: Vec<char> = Vec::new();
    let mut i: usize = 0;
    assert(spans@.take(0) =~= Seq::<LineSpan>::empty());
    while i < spans.len()
        invariant
            i <= spans.len(),
            out@ == spans_text(spans@.take(i as int)),
        decreases spans.len() - i,
    {
        let span = spans[i];
        proof {
            assert(spans@.take(i + 1).drop_last() =~= spans@.take(i as int));
            assert(spans@.take(i + 1).last() == span);
            if i == 0 {
                assert(spans@.take(1)[0] == span);
            }
        }
        let ghost before = out@;
        if i > 0 {
            out.push(',');
            out.push(' ');
        }
        let ghost head = out@;
        match span.kind {
            LineSpanKind::Modified => out.push('M'),
            LineSpanKind::Added => out.push('A'),
        }
        out.push(' ');
        out.push('L');
        crate::numbers::push_decimal(&mut out, span.start as u128);
        if span.end > span.start {
            out.push('-');
            out.push('L');
            crate::numbers::push_decimal(&mut out, span.end as u128);
        }
        proof {
            assert(out@ =~= head + span_text(span));
            if i > 0 {
                assert(head =~= before + seq![',', ' ']);
            } else {
                assert(out@ =~= span_text(span));
            }
        }
        i += 1;
    }
    assert(spans@.take(spans.len() as int) =~= spans@);
    string_of(out.as_slice())
}

/// What a count looks like in a report: the number, or `n/a` where it was not
/// taken.
pub fn format_detection(value: Option<usize>) -> (r: String)
    ensures
        r@ == detection_text(value),
{
    match value {
        Some(count) => string_of(decimal_chars(count as u128).as_slice()),
        None => "n/a".to_owned(),
    }
}

/// What a finding looks like in a report.
pub fn format_bool(value: Option<bool>) -> (r: &'static str)
    ensures
        r@ == finding_text(value),
{
    match value {
        Some(true) => "yes",
        Some(false) => "no",
        None => "n/a",
    }
}

/// The line of the report on one file: what was found of each kind.
pub open spec fn report_line(path: Seq<char>, report: crate::normalize::NormalizeReport) -> Seq<
    char,
> {
    path + " -> zero-width: "@ + detection_text(report.zero_width) + ", control: "@
        + detection_text(report.control_chars) + ", trailing spaces: "@ + detection_text(
        report.trailing_spaces,
    ) + ", missing final newline: "@ + finding_text(report.missing_final_newline)
}

/// A count in a report.
pub open spec fn detection_text(value: Option<usize>) -> Seq<char> {
    match value {
        Some(count) => decimal(count as nat),
        None => "n/a"@,
    }
}

/// A finding in a report.
pub open spec fn finding_text(value: Option<bool>) -> Seq<char> {
    match value {
        Some(true) => "yes"@,
        Some(false) => "no"@,
        None => "n/a"@,
    }
}

/// The line on encodings under the report on one file: the encoding found,
/// the encoding converted to, both or none.
pub open spec fn encoding_line(found: Option<Seq<char>>, convert: Option<Seq<char>>) -> Option<
    Seq<char>,
> {
    match (found, convert) {
        (Some(src), Some(dst)) => Some("    encoding: "@ + src + " -> "@ + dst),
        (Some(src), None) => Some("    encoding: "@ + src),
        (None, Some(dst)) => Some("    convert encoding: "@ + dst),
        (None, None) => None,
    }
}

/// The lines of the report on one file, as a table shows them.
pub fn normalize_report_lines(
    path: &str,
    report: &crate::normalize::NormalizeReport,
    encoding_name: Option<&str>,
    convert_encoding: Option<&str>,
) -> (lines: Vec<String>)
    ensures
        texts(lines@) == match encoding_line(
            opt_str_view(encoding_name),
            opt_str_view(convert_encoding),
        ) {
            Some(second) => seq![report_line(path@, *report), second],
            None => seq![report_line(path@, *report)],
        },
{
    let mut first = path.to_owned();
    first.append(" -> zero-width: ");
    first.append(format_detection(report.zero_width).as_str());
    first.append(", control: ");
    first.append(format_detection(report.control_chars).as_str());
    first.append(", trailing spaces: ");
    first.append(format_detection(report.trailing_spaces).as_str());
    first.append(", missing final newline: ");
    first.append(format_bool(report.missing_final_newline));
    let mut lines: Vec<String> = Vec::new();
    lines.push(first);
    let second: Option<String> = match (encoding_name, convert_encoding) {
        (Some(src), Some(dst)) => {
            let mut out = "    encoding: ".to_owned();
            out.append(src);
            out.append(" -> ");
            out.append(dst);
            Some(out)
        },
        (Some(src), None) => {
            let mut out = "    encoding: ".to_owned();
            out.append(src);
            Some(out)
        },
        (None, Some(dst)) => {
            let mut out = "    convert encoding: ".to_owned();
            out.append(dst);
            Some(out)
        },
        (None, None) => None,
    };
    match second {
        Some(line) => {
            lines.push(line);
            assert(texts(lines@) =~= seq![report_line(path@, *report), lines@[1]@]);
        },
        None => {
            assert(texts(lines@) =~= seq![report_line(path@, *report)]);
        },
    }
    lines
}

/// The format of a report.
#[derive(Debug, Clone, Copy, PartialEq, Eq)]
pub enum ReportFormat {
    Table,
    Json,
}

/// The format named `value`, in any case: `table` or `json`.
pub open spec fn report_format_named(value: Seq<char>) -> Option<ReportFormat> {
    if lower_text(value) == "table"@ {
        Some(ReportFormat::Table)
    } else if lower_text(value) == "json"@ {
        Some(ReportFormat::Json)
    } else {
        None
    }
}

impl ReportFormat {
    /// The format named `value`, in any case: `table` or `json`.
    pub fn from_str(value: &str) -> (r: Option<Self>)
        ensures
            r == report_format_named(value@),
    {
        let lowered = value.to_lowercase();
        let chars = chars_of(lowered.as_str());
        if says(chars.as_slice(), "table") {
            Some(ReportFormat::Table)
        } else if says(chars.as_slice(), "json") {
            Some(ReportFormat::Json)
        } else {
            None
        }
    }
}

/// What a line of heredoc input does.
#[derive(Debug, Clone, Copy, PartialEq, Eq)]
pub enum HeredocStep {
    /// The line is the terminator: the input ends before it.
    End,
    /// The line belongs to the input.
    Append,
}

/// Whether `line` ends a heredoc whose terminator is `tag`: it does when it
/// is the tag, its line break left aside.
pub fn heredoc_step(line: &str, tag: &str) -> (r: HeredocStep)
    ensures
        r == if without_trailing(line@, CharClass::LineBreak) == tag@ {
            HeredocStep::End
        } else {
            HeredocStep::Append
        },
{
    let chars = chars_of(line);
    let cut = count_trailing(chars.as_slice(), CharClass::LineBreak);
    let bare = vstd::slice::slice_subrange(chars.as_slice(), 0, chars.len() - cut);
    assert(bare@ =~= without_trailing(line@, CharClass::LineBreak));
    if same_chars(bare, chars_of(tag).as_slice()) {
        HeredocStep::End
    } else {
        HeredocStep::Append
    }
}

/// Whether `tag` can end a heredoc: it must hold more than white space.
pub fn heredoc_tag_ok(tag: &str) -> (r: bool)
    ensures
        r == !all_in(tag@, CharClass::Whitespace),
{
    let chars = chars_of(tag);
    !all_of(chars.as_slice(), CharClass::Whitespace)
}

/// Where the text of a replacement or of a body comes from.
#[derive(Debug, Clone, PartialEq, Eq)]
pub enum TextSource {
    /// It was given on the command line.
    Literal(String),
    /// It is read from this file.
    File(String),
    /// It is typed in, up to a line with this terminator.
    Heredoc(String),
    /// It is read from standard input.
    Stdin,
    /// It is read from the clipboard.
    Clipboard,
}

impl TextSource {
    /// The word for the source in the summary of a command.
    pub fn label(&self) -> (r: &'static str)
        ensures
            r@ == match self {
                TextSource::Literal(_) => "literal"@,
                TextSource::File(_) => "file"@,
                TextSource::Heredoc(_) => "heredoc"@,
                TextSource::Stdin => "stdin"@,
                TextSource::Clipboard => "clipboard"@,
            },
    {
        match self {
            TextSource::Literal(_) => "literal",
            TextSource::File(_) => "file",
            TextSource::Heredoc(_) => "heredoc",
            TextSource::Stdin => "stdin",
            TextSource::Clipboard => "clipboard",
        }
    }
}

/// The lines `lines`, joined by line feeds.
pub open spec fn joined_lines(lines: Seq<Seq<char>>) -> Seq<char>
    decreases lines.len(),
{
    if lines.len() == 0 {
        Seq::empty()
    } else if lines.len() == 1 {
        lines[0]
    } else {
        joined_lines(lines.drop_last()) + lf() + lines.last()
    }
}

fn join_lines(lines: &Vec<String>) -> (r: String)
    ensures
        r@ == joined_lines(texts(lines@)),
{
    let mut out = String::new();
    let mut i: usize = 0;
    let ghost all = texts(lines@);
    assert(all.take(0) =~= Seq::<Seq<char>>::empty());
    assert(lf() =~= seq!['\n']);
    while i < lines.len()
        invariant
            i <= lines.len(),
            all == texts(lines@),
            out@ == joined_lines(all.take(i as int)),
        decreases lines.len() - i,
    {
        proof {
            assert(all.take(i + 1).drop_last() =~= all.take(i as int));
            assert(all.take(i + 1).last() == lines@[i as int]@);
            if i == 0 {
                assert(all.take(1)[0] == lines@[0]@);
            }
        }
        let ghost before = out@;
        if i > 0 {
            out.push('\n');
        }
        out.append(lines[i].as_str());
        proof {
            if i > 0 {
                assert(out@ =~= before + lf() + lines@[i as int]@);
            } else {
                assert(out@ =~= lines@[0]@);
            }
        }
        i += 1;
    }
    assert(all.take(lines.len() as int) =~= all);
    out
}

/// Where the body of a block or of a file comes from: the lines given on the
/// command line, joined by line feeds, come first; then a file, a heredoc,
/// standard input and the clipboard, in this order. `None` where nothing is
/// named.
pub fn resolve_body_from_sources(
    literal_lines: &Vec<String>,
    body_file: &Option<String>,
    with_stdin: bool,
    with_clipboard: bool,
    heredoc_tag: &Option<String>,
) -> (r: Option<TextSource>)
    ensures
        match r {
            Some(TextSource::Literal(text)) => literal_lines@.len() > 0 && text@ == joined_lines(
                texts(literal_lines@),
            ),
            Some(TextSource::File(path)) => literal_lines@.len() == 0 && opt_view(*body_file)
                == Some(path@),
            Some(TextSource::Heredoc(tag)) => literal_lines@.len() == 0 && body_file is None
                && opt_view(*heredoc_tag) == Some(tag@),
            Some(TextSource::Stdin) => literal_lines@.len() == 0 && body_file is None
                && heredoc_tag is None && with_stdin,
            Some(TextSource::Clipboard) => literal_lines@.len() == 0 && body_file is None
                && heredoc_tag is None && !with_stdin && with_clipboard,
            None => literal_lines@.len() == 0 && body_file is None && heredoc_tag is None
                && !with_stdin && !with_clipboard,
        },
{
    if literal_lines.len() > 0 {
        return Some(TextSource::Literal(join_lines(literal_lines)));
    }
    if let Some(path) = body_file {
        return Some(TextSource::File(path.clone()));
    }
    if let Some(tag) = heredoc_tag {
        return Some(TextSource::Heredoc(tag.clone()));
    }
    if with_stdin {
        return Some(TextSource::Stdin);
    }
    if with_clipboard {
        return Some(TextSource::Clipboard);
    }
    None
}

/// Where the body of a block command comes from.
pub fn resolve_block_body(cmd: &crate::options::BlockCommand) -> (r: Option<TextSource>)
    ensures
        match r {
            Some(TextSource::Literal(text)) => cmd.body@.len() > 0 && text@ == joined_lines(
                texts(cmd.body@),
            ),
            Some(TextSource::File(path)) => cmd.body@.len() == 0 && opt_view(cmd.body_file) == Some(
                path@,
            ),
            Some(TextSource::Heredoc(tag)) => cmd.body@.len() == 0 && cmd.body_file is None
                && opt_view(cmd.body_here) == Some(tag@),
            Some(TextSource::Stdin) => cmd.body@.len() == 0 && cmd.body_file is None
                && cmd.body_here is None && cmd.with_stdin,
            Some(TextSource::Clipboard) => cmd.body@.len() == 0 && cmd.body_file is None
                && cmd.body_here is None && !cmd.with_stdin && cmd.with_clipboard,
            None => cmd.body@.len() == 0 && cmd.body_file is None && cmd.body_here is None
                && !cmd.with_stdin && !cmd.with_clipboard,
        },
{
    resolve_body_from_sources(
        &cmd.body,
        &cmd.body_file,
        cmd.with_stdin,
        cmd.with_clipboard,
        &cmd.body_here,
    )
}

/// Where the replacement text of a replace command comes from: the text
/// given on the command line comes first; then standard input, the clipboard
/// and a heredoc, in this order. `None` where nothing is named.
pub fn resolve_replacement_text(cmd: &crate::options::ReplaceCommand) -> (r: Option<TextSource>)
    ensures
        match r {
            Some(TextSource::Literal(text)) => opt_view(cmd.replacement) == Some(text@),
            Some(TextSource::Stdin) => cmd.replacement is None && cmd.with_stdin,
            Some(TextSource::Clipboard) => cmd.replacement is None && !cmd.with_stdin
                && cmd.with_clipboard,
            Some(TextSource::Heredoc(tag)) => cmd.replacement is None && !cmd.with_stdin
                && !cmd.with_clipboard && opt_view(cmd.with_here) == Some(tag@),
            Some(TextSource::File(_)) => false,
            None => cmd.replacement is None && !cmd.with_stdin && !cmd.with_clipboard
                && cmd.with_here is None,
        },
{
    if let Some(text) = &cmd.replacement {
        return Some(TextSource::Literal(text.clone()));
    }
    if cmd.with_stdin {
        return Some(TextSource::Stdin);
    }
    if cmd.with_clipboard {
        return Some(TextSource::Clipboard);
    }
    if let Some(tag) = &cmd.with_here {
        return Some(TextSource::Heredoc(tag.clone()));
    }
    None
}

/// The text that a write command writes: the body with the line endings of
/// the style that `choice` resolves to, given the text that the file holds
/// now, if it exists.
pub fn write_body(body: &str, choice: LineEndingChoice, existing: Option<&str>) -> (r: String)
    ensures
        choice == LineEndingChoice::Lf ==> r@ == with_lf_as(
            with_line_breaks(body@, seq!['\n']),
            LineEndingStyle::Lf.terminator(),
        ),
        choice == LineEndingChoice::Crlf ==> r@ == with_lf_as(
            with_line_breaks(body@, seq!['\n']),
            LineEndingStyle::Crlf.terminator(),
        ),
        choice == LineEndingChoice::Cr ==> r@ == with_lf_as(
            with_line_breaks(body@, seq!['\n']),
            LineEndingStyle::Cr.terminator(),
        ),
        choice == LineEndingChoice::Auto && existing is Some ==> r@ == with_lf_as(
            with_line_breaks(body@, seq!['\n']),
            style_of(existing->0@).terminator(),
        ),
        choice == LineEndingChoice::Auto && existing is None ==> r@ == with_lf_as(
            with_line_breaks(body@, seq!['\n']),
            LineEndingStyle::Lf.terminator(),
        ) || r@ == with_lf_as(
            with_line_breaks(body@, seq!['\n']),
            LineEndingStyle::Crlf.terminator(),
        ),
{
    let found: Option<LineEndingStyle> = match existing {
        Some(text) => Some(detect_line_ending_style(text)),
        None => None,
    };
    let style = choice.resolve(found);
    restore_from_lf(normalize_to_lf(body), style)
}

/// What a normalize command writes for a file.
#[derive(Debug, Clone, PartialEq, Eq)]
pub enum NormalizeWrite {
    /// Nothing: the text is clean and no conversion is asked for.
    Nothing,
    /// The cleaned text.
    Cleaned(String),
    /// The text as it is, in another encoding.
    ConvertOnly(String),
}

/// What a normalize command writes for a file whose text is `text`: the
/// cleaned text where cleaning changed it; else the text itself where a
/// conversion of the encoding is asked for; else nothing.
pub fn plan_normalize(cleaned: Option<String>, convert_requested: bool, text: &str) -> (r:
    NormalizeWrite)
    ensures
        match r {
            NormalizeWrite::Cleaned(new_text) => opt_view(cleaned) == Some(new_text@),
            NormalizeWrite::ConvertOnly(new_text) => cleaned is None && convert_requested
                && new_text@ == text@,
            NormalizeWrite::Nothing => cleaned is None && !convert_requested,
        },
{
    match cleaned {
        Some(new_text) => NormalizeWrite::Cleaned(new_text),
        None => if convert_requested {
            NormalizeWrite::ConvertOnly(text.to_owned())
        } else {
            NormalizeWrite::Nothing
        },
    }
}

/// Whether a review in follow mode can start: it follows exactly one file.
pub fn follow_allowed(follow: bool, files: usize) -> (r: bool)
    ensures
        r == (!follow || files == 1),
{
    !follow || files == 1
}

/// What is shown and logged of a change before it is written.
#[derive(Debug, Clone)]
pub struct ChangePreview {
    /// The changed ranges in one line.
    pub line_summary: String,
    /// The changed ranges.
    pub line_spans: Vec<LineSpan>,
}

/// The preview of the change from `old_text` to `new_text`.
pub fn preview_change(old_text: &str, new_text: &str) -> (r: ChangePreview)
    ensures
        r.line_summary@ == summary_of(diff_ops(old_text@, new_text@)),
        r.line_spans@ == line_spans_of(old_text@, new_text@),
        spans_ascending(r.line_spans@),
{
    ChangePreview {
        line_summary: crate::diff::summarize_lines(old_text, new_text),
        line_spans: crate::diff::collect_line_spans(old_text, new_text),
    }
}

/// What applying one patch to the text of its file comes to.
#[derive(Debug, Clone)]
pub struct PatchPreview {
    /// The text after the patch.
    pub new_text: String,
    /// What the patch amounts to.
    pub verdict: PatchVerdict,
    /// What is shown and logged of it; a rename that leaves the text alone is
    /// summed up as `rename-only`, without spans.
    pub preview: ChangePreview,
}

/// What `preview_patch` owes for a patch whose application gives `applied`.
pub open spec fn patch_preview_contract(
    kind: PatchKind,
    old_text: Seq<char>,
    applied: Result<String, PatchError>,
    r: Result<PatchPreview, PatchError>,
) -> bool {
    match applied {
        Err(e) => r == Err::<PatchPreview, PatchError>(e),
        Ok(new_text) => match verdict_of(kind, old_text, new_text@) {
            Err(e) => r == Err::<PatchPreview, PatchError>(e),
            Ok(verdict) => r matches Ok(p) && p.new_text@ == new_text@ && p.verdict == verdict
                && if verdict == PatchVerdict::RenameOnly {
                p.preview.line_summary@ == "rename-only"@ && p.preview.line_spans@.len() == 0
            } else {
                p.preview.line_summary@ == summary_of(
                    diff_ops(old_text, new_text@),
                ) && p.preview.line_spans@ == line_spans_of(old_text, new_text@)
            },
        },
    }
}

/// Applies the patch `patch_text` of kind `kind` to `old_text`, the text of
/// its file (empty for a file that is created), and judges the result: a
/// patch that does not apply or that leaves text behind where it deletes is
/// refused; any other is previewed.
pub fn preview_patch(kind: PatchKind, old_text: &str, patch_text: &str) -> (r: Result<
    PatchPreview,
    PatchError,
>)
    ensures
        exists|applied: Result<String, PatchError>|
            crate::patch::application_contract(old_text@, patch_text@, applied)
                && #[trigger] patch_preview_contract(kind, old_text@, applied, r),
{
    let applied = crate::patch::apply_patch_preserving_newlines(old_text, patch_text);
    let ghost given = applied;
    let new_text = match applied {
        Ok(text) => text,
        Err(e) => {
            let r = Err(e);
            assert(patch_preview_contract(kind, old_text@, given, r));
            return r;
        },
    };
    let verdict = match judge_patch(kind, old_text, new_text.as_str()) {
        Ok(verdict) => verdict,
        Err(e) => {
            let r = Err(e);
            assert(patch_preview_contract(kind, old_text@, given, r));
            return r;
        },
    };
    let rename_only = match verdict {
        PatchVerdict::RenameOnly => true,
        _ => false,
    };
    let preview = if rename_only {
        ChangePreview { line_summary: "rename-only".to_owned(), line_spans: Vec::new() }
    } else {
        preview_change(old_text, new_text.as_str())
    };
    let r = Ok(PatchPreview { new_text, verdict, preview });
    assert(patch_preview_contract(kind, old_text@, given, r));
    r
}

/// What a normalize command finds in a file and what it would write.
#[derive(Debug, Clone)]
pub struct NormalizeStep {
    /// What the scan found.
    pub report: crate::normalize::NormalizeReport,
    /// What is written.
    pub write: NormalizeWrite,
    /// What is shown and logged of the change; none where nothing is
    /// written. A conversion that changes no line is summed up as such.
    pub preview: Option<ChangePreview>,
}

/// The summary of a conversion of the encoding that changes no line.
pub open spec fn conversion_summary(label: Seq<char>) -> Seq<char> {
    "encoding conversion to "@ + label
}

/// What `normalize_step` owes: the report of the scan; the cleaned text
/// where cleaning changes the text, else the text itself where a conversion is
/// asked for, else nothing; and the preview of what is written.
pub open spec fn normalize_step_contract(
    text: Seq<char>,
    options: crate::normalize::NormalizeOptions,
    convert_label: Option<Seq<char>>,
    r: NormalizeStep,
) -> bool {
    let cleaned = crate::normalize::normalized(text, options);
    &&& crate::normalize::report_matches(text, options, r.report)
    &&& match r.write {
        NormalizeWrite::Cleaned(new_text) => {
            &&& new_text@ == cleaned
            &&& cleaned != text
            &&& r.preview is Some
            &&& r.preview->0.line_summary@ == summary_of(diff_ops(text, cleaned))
            &&& r.preview->0.line_spans@ == line_spans_of(text, cleaned)
        },
        NormalizeWrite::ConvertOnly(new_text) => {
            &&& cleaned == text
            &&& new_text@ == text
            &&& convert_label is Some
            &&& r.preview is Some
            &&& r.preview->0.line_spans@ == line_spans_of(text, text)
            &&& r.preview->0.line_summary@ == if r.preview->0.line_spans@.len() == 0 {
                conversion_summary(convert_label->0)
            } else {
                summary_of(diff_ops(text, text))
            }
        },
        NormalizeWrite::Nothing => cleaned == text && convert_label is None && r.preview is None,
    }
}

/// Scans and cleans the text of one file for a normalize command, and plans
/// what is written: the cleaned text where cleaning changes it, else the same
/// text where a conversion to the encoding labelled `convert_label` is asked
/// for, else nothing.
pub fn normalize_step(
    text: &str,
    options: &crate::normalize::NormalizeOptions,
    convert_label: Option<&str>,
) -> (r: NormalizeStep)
    ensures
        normalize_step_contract(text@, *options, opt_str_view(convert_label), r),
{
    let outcome = crate::normalize::normalize_text(text, options);
    let write = plan_normalize(outcome.cleaned, convert_label.is_some(), text);
    let preview: Option<ChangePreview> = match &write {
        NormalizeWrite::Cleaned(new_text) => Some(preview_change(text, new_text.as_str())),
        NormalizeWrite::ConvertOnly(new_text) => {
            let plain = preview_change(text, new_text.as_str());
            match convert_label {
                Some(label) => {
                    if plain.line_spans.len() == 0 {
                        let mut summary = "encoding conversion to ".to_owned();
                        summary.append(label);
                        Some(ChangePreview { line_summary: summary, line_spans: plain.line_spans })
                    } else {
                        Some(plain)
                    }
                },
                None => Some(plain),
            }
        },
        NormalizeWrite::Nothing => None,
    };
    NormalizeStep { report: outcome.report, write, preview }
}

} // verus!
