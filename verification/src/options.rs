//! The choices a user makes that every command shares.

use vstd::prelude::*;
use crate::text::opt_view;
use crate::diff::DiffDisplayConfig;
use crate::lines::texts;

verus! {

/// When output is coloured.
#[derive(Clone, Copy, Debug, PartialEq, Eq)]
pub enum ColorChoice {
    Auto,
    Always,
    Never,
}

/// When a long diff is shown page by page.
#[derive(Clone, Copy, Debug, PartialEq, Eq)]
pub enum PagerMode {
    Auto,
    Always,
    Never,
}

impl Default for ColorChoice {
    fn default() -> (r: Self)
        ensures
            r == ColorChoice::Auto,
    {
        ColorChoice::Auto
    }
}

impl Default for PagerMode {
    fn default() -> (r: Self)
        ensures
            r == PagerMode::Auto,
    {
        PagerMode::Auto
    }
}

impl ColorChoice {
    /// Whether to colour the output, given whether it goes to a terminal:
    /// an explicit choice wins, `Auto` colours a terminal only.
    pub fn should_color(self, stdout_is_terminal: bool) -> (r: bool)
        ensures
            r == match self {
                ColorChoice::Always => true,
                ColorChoice::Never => false,
                ColorChoice::Auto => stdout_is_terminal,
            },
    {
        match self {
            ColorChoice::Always => true,
            ColorChoice::Never => false,
            ColorChoice::Auto => stdout_is_terminal,
        }
    }
}

/// The views of an optional list of texts.
pub open spec fn opt_texts(v: Option<Vec<String>>) -> Option<Seq<Seq<char>>> {
    match v {
        Some(list) => Some(texts(list@)),
        None => None,
    }
}

/// A copy of a list of texts.
pub fn clone_texts(v: &Vec<String>) -> (out: Vec<String>)
    ensures
        texts(out@) == texts(v@),
{
    let mut out: Vec<String> = Vec::new();
    let mut i: usize = 0;
    while i < v.len()
        invariant
            i <= v.len(),
            out.len() == i,
            forall|k: int| 0 <= k < i ==> out@[k]@ == v@[k]@,
        decreases v.len() - i,
    {
        out.push(v[i].clone());
        i += 1;
    }
    assert(texts(out@) =~= texts(v@));
    out
}

/// A copy of an optional text.
pub fn clone_opt_text(s: &Option<String>) -> (out: Option<String>)
    ensures
        opt_view(out) == opt_view(*s),
{
    match s {
        Some(text) => Some(text.clone()),
        None => None,
    }
}

/// The options that every command takes.
#[derive(Debug, Clone)]
pub struct CommonArgs {
    pub globs: Vec<String>,
    pub targets: Vec<String>,
    pub encoding: Option<String>,
    pub apply: bool,
    pub auto_apply: bool,
    pub no_backup: bool,
    pub context: usize,
    pub pager: PagerMode,
    pub color: ColorChoice,
    pub json: bool,
    pub include_hidden: bool,
    pub exclude: Vec<String>,
    pub undo_log: Option<String>,
    pub extra_args: Vec<String>,
}

impl CommonArgs {
    /// Whether the pager may ask the user for commands: both ends of the
    /// session are terminals, and neither automatic approval nor machine
    /// output is on.
    pub fn allow_interactive_pager(&self, stdin_is_terminal: bool, stdout_is_terminal: bool) -> (r:
        bool)
        ensures
            r == (stdin_is_terminal && stdout_is_terminal && !self.auto_apply && !self.json),
    {
        stdin_is_terminal && stdout_is_terminal && !self.auto_apply && !self.json
    }

    /// How diffs are shown under these options.
    pub fn diff_display_config(
        &self,
        colorize: bool,
        stdin_is_terminal: bool,
        stdout_is_terminal: bool,
    ) -> (r: DiffDisplayConfig)
        ensures
            r.context == self.context,
            r.colorize == colorize,
            r.pager_mode == self.pager,
            r.interactive == (stdin_is_terminal && stdout_is_terminal && !self.auto_apply
                && !self.json),
    {
        DiffDisplayConfig {
            context: self.context,
            colorize,
            pager_mode: self.pager,
            interactive: self.allow_interactive_pager(stdin_is_terminal, stdout_is_terminal),
        }
    }
}

/// The options of the replace command.
#[derive(Debug, Clone)]
pub struct ReplaceCommand {
    pub common: CommonArgs,
    pub pattern: String,
    pub replacement: Option<String>,
    pub with_stdin: bool,
    pub with_clipboard: bool,
    pub with_here: Option<String>,
    pub regex: bool,
    pub literal: bool,
    pub diff_only: bool,
    pub count: Option<usize>,
    pub expect: Option<usize>,
    pub after_line: Option<usize>,
}

/// The options of the block command.
#[derive(Debug, Clone)]
pub struct BlockCommand {
    pub common: CommonArgs,
    pub start_marker: String,
    pub end_marker: String,
    pub mode: crate::commands::BlockMode,
    pub body: Vec<String>,
    pub body_file: Option<String>,
    pub with_stdin: bool,
    pub with_clipboard: bool,
    pub body_here: Option<String>,
}

/// The options of the normalize command.
#[derive(Debug, Clone)]
pub struct NormalizeCommand {
    pub common: CommonArgs,
    pub convert_encoding: Option<String>,
    pub strip_zero_width: bool,
    pub strip_control: bool,
    pub trim_trailing_space: bool,
    pub ensure_eol: bool,
    pub report_format: String,
    pub scan_encoding: bool,
    pub scan_zero_width: bool,
    pub scan_control: bool,
    pub scan_trailing_space: bool,
    pub scan_final_newline: bool,
}

impl ReplaceCommand {
    /// Whether the pattern is taken literally: it is unless a pattern is
    /// asked for and literal reading is not.
    pub fn literal_mode(&self) -> (r: bool)
        ensures
            r == (self.literal || !self.regex),
    {
        self.literal || !self.regex
    }

    /// Whether changes are written: only with `apply`, and never with
    /// `diff_only`.
    pub fn apply_mode(&self) -> (r: bool)
        ensures
            r == (self.common.apply && !self.diff_only),
    {
        self.common.apply && !self.diff_only
    }
}

/// What a normalize command looks for.
#[derive(Debug, Clone, Copy, PartialEq, Eq)]
pub struct ScanPlan {
    pub encoding: bool,
    pub zero_width: bool,
    pub control: bool,
    pub trailing_space: bool,
    pub final_newline: bool,
}

impl NormalizeCommand {
    /// What is looked for: what the user asks to scan for, and everything
    /// where the user asks for nothing in particular.
    pub fn scan_plan(&self) -> (r: ScanPlan)
        ensures
            r == self.scan_plan_spec(),
    {
        let any = self.scan_encoding || self.scan_zero_width || self.scan_control
            || self.scan_trailing_space || self.scan_final_newline;
        if any {
            ScanPlan {
                encoding: self.scan_encoding,
                zero_width: self.scan_zero_width,
                control: self.scan_control,
                trailing_space: self.scan_trailing_space,
                final_newline: self.scan_final_newline,
            }
        } else {
            ScanPlan {
                encoding: true,
                zero_width: true,
                control: true,
                trailing_space: true,
                final_newline: true,
            }
        }
    }

    /// The options of the scan and clean-up that this command asks for.
    pub fn normalize_options(&self) -> (r: crate::normalize::NormalizeOptions)
        ensures
            r.strip_zero_width == self.strip_zero_width,
            r.strip_control == self.strip_control,
            r.trim_trailing_space == self.trim_trailing_space,
            r.ensure_eol == self.ensure_eol,
            r.detect_zero_width == self.scan_plan_spec().zero_width,
            r.detect_control == self.scan_plan_spec().control,
            r.detect_trailing_space == self.scan_plan_spec().trailing_space,
            r.detect_final_newline == self.scan_plan_spec().final_newline,
    {
        let plan = self.scan_plan();
        crate::normalize::NormalizeOptions {
            strip_zero_width: self.strip_zero_width,
            strip_control: self.strip_control,
            trim_trailing_space: self.trim_trailing_space,
            ensure_eol: self.ensure_eol,
            detect_zero_width: plan.zero_width,
            detect_control: plan.control,
            detect_trailing_space: plan.trailing_space,
            detect_final_newline: plan.final_newline,
        }
    }

    /// What is looked for.
    pub open spec fn scan_plan_spec(&self) -> ScanPlan {
        if self.scan_encoding || self.scan_zero_width || self.scan_control
            || self.scan_trailing_space || self.scan_final_newline {
            ScanPlan {
                encoding: self.scan_encoding,
                zero_width: self.scan_zero_width,
                control: self.scan_control,
                trailing_space: self.scan_trailing_space,
                final_newline: self.scan_final_newline,
            }
        } else {
            ScanPlan {
                encoding: true,
                zero_width: true,
                control: true,
                trailing_space: true,
                final_newline: true,
            }
        }
    }
}

} // verus!
