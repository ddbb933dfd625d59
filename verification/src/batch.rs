//! Batch plans: the steps of a plan, and the command that each step stands
//! for once the options of the plan are laid over those of the command line.

use vstd::prelude::*;
use crate::lines::texts;
use crate::options::{clone_opt_text, clone_texts, opt_texts, ColorChoice, CommonArgs, NormalizeCommand, PagerMode, ReplaceCommand};
use crate::text::{chars_of, eq_ignore_ascii_case, opt_view, same_ignoring_ascii_case};

verus! {

/// A plan: steps to run in order.
#[derive(Debug, Clone)]
pub struct BatchPlan {
    pub steps: Vec<PlanEntry>,
}

/// One step of a plan.
#[derive(Debug, Clone)]
pub enum PlanEntry {
    Replace(ReplacePlan),
    Normalize(NormalizePlan),
}

impl PlanEntry {
    /// The name of the command of this step.
    pub fn kind(&self) -> (r: &'static str)
        ensures
            r@ == match self {
                PlanEntry::Replace(_) => "replace"@,
                PlanEntry::Normalize(_) => "normalize"@,
            },
    {
        match self {
            PlanEntry::Replace(_) => "replace",
            PlanEntry::Normalize(_) => "normalize",
        }
    }
}

/// The common options that a step may set; what it leaves out stays as the
/// command line has it.
#[derive(Debug, Clone)]
pub struct PlanCommon {
    pub targets: Option<Vec<String>>,
    pub globs: Option<Vec<String>>,
    pub encoding: Option<String>,
    pub apply: Option<bool>,
    pub auto_apply: Option<bool>,
    pub no_backup: Option<bool>,
    pub context: Option<usize>,
    pub pager: Option<PagerMode>,
    pub color: Option<ColorChoice>,
    pub json: Option<bool>,
    pub include_hidden: Option<bool>,
    pub exclude: Option<Vec<String>>,
    pub undo_log: Option<String>,
}

impl Default for PlanCommon {
    fn default() -> (r: Self)
        ensures
            r.targets is None,
            r.globs is None,
            r.encoding is None,
            r.apply is None,
            r.auto_apply is None,
            r.no_backup is None,
            r.context is None,
            r.pager is None,
            r.color is None,
            r.json is None,
            r.include_hidden is None,
            r.exclude is None,
            r.undo_log is None,
    {
        PlanCommon {
            targets: None,
            globs: None,
            encoding: None,
            apply: None,
            auto_apply: None,
            no_backup: None,
            context: None,
            pager: None,
            color: None,
            json: None,
            include_hidden: None,
            exclude: None,
            undo_log: None,
        }
    }
}

/// A replace step.
#[derive(Debug, Clone)]
pub struct ReplacePlan {
    pub common: PlanCommon,
    pub pattern: String,
    pub replacement: Option<String>,
    pub regex: bool,
    pub literal: bool,
    pub diff_only: bool,
    pub count: Option<usize>,
    pub expect: Option<usize>,
    pub after_line: Option<usize>,
    pub with_stdin: bool,
    pub with_clipboard: bool,
}

/// A normalize step.
#[derive(Debug, Clone)]
pub struct NormalizePlan {
    pub common: PlanCommon,
    pub convert_encoding: Option<String>,
    pub strip_zero_width: Option<bool>,
    pub strip_control: Option<bool>,
    pub trim_trailing_space: Option<bool>,
    pub ensure_eol: Option<bool>,
    pub report_format: Option<String>,
    pub scan_encoding: Option<bool>,
    pub scan_zero_width: Option<bool>,
    pub scan_control: Option<bool>,
    pub scan_trailing_space: Option<bool>,
    pub scan_final_newline: Option<bool>,
}

/// Why a step cannot be run.
#[derive(Debug, Clone, Copy, PartialEq, Eq)]
pub enum PlanError {
    /// A replace step names neither a replacement nor a source to read it
    /// from.
    MissingReplacement,
}

impl PlanError {
    /// The message for the user.
    pub fn message(&self) -> (r: String)
        ensures
            r@ == "replace step missing replacement text or input source"@,
    {
        "replace step missing replacement text or input source".to_owned()
    }
}

/// The format of a plan file.
#[derive(Debug, Clone, Copy, PartialEq, Eq)]
pub enum PlanFormat {
    Json,
    Yaml,
}

/// The format of the plan file with the extension `extension`: JSON for
/// `json` in any case, YAML for everything else.
pub fn plan_format(extension: Option<&str>) -> (r: PlanFormat)
    ensures
        r == match extension {
            Some(ext) => if same_ignoring_ascii_case(ext@, "json"@) {
                PlanFormat::Json
            } else {
                PlanFormat::Yaml
            },
            None => PlanFormat::Yaml,
        },
{
    match extension {
        Some(ext) => {
            let given = chars_of(ext);
            let json = chars_of("json");
            if eq_ignore_ascii_case(given.as_slice(), json.as_slice()) {
                PlanFormat::Json
            } else {
                PlanFormat::Yaml
            }
        },
        None => PlanFormat::Yaml,
    }
}

/// `over` where it is given, else `base`.
pub open spec fn laid_over<T>(base: T, over: Option<T>) -> T {
    match over {
        Some(value) => value,
        None => base,
    }
}

/// `merged` is `base` with every option that `overrides` sets laid over it.
pub open spec fn is_merge(base: CommonArgs, overrides: PlanCommon, merged: CommonArgs) -> bool {
    &&& texts(merged.targets@) == laid_over(texts(base.targets@), opt_texts(overrides.targets))
    &&& texts(merged.globs@) == laid_over(texts(base.globs@), opt_texts(overrides.globs))
    &&& opt_view(merged.encoding) == match overrides.encoding {
        Some(encoding) => Some(encoding@),
        None => opt_view(base.encoding),
    }
    &&& merged.apply == laid_over(base.apply, overrides.apply)
    &&& merged.auto_apply == laid_over(base.auto_apply, overrides.auto_apply)
    &&& merged.no_backup == laid_over(base.no_backup, overrides.no_backup)
    &&& merged.context == laid_over(base.context, overrides.context)
    &&& merged.pager == laid_over(base.pager, overrides.pager)
    &&& merged.color == laid_over(base.color, overrides.color)
    &&& merged.json == laid_over(base.json, overrides.json)
    &&& merged.include_hidden == laid_over(base.include_hidden, overrides.include_hidden)
    &&& texts(merged.exclude@) == laid_over(texts(base.exclude@), opt_texts(overrides.exclude))
    &&& opt_view(merged.undo_log) == match overrides.undo_log {
        Some(dir) => Some(dir@),
        None => opt_view(base.undo_log),
    }
    &&& texts(merged.extra_args@) == texts(base.extra_args@)
}

/// The options of the command line with those of a step laid over them.
pub fn merge_common(base: &CommonArgs, overrides: &PlanCommon) -> (merged: CommonArgs)
    ensures
        is_merge(*base, *overrides, merged),
{
    CommonArgs {
        globs: match &overrides.globs {
            Some(globs) => clone_texts(globs),
            None => clone_texts(&base.globs),
        },
        targets: match &overrides.targets {
            Some(targets) => clone_texts(targets),
            None => clone_texts(&base.targets),
        },
        encoding: match &overrides.encoding {
            Some(encoding) => Some(encoding.clone()),
            None => clone_opt_text(&base.encoding),
        },
        apply: match overrides.apply {
            Some(apply) => apply,
            None => base.apply,
        },
        auto_apply: match overrides.auto_apply {
            Some(auto) => auto,
            None => base.auto_apply,
        },
        no_backup: match overrides.no_backup {
            Some(no_backup) => no_backup,
            None => base.no_backup,
        },
        context: match overrides.context {
            Some(context) => context,
            None => base.context,
        },
        pager: match overrides.pager {
            Some(pager) => pager,
            None => base.pager,
        },
        color: match overrides.color {
            Some(color) => color,
            None => base.color,
        },
        json: match overrides.json {
            Some(json) => json,
            None => base.json,
        },
        include_hidden: match overrides.include_hidden {
            Some(include_hidden) => include_hidden,
            None => base.include_hidden,
        },
        exclude: match &overrides.exclude {
            Some(exclude) => clone_texts(exclude),
            None => clone_texts(&base.exclude),
        },
        undo_log: match &overrides.undo_log {
            Some(dir) => Some(dir.clone()),
            None => clone_opt_text(&base.undo_log),
        },
        extra_args: clone_texts(&base.extra_args),
    }
}

/// The step names where its replacement comes from.
pub open spec fn names_replacement(step: ReplacePlan) -> bool {
    step.replacement is Some || step.with_stdin || step.with_clipboard
}

/// The replace command that a replace step stands for. A step that names
/// neither a replacement nor a source for it is refused.
pub fn build_replace_command(base_common: &CommonArgs, step: &ReplacePlan) -> (r: Result<
    ReplaceCommand,
    PlanError,
>)
    ensures
        match r {
            Ok(cmd) => {
                &&& names_replacement(*step)
                &&& is_merge(*base_common, step.common, cmd.common)
                &&& cmd.pattern@ == step.pattern@
                &&& opt_view(cmd.replacement) == opt_view(step.replacement)
                &&& cmd.with_stdin == step.with_stdin
                &&& cmd.with_clipboard == step.with_clipboard
                &&& cmd.with_here is None
                &&& cmd.regex == step.regex
                &&& cmd.literal == step.literal
                &&& cmd.diff_only == step.diff_only
                &&& cmd.count == step.count
                &&& cmd.expect == step.expect
                &&& cmd.after_line == step.after_line
            },
            Err(_) => !names_replacement(*step),
        },
{
    if step.replacement.is_none() && !step.with_stdin && !step.with_clipboard {
        return Err(PlanError::MissingReplacement);
    }
    Ok(
        ReplaceCommand {
            common: merge_common(base_common, &step.common),
            pattern: step.pattern.clone(),
            replacement: clone_opt_text(&step.replacement),
            with_stdin: step.with_stdin,
            with_clipboard: step.with_clipboard,
            with_here: None,
            regex: step.regex,
            literal: step.literal,
            diff_only: step.diff_only,
            count: step.count,
            expect: step.expect,
            after_line: step.after_line,
        },
    )
}

/// The normalize command that a normalize step stands for: what the step
/// leaves out is off, and the report is a table.
pub fn build_normalize_command(base_common: &CommonArgs, step: &NormalizePlan) -> (r: Result<
    NormalizeCommand,
    PlanError,
>)
    ensures
        r matches Ok(cmd) && {
            &&& is_merge(*base_common, step.common, cmd.common)
            &&& opt_view(cmd.convert_encoding) == opt_view(step.convert_encoding)
            &&& cmd.strip_zero_width == laid_over(false, step.strip_zero_width)
            &&& cmd.strip_control == laid_over(false, step.strip_control)
            &&& cmd.trim_trailing_space == laid_over(false, step.trim_trailing_space)
            &&& cmd.ensure_eol == laid_over(false, step.ensure_eol)
            &&& cmd.report_format@ == match step.report_format {
                Some(format) => format@,
                None => "table"@,
            }
            &&& cmd.scan_encoding == laid_over(false, step.scan_encoding)
            &&& cmd.scan_zero_width == laid_over(false, step.scan_zero_width)
            &&& cmd.scan_control == laid_over(false, step.scan_control)
            &&& cmd.scan_trailing_space == laid_over(false, step.scan_trailing_space)
            &&& cmd.scan_final_newline == laid_over(false, step.scan_final_newline)
        },
{
    Ok(
        NormalizeCommand {
            common: merge_common(base_common, &step.common),
            convert_encoding: clone_opt_text(&step.convert_encoding),
            strip_zero_width: flag(step.strip_zero_width),
            strip_control: flag(step.strip_control),
            trim_trailing_space: flag(step.trim_trailing_space),
            ensure_eol: flag(step.ensure_eol),
            report_format: match &step.report_format {
                Some(format) => format.clone(),
                None => "table".to_owned(),
            },
            scan_encoding: flag(step.scan_encoding),
            scan_zero_width: flag(step.scan_zero_width),
            scan_control: flag(step.scan_control),
            scan_trailing_space: flag(step.scan_trailing_space),
            scan_final_newline: flag(step.scan_final_newline),
        },
    )
}

fn flag(value: Option<bool>) -> (r: bool)
    ensures
        r == laid_over(false, value),
{
    match value {
        Some(v) => v,
        None => false,
    }
}

} // verus!
