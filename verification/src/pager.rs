//! Paging through a rendered diff: the commands, and what each does to the
//! page shown.

use vstd::prelude::*;
use crate::chars::{all_in, all_of, CharClass};
use crate::lines::rows;
use crate::numbers::{parse_usize, spelled_usize};
use crate::options::PagerMode;
use crate::render::PAGE_LINES;
use crate::text::{chars_of, eq_ignore_ascii_case, same_ignoring_ascii_case, split_words, words};

verus! {

/// A command of the pager.
#[derive(Debug, Clone, Copy, PartialEq, Eq)]
pub enum PagerCommand {
    Next,
    Prev,
    Head,
    Tail,
    GotoLine(usize),
    Quit,
    Help,
}

/// `s` is the single letter `c`, in either case.
pub open spec fn is_letter(s: Seq<char>, c: char) -> bool {
    same_ignoring_ascii_case(s, seq![c])
}

/// The command that the words of a line spell: `g` and a line number, or a
/// line number alone. Anything else asks for help.
pub open spec fn goto_command(ws: Seq<Seq<char>>) -> PagerCommand {
    if ws.len() == 0 {
        PagerCommand::Help
    } else if is_letter(ws[0], 'g') {
        if ws.len() >= 2 && spelled_usize(ws[1]) is Some {
            PagerCommand::GotoLine(spelled_usize(ws[1])->0)
        } else {
            PagerCommand::Help
        }
    } else if all_in(ws[0], CharClass::Digit) && spelled_usize(ws[0]) is Some {
        PagerCommand::GotoLine(spelled_usize(ws[0])->0)
    } else {
        PagerCommand::Help
    }
}

/// The command that `input` spells. An empty line and `n` page forward; `p`,
/// `h`, `t`, `q` and `?` page back, go to the head, go to the tail, quit and
/// ask for help; letters count in either case.
pub open spec fn pager_command(input: Seq<char>) -> PagerCommand {
    if input.len() == 0 || is_letter(input, 'n') {
        PagerCommand::Next
    } else if is_letter(input, 'p') {
        PagerCommand::Prev
    } else if is_letter(input, 'h') {
        PagerCommand::Head
    } else if is_letter(input, 't') {
        PagerCommand::Tail
    } else if is_letter(input, 'q') {
        PagerCommand::Quit
    } else if is_letter(input, '?') {
        PagerCommand::Help
    } else {
        goto_command(words(input))
    }
}

fn is_one_letter(s: &[char], c: char) -> (r: bool)
    ensures
        r == is_letter(s@, c),
{
    let one: Vec<char> = vec![c];
    assert(one@ =~= seq![c]);
    eq_ignore_ascii_case(s, one.as_slice())
}

/// Reads a command of the pager.
pub fn parse_pager_command(input: &str) -> (r: PagerCommand)
    ensures
        r == pager_command(input@),
{
    let chars = chars_of(input);
    let s = chars.as_slice();
    if s.len() == 0 || is_one_letter(s, 'n') {
        return PagerCommand::Next;
    }
    if is_one_letter(s, 'p') {
        return PagerCommand::Prev;
    }
    if is_one_letter(s, 'h') {
        return PagerCommand::Head;
    }
    if is_one_letter(s, 't') {
        return PagerCommand::Tail;
    }
    if is_one_letter(s, 'q') {
        return PagerCommand::Quit;
    }
    if is_one_letter(s, '?') {
        return PagerCommand::Help;
    }
    let parts = split_words(s);
    proof {
        assert(rows(parts@).len() == parts.len());
        if parts.len() > 0 {
            assert(rows(parts@)[0] == parts@[0]@);
        }
        if parts.len() > 1 {
            assert(rows(parts@)[1] == parts@[1]@);
        }
    }
    if parts.len() == 0 {
        return PagerCommand::Help;
    }
    let cmd = parts[0].as_slice();
    if is_one_letter(cmd, 'g') {
        if parts.len() >= 2 {
            if let Some(value) = parse_usize(parts[1].as_slice()) {
                return PagerCommand::GotoLine(value);
            }
        }
        return PagerCommand::Help;
    }
    if all_of(cmd, CharClass::Digit) {
        if let Some(value) = parse_usize(cmd) {
            return PagerCommand::GotoLine(value);
        }
    }
    PagerCommand::Help
}

/// The number of pages that `line_count` lines take.
pub open spec fn pages_of(line_count: int) -> int {
    (line_count + PAGE_LINES - 1) / (PAGE_LINES as int)
}

/// The number of pages that `line_count` lines take.
pub fn page_count(line_count: usize) -> (pages: usize)
    ensures
        pages == pages_of(line_count as int),
{
    if line_count % PAGE_LINES == 0 {
        line_count / PAGE_LINES
    } else {
        line_count / PAGE_LINES + 1
    }
}

/// The lines of page `page`: from `start` up to, not including, `end`. A page
/// past the end is empty.
pub fn page_bounds(page: usize, line_count: usize) -> (r: (usize, usize))
    ensures
        r.0 <= r.1 <= line_count,
        r.0 == if page * PAGE_LINES < line_count {
            page * PAGE_LINES
        } else {
            line_count as int
        },
        r.1 == if r.0 + PAGE_LINES < line_count {
            r.0 + PAGE_LINES
        } else {
            line_count as int
        },
{
    let start: usize = if page < line_count / PAGE_LINES + 1 {
        let s = page * PAGE_LINES;
        if s < line_count {
            s
        } else {
            line_count
        }
    } else {
        assert(page * PAGE_LINES >= line_count) by (nonlinear_arith)
            requires
                page >= line_count / (PAGE_LINES as usize) + 1,
                PAGE_LINES == 200,
        ;
        line_count
    };
    let end: usize = if line_count - start > PAGE_LINES {
        start + PAGE_LINES
    } else {
        line_count
    };
    (start, end)
}

/// What the pager does after a command.
#[derive(Debug, Clone, Copy, PartialEq, Eq)]
pub enum PagerOutcome {
    /// Show the page.
    Show,
    /// Leave the pager.
    Leave,
    /// Say that this is the first page already, and show it.
    AtBeginning,
    /// Say that line numbers start at one, and show the page.
    LineZero,
    /// Show the help, and the page.
    Help,
}

/// The page and the outcome after `command` on page `page` of a diff of
/// `line_count` lines.
pub open spec fn pager_move(page: int, line_count: int, command: PagerCommand) -> (
    int,
    PagerOutcome,
) {
    let total = pages_of(line_count);
    match command {
        PagerCommand::Next => if page + 1 >= total {
            (page, PagerOutcome::Leave)
        } else {
            (page + 1, PagerOutcome::Show)
        },
        PagerCommand::Prev => if page == 0 {
            (page, PagerOutcome::AtBeginning)
        } else {
            (page - 1, PagerOutcome::Show)
        },
        PagerCommand::Head => (0, PagerOutcome::Show),
        PagerCommand::Tail => (
            if total > 0 {
                total - 1
            } else {
                0
            },
            PagerOutcome::Show,
        ),
        PagerCommand::GotoLine(line) => if line == 0 {
            (page, PagerOutcome::LineZero)
        } else {
            let last = if line_count > 0 {
                line_count - 1
            } else {
                0
            };
            let target = if line - 1 < last {
                line - 1
            } else {
                last
            };
            (target / (PAGE_LINES as int), PagerOutcome::Show)
        },
        PagerCommand::Quit => (page, PagerOutcome::Leave),
        PagerCommand::Help => (page, PagerOutcome::Help),
    }
}

/// Applies `command` on page `page` of a diff of `line_count` lines.
pub fn pager_step(page: usize, line_count: usize, command: PagerCommand) -> (r: (
    usize,
    PagerOutcome,
))
    ensures
        (r.0 as int, r.1) == pager_move(page as int, line_count as int, command),
{
    let total = page_count(line_count);
    match command {
        PagerCommand::Next => {
            if page >= total || page + 1 >= total {
                (page, PagerOutcome::Leave)
            } else {
                (page + 1, PagerOutcome::Show)
            }
        },
        PagerCommand::Prev => {
            if page == 0 {
                (page, PagerOutcome::AtBeginning)
            } else {
                (page - 1, PagerOutcome::Show)
            }
        },
        PagerCommand::Head => (0, PagerOutcome::Show),
        PagerCommand::Tail => (
            if total > 0 {
                total - 1
            } else {
                0
            },
            PagerOutcome::Show,
        ),
        PagerCommand::GotoLine(line) => {
            if line == 0 {
                (page, PagerOutcome::LineZero)
            } else {
                let last: usize = if line_count > 0 {
                    line_count - 1
                } else {
                    0
                };
                let target: usize = if line - 1 < last {
                    line - 1
                } else {
                    last
                };
                (target / PAGE_LINES, PagerOutcome::Show)
            }
        },
        PagerCommand::Quit => (page, PagerOutcome::Leave),
        PagerCommand::Help => (page, PagerOutcome::Help),
    }
}

/// How a diff is put on the screen.
#[derive(Debug, Clone, Copy, PartialEq, Eq)]
pub enum DisplayPlan {
    /// There is nothing to show.
    Nothing,
    /// Through the pager.
    Paged,
    /// All at once; with a note where the pager was asked for and the session
    /// is not interactive.
    Inline { pager_suppressed: bool },
}

/// The pager is asked for: always, never, or for a diff longer than a page.
pub open spec fn pager_wanted(mode: PagerMode, line_count: int) -> bool {
    match mode {
        PagerMode::Always => true,
        PagerMode::Never => false,
        PagerMode::Auto => line_count > PAGE_LINES,
    }
}

/// How a diff of `line_count` lines is shown.
pub fn display_plan(line_count: usize, mode: PagerMode, interactive: bool) -> (r: DisplayPlan)
    ensures
        r == if line_count == 0 {
            DisplayPlan::Nothing
        } else if pager_wanted(mode, line_count as int) && interactive {
            DisplayPlan::Paged
        } else {
            DisplayPlan::Inline { pager_suppressed: pager_wanted(mode, line_count as int) }
        },
{
    if line_count == 0 {
        return DisplayPlan::Nothing;
    }
    let wanted = match mode {
        PagerMode::Always => true,
        PagerMode::Never => false,
        PagerMode::Auto => line_count > PAGE_LINES,
    };
    if wanted && interactive {
        DisplayPlan::Paged
    } else {
        DisplayPlan::Inline { pager_suppressed: wanted }
    }
}

/// Renders the diff between `old` and `new` and decides how it is put on the
/// screen.
pub fn display_diff(old: &str, new: &str, config: &crate::diff::DiffDisplayConfig) -> (r: (
    crate::render::DiffBuffer,
    DisplayPlan,
))
    ensures
        r.0@ == crate::render::filled(
            crate::render::diff_items(
                crate::render::diff_groups(
                    old@,
                    new@,
                    crate::diff::context_radius(config.context),
                ),
                config.colorize,
            ),
        ),
        crate::render::bytes_of(r.0@.lines) <= crate::render::DIFF_MAX_BYTES,
        r.1 == if r.0@.lines.len() == 0 {
            DisplayPlan::Nothing
        } else if pager_wanted(config.pager_mode, r.0@.lines.len() as int) && config.interactive {
            DisplayPlan::Paged
        } else {
            DisplayPlan::Inline {
                pager_suppressed: pager_wanted(config.pager_mode, r.0@.lines.len() as int),
            }
        },
{
    let buffer = crate::render::DiffBuffer::build(old, new, config.context, config.colorize);
    let plan = display_plan(buffer.line_count(), config.pager_mode, config.interactive);
    (buffer, plan)
}

} // verus!
