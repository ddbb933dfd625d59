//! The lines that introduce a command: what it is, how it runs and on which
//! files.

use vstd::prelude::*;
use vstd::string::StringExecFns;

use crate::files::FileEntry;
use crate::lines::texts;
use crate::numbers::{decimal, decimal_chars};
use crate::options::{CommonArgs, PagerMode};
use crate::text::string_of;

verus! {

/// How many of the resolved files are listed.
pub const RESOLVED_SHOWN: usize = 10;

/// What the `Debug` formatting of a list of strings writes for `items`.
pub uninterp spec fn list_debug_text(items: Seq<Seq<char>>) -> Seq<char>;

/// `format!` with `{:?}` on a vector of strings: the `Debug` formatting of
/// the standard library, which writes the strings quoted and escaped, between
/// square brackets. What it writes is a function of the strings alone.
#[verifier::external_body]
fn debug_list(items: &Vec<String>) -> (r: String)
    ensures
        r@ == list_debug_text(texts(items@)),
{
    format!("{items:?}")
}

/// A truth value in words.
pub open spec fn bool_text(b: bool) -> Seq<char> {
    if b {
        "true"@
    } else {
        "false"@
    }
}

/// The name of a pager mode.
pub open spec fn pager_text(mode: PagerMode) -> Seq<char> {
    match mode {
        PagerMode::Auto => "Auto"@,
        PagerMode::Always => "Always"@,
        PagerMode::Never => "Never"@,
    }
}

/// Each of `items` as the item of a list.
pub open spec fn bullets(items: Seq<Seq<char>>) -> Seq<Seq<char>> {
    Seq::new(items.len(), |i: int| "  - "@ + items[i])
}

/// A list under the heading `heading`; nothing where the list is empty.
pub open spec fn listed(heading: Seq<char>, items: Seq<Seq<char>>) -> Seq<Seq<char>> {
    if items.len() == 0 {
        Seq::empty()
    } else {
        seq![heading] + bullets(items)
    }
}

/// The line of one resolved file: its path, its size, and a hint where it
/// looks binary.
pub open spec fn entry_line(entry: FileEntry) -> Seq<char> {
    "  - "@ + entry.path@ + " ("@ + decimal(entry.metadata.len as nat) + " bytes"@
        + if entry.metadata.is_probably_binary {
        ", binary? yes"@
    } else {
        ""@
    } + ")"@
}

/// The lines on the resolved files: how many there are, the first ten of
/// them, and a mark where there are more.
pub open spec fn entry_lines(entries: Seq<FileEntry>) -> Seq<Seq<char>> {
    if entries.len() == 0 {
        seq!["resolved files: (none)"@]
    } else {
        let shown = if entries.len() > RESOLVED_SHOWN {
            RESOLVED_SHOWN as int
        } else {
            entries.len() as int
        };
        seq!["resolved files ("@ + decimal(entries.len()) + "):"@] + Seq::new(
            shown as nat,
            |i: int| entry_line(entries[i]),
        ) + if entries.len() > RESOLVED_SHOWN {
            seq!["  ..."@]
        } else {
            Seq::empty()
        }
    }
}

/// The line that tells whether the command writes.
pub open spec fn mode_line(common: CommonArgs) -> Seq<char> {
    "mode: "@ + if common.apply {
        "apply"@
    } else {
        "dry-run"@
    } + if common.auto_apply {
        " (auto-approve)"@
    } else {
        ""@
    }
}

/// The lines on the targets: the list of them, or a note that there are none.
pub open spec fn target_lines(targets: Seq<Seq<char>>) -> Seq<Seq<char>> {
    if targets.len() == 0 {
        seq!["targets: (none)"@]
    } else {
        listed("targets:"@, targets)
    }
}

/// The lines on the settings that are always told.
pub open spec fn setting_lines(common: CommonArgs, strategy: Seq<char>) -> Seq<Seq<char>> {
    seq![
        "encoding strategy: "@ + strategy,
        "context lines: "@ + decimal(common.context as nat),
        "pager: "@ + pager_text(common.pager),
        "json output: "@ + bool_text(common.json),
        "include hidden: "@ + bool_text(common.include_hidden),
    ]
}

/// The lines on the settings that are told only where they are set: the
/// exclusions, backups switched off, the undo directory, and the globs.
pub open spec fn optional_lines(common: CommonArgs) -> Seq<Seq<char>> {
    (if common.exclude@.len() > 0 {
        seq!["exclude globs: "@ + list_debug_text(texts(common.exclude@))]
    } else {
        Seq::empty()
    }) + (if common.no_backup {
        seq!["backups disabled"@]
    } else {
        Seq::empty()
    }) + (match common.undo_log {
        Some(dir) => seq!["undo log dir: "@ + dir@],
        None => Seq::empty(),
    }) + listed("globs:"@, texts(common.globs@))
}

/// The line on the arguments that were passed through; none where there are
/// none.
pub open spec fn extra_lines(common: CommonArgs) -> Seq<Seq<char>> {
    if common.extra_args@.len() > 0 {
        seq!["extra args: "@ + list_debug_text(texts(common.extra_args@))]
    } else {
        Seq::empty()
    }
}

/// The lines that introduce the command `command`: its name and mode, its
/// targets, its settings, the files it resolved, the details that the command
/// adds, and a rule.
pub open spec fn summary_lines(
    command: Seq<char>,
    common: CommonArgs,
    strategy: Seq<char>,
    entries: Seq<FileEntry>,
    details: Seq<Seq<char>>,
) -> Seq<Seq<char>> {
    seq!["command: "@ + command, mode_line(common)] + target_lines(texts(common.targets@))
        + setting_lines(common, strategy) + optional_lines(common) + entry_lines(entries)
        + extra_lines(common) + details + seq!["---"@]
}

fn push_line(lines: &mut Vec<String>, line: String)
    ensures
        texts(final(lines)@) == texts(old(lines)@).push(line@),
{
    lines.push(line);
    assert(texts(lines@) =~= texts(old(lines)@).push(line@));
}

fn labelled(label: &str, value: &str) -> (r: String)
    ensures
        r@ == label@ + value@,
{
    let mut out = label.to_owned();
    out.append(value);
    out
}

fn push_bullets(lines: &mut Vec<String>, items: &Vec<String>)
    ensures
        texts(final(lines)@) == texts(old(lines)@) + bullets(texts(items@)),
{
    let ghost before = texts(lines@);
    let ghost all = bullets(texts(items@));
    let mut i: usize = 0;
    assert(texts(lines@) =~= before + all.take(0));
    while i < items.len()
        invariant
            i <= items.len(),
            all == bullets(texts(items@)),
            texts(lines@) == before + all.take(i as int),
        decreases items.len() - i,
    {
        let line = labelled("  - ", items[i].as_str());
        assert(line@ == all[i as int]);
        assert(all.take(i + 1) =~= all.take(i as int).push(all[i as int]));
        push_line(lines, line);
        assert(texts(lines@) =~= before + all.take(i + 1));
        i += 1;
    }
    assert(all.take(items.len() as int) =~= all);
}

fn push_listed(lines: &mut Vec<String>, heading: &str, items: &Vec<String>)
    ensures
        texts(final(lines)@) == texts(old(lines)@) + listed(heading@, texts(items@)),
{
    if items.len() > 0 {
        let ghost before = texts(lines@);
        push_line(lines, heading.to_owned());
        push_bullets(lines, items);
        assert(texts(lines@) =~= before + (seq![heading@] + bullets(texts(items@))));
    } else {
        assert(texts(lines@) =~= texts(lines@) + Seq::<Seq<char>>::empty());
    }
}

fn bool_word(b: bool) -> (r: &'static str)
    ensures
        r@ == bool_text(b),
{
    if b {
        "true"
    } else {
        "false"
    }
}

fn pager_word(mode: PagerMode) -> (r: &'static str)
    ensures
        r@ == pager_text(mode),
{
    match mode {
        PagerMode::Auto => "Auto",
        PagerMode::Always => "Always",
        PagerMode::Never => "Never",
    }
}

fn entry_text(entry: &FileEntry) -> (r: String)
    ensures
        r@ == entry_line(*entry),
{
    let mut out = "  - ".to_owned();
    out.append(entry.path.as_str());
    out.append(" (");
    out.append(string_of(decimal_chars(entry.metadata.len as u128).as_slice()).as_str());
    out.append(" bytes");
    out.append(if entry.metadata.is_probably_binary {
        ", binary? yes"
    } else {
        ""
    });
    out.append(")");
    out
}

fn push_entries(lines: &mut Vec<String>, entries: &Vec<FileEntry>)
    ensures
        texts(final(lines)@) == texts(old(lines)@) + entry_lines(entries@),
{
    let ghost before = texts(lines@);
    if entries.len() == 0 {
        push_line(lines, "resolved files: (none)".to_owned());
        assert(texts(lines@) =~= before + entry_lines(entries@));
        return ;
    }
    let mut heading = "resolved files (".to_owned();
    heading.append(string_of(decimal_chars(entries.len() as u128).as_slice()).as_str());
    heading.append("):");
    push_line(lines, heading);
    let shown: usize = if entries.len() > RESOLVED_SHOWN {
        RESOLVED_SHOWN
    } else {
        entries.len()
    };
    let ghost head = texts(lines@);
    let ghost rows = Seq::new(shown as nat, |i: int| entry_line(entries@[i]));
    let mut i: usize = 0;
    assert(texts(lines@) =~= head + rows.take(0));
    while i < shown
        invariant
            i <= shown <= entries.len(),
            rows == Seq::new(shown as nat, |i: int| entry_line(entries@[i])),
            texts(lines@) == head + rows.take(i as int),
        decreases shown - i,
    {
        let line = entry_text(&entries[i]);
        assert(line@ == rows[i as int]);
        assert(rows.take(i + 1) =~= rows.take(i as int).push(rows[i as int]));
        push_line(lines, line);
        assert(texts(lines@) =~= head + rows.take(i + 1));
        i += 1;
    }
    assert(rows.take(shown as int) =~= rows);
    if entries.len() > RESOLVED_SHOWN {
        push_line(lines, "  ...".to_owned());
    }
    assert(texts(lines@) =~= before + entry_lines(entries@));
}

fn push_all_lines(lines: &mut Vec<String>, more: &Vec<String>)
    ensures
        texts(final(lines)@) == texts(old(lines)@) + texts(more@),
{
    let ghost before = texts(lines@);
    let ghost all = texts(more@);
    let mut i: usize = 0;
    assert(texts(lines@) =~= before + all.take(0));
    while i < more.len()
        invariant
            i <= more.len(),
            all == texts(more@),
            texts(lines@) == before + all.take(i as int),
        decreases more.len() - i,
    {
        assert(all.take(i + 1) =~= all.take(i as int).push(all[i as int]));
        push_line(lines, more[i].clone());
        assert(texts(lines@) =~= before + all.take(i + 1));
        i += 1;
    }
    assert(all.take(more.len() as int) =~= all);
}

fn push_targets(lines: &mut Vec<String>, targets: &Vec<String>)
    ensures
        texts(final(lines)@) == texts(old(lines)@) + target_lines(texts(targets@)),
{
    if targets.len() > 0 {
        push_listed(lines, "targets:", targets);
    } else {
        let ghost before = texts(lines@);
        push_line(lines, "targets: (none)".to_owned());
        assert(texts(lines@) =~= before + seq!["targets: (none)"@]);
    }
}

fn push_settings(lines: &mut Vec<String>, common: &CommonArgs, strategy: &str)
    ensures
        texts(final(lines)@) == texts(old(lines)@) + setting_lines(*common, strategy@),
{
    let ghost before = texts(lines@);
    push_line(lines, labelled("encoding strategy: ", strategy));
    push_line(
        lines,
        labelled(
            "context lines: ",
            string_of(decimal_chars(common.context as u128).as_slice()).as_str(),
        ),
    );
    push_line(lines, labelled("pager: ", pager_word(common.pager)));
    push_line(lines, labelled("json output: ", bool_word(common.json)));
    push_line(lines, labelled("include hidden: ", bool_word(common.include_hidden)));
    assert(texts(lines@) =~= before + setting_lines(*common, strategy@));
}

fn push_optional(lines: &mut Vec<String>, common: &CommonArgs)
    ensures
        texts(final(lines)@) == texts(old(lines)@) + optional_lines(*common),
{
    let ghost before = texts(lines@);
    let ghost none = Seq::<Seq<char>>::empty();
    if common.exclude.len() > 0 {
        push_line(lines, labelled("exclude globs: ", debug_list(&common.exclude).as_str()));
    }
    let ghost excluded = if common.exclude@.len() > 0 {
        seq!["exclude globs: "@ + list_debug_text(texts(common.exclude@))]
    } else {
        none
    };
    assert(texts(lines@) =~= before + excluded);
    if common.no_backup {
        push_line(lines, "backups disabled".to_owned());
    }
    let ghost backups = if common.no_backup {
        seq!["backups disabled"@]
    } else {
        none
    };
    assert(texts(lines@) =~= before + (excluded + backups));
    if let Some(dir) = &common.undo_log {
        push_line(lines, labelled("undo log dir: ", dir.as_str()));
    }
    let ghost undo = if common.undo_log is Some {
        seq!["undo log dir: "@ + common.undo_log->0@]
    } else {
        none
    };
    assert(texts(lines@) =~= before + (excluded + backups + undo));
    push_listed(lines, "globs:", &common.globs);
    assert(texts(lines@) =~= before + (excluded + backups + undo + listed(
        "globs:"@,
        texts(common.globs@),
    )));
}

fn push_extra(lines: &mut Vec<String>, common: &CommonArgs)
    ensures
        texts(final(lines)@) == texts(old(lines)@) + extra_lines(*common),
{
    let ghost before = texts(lines@);
    if common.extra_args.len() > 0 {
        push_line(lines, labelled("extra args: ", debug_list(&common.extra_args).as_str()));
    }
    assert(texts(lines@) =~= before + extra_lines(*common));
}

fn mode_text(common: &CommonArgs) -> (r: String)
    ensures
        r@ == mode_line(*common),
{
    let mut mode = "mode: ".to_owned();
    mode.append(if common.apply {
        "apply"
    } else {
        "dry-run"
    });
    mode.append(if common.auto_apply {
        " (auto-approve)"
    } else {
        ""
    });
    mode
}

/// The lines that introduce a command before it starts on its files.
/// `strategy` tells how files are decoded, `entries` are the files that the
/// command resolved, `details` what the command adds of its own.
pub fn command_summary(
    command: &str,
    common: &CommonArgs,
    strategy: &str,
    entries: &Vec<FileEntry>,
    details: &Vec<String>,
) -> (lines: Vec<String>)
    ensures
        texts(lines@) == summary_lines(command@, *common, strategy@, entries@, texts(details@)),
{
    let mut lines: Vec<String> = Vec::new();
    assert(texts(lines@) =~= Seq::<Seq<char>>::empty());
    push_line(&mut lines, labelled("command: ", command));
    push_line(&mut lines, mode_text(common));
    let ghost a = texts(lines@);
    assert(a =~= seq!["command: "@ + command@, mode_line(*common)]);
    push_targets(&mut lines, &common.targets);
    push_settings(&mut lines, common, strategy);
    push_optional(&mut lines, common);
    push_entries(&mut lines, entries);
    push_extra(&mut lines, common);
    push_all_lines(&mut lines, details);
    let ghost b = texts(lines@);
    push_line(&mut lines, "---".to_owned());
    assert(texts(lines@) == b + seq!["---"@]) by {
        assert(b.push("---"@) =~= b + seq!["---"@]);
    }
    lines
}

} // verus!
