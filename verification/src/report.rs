//! The report on the change log: how often each command took each action,
//! over the whole log or from some moment on.

use vstd::prelude::*;
use vstd::string::StringExecFns;

use crate::casing::lower_text;
use crate::lines::texts;
use crate::logging::{entry_views, EntryView, LoggedEntry};
use crate::numbers::{decimal, decimal_chars};
use crate::pipeline::{report_format_named, ReportFormat};
use crate::text::{
    chars_of, comes_before, lemma_text_order_total, lemma_text_order_transitive, opt_str_view,
    same_chars, string_of, text_before,
};

verus! {

/// One row of the report.
#[derive(Debug, Clone, PartialEq, Eq)]
pub struct ReportRow {
    pub command: String,
    pub action: String,
    pub count: usize,
}

/// The key (`c1`, `a1`) comes before the key (`c2`, `a2`): by command, then by
/// action, each in the order of their characters.
pub open spec fn key_before(c1: Seq<char>, a1: Seq<char>, c2: Seq<char>, a2: Seq<char>) -> bool {
    text_before(c1, c2) || (c1 == c2 && text_before(a1, a2))
}

/// How many of `entries` have the command `command` and the action `action`.
pub open spec fn occurrences(entries: Seq<LoggedEntry>, command: Seq<char>, action: Seq<char>)
    -> nat
    decreases entries.len(),
{
    if entries.len() == 0 {
        0
    } else {
        occurrences(entries.drop_last(), command, action) + if entries.last().command@ == command
            && entries.last().action@ == action {
            1nat
        } else {
            0nat
        }
    }
}

/// Some row of `rows` has the key (`command`, `action`).
pub open spec fn has_row(rows: Seq<ReportRow>, command: Seq<char>, action: Seq<char>) -> bool {
    exists|i: int|
        0 <= i < rows.len() && (#[trigger] rows[i]).command@ == command && rows[i].action@ == action
}

/// `rows` is the report on `entries`: one row for every pair of command and
/// action that occurs, in the order of the keys, each with the number of
/// entries that have its key.
pub open spec fn is_report(entries: Seq<LoggedEntry>, rows: Seq<ReportRow>) -> bool {
    &&& forall|i: int, j: int|
        0 <= i < j < rows.len() ==> key_before(
            (#[trigger] rows[i]).command@,
            rows[i].action@,
            (#[trigger] rows[j]).command@,
            rows[j].action@,
        )
    &&& forall|i: int|
        0 <= i < rows.len() ==> (#[trigger] rows[i]).count > 0 && rows[i].count == occurrences(
            entries,
            rows[i].command@,
            rows[i].action@,
        )
    &&& forall|k: int|
        0 <= k < entries.len() ==> has_row(rows, (#[trigger] entries[k]).command@, entries[k].action@)
}

/// No more entries have a given key than there are entries.
proof fn lemma_occurrences_bounded(entries: Seq<LoggedEntry>, command: Seq<char>, action: Seq<char>)
    ensures
        occurrences(entries, command, action) <= entries.len(),
    decreases entries.len(),
{
    if entries.len() > 0 {
        lemma_occurrences_bounded(entries.drop_last(), command, action);
    }
}

/// A key that no entry has occurs zero times.
proof fn lemma_occurrences_absent(entries: Seq<LoggedEntry>, command: Seq<char>, action: Seq<char>)
    requires
        forall|k: int|
            0 <= k < entries.len() ==> !((#[trigger] entries[k]).command@ == command
                && entries[k].action@ == action),
    ensures
        occurrences(entries, command, action) == 0,
    decreases entries.len(),
{
    if entries.len() > 0 {
        assert forall|k: int| 0 <= k < entries.drop_last().len() implies !((
        #[trigger] entries.drop_last()[k]).command@ == command && entries.drop_last()[k].action@
            == action) by {
            assert(entries.drop_last()[k] == entries[k]);
        }
        lemma_occurrences_absent(entries.drop_last(), command, action);
        assert(entries.last() == entries[entries.len() - 1]);
    }
}

fn key_comes_before(c1: &str, a1: &str, c2: &str, a2: &str) -> (r: bool)
    ensures
        r == key_before(c1@, a1@, c2@, a2@),
{
    let first = chars_of(c1);
    let second = chars_of(c2);
    if comes_before(first.as_slice(), second.as_slice()) {
        return true;
    }
    if !same_chars(first.as_slice(), second.as_slice()) {
        return false;
    }
    comes_before(chars_of(a1).as_slice(), chars_of(a2).as_slice())
}

/// Of two different keys one comes before the other, and the order is
/// transitive.
proof fn lemma_key_order(
    c1: Seq<char>,
    a1: Seq<char>,
    c2: Seq<char>,
    a2: Seq<char>,
    c3: Seq<char>,
    a3: Seq<char>,
)
    ensures
        !(c1 == c2 && a1 == a2) ==> key_before(c1, a1, c2, a2) || key_before(c2, a2, c1, a1),
        !key_before(c1, a1, c1, a1),
        key_before(c1, a1, c2, a2) && key_before(c2, a2, c3, a3) ==> key_before(c1, a1, c3, a3),
{
    lemma_text_order_total(c1, c2);
    lemma_text_order_total(a1, a2);
    lemma_text_order_total(c1, c1);
    lemma_text_order_total(a1, a1);
    if key_before(c1, a1, c2, a2) && key_before(c2, a2, c3, a3) {
        if text_before(c1, c2) && text_before(c2, c3) {
            lemma_text_order_transitive(c1, c2, c3);
        } else if c1 == c2 && c2 == c3 {
            lemma_text_order_transitive(a1, a2, a3);
        }
    }
}

/// Counts, for every pair of command and action, the entries that have it.
pub fn summarize_log(entries: &Vec<LoggedEntry>) -> (rows: Vec<ReportRow>)
    ensures
        is_report(entries@, rows@),
{
    let mut rows: Vec<ReportRow> = Vec::new();
    let mut i: usize = 0;
    assert(entries@.take(0) =~= Seq::<LoggedEntry>::empty());
    while i < entries.len()
        invariant
            i <= entries.len(),
            is_report(entries@.take(i as int), rows@),
        decreases entries.len() - i,
    {
        let entry = &entries[i];
        let ghost seen = entries@.take(i as int);
        let ghost now = entries@.take(i + 1);
        let ghost before = rows@;
        proof {
            assert(now.drop_last() =~= seen);
            assert(now.last() == *entry);
            assert forall|k: int| 0 <= k < seen.len() implies now[k] == #[trigger] seen[k] by {}
        }
        let mut pos: usize = 0;
        while pos < rows.len() && key_comes_before(
            rows[pos].command.as_str(),
            rows[pos].action.as_str(),
            entry.command.as_str(),
            entry.action.as_str(),
        )
            invariant
                pos <= rows.len(),
                forall|k: int|
                    0 <= k < pos ==> key_before(
                        (#[trigger] rows@[k]).command@,
                        rows@[k].action@,
                        entry.command@,
                        entry.action@,
                    ),
            decreases rows.len() - pos,
        {
            pos += 1;
        }
        let same = pos < rows.len() && same_chars(
            chars_of(rows[pos].command.as_str()).as_slice(),
            chars_of(entry.command.as_str()).as_slice(),
        ) && same_chars(
            chars_of(rows[pos].action.as_str()).as_slice(),
            chars_of(entry.action.as_str()).as_slice(),
        );
        if same {
            proof {
                lemma_occurrences_bounded(seen, entry.command@, entry.action@);
            }
            let row = ReportRow {
                command: entry.command.clone(),
                action: entry.action.clone(),
                count: rows[pos].count + 1,
            };
            rows.set(pos, row);
            proof {
                assert forall|a: int, b: int| 0 <= a < b < rows@.len() implies key_before(
                    (#[trigger] rows@[a]).command@,
                    rows@[a].action@,
                    (#[trigger] rows@[b]).command@,
                    rows@[b].action@,
                ) by {
                    assert(rows@[a].command@ == before[a].command@ && rows@[a].action@
                        == before[a].action@);
                    assert(rows@[b].command@ == before[b].command@ && rows@[b].action@
                        == before[b].action@);
                }
                assert forall|a: int| 0 <= a < rows@.len() implies (#[trigger] rows@[a]).count > 0
                    && rows@[a].count == occurrences(now, rows@[a].command@, rows@[a].action@) by {
                    if a != pos {
                        assert(rows@[a] == before[a]);
                        if a < pos {
                            assert(key_before(
                                before[a].command@,
                                before[a].action@,
                                before[pos as int].command@,
                                before[pos as int].action@,
                            ));
                        } else {
                            assert(key_before(
                                before[pos as int].command@,
                                before[pos as int].action@,
                                before[a].command@,
                                before[a].action@,
                            ));
                        }
                        lemma_key_order(
                            before[a].command@,
                            before[a].action@,
                            entry.command@,
                            entry.action@,
                            entry.command@,
                            entry.action@,
                        );
                        lemma_key_order(
                            entry.command@,
                            entry.action@,
                            entry.command@,
                            entry.action@,
                            entry.command@,
                            entry.action@,
                        );
                    }
                }
                assert forall|k: int| 0 <= k < now.len() implies has_row(
                    rows@,
                    (#[trigger] now[k]).command@,
                    now[k].action@,
                ) by {
                    if k < i {
                        assert(now[k] == seen[k]);
                        assert(has_row(before, seen[k].command@, seen[k].action@));
                        let w = choose|w: int|
                            0 <= w < before.len() && (#[trigger] before[w]).command@
                                == seen[k].command@ && before[w].action@ == seen[k].action@;
                        assert(rows@[w].command@ == now[k].command@ && rows@[w].action@
                            == now[k].action@);
                    } else {
                        assert(rows@[pos as int].command@ == now[k].command@);
                    }
                }
            }
        } else {
            let row = ReportRow {
                command: entry.command.clone(),
                action: entry.action.clone(),
                count: 1,
            };
            rows.insert(pos, row);
            proof {
                if pos < before.len() {
                    lemma_key_order(
                        before[pos as int].command@,
                        before[pos as int].action@,
                        entry.command@,
                        entry.action@,
                        entry.command@,
                        entry.action@,
                    );
                }
                assert forall|k: int| 0 <= k < before.len() implies !((
                #[trigger] before[k]).command@ == entry.command@ && before[k].action@
                    == entry.action@) by {
                    lemma_key_order(
                        entry.command@,
                        entry.action@,
                        entry.command@,
                        entry.action@,
                        entry.command@,
                        entry.action@,
                    );
                    if k < pos {
                    } else if k > pos {
                        assert(key_before(
                            before[pos as int].command@,
                            before[pos as int].action@,
                            before[k].command@,
                            before[k].action@,
                        ));
                        lemma_key_order(
                            entry.command@,
                            entry.action@,
                            before[pos as int].command@,
                            before[pos as int].action@,
                            before[k].command@,
                            before[k].action@,
                        );
                    }
                }
                assert forall|k: int| 0 <= k < seen.len() implies !((
                #[trigger] seen[k]).command@ == entry.command@ && seen[k].action@
                    == entry.action@) by {
                    if seen[k].command@ == entry.command@ && seen[k].action@ == entry.action@ {
                        assert(has_row(before, seen[k].command@, seen[k].action@));
                        let w = choose|w: int|
                            0 <= w < before.len() && (#[trigger] before[w]).command@
                                == seen[k].command@ && before[w].action@ == seen[k].action@;
                        assert(false);
                    }
                }
                lemma_occurrences_absent(seen, entry.command@, entry.action@);
                assert forall|a: int, b: int| 0 <= a < b < rows@.len() implies key_before(
                    (#[trigger] rows@[a]).command@,
                    rows@[a].action@,
                    (#[trigger] rows@[b]).command@,
                    rows@[b].action@,
                ) by {
                    if b == pos {
                        assert(rows@[a] == before[a]);
                    } else if a == pos {
                        assert(rows@[b] == before[b - 1]);
                        if b - 1 > pos {
                            assert(key_before(
                                before[pos as int].command@,
                                before[pos as int].action@,
                                before[b - 1].command@,
                                before[b - 1].action@,
                            ));
                        }
                        lemma_key_order(
                            entry.command@,
                            entry.action@,
                            before[pos as int].command@,
                            before[pos as int].action@,
                            before[b - 1].command@,
                            before[b - 1].action@,
                        );
                    } else {
                        let ba = if a < pos { a } else { a - 1 };
                        let bb = if b < pos { b } else { b - 1 };
                        assert(rows@[a] == before[ba]);
                        assert(rows@[b] == before[bb]);
                    }
                }
                assert forall|a: int| 0 <= a < rows@.len() implies (#[trigger] rows@[a]).count > 0
                    && rows@[a].count == occurrences(now, rows@[a].command@, rows@[a].action@) by {
                    if a != pos {
                        let ba = if a < pos { a } else { a - 1 };
                        assert(rows@[a] == before[ba]);
                    }
                }
                assert forall|k: int| 0 <= k < now.len() implies has_row(
                    rows@,
                    (#[trigger] now[k]).command@,
                    now[k].action@,
                ) by {
                    if k < i {
                        assert(now[k] == seen[k]);
                        assert(has_row(before, seen[k].command@, seen[k].action@));
                        let w = choose|w: int|
                            0 <= w < before.len() && (#[trigger] before[w]).command@
                                == seen[k].command@ && before[w].action@ == seen[k].action@;
                        let w1 = if w < pos { w } else { w + 1 };
                        assert(rows@[w1] == before[w]);
                    } else {
                        assert(rows@[pos as int].command@ == now[k].command@);
                    }
                }
            }
        }
        i += 1;
    }
    assert(entries@.take(entries.len() as int) =~= entries@);
    rows
}

/// The instant that the RFC 3339 timestamp `text` denotes, in nanoseconds
/// since the start of 1970 in UTC; `None` where `text` is no such timestamp.
pub uninterp spec fn rfc3339_instant(text: Seq<char>) -> Option<i128>;

/// `time::OffsetDateTime::parse` with the `Rfc3339` description reads the
/// timestamp, and `OffsetDateTime::unix_timestamp_nanos` gives the instant it
/// denotes. Timestamps are ordered as their instants are, whatever their
/// offsets.
#[verifier::external_body]
fn parse_instant(text: &str) -> (r: Option<i128>)
    ensures
        r == rfc3339_instant(text@),
{
    time::OffsetDateTime::parse(text, &time::format_description::well_known::Rfc3339).ok().map(
        |at| at.unix_timestamp_nanos(),
    )
}

/// A record with the timestamp `timestamp` lies in the window that starts at
/// `since`: its timestamp can be read, and it is not earlier. Without a start
/// every record with a readable timestamp lies in the window.
pub open spec fn in_window(timestamp: Seq<char>, since: Option<i128>) -> bool {
    match rfc3339_instant(timestamp) {
        Some(at) => since is None || at >= since->0,
        None => false,
    }
}

/// The records of `entries` that lie in the window that starts at `since`, in
/// their order.
pub open spec fn window_of(entries: Seq<EntryView>, since: Option<i128>) -> Seq<EntryView> {
    entries.filter(|entry: EntryView| in_window(entry.timestamp, since))
}

proof fn lemma_window_step(entries: Seq<EntryView>, since: Option<i128>, i: int)
    requires
        0 <= i < entries.len(),
    ensures
        window_of(entries.take(i + 1), since) == if in_window(entries[i].timestamp, since) {
            window_of(entries.take(i), since).push(entries[i])
        } else {
            window_of(entries.take(i), since)
        },
{
    reveal(Seq::filter);
    assert(entries.take(i + 1).drop_last() =~= entries.take(i));
}

proof fn lemma_window_start(entries: Seq<EntryView>, since: Option<i128>)
    ensures
        window_of(entries.take(0), since) == Seq::<EntryView>::empty(),
{
    reveal(Seq::filter);
    assert(entries.take(0) =~= Seq::<EntryView>::empty());
}

/// The records that lie in the window that starts at `since`.
pub fn entries_since(entries: &Vec<LoggedEntry>, since: Option<i128>) -> (kept: Vec<LoggedEntry>)
    ensures
        entry_views(kept@) == window_of(entry_views(entries@), since),
{
    let ghost all = entry_views(entries@);
    let mut kept: Vec<LoggedEntry> = Vec::new();
    let mut i: usize = 0;
    proof {
        lemma_window_start(all, since);
        assert(entry_views(kept@) =~= Seq::<EntryView>::empty());
    }
    while i < entries.len()
        invariant
            i <= entries.len(),
            all == entry_views(entries@),
            entry_views(kept@) == window_of(all.take(i as int), since),
        decreases entries.len() - i,
    {
        proof {
            lemma_window_step(all, since, i as int);
            assert(all[i as int] == entries@[i as int]@);
        }
        let inside: bool = match parse_instant(entries[i].timestamp.as_str()) {
            Some(at) => match since {
                Some(start) => at >= start,
                None => true,
            },
            None => false,
        };
        if inside {
            let ghost before = entry_views(kept@);
            kept.push(entries[i].copy());
            assert(entry_views(kept@) =~= before.push(all[i as int]));
        }
        i += 1;
    }
    assert(all.take(entries.len() as int) =~= all);
    kept
}

/// `s` followed by as many spaces as it lacks to `width` characters.
pub open spec fn padded(s: Seq<char>, width: nat) -> Seq<char> {
    if s.len() < width {
        s + Seq::new((width - s.len()) as nat, |i: int| ' ')
    } else {
        s
    }
}

/// The line of one row in the table: the command in twelve columns, the
/// action in ten, and the count.
pub open spec fn row_line(row: ReportRow) -> Seq<char> {
    padded(row.command@, 12) + " "@ + padded(row.action@, 10) + " "@ + decimal(row.count as nat)
}

/// The heading of the table: how many records the report covers, and from
/// when on.
pub open spec fn table_heading(total: nat, since: Option<Seq<char>>) -> Seq<char> {
    "Report entries: "@ + decimal(total) + " (since "@ + match since {
        Some(start) => start,
        None => "beginning of log"@,
    } + ")"@
}

/// The table of a report: its heading, and one line for each row.
pub open spec fn table_lines(rows: Seq<ReportRow>, total: nat, since: Option<Seq<char>>) -> Seq<
    Seq<char>,
> {
    seq![table_heading(total, since)] + Seq::new(rows.len(), |i: int| row_line(rows[i]))
}

fn push_padded(out: &mut String, s: &str, width: usize)
    ensures
        final(out)@ == old(out)@ + padded(s@, width as nat),
{
    let ghost before = out@;
    out.append(s);
    let len: usize = chars_of(s).len();
    if len < width {
        let mut k: usize = len;
        while k < width
            invariant
                len <= k <= width,
                len == s@.len(),
                out@ == before + s@ + Seq::new((k - len) as nat, |i: int| ' '),
            decreases width - k,
        {
            out.push(' ');
            k += 1;
            assert(out@ =~= before + s@ + Seq::new((k - len) as nat, |i: int| ' '));
        }
        assert(out@ =~= before + padded(s@, width as nat));
    } else {
        assert(out@ =~= before + padded(s@, width as nat));
    }
}

fn row_text(row: &ReportRow) -> (r: String)
    ensures
        r@ == row_line(*row),
{
    let mut out = String::new();
    push_padded(&mut out, row.command.as_str(), 12);
    out.append(" ");
    push_padded(&mut out, row.action.as_str(), 10);
    out.append(" ");
    out.append(string_of(decimal_chars(row.count as u128).as_slice()).as_str());
    assert(out@ =~= row_line(*row));
    out
}

/// The table of the report `rows` on `total` records from `since` on.
pub fn report_table(rows: &Vec<ReportRow>, total: usize, since: Option<&str>) -> (lines: Vec<
    String,
>)
    ensures
        texts(lines@) == table_lines(rows@, total as nat, opt_str_view(since)),
{
    let mut heading = "Report entries: ".to_owned();
    heading.append(string_of(decimal_chars(total as u128).as_slice()).as_str());
    heading.append(" (since ");
    heading.append(
        match since {
            Some(start) => start,
            None => "beginning of log",
        },
    );
    heading.append(")");
    let mut lines: Vec<String> = Vec::new();
    lines.push(heading);
    let ghost all = table_lines(rows@, total as nat, opt_str_view(since));
    let mut i: usize = 0;
    assert(texts(lines@) =~= all.take(1));
    while i < rows.len()
        invariant
            i <= rows.len(),
            all == table_lines(rows@, total as nat, opt_str_view(since)),
            texts(lines@) == all.take(i + 1),
        decreases rows.len() - i,
    {
        let line = row_text(&rows[i]);
        let ghost before = texts(lines@);
        lines.push(line);
        assert(texts(lines@) =~= before.push(line@));
        assert(all.take(i + 2) =~= all.take(i + 1).push(all[i + 1]));
        i += 1;
    }
    assert(all.take(rows.len() + 1) =~= all);
    lines
}

/// Why no report can be made.
#[derive(Debug, Clone)]
pub enum ReportError {
    /// The start of the window is no RFC 3339 timestamp.
    InvalidSince(String),
    /// The format is neither `table` nor `json`; its name, in small letters.
    UnsupportedFormat(String),
}

impl ReportError {
    /// The message for the user.
    pub fn message(&self) -> (r: String)
        ensures
            r@ == match self {
                ReportError::InvalidSince(raw) => "parsing --since '"@ + raw@
                    + "' as RFC3339 timestamp"@,
                ReportError::UnsupportedFormat(name) => "unsupported report-format '"@ + name@
                    + "' (expected table or json)"@,
            },
    {
        match self {
            ReportError::InvalidSince(raw) => {
                let mut out = "parsing --since '".to_owned();
                out.append(raw.as_str());
                out.append("' as RFC3339 timestamp");
                out
            },
            ReportError::UnsupportedFormat(name) => {
                let mut out = "unsupported report-format '".to_owned();
                out.append(name.as_str());
                out.append("' (expected table or json)");
                out
            },
        }
    }
}

/// A report on the change log.
#[derive(Debug, Clone)]
pub enum Report {
    /// The log holds no record.
    EmptyLog,
    /// No record lies in the window.
    EmptyWindow,
    /// The lines of the table.
    Table(Vec<String>),
    /// The rows, for a machine to read.
    Rows(Vec<ReportRow>),
}

/// `rows` is the report on the records `window`.
pub open spec fn report_of_window(window: Seq<EntryView>, rows: Seq<ReportRow>) -> bool {
    exists|kept: Seq<LoggedEntry>| #[trigger] entry_views(kept) == window && is_report(kept, rows)
}

/// `lines` is the table of the report on the records `window`.
pub open spec fn table_of_window(
    window: Seq<EntryView>,
    since: Option<Seq<char>>,
    lines: Seq<Seq<char>>,
) -> bool {
    exists|rows: Seq<ReportRow>| #[trigger]
        report_of_window(window, rows) && lines == table_lines(rows, window.len(), since)
}

/// What `build_report` owes: a note where the log is empty; the refusal of a
/// start that is no timestamp, then of a format that is none; a note where
/// no record lies in the window; else the report on the records of the
/// window, as a table or as rows.
pub open spec fn report_contract(
    entries: Seq<EntryView>,
    since: Option<Seq<char>>,
    format: Seq<char>,
    r: Result<Report, ReportError>,
) -> bool {
    if entries.len() == 0 {
        r matches Ok(Report::EmptyLog)
    } else if since is Some && rfc3339_instant(since->0) is None {
        r matches Err(ReportError::InvalidSince(raw)) && raw@ == since->0
    } else if report_format_named(format) is None {
        r matches Err(ReportError::UnsupportedFormat(name)) && name@ == lower_text(format)
    } else {
        let start = match since {
            Some(raw) => rfc3339_instant(raw),
            None => None,
        };
        let window = window_of(entries, start);
        if window.len() == 0 {
            r matches Ok(Report::EmptyWindow)
        } else {
            match r {
                Ok(Report::Table(lines)) => report_format_named(format) == Some(ReportFormat::Table)
                    && table_of_window(window, since, texts(lines@)),
                Ok(Report::Rows(rows)) => report_format_named(format) == Some(ReportFormat::Json)
                    && report_of_window(window, rows@),
                _ => false,
            }
        }
    }
}

/// Makes the report on the records `entries` of the change log, from the
/// timestamp `since` on where one is given, in the format named `format`.
pub fn build_report(entries: &Vec<LoggedEntry>, since: Option<&str>, format: &str) -> (r: Result<
    Report,
    ReportError,
>)
    ensures
        report_contract(entry_views(entries@), opt_str_view(since), format@, r),
{
    if entries.len() == 0 {
        return Ok(Report::EmptyLog);
    }
    let start: Option<i128> = match since {
        Some(raw) => match parse_instant(raw) {
            Some(at) => Some(at),
            None => {
                return Err(ReportError::InvalidSince(raw.to_owned()));
            },
        },
        None => None,
    };
    let wanted = match ReportFormat::from_str(format) {
        Some(wanted) => wanted,
        None => {
            return Err(ReportError::UnsupportedFormat(format.to_lowercase()));
        },
    };
    let kept = entries_since(entries, start);
    if kept.len() == 0 {
        return Ok(Report::EmptyWindow);
    }
    let rows = summarize_log(&kept);
    let ghost window = window_of(entry_views(entries@), start);
    assert(report_of_window(window, rows@)) by {
        assert(entry_views(kept@) == window && is_report(kept@, rows@));
    }
    assert(window.len() == kept.len());
    match wanted {
        ReportFormat::Table => {
            let lines = report_table(&rows, kept.len(), since);
            assert(table_of_window(window, opt_str_view(since), texts(lines@))) by {
                assert(report_of_window(window, rows@) && texts(lines@) == table_lines(
                    rows@,
                    window.len(),
                    opt_str_view(since),
                ));
            }
            Ok(Report::Table(lines))
        },
        ReportFormat::Json => Ok(Report::Rows(rows)),
    }
}

} // verus!
