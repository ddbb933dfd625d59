//! The change log: what one record holds, and how many records are kept.

use vstd::prelude::*;

verus! {

/// The most records the change log keeps.
pub const MAX_ENTRIES: usize = 500;

/// What happened to a range of lines.
#[derive(Debug, Clone, Copy, PartialEq, Eq)]
pub enum LineSpanKind {
    /// Lines of the old text that were deleted or replaced.
    Modified,
    /// Lines of the new text that were inserted.
    Added,
}

/// A range of lines, numbered from one, both ends included.
#[derive(Debug, Clone, Copy, PartialEq, Eq)]
pub struct LineSpan {
    pub kind: LineSpanKind,
    pub start: usize,
    pub end: usize,
}

/// A record to be written to the change log.
#[derive(Debug, Clone)]
pub struct ChangeLogEntry {
    pub timestamp: String,
    pub command: String,
    pub path: String,
    pub action: String,
    pub line_summary: String,
    /// The changed ranges; `None` where there are none.
    pub spans: Option<Vec<LineSpan>>,
}

/// A record read back from the change log.
#[derive(Debug, Clone)]
pub struct LoggedEntry {
    pub timestamp: String,
    pub command: String,
    pub path: String,
    pub action: String,
    pub line_summary: String,
    pub spans: Vec<LineSpan>,
}

/// A record of the change log as the contracts see it.
pub struct EntryView {
    pub timestamp: Seq<char>,
    pub command: Seq<char>,
    pub path: Seq<char>,
    pub action: Seq<char>,
    pub line_summary: Seq<char>,
    pub spans: Seq<LineSpan>,
}

impl View for LoggedEntry {
    type V = EntryView;

    open spec fn view(&self) -> EntryView {
        EntryView {
            timestamp: self.timestamp@,
            command: self.command@,
            path: self.path@,
            action: self.action@,
            line_summary: self.line_summary@,
            spans: self.spans@,
        }
    }
}

/// The views of a sequence of records.
pub open spec fn entry_views(entries: Seq<LoggedEntry>) -> Seq<EntryView> {
    Seq::new(entries.len(), |i: int| entries[i]@)
}

impl LoggedEntry {
    /// A copy of the record.
    pub fn copy(&self) -> (r: Self)
        ensures
            r@ == self@,
    {
        let mut spans: Vec<LineSpan> = Vec::new();
        let mut i: usize = 0;
        while i < self.spans.len()
            invariant
                i <= self.spans.len(),
                spans@ == self.spans@.take(i as int),
            decreases self.spans.len() - i,
        {
            spans.push(self.spans[i]);
            i += 1;
        }
        assert(self.spans@.take(self.spans.len() as int) =~= self.spans@);
        LoggedEntry {
            timestamp: self.timestamp.clone(),
            command: self.command.clone(),
            path: self.path.clone(),
            action: self.action.clone(),
            line_summary: self.line_summary.clone(),
            spans,
        }
    }
}

impl LineSpanKind {
    /// The word for this kind in the change log.
    pub fn label(&self) -> (r: &'static str)
        ensures
            r@ == match self {
                LineSpanKind::Modified => "modified"@,
                LineSpanKind::Added => "added"@,
            },
    {
        match self {
            LineSpanKind::Modified => "modified",
            LineSpanKind::Added => "added",
        }
    }
}

/// The record of one change. An empty list of spans is left out of the
/// record.
pub fn change_log_entry(
    timestamp: &str,
    command: &str,
    path: &str,
    action: &str,
    line_summary: &str,
    spans: &Vec<LineSpan>,
) -> (r: ChangeLogEntry)
    ensures
        r.timestamp@ == timestamp@,
        r.command@ == command@,
        r.path@ == path@,
        r.action@ == action@,
        r.line_summary@ == line_summary@,
        match r.spans {
            Some(kept) => spans@.len() > 0 && kept@ == spans@,
            None => spans@.len() == 0,
        },
{
    let kept: Option<Vec<LineSpan>> = if spans.len() == 0 {
        None
    } else {
        let mut copy: Vec<LineSpan> = Vec::new();
        let mut i: usize = 0;
        while i < spans.len()
            invariant
                i <= spans.len(),
                copy@ == spans@.take(i as int),
            decreases spans.len() - i,
        {
            copy.push(spans[i]);
            i += 1;
        }
        assert(spans@.take(spans.len() as int) =~= spans@);
        Some(copy)
    };
    ChangeLogEntry {
        timestamp: timestamp.to_owned(),
        command: command.to_owned(),
        path: path.to_owned(),
        action: action.to_owned(),
        line_summary: line_summary.to_owned(),
        spans: kept,
    }
}

/// The index of the first of `total` records that is kept when only the last
/// `keep` are: everything is kept where there are no more than `keep`.
pub fn first_kept(total: usize, keep: usize) -> (start: usize)
    ensures
        start == if total > keep {
            total - keep
        } else {
            0
        },
        start <= total,
        total - start <= keep,
{
    if total > keep {
        total - keep
    } else {
        0
    }
}

} // verus!
