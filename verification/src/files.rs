//! File entries and the names of paths.
//!
//! Paths are held as text. How a path falls into components is decided by the
//! platform's rules in the standard library; what is concluded from the
//! components is decided here.

use vstd::prelude::*;
use vstd::string::StringExecFns;

use crate::chars::{all_in, all_of, CharClass};
use crate::lines::texts;
use crate::numbers::{decimal, decimal_chars, lemma_decimal_digits};
use crate::text::{has_suffix, comes_before, lemma_text_order_total, lemma_text_order_transitive, text_before, 
    ascii_lowercase, ascii_lowered, chars_of, occurs_at, push_all, same_chars, matches_at,
    string_of,
};

verus! {

/// A file to work on.
#[derive(Debug, Clone)]
pub struct FileEntry {
    pub path: String,
    pub metadata: FileMetadata,
}

/// What is known of a file before it is read.
#[derive(Debug, Clone, Copy, PartialEq, Eq)]
pub struct FileMetadata {
    pub len: u64,
    pub is_probably_binary: bool,
}

/// One component of a path.
#[derive(Debug, Clone)]
pub struct PathPart {
    /// Whether the component is an ordinary name: neither a root or a prefix
    /// nor `.` or `..`.
    pub normal: bool,
    /// The component as text.
    pub text: String,
}

/// `std::path::Path::components` splits the path by the platform's rules;
/// each component is copied as text (`Component::as_os_str`), with a mark on
/// those that are `Component::Normal`. Nothing is claimed of the split: it
/// depends on the platform.
#[verifier::external_body]
fn path_parts(path: &str) -> Vec<PathPart> {
    std::path::Path::new(path).components().map(|component| PathPart {
        normal: matches!(component, std::path::Component::Normal(_)),
        text: component.as_os_str().to_string_lossy().into_owned(),
    }).collect()
}

/// `std::path::Path::file_name` gives the last component of the path where it
/// is an ordinary name. Nothing is claimed of the answer: it depends on the
/// platform.
#[verifier::external_body]
fn path_file_name(path: &str) -> Option<String> {
    std::path::Path::new(path).file_name().map(|name| name.to_string_lossy().into_owned())
}

/// A text that ends a file name on every platform: it holds no separator of
/// paths, and it is not made of dots alone.
pub open spec fn plain_ending(s: Seq<char>) -> bool {
    &&& forall|i: int| 0 <= i < s.len() ==> #[trigger] s[i] != '/' && s[i] != '\\'
    &&& exists|i: int| 0 <= i < s.len() && #[trigger] s[i] != '.'
}

/// `std::path::Path::with_file_name` replaces the last component of the path
/// by `name`: it drops the file name that the path has and extends what is
/// left with `name`. How the path is split depends on the platform. On every
/// platform the new path ends as `name` ends, as far as that ending holds no
/// separator and is a name, not a reference to a directory: such an ending is
/// part of the last component that is put at the end.
#[verifier::external_body]
fn path_with_file_name(path: &str, name: &str) -> (r: String)
    ensures
        forall|s: Seq<char>|
            has_suffix(name@, s) && plain_ending(s) ==> #[trigger] has_suffix(r@, s),
{
    std::path::Path::new(path).with_file_name(name).to_string_lossy().into_owned()
}

/// `std::path::Path::join` puts `relative` under `root`, and keeps an
/// absolute `relative` as it is. Nothing is claimed of the answer: it depends
/// on the platform.
#[verifier::external_body]
fn path_under(root: &str, relative: &str) -> String {
    std::path::Path::new(root).join(relative).to_string_lossy().into_owned()
}

/// Some part of `parts` begins with a dot; with `normal_only`, some ordinary
/// name among them does.
pub open spec fn some_part_dotted(parts: Seq<PathPart>, normal_only: bool) -> bool {
    exists|i: int|
        0 <= i < parts.len() && (#[trigger] parts[i]).text@.len() > 0 && parts[i].text@[0] == '.'
            && (parts[i].normal || !normal_only)
}

/// Whether some part of `parts` begins with a dot; with `normal_only`, whether
/// some ordinary name among them does.
pub fn any_part_dotted(parts: &Vec<PathPart>, normal_only: bool) -> (r: bool)
    ensures
        r == some_part_dotted(parts@, normal_only),
{
    let mut i: usize = 0;
    while i < parts.len()
        invariant
            i <= parts.len(),
            forall|k: int|
                0 <= k < i ==> !((#[trigger] parts@[k]).text@.len() > 0 && parts@[k].text@[0] == '.'
                    && (parts@[k].normal || !normal_only)),
        decreases parts.len() - i,
    {
        let text = chars_of(parts[i].text.as_str());
        if text.len() > 0 && text[0] == '.' && (parts[i].normal || !normal_only) {
            return true;
        }
        i += 1;
    }
    false
}

/// Whether a component of `path` begins with a dot: a hidden name, but also
/// `.` and `..`.
pub fn path_components_start_with_dot(path: &str) -> bool {
    let parts = path_parts(path);
    any_part_dotted(&parts, false)
}

/// Whether an ordinary name among the components of `path` begins with a dot.
pub fn has_hidden_component(path: &str) -> bool {
    let parts = path_parts(path);
    any_part_dotted(&parts, true)
}

/// `s` with every backslash turned into a slash.
pub open spec fn with_forward_slashes(s: Seq<char>) -> Seq<char> {
    Seq::new(
        s.len(),
        |i: int|
            if s[i] == '\\' {
                '/'
            } else {
                s[i]
            },
    )
}

/// `path` with every backslash turned into a slash.
pub fn normalize_slashes(path: &str) -> (r: String)
    ensures
        r@ == with_forward_slashes(path@),
{
    let chars = chars_of(path);
    let mut out: Vec<char> = Vec::new();
    let mut i: usize = 0;
    while i < chars.len()
        invariant
            i <= chars.len(),
            chars@ == path@,
            out.len() == i,
            forall|k: int| 0 <= k < i ==> out@[k] == with_forward_slashes(path@)[k],
        decreases chars.len() - i,
    {
        out.push(if chars[i] == '\\' {
            '/'
        } else {
            chars[i]
        });
        i += 1;
    }
    assert(out@ =~= with_forward_slashes(path@));
    string_of(out.as_slice())
}

/// A character that cannot stand in a file name on some platform.
pub open spec fn unsafe_in_name(c: char) -> bool {
    c == '\\' || c == '/' || c == ':' || c == '*' || c == '?' || c == '"' || c == '<' || c == '>'
        || c == '|'
}

/// `s` with every character that is unsafe in a file name turned into an
/// underscore.
pub open spec fn sanitized(s: Seq<char>) -> Seq<char> {
    Seq::new(
        s.len(),
        |i: int|
            if unsafe_in_name(s[i]) {
                '_'
            } else {
                s[i]
            },
    )
}

/// `path` as one file name: every separator and every character that is
/// unsafe in a file name becomes an underscore.
pub fn sanitize_path(path: &str) -> (r: String)
    ensures
        r@ == sanitized(path@),
{
    let chars = chars_of(path);
    let mut out: Vec<char> = Vec::new();
    let mut i: usize = 0;
    while i < chars.len()
        invariant
            i <= chars.len(),
            chars@ == path@,
            out.len() == i,
            forall|k: int| 0 <= k < i ==> out@[k] == sanitized(path@)[k],
        decreases chars.len() - i,
    {
        let ch = chars[i];
        let bad = ch == '\\' || ch == '/' || ch == ':' || ch == '*' || ch == '?' || ch == '"' || ch
            == '<' || ch == '>' || ch == '|';
        out.push(if bad {
            '_'
        } else {
            ch
        });
        i += 1;
    }
    assert(out@ =~= sanitized(path@));
    string_of(out.as_slice())
}

/// The characters `.bak`.
pub open spec fn bak() -> Seq<char> {
    seq!['.', 'b', 'a', 'k']
}

/// `name` is the name of a backup: in small letters it holds `.bak`, and
/// after the last `.bak` come only digits, or nothing.
pub open spec fn is_backup_name(name: Seq<char>) -> bool {
    let lower = ascii_lowered(name);
    exists|at: int|
        #[trigger] occurs_at(lower, bak(), at) && (forall|later: int|
            at < later ==> !occurs_at(lower, bak(), later)) && all_in(
            lower.skip(at + 4),
            CharClass::Digit,
        )
}

/// Whether `name` is the name of a backup file.
pub fn backup_name(name: &str) -> (r: bool)
    ensures
        r == is_backup_name(name@),
{
    let chars = chars_of(name);
    let lower = ascii_lowercase(chars.as_slice());
    let needle: Vec<char> = vec!['.', 'b', 'a', 'k'];
    assert(needle@ =~= bak());
    if lower.len() < 4 {
        assert(forall|at: int| !occurs_at(lower@, bak(), at));
        return false;
    }
    let mut at: usize = lower.len() - 4;
    loop
        invariant
            at + 4 <= lower.len(),
            needle@ == bak(),
            lower@ == ascii_lowered(name@),
            forall|later: int| at < later ==> !occurs_at(lower@, bak(), later),
        decreases at,
    {
        if matches_at(lower.as_slice(), needle.as_slice(), at) {
            let rest = vstd::slice::slice_subrange(lower.as_slice(), at + 4, lower.len());
            assert(rest@ =~= lower@.skip(at + 4));
            let digits = all_of(rest, CharClass::Digit);
            proof {
                if !digits {
                    assert forall|other: int|
                        !(#[trigger] occurs_at(lower@, bak(), other) && (forall|later: int|
                            other < later ==> !occurs_at(lower@, bak(), later)) && all_in(
                            lower@.skip(other + 4),
                            CharClass::Digit,
                        )) by {
                        if occurs_at(lower@, bak(), other) && other < at {
                            assert(occurs_at(lower@, bak(), at as int));
                        }
                    }
                }
            }
            return digits;
        }
        if at == 0 {
            assert(forall|other: int| !occurs_at(lower@, bak(), other));
            return false;
        }
        at -= 1;
    }
}

/// Whether a path whose file name is `name` names a backup file: it does
/// where it has a file name and that is the name of a backup.
pub fn names_backup(name: Option<&str>) -> (r: bool)
    ensures
        r == match name {
            Some(text) => is_backup_name(text@),
            None => false,
        },
{
    match name {
        Some(text) => backup_name(text),
        None => false,
    }
}

/// Whether `path` names a backup file. What the file name of a path is, is
/// asked of the platform.
pub fn is_backup_file(path: &str) -> bool {
    match path_file_name(path) {
        Some(name) => names_backup(Some(name.as_str())),
        None => names_backup(None),
    }
}

/// The suffix of the backup with number `index`: `.bak` for the first, and
/// `.bak` with the number for the others.
pub open spec fn backup_suffix(index: nat) -> Seq<char> {
    if index == 0 {
        bak()
    } else {
        bak() + decimal(index)
    }
}

/// The name of the backup with number `index` of the file named `name`.
pub fn backup_file_name(name: &str, index: usize) -> (r: String)
    ensures
        r@ == name@ + backup_suffix(index as nat),
{
    let mut out = chars_of(name);
    out.push('.');
    out.push('b');
    out.push('a');
    out.push('k');
    assert(out@ =~= name@ + bak());
    if index > 0 {
        let digits = decimal_chars(index as u128);
        push_all(&mut out, digits.as_slice());
        assert(out@ =~= name@ + (bak() + decimal(index as nat)));
    }
    string_of(out.as_slice())
}

/// The name under which a file is backed up where its path has no file name.
pub open spec fn nameless() -> Seq<char> {
    "safeedit_file"@
}

/// The name of the backup with number `index` of a file whose path has the
/// file name `name`; a path without a file name is backed up under a name of
/// its own.
pub fn backup_name_beside(name: Option<&str>, index: usize) -> (r: String)
    ensures
        r@ == match name {
            Some(text) => text@,
            None => nameless(),
        } + backup_suffix(index as nat),
{
    match name {
        Some(text) => backup_file_name(text, index),
        None => backup_file_name("safeedit_file", index),
    }
}

/// The suffix of a backup holds no separator and is not made of dots.
pub proof fn lemma_backup_suffix_plain(index: nat)
    ensures
        plain_ending(backup_suffix(index)),
{
    let suffix = backup_suffix(index);
    assert(suffix[1] == 'b');
    assert forall|i: int| 0 <= i < suffix.len() implies #[trigger] suffix[i] != '/' && suffix[i]
        != '\\' by {
        if i >= 4 {
            lemma_decimal_digits(index);
            assert(suffix[i] == decimal(index)[i - 4]);
        }
    }
}

/// The path of the backup with number `index` of the file at `path`: beside
/// the file, under its name with the backup suffix. What the file name of a
/// path is and how it is replaced is asked of the platform; on every platform
/// the candidate ends with the suffix of the backup.
pub fn backup_candidate(path: &str, index: usize) -> (r: String)
    ensures
        has_suffix(r@, backup_suffix(index as nat)),
{
    let backup = match path_file_name(path) {
        Some(name) => backup_name_beside(Some(name.as_str()), index),
        None => backup_name_beside(None, index),
    };
    proof {
        lemma_backup_suffix_plain(index as nat);
        let suffix = backup_suffix(index as nat);
        let base = backup@.take(backup@.len() - suffix.len());
        assert(backup@.skip(backup@.len() - suffix.len()) =~= suffix);
        assert(has_suffix(backup@, suffix));
    }
    path_with_file_name(path, backup.as_str())
}

/// The path that a patch means by `relative`: itself where it is absolute,
/// else the path under `root`.
pub fn resolve_patch_target(root: &str, relative: &str) -> String {
    path_under(root, relative)
}

/// The paths `paths`, joined by a comma and a space.
pub open spec fn comma_joined(paths: Seq<Seq<char>>) -> Seq<char>
    decreases paths.len(),
{
    if paths.len() == 0 {
        Seq::empty()
    } else if paths.len() == 1 {
        paths[0]
    } else {
        comma_joined(paths.drop_last()) + seq![',', ' '] + paths.last()
    }
}

/// The patch files `patch_files` in one line.
pub fn format_patch_sources(patch_files: &Vec<String>) -> (r: String)
    ensures
        r@ == comma_joined(texts(patch_files@)),
{
    let mut out = String::new();
    let mut i: usize = 0;
    let ghost all = texts(patch_files@);
    assert(all.take(0) =~= Seq::<Seq<char>>::empty());
    while i < patch_files.len()
        invariant
            i <= patch_files.len(),
            all == texts(patch_files@),
            out@ == comma_joined(all.take(i as int)),
        decreases patch_files.len() - i,
    {
        proof {
            assert(all.take(i + 1).drop_last() =~= all.take(i as int));
            assert(all.take(i + 1).last() == patch_files@[i as int]@);
            if i == 0 {
                assert(all.take(1)[0] == patch_files@[0]@);
            }
        }
        if i > 0 {
            out.push(',');
            out.push(' ');
        }
        out.append(patch_files[i].as_str());
        proof {
            if i > 0 {
                assert(out@ =~= comma_joined(all.take(i as int)) + seq![',', ' ']
                    + patch_files@[i as int]@);
            } else {
                assert(out@ =~= patch_files@[0]@);
            }
        }
        i += 1;
    }
    assert(all.take(patch_files.len() as int) =~= all);
    out
}

/// The entries are in the strict order of their paths.
pub open spec fn paths_ascend(entries: Seq<FileEntry>) -> bool {
    forall|i: int, j: int|
        0 <= i < j < entries.len() ==> text_before(
            (#[trigger] entries[i]).path@,
            (#[trigger] entries[j]).path@,
        )
}

/// `entry` is the first of the entries of `given` from index `from` on that
/// has its path.
pub open spec fn first_with_path(given: Seq<FileEntry>, from: int, entry: FileEntry) -> bool {
    exists|k: int|
        from <= k < given.len() && #[trigger] given[k] == entry && forall|m: int|
            from <= m < k ==> (#[trigger] given[m]).path@ != entry.path@
}

/// Some entry of `kept` has the path `path`.
pub open spec fn holds_path(kept: Seq<FileEntry>, path: Seq<char>) -> bool {
    exists|i: int| 0 <= i < kept.len() && (#[trigger] kept[i]).path@ == path
}

/// `kept` holds, in the order of their paths, one entry for every path among
/// the entries of `given` from index `from` on: the first of them with that
/// path.
pub open spec fn kept_from(given: Seq<FileEntry>, from: int, kept: Seq<FileEntry>) -> bool {
    &&& paths_ascend(kept)
    &&& forall|i: int| 0 <= i < kept.len() ==> first_with_path(given, from, #[trigger] kept[i])
    &&& forall|k: int|
        from <= k < given.len() ==> holds_path(kept, (#[trigger] given[k]).path@)
}

/// `kept` holds, in the order of their paths, one entry for every path of
/// `given`: the first entry of `given` with that path.
pub open spec fn deduplicated(given: Seq<FileEntry>, kept: Seq<FileEntry>) -> bool {
    kept_from(given, 0, kept)
}

/// Sorts the entries by path and keeps one entry for each path: the first
/// that was given with it.
pub fn dedup_by_path(entries: &mut Vec<FileEntry>)
    ensures
        deduplicated(old(entries)@, final(entries)@),
{
    let ghost given = entries@;
    let mut rest: Vec<FileEntry> = Vec::new();
    std::mem::swap(entries, &mut rest);
    let mut kept: Vec<FileEntry> = Vec::new();
    while rest.len() > 0
        invariant
            rest@ == given.take(rest.len() as int),
            rest.len() <= given.len(),
            kept_from(given, rest.len() as int, kept@),
        decreases rest.len(),
    {
        let k: usize = rest.len() - 1;
        let entry = rest.pop().unwrap();
        assert(entry == given[k as int]);
        assert(rest@ =~= given.take(k as int));
        let path = chars_of(entry.path.as_str());
        let mut pos: usize = 0;
        while pos < kept.len() && comes_before(
            chars_of(kept[pos].path.as_str()).as_slice(),
            path.as_slice(),
        )
            invariant
                pos <= kept.len(),
                path@ == entry.path@,
                forall|i: int| 0 <= i < pos ==> text_before((#[trigger] kept@[i]).path@, path@),
            decreases kept.len() - pos,
        {
            pos += 1;
        }
        let ghost before = kept@;
        let same = pos < kept.len() && same_chars(
            chars_of(kept[pos].path.as_str()).as_slice(),
            path.as_slice(),
        );
        if same {
            kept.set(pos, entry);
            proof {
                assert forall|i: int, j: int| 0 <= i < j < kept@.len() implies text_before(
                    (#[trigger] kept@[i]).path@,
                    (#[trigger] kept@[j]).path@,
                ) by {
                    assert(kept@[i].path@ == before[i].path@);
                    assert(kept@[j].path@ == before[j].path@);
                }
                assert forall|i: int| 0 <= i < kept@.len() implies first_with_path(
                    given,
                    k as int,
                    #[trigger] kept@[i],
                ) by {
                    if i == pos {
                        assert(given[k as int] == kept@[i]);
                    } else {
                        assert(kept@[i] == before[i]);
                        assert(first_with_path(given, k + 1, before[i]));
                        let m0 = choose|m: int|
                            k + 1 <= m < given.len() && #[trigger] given[m] == before[i]
                                && forall|n: int|
                                k + 1 <= n < m ==> (#[trigger] given[n]).path@ != before[i].path@;
                        if i < pos {
                            assert(text_before(before[i].path@, before[pos as int].path@));
                        } else {
                            assert(text_before(before[pos as int].path@, before[i].path@));
                        }
                        lemma_text_order_total(before[i].path@, path@);
                        assert(given[m0] == kept@[i]);
                    }
                }
                assert forall|m: int| k <= m < given.len() implies holds_path(
                    kept@,
                    (#[trigger] given[m]).path@,
                ) by {
                    if m == k {
                        assert(kept@[pos as int].path@ == given[m].path@);
                    } else {
                        assert(holds_path(before, given[m].path@));
                        let i0 = choose|i: int|
                            0 <= i < before.len() && (#[trigger] before[i]).path@ == given[m].path@;
                        assert(kept@[i0].path@ == given[m].path@);
                    }
                }
            }
        } else {
            kept.insert(pos, entry);
            proof {
                if pos < before.len() {
                    lemma_text_order_total(before[pos as int].path@, path@);
                }
                assert forall|i: int, j: int| 0 <= i < j < kept@.len() implies text_before(
                    (#[trigger] kept@[i]).path@,
                    (#[trigger] kept@[j]).path@,
                ) by {
                    if j == pos {
                        assert(kept@[i] == before[i]);
                    } else if i == pos {
                        assert(kept@[j] == before[j - 1]);
                        if j - 1 > pos {
                            assert(text_before(before[pos as int].path@, before[j - 1].path@));
                            lemma_text_order_transitive(
                                path@,
                                before[pos as int].path@,
                                before[j - 1].path@,
                            );
                        }
                    } else {
                        let bi = if i < pos { i } else { i - 1 };
                        let bj = if j < pos { j } else { j - 1 };
                        assert(kept@[i] == before[bi]);
                        assert(kept@[j] == before[bj]);
                    }
                }
                assert forall|i: int| 0 <= i < kept@.len() implies first_with_path(
                    given,
                    k as int,
                    #[trigger] kept@[i],
                ) by {
                    if i == pos {
                        assert(given[k as int] == kept@[i]);
                    } else {
                        let bi = if i < pos { i } else { i - 1 };
                        assert(kept@[i] == before[bi]);
                        assert(first_with_path(given, k + 1, before[bi]));
                        let m0 = choose|m: int|
                            k + 1 <= m < given.len() && #[trigger] given[m] == before[bi]
                                && forall|n: int|
                                k + 1 <= n < m ==> (#[trigger] given[n]).path@ != before[bi].path@;
                        if bi < pos {
                            assert(text_before(before[bi].path@, path@));
                        } else if bi > pos {
                            assert(text_before(before[pos as int].path@, before[bi].path@));
                            lemma_text_order_transitive(
                                path@,
                                before[pos as int].path@,
                                before[bi].path@,
                            );
                        }
                        lemma_text_order_total(before[bi].path@, path@);
                        assert(given[m0] == kept@[i]);
                    }
                }
                assert forall|m: int| k <= m < given.len() implies holds_path(
                    kept@,
                    (#[trigger] given[m]).path@,
                ) by {
                    if m == k {
                        assert(kept@[pos as int].path@ == given[m].path@);
                    } else {
                        assert(holds_path(before, given[m].path@));
                        let i0 = choose|i: int|
                            0 <= i < before.len() && (#[trigger] before[i]).path@ == given[m].path@;
                        let i1 = if i0 < pos { i0 } else { i0 + 1 };
                        assert(kept@[i1] == before[i0]);
                    }
                }
            }
        }
    }
    *entries = kept;
}

/// The number of bytes at the start of a file that are looked at to tell
/// whether it is binary.
pub const BINARY_CHECK_BYTES: usize = 4096;

/// A zero byte occurs among the first `BINARY_CHECK_BYTES` bytes of `bytes`.
pub open spec fn has_early_zero(bytes: Seq<u8>) -> bool {
    exists|i: int| 0 <= i < bytes.len() && i < BINARY_CHECK_BYTES && bytes[i] == 0
}

/// Whether a file that starts with `prefix` is probably binary: whether a
/// zero byte occurs among the first bytes that are looked at.
pub fn detect_binary(prefix: &[u8]) -> (r: bool)
    ensures
        r == has_early_zero(prefix@),
{
    let mut i: usize = 0;
    while i < prefix.len() && i < BINARY_CHECK_BYTES
        invariant
            i <= prefix.len(),
            i <= BINARY_CHECK_BYTES,
            forall|k: int| 0 <= k < i ==> prefix@[k] != 0,
        decreases prefix.len() - i,
    {
        if prefix[i] == 0 {
            return true;
        }
        i += 1;
    }
    false
}

/// Whether a file is left out of the targets: a hidden one is, unless hidden
/// files are asked for; any other is where an exclusion matches it.
/// `excluded` tells whether one of the exclusion patterns matches; `None`
/// where there are no patterns.
pub fn should_skip(include_hidden: bool, dotted: bool, excluded: Option<bool>) -> (r: bool)
    ensures
        r == if !include_hidden && dotted {
            true
        } else {
            match excluded {
                Some(hit) => hit,
                None => false,
            }
        },
{
    if !include_hidden && dotted {
        return true;
    }
    match excluded {
        Some(hit) => hit,
        None => false,
    }
}

/// `out` holds the texts of `given` that are not empty, each once, in the
/// order in which they first occur.
pub open spec fn unique_nonempty(given: Seq<Seq<char>>, out: Seq<Seq<char>>) -> bool {
    &&& forall|i: int| 0 <= i < out.len() ==> (#[trigger] out[i]).len() > 0
    &&& forall|i: int, j: int| 0 <= i < j < out.len() ==> #[trigger] out[i] != #[trigger] out[j]
    &&& forall|i: int| 0 <= i < out.len() ==> given.contains(#[trigger] out[i])
    &&& forall|k: int|
        0 <= k < given.len() && (#[trigger] given[k]).len() > 0 ==> out.contains(given[k])
    &&& forall|i: int, j: int|
        0 <= i < j < out.len() ==> first_index(given, #[trigger] out[i]) < first_index(
            given,
            #[trigger] out[j],
        )
}

/// The index at which `text` first occurs in `given`.
pub open spec fn first_index(given: Seq<Seq<char>>, text: Seq<char>) -> int {
    given.index_of_first(text)->0
}

/// The candidates `candidates` without the empty ones and without
/// repetitions, in the order in which they first occur.
pub fn push_suffixes(candidates: &Vec<String>) -> (out: Vec<String>)
    ensures
        unique_nonempty(texts(candidates@), texts(out@)),
{
    let ghost given = texts(candidates@);
    let mut out: Vec<String> = Vec::new();
    let mut i: usize = 0;
    assert(texts(out@) =~= Seq::<Seq<char>>::empty());
    while i < candidates.len()
        invariant
            i <= candidates.len(),
            given == texts(candidates@),
            unique_nonempty(given.take(i as int), texts(out@)),
        decreases candidates.len() - i,
    {
        let candidate = &candidates[i];
        let chars = chars_of(candidate.as_str());
        let ghost before = texts(out@);
        let ghost seen = given.take(i as int);
        let ghost now = given.take(i + 1);
        proof {
            assert(now.drop_last() =~= seen);
            assert(now.last() == candidate@);
            assert forall|t: Seq<char>| seen.contains(t) implies now.contains(t) && first_index(
                now,
                t,
            ) == first_index(seen, t) by {
                seen.index_of_first_ensures(t);
                now.index_of_first_ensures(t);
                let a = first_index(seen, t);
                let b = first_index(now, t);
                assert(now[a] == t);
                if b < a {
                    assert(seen[b] == t);
                }
            }
        }
        let mut known = false;
        let mut k: usize = 0;
        while k < out.len()
            invariant
                k <= out.len(),
                chars@ == candidate@,
                known == exists|m: int| 0 <= m < k && #[trigger] out@[m]@ == candidate@,
            decreases out.len() - k,
        {
            if same_chars(chars_of(out[k].as_str()).as_slice(), chars.as_slice()) {
                known = true;
            }
            k += 1;
        }
        if chars.len() > 0 && !known {
            out.push(candidate.clone());
            proof {
                let after = texts(out@);
                assert(after =~= before.push(candidate@));
                assert(!seen.contains(candidate@)) by {
                    if seen.contains(candidate@) {
                        let w = choose|w: int| 0 <= w < seen.len() && seen[w] == candidate@;
                        assert(before.contains(seen[w]));
                        let m = choose|m: int| 0 <= m < before.len() && before[m] == candidate@;
                        assert(out@[m]@ == candidate@);
                    }
                }
                now.index_of_first_ensures(candidate@);
                assert(now[i as int] == candidate@);
                assert(first_index(now, candidate@) == i) by {
                    let b = first_index(now, candidate@);
                    if b < i {
                        assert(seen[b] == candidate@);
                    }
                }
                assert forall|a: int| 0 <= a < after.len() implies now.contains(
                    #[trigger] after[a],
                ) by {
                    if a < before.len() {
                        assert(after[a] == before[a]);
                        assert(seen.contains(before[a]));
                    } else {
                        assert(now[i as int] == after[a]);
                    }
                }
                assert forall|m: int| 0 <= m < now.len() && (#[trigger] now[m]).len()
                    > 0 implies after.contains(now[m]) by {
                    if m < i {
                        assert(now[m] == seen[m]);
                        assert(before.contains(seen[m]));
                        let w = choose|w: int| 0 <= w < before.len() && before[w] == seen[m];
                        assert(after[w] == now[m]);
                    } else {
                        assert(after[after.len() - 1] == now[m]);
                    }
                }
                assert forall|a: int, b: int| 0 <= a < b < after.len() implies first_index(
                    now,
                    #[trigger] after[a],
                ) < first_index(now, #[trigger] after[b]) by {
                    assert(after[a] == before[a]);
                    assert(seen.contains(before[a]));
                    seen.index_of_first_ensures(before[a]);
                    if b < before.len() {
                        assert(after[b] == before[b]);
                        assert(seen.contains(before[b]));
                    }
                }
                assert forall|a: int, b: int| 0 <= a < b < after.len() implies #[trigger] after[a]
                    != #[trigger] after[b] by {
                    assert(after[a] == before[a]);
                    if b < before.len() {
                        assert(after[b] == before[b]);
                    } else {
                        assert(out@[a]@ == before[a]);
                    }
                }
            }
        } else {
            proof {
                assert forall|a: int| 0 <= a < before.len() implies now.contains(
                    #[trigger] before[a],
                ) by {
                    assert(seen.contains(before[a]));
                }
                assert forall|m: int| 0 <= m < now.len() && (#[trigger] now[m]).len()
                    > 0 implies before.contains(now[m]) by {
                    if m < i {
                        assert(now[m] == seen[m]);
                    } else {
                        let w = choose|w: int| 0 <= w < out@.len() && #[trigger] out@[w]@
                            == candidate@;
                        assert(before[w] == now[m]);
                    }
                }
                assert forall|a: int, b: int| 0 <= a < b < before.len() implies first_index(
                    now,
                    #[trigger] before[a],
                ) < first_index(now, #[trigger] before[b]) by {
                    assert(seen.contains(before[a]));
                    assert(seen.contains(before[b]));
                }
            }
        }
        i += 1;
    }
    assert(given.take(candidates.len() as int) =~= given);
    out
}

/// The names `names` put together into one path, each under those before
/// it.
fn path_of_names(names: &[String]) -> String {
    let mut path = String::new();
    let mut i: usize = 0;
    while i < names.len()
        invariant
            i <= names.len(),
        decreases names.len() - i,
    {
        path = path_under(path.as_str(), names[i].as_str());
        i += 1;
    }
    path
}

/// The paths to look for when `needle` is not found: `needle` itself, then
/// `needle` with more and more of its leading directories cut off, then its
/// file name alone; without repetitions.
pub fn collect_suffixes(needle: &str) -> (out: Vec<String>)
    ensures
        forall|i: int| 0 <= i < out@.len() ==> (#[trigger] out@[i])@.len() > 0,
        forall|i: int, j: int| 0 <= i < j < out@.len() ==> (#[trigger] out@[i])@ != (
        #[trigger] out@[j])@,
        needle@.len() > 0 ==> out@.len() > 0 && out@[0]@ == needle@,
{
    let mut candidates: Vec<String> = Vec::new();
    candidates.push(needle.to_owned());
    let parts = path_parts(needle);
    let mut names: Vec<String> = Vec::new();
    let mut i: usize = 0;
    while i < parts.len()
        invariant
            i <= parts.len(),
        decreases parts.len() - i,
    {
        if parts[i].normal {
            names.push(parts[i].text.clone());
        }
        i += 1;
    }
    let mut idx: usize = 1;
    while idx < names.len()
        invariant
            1 <= idx,
            candidates@.len() >= 1,
            candidates@[0]@ == needle@,
        decreases names.len() - idx,
    {
        let tail = vstd::slice::slice_subrange(names.as_slice(), idx, names.len());
        candidates.push(path_of_names(tail));
        idx += 1;
    }
    if let Some(name) = path_file_name(needle) {
        candidates.push(name);
    }
    let out = push_suffixes(&candidates);
    proof {
        let given = texts(candidates@);
        let kept = texts(out@);
        assert forall|a: int| 0 <= a < out@.len() implies (#[trigger] out@[a])@.len() > 0 by {
            assert(kept[a].len() > 0);
        }
        assert forall|a: int, b: int| 0 <= a < b < out@.len() implies (#[trigger] out@[a])@ != (
        #[trigger] out@[b])@ by {
            assert(kept[a] != kept[b]);
        }
        if needle@.len() > 0 {
            assert(given[0] == needle@);
            assert(kept.contains(given[0]));
            let w = choose|w: int| 0 <= w < kept.len() && kept[w] == needle@;
            given.index_of_first_ensures(needle@);
            assert(first_index(given, needle@) == 0) by {
                let b = first_index(given, needle@);
                if b > 0 {
                    assert(given[0] == needle@);
                }
            }
            if w > 0 {
                assert(given.contains(kept[0]));
                given.index_of_first_ensures(kept[0]);
                assert(first_index(given, kept[0]) < first_index(given, kept[w]));
            }
            assert(kept[0] == out@[0]@);
        }
    }
    out
}

/// How many directories above the starting one are searched for a path that
/// was not found.
pub const MAX_ASCENT: usize = 64;

/// How many entries of a directory are looked at when its sub-directories are
/// searched.
pub const MAX_SIBLINGS: usize = 256;

/// Some text of `checked` is `candidate`.
pub open spec fn was_checked(checked: Seq<String>, candidate: Seq<char>) -> bool {
    exists|i: int| 0 <= i < checked.len() && (#[trigger] checked[i])@ == candidate
}

/// Takes note of a candidate path. A candidate that was noted before is not
/// to be looked at again: nothing is given back for it. A new one is noted
/// and given back, to be looked for on disk.
pub fn check_candidate(candidate: String, checked: &mut Vec<String>) -> (r: Option<String>)
    ensures
        match r {
            Some(fresh) => !was_checked(old(checked)@, candidate@) && fresh@ == candidate@
                && final(checked)@.len() == old(checked)@.len() + 1 && final(checked)@.drop_last()
                == old(checked)@ && final(checked)@.last()@ == candidate@,
            None => was_checked(old(checked)@, candidate@) && final(checked)@ == old(checked)@,
        },
{
    let chars = chars_of(candidate.as_str());
    let mut i: usize = 0;
    while i < checked.len()
        invariant
            i <= checked.len(),
            chars@ == candidate@,
            *checked == *old(checked),
            forall|k: int| 0 <= k < i ==> (#[trigger] checked@[k])@ != candidate@,
        decreases checked.len() - i,
    {
        if same_chars(chars_of(checked[i].as_str()).as_slice(), chars.as_slice()) {
            return None;
        }
        i += 1;
    }
    checked.push(candidate.clone());
    assert(checked@.drop_last() =~= old(checked)@);
    Some(candidate)
}

/// The texts of `checked` hold `candidate` exactly when it was checked.
proof fn lemma_checked_texts(checked: Seq<String>, candidate: Seq<char>)
    ensures
        was_checked(checked, candidate) <==> texts(checked).contains(candidate),
{
    if was_checked(checked, candidate) {
        let i = choose|i: int| 0 <= i < checked.len() && (#[trigger] checked[i])@ == candidate;
        assert(texts(checked)[i] == candidate);
    }
    if texts(checked).contains(candidate) {
        let i = choose|i: int| 0 <= i < texts(checked).len() && texts(checked)[i] == candidate;
        assert(checked[i]@ == candidate);
    }
}

/// The candidates of `candidates` that are new, in order: those that are not
/// among `checked` and did not come earlier among the candidates.
pub open spec fn fresh_candidates(checked: Seq<Seq<char>>, candidates: Seq<Seq<char>>) -> Seq<
    Seq<char>,
>
    decreases candidates.len(),
{
    if candidates.len() == 0 {
        Seq::empty()
    } else {
        let before = fresh_candidates(checked, candidates.drop_last());
        if checked.contains(candidates.last()) || before.contains(candidates.last()) {
            before
        } else {
            before.push(candidates.last())
        }
    }
}

/// Of the new candidates there are no more than candidates, none is among
/// those checked before, and none occurs twice.
pub proof fn lemma_fresh_candidates(checked: Seq<Seq<char>>, candidates: Seq<Seq<char>>)
    ensures
        fresh_candidates(checked, candidates).len() <= candidates.len(),
        forall|i: int|
            0 <= i < fresh_candidates(checked, candidates).len() ==> !checked.contains(
                #[trigger] fresh_candidates(checked, candidates)[i],
            ) && candidates.contains(fresh_candidates(checked, candidates)[i]),
        forall|i: int, j: int|
            0 <= i < j < fresh_candidates(checked, candidates).len() ==> #[trigger] fresh_candidates(
                checked,
                candidates,
            )[i] != #[trigger] fresh_candidates(checked, candidates)[j],
        forall|k: int|
            0 <= k < candidates.len() ==> checked.contains(#[trigger] candidates[k])
                || fresh_candidates(checked, candidates).contains(candidates[k]),
    decreases candidates.len(),
{
    if candidates.len() > 0 {
        let rest = candidates.drop_last();
        let before = fresh_candidates(checked, rest);
        let now = fresh_candidates(checked, candidates);
        lemma_fresh_candidates(checked, rest);
        assert forall|i: int| 0 <= i < now.len() implies !checked.contains(#[trigger] now[i])
            && candidates.contains(now[i]) by {
            if i < before.len() {
                assert(now[i] == before[i]);
                let k = choose|k: int| 0 <= k < rest.len() && rest[k] == before[i];
                assert(candidates[k] == before[i]);
            } else {
                assert(now[i] == candidates.last());
                assert(candidates[candidates.len() - 1] == now[i]);
            }
        }
        assert forall|i: int, j: int| 0 <= i < j < now.len() implies #[trigger] now[i]
            != #[trigger] now[j] by {
            assert(now[i] == before[i]);
            if j < before.len() {
                assert(now[j] == before[j]);
            }
        }
        assert forall|k: int| 0 <= k < candidates.len() implies checked.contains(
            #[trigger] candidates[k],
        ) || now.contains(candidates[k]) by {
            if k < rest.len() {
                assert(rest[k] == candidates[k]);
                if before.contains(rest[k]) {
                    let w = choose|w: int| 0 <= w < before.len() && before[w] == rest[k];
                    assert(now[w] == rest[k]);
                }
            } else {
                assert(candidates[k] == candidates.last());
                if !checked.contains(candidates.last()) {
                    if before.contains(candidates.last()) {
                        let w = choose|w: int|
                            0 <= w < before.len() && before[w] == candidates.last();
                        assert(now[w] == candidates.last());
                    } else {
                        assert(now[now.len() - 1] == candidates.last());
                    }
                }
            }
        }
    }
}

/// Takes note of the candidates `candidates`, in order, and gives back those
/// that are new: the ones to be looked for on disk. A candidate that was
/// noted before, or that came earlier among the candidates, is not given back.
pub fn note_candidates(candidates: Vec<String>, checked: &mut Vec<String>) -> (fresh: Vec<String>)
    ensures
        texts(fresh@) == fresh_candidates(texts(old(checked)@), texts(candidates@)),
        texts(final(checked)@) == texts(old(checked)@) + texts(fresh@),
{
    let ghost all = texts(candidates@);
    let ghost known = texts(checked@);
    let mut fresh: Vec<String> = Vec::new();
    let mut i: usize = 0;
    proof {
        assert(all.take(0) =~= Seq::<Seq<char>>::empty());
        assert(texts(fresh@) =~= Seq::<Seq<char>>::empty());
        assert(texts(checked@) =~= known + texts(fresh@));
    }
    while i < candidates.len()
        invariant
            i <= candidates.len(),
            all == texts(candidates@),
            known == texts(old(checked)@),
            texts(fresh@) == fresh_candidates(known, all.take(i as int)),
            texts(checked@) == known + texts(fresh@),
        decreases candidates.len() - i,
    {
        let candidate = candidates[i].clone();
        let ghost before = checked@;
        let ghost had = texts(fresh@);
        let ghost wanted = candidate@;
        proof {
            assert(all.take(i + 1).drop_last() =~= all.take(i as int));
            assert(all.take(i + 1).last() == wanted);
            lemma_checked_texts(before, wanted);
            if (known + had).contains(wanted) {
                let w = choose|w: int| 0 <= w < (known + had).len() && (known + had)[w] == wanted;
                if w < known.len() {
                    assert(known[w] == wanted);
                } else {
                    assert(had[w - known.len()] == wanted);
                }
            }
            if known.contains(wanted) {
                let w = choose|w: int| 0 <= w < known.len() && known[w] == wanted;
                assert((known + had)[w] == wanted);
            }
            if had.contains(wanted) {
                let w = choose|w: int| 0 <= w < had.len() && had[w] == wanted;
                assert((known + had)[known.len() + w] == wanted);
            }
        }
        if let Some(found) = check_candidate(candidate, checked) {
            fresh.push(found);
            proof {
                assert(texts(checked@) =~= texts(before).push(wanted)) by {
                    assert forall|k: int| 0 <= k < before.len() implies checked@[k]@
                        == before[k]@ by {
                        assert(checked@.drop_last()[k] == before[k]);
                    }
                }
                assert(texts(fresh@) =~= had.push(wanted));
                assert(texts(checked@) =~= known + texts(fresh@));
            }
        }
        i += 1;
    }
    assert(all.take(candidates.len() as int) =~= all);
    fresh
}

/// Each of `suffixes` put under `current`, in order. How a path is put under
/// another is asked of the platform.
fn paths_under(current: &str, suffixes: &Vec<String>) -> (out: Vec<String>)
    ensures
        out@.len() == suffixes@.len(),
{
    let mut out: Vec<String> = Vec::new();
    let mut i: usize = 0;
    while i < suffixes.len()
        invariant
            i <= suffixes.len(),
            out@.len() == i,
        decreases suffixes.len() - i,
    {
        out.push(path_under(current, suffixes[i].as_str()));
        i += 1;
    }
    out
}

/// The candidates to look for directly under `current`: each of `suffixes`
/// put under it, in order, as far as it was not looked for before. Each is
/// taken note of in `checked`. There is one candidate for each suffix; what
/// is given back is what `note_candidates` gives for them.
pub fn try_direct_candidates(current: &str, suffixes: &Vec<String>, checked: &mut Vec<String>) -> (r:
    Vec<String>)
    ensures
        exists|candidates: Seq<Seq<char>>|
            candidates.len() == suffixes@.len() && texts(r@) == #[trigger] fresh_candidates(
                texts(old(checked)@),
                candidates,
            ),
        r@.len() <= suffixes@.len(),
        texts(final(checked)@) == texts(old(checked)@) + texts(r@),
        forall|i: int| 0 <= i < r@.len() ==> !was_checked(old(checked)@, (#[trigger] r@[i])@),
        forall|i: int, j: int| 0 <= i < j < r@.len() ==> (#[trigger] r@[i])@ != (#[trigger] r@[j])@,
{
    let candidates = paths_under(current, suffixes);
    let ghost given = texts(candidates@);
    let fresh = note_candidates(candidates, checked);
    proof {
        lemma_fresh_candidates(texts(old(checked)@), given);
        assert(given.len() == suffixes@.len());
        assert(texts(fresh@) == fresh_candidates(texts(old(checked)@), given));
        assert forall|i: int| 0 <= i < fresh@.len() implies !was_checked(
            old(checked)@,
            (#[trigger] fresh@[i])@,
        ) by {
            assert(texts(fresh@)[i] == fresh@[i]@);
            lemma_checked_texts(old(checked)@, fresh@[i]@);
        }
        assert forall|i: int, j: int| 0 <= i < j < fresh@.len() implies (#[trigger] fresh@[i])@ != (
        #[trigger] fresh@[j])@ by {
            assert(texts(fresh@)[i] == fresh@[i]@);
            assert(texts(fresh@)[j] == fresh@[j]@);
        }
    }
    fresh
}

/// Those of `items` whose path has exactly one component, in order, where
/// `counts` tells for each item how many components its path has. An item
/// without a count is left out.
pub open spec fn single_part_names(items: Seq<Seq<char>>, counts: Seq<usize>) -> Seq<Seq<char>>
    decreases items.len(),
{
    if items.len() == 0 {
        Seq::empty()
    } else {
        let before = single_part_names(items.drop_last(), counts);
        if items.len() - 1 < counts.len() && counts[items.len() - 1] == 1 {
            before.push(items.last())
        } else {
            before
        }
    }
}

/// Of the names with one component there are no more than items, and each is
/// one of the items.
pub proof fn lemma_single_part_names(items: Seq<Seq<char>>, counts: Seq<usize>)
    ensures
        single_part_names(items, counts).len() <= items.len(),
        forall|i: int|
            0 <= i < single_part_names(items, counts).len() ==> items.contains(
                #[trigger] single_part_names(items, counts)[i],
            ),
    decreases items.len(),
{
    if items.len() > 0 {
        let rest = items.drop_last();
        let before = single_part_names(rest, counts);
        let now = single_part_names(items, counts);
        lemma_single_part_names(rest, counts);
        assert forall|i: int| 0 <= i < now.len() implies items.contains(#[trigger] now[i]) by {
            if i < before.len() {
                assert(now[i] == before[i]);
                let k = choose|k: int| 0 <= k < rest.len() && rest[k] == before[i];
                assert(items[k] == before[i]);
            } else {
                assert(items[items.len() - 1] == now[i]);
            }
        }
    }
}

/// Those of `suffixes` whose path has exactly one component, in order, where
/// `counts` tells for each suffix how many components its path has.
pub fn names_of_one_part(suffixes: &Vec<String>, counts: &Vec<usize>) -> (names: Vec<String>)
    ensures
        texts(names@) == single_part_names(texts(suffixes@), counts@),
{
    let ghost all = texts(suffixes@);
    let mut names: Vec<String> = Vec::new();
    let mut i: usize = 0;
    proof {
        assert(all.take(0) =~= Seq::<Seq<char>>::empty());
        assert(texts(names@) =~= Seq::<Seq<char>>::empty());
    }
    while i < suffixes.len()
        invariant
            i <= suffixes.len(),
            all == texts(suffixes@),
            texts(names@) == single_part_names(all.take(i as int), counts@),
        decreases suffixes.len() - i,
    {
        proof {
            assert(all.take(i + 1).drop_last() =~= all.take(i as int));
            assert(all.take(i + 1).last() == suffixes@[i as int]@);
        }
        if i < counts.len() && counts[i] == 1 {
            let ghost before = texts(names@);
            names.push(suffixes[i].clone());
            assert(texts(names@) =~= before.push(suffixes@[i as int]@));
        }
        i += 1;
    }
    assert(all.take(suffixes.len() as int) =~= all);
    names
}

/// How many components the path of each of `suffixes` has. How a path falls
/// into components is asked of the platform.
fn part_counts(suffixes: &Vec<String>) -> (counts: Vec<usize>)
    ensures
        counts@.len() == suffixes@.len(),
{
    let mut counts: Vec<usize> = Vec::new();
    let mut i: usize = 0;
    while i < suffixes.len()
        invariant
            i <= suffixes.len(),
            counts@.len() == i,
        decreases suffixes.len() - i,
    {
        counts.push(path_parts(suffixes[i].as_str()).len());
        i += 1;
    }
    counts
}

/// Those of `suffixes` that are a single name, in order. How many components
/// a path has is asked of the platform; what is given back is what
/// `names_of_one_part` gives for the numbers it tells.
pub fn collect_simple_names(suffixes: &Vec<String>) -> (names: Vec<String>)
    ensures
        exists|counts: Seq<usize>|
            counts.len() == suffixes@.len() && texts(names@) == #[trigger] single_part_names(
                texts(suffixes@),
                counts,
            ),
        names@.len() <= suffixes@.len(),
        forall|i: int| 0 <= i < names@.len() ==> was_checked(suffixes@, (#[trigger] names@[i])@),
{
    let counts = part_counts(suffixes);
    let names = names_of_one_part(suffixes, &counts);
    proof {
        lemma_single_part_names(texts(suffixes@), counts@);
        assert(texts(names@) == single_part_names(texts(suffixes@), counts@));
        assert forall|i: int| 0 <= i < names@.len() implies was_checked(
            suffixes@,
            (#[trigger] names@[i])@,
        ) by {
            assert(texts(names@)[i] == names@[i]@);
            lemma_checked_texts(suffixes@, names@[i]@);
        }
    }
    names
}

} // verus!
