//! Parsing the output of `git diff --compact-summary`.
use vstd::prelude::*;
use crate::git::{opt_view, FileChange, FileChangeModel, GitDiffSummary, GitFileChangeType};
use crate::text::{
    after, before, contains, copy_range, count_char, count_char_exec, ends_with, ends_with_exec,
    filter_map, filter_map_prefix, first_token, first_token_exec, lines, parse_u32,
    parse_u32_exec, push_all, split_lines, split_once_exec, starts_with, starts_with_exec,
    lemma_find_after, string_from_chars, strip_suffix, to_chars, trim, trimmed, views,
};

verus! {

/// The old and new paths of a rename line `old => new`, or of its short form
/// `prefix{old => new}suffix`.
pub open spec fn renamed_paths(fp: Seq<char>) -> (Seq<char>, Seq<char>) {
    let lhs = before(fp, " => "@);
    let rhs = after(fp, " => "@);
    if contains(lhs, seq!['{']) && contains(rhs, seq!['}']) {
        let prefix = before(lhs, seq!['{']);
        let old = after(lhs, seq!['{']);
        let new = before(rhs, seq!['}']);
        let suffix = after(rhs, seq!['}']);
        (prefix + trim(old) + suffix, prefix + trim(new) + suffix)
    } else {
        (trim(lhs), trim(rhs))
    }
}

/// The added, removed and changed line counts of a `N +++--` column.
pub open spec fn change_counts(cp: Seq<char>) -> Option<(u32, u32, u32)> {
    if starts_with(cp, "Bin"@) {
        None
    } else {
        match first_token(cp) {
            Some(tok) => match parse_u32(tok) {
                Some(total) => Some(
                    (count_char(cp, '+') as u32, count_char(cp, '-') as u32, total),
                ),
                None => None,
            },
            None => None,
        }
    }
}

/// The file change that one `path | N +-` line describes.
pub open spec fn summary_line_model(line: Seq<char>) -> Option<FileChangeModel> {
    let t = trim(line);
    if t.len() == 0 || !contains(t, seq!['|']) {
        None
    } else {
        let fp = trim(before(t, seq!['|']));
        let cp = trim(after(t, seq!['|']));
        let (path, change_type, old_path) = if contains(fp, " => "@) {
            (renamed_paths(fp).1, GitFileChangeType::Renamed, Some(renamed_paths(fp).0))
        } else if ends_with(fp, " (new)"@) {
            (trim(strip_suffix(fp, " (new)"@)), GitFileChangeType::Added, None)
        } else if ends_with(fp, " (gone)"@) {
            (trim(strip_suffix(fp, " (gone)"@)), GitFileChangeType::Deleted, None)
        } else {
            (fp, GitFileChangeType::Modified, None)
        };
        let counts = change_counts(cp);
        Some(
            FileChangeModel {
                path,
                change_type,
                old_path,
                is_binary: starts_with(cp, "Bin"@),
                additions: match counts {
                    Some(c) => Some(c.0),
                    None => None,
                },
                deletions: match counts {
                    Some(c) => Some(c.1),
                    None => None,
                },
                changes: match counts {
                    Some(c) => Some(c.2),
                    None => None,
                },
            },
        )
    }
}

fn concat3(a: &[char], b: &[char], c: &[char]) -> (r: String)
    ensures
        r@ == a@ + b@ + c@,
{
    let mut v: Vec<char> = Vec::new();
    push_all(&mut v, a);
    push_all(&mut v, b);
    push_all(&mut v, c);
    assert(v@ =~= a@ + b@ + c@);
    string_from_chars(v.as_slice())
}

fn renamed_paths_exec(fp: &[char]) -> (r: (String, String))
    requires
        contains(fp@, " => "@),
    ensures
        (r.0@, r.1@) == renamed_paths(fp@),
{
    let arrow = to_chars(" => ");
    let open = ['{'];
    let close = ['}'];
    assert(open@ == seq!['{']);
    assert(close@ == seq!['}']);
    match split_once_exec(fp, arrow.as_slice()) {
        Some((lhs, rhs)) => {
            match (
                split_once_exec(lhs.as_slice(), open.as_slice()),
                split_once_exec(rhs.as_slice(), close.as_slice()),
            ) {
                (Some((prefix, old)), Some((new, suffix))) => {
                    let old_t = trimmed(old.as_slice());
                    let new_t = trimmed(new.as_slice());
                    (
                        concat3(prefix.as_slice(), old_t.as_slice(), suffix.as_slice()),
                        concat3(prefix.as_slice(), new_t.as_slice(), suffix.as_slice()),
                    )
                },
                _ => {
                    let l = trimmed(lhs.as_slice());
                    let r = trimmed(rhs.as_slice());
                    (string_from_chars(l.as_slice()), string_from_chars(r.as_slice()))
                },
            }
        },
        None => {
            assert(false);
            (String::new(), String::new())
        },
    }
}

fn change_counts_exec(cp: &[char]) -> (r: Option<(u32, u32, u32)>)
    ensures
        r == change_counts(cp@),
{
    if starts_with_exec(cp, to_chars("Bin").as_slice()) {
        return None;
    }
    match first_token_exec(cp) {
        Some(tok) => match parse_u32_exec(tok.as_slice()) {
            Some(total) => {
                let plus = count_char_exec(cp, '+');
                let minus = count_char_exec(cp, '-');
                Some((plus as u32, minus as u32, total))
            },
            None => None,
        },
        None => None,
    }
}

fn summary_line_chars(line: &[char]) -> (r: Option<FileChange>)
    ensures
        match r {
            Some(c) => summary_line_model(line@) == Some(c@),
            None => summary_line_model(line@) is None,
        },
{
    let t = trimmed(line);
    let bar = ['|'];
    assert(bar@ == seq!['|']);
    if t.len() == 0 {
        return None;
    }
    let (fp0, cp0) = match split_once_exec(t.as_slice(), bar.as_slice()) {
        Some(parts) => parts,
        None => {
            return None;
        },
    };
    let fp = trimmed(fp0.as_slice());
    let cp = trimmed(cp0.as_slice());
    let new_suffix = to_chars(" (new)");
    let gone_suffix = to_chars(" (gone)");
    let (path, change_type, old_path) = if crate::text::find_exec(
        fp.as_slice(),
        to_chars(" => ").as_slice(),
    ).is_some() {
        let (o, n) = renamed_paths_exec(fp.as_slice());
        (n, GitFileChangeType::Renamed, Some(o))
    } else if ends_with_exec(fp.as_slice(), new_suffix.as_slice()) {
        let name = copy_range(fp.as_slice(), 0, fp.len() - new_suffix.len());
        assert(name@ =~= strip_suffix(fp@, " (new)"@));
        (string_from_chars(trimmed(name.as_slice()).as_slice()), GitFileChangeType::Added, None)
    } else if ends_with_exec(fp.as_slice(), gone_suffix.as_slice()) {
        let name = copy_range(fp.as_slice(), 0, fp.len() - gone_suffix.len());
        assert(name@ =~= strip_suffix(fp@, " (gone)"@));
        (string_from_chars(trimmed(name.as_slice()).as_slice()), GitFileChangeType::Deleted, None)
    } else {
        (string_from_chars(fp.as_slice()), GitFileChangeType::Modified, None)
    };
    let is_binary = starts_with_exec(cp.as_slice(), to_chars("Bin").as_slice());
    let counts = change_counts_exec(cp.as_slice());
    let (additions, deletions, changes) = match counts {
        Some((a, d, c)) => (Some(a), Some(d), Some(c)),
        None => (None, None, None),
    };
    Some(FileChange { path, change_type, old_path, is_binary, additions, deletions, changes })
}

/// The file change that one line of `git diff --compact-summary` describes:
/// `None` for a blank line or one without `|` (such as the totals line).
pub fn parse_compact_summary_line(line: &str) -> (r: Option<FileChange>)
    ensures
        match r {
            Some(c) => summary_line_model(line@) == Some(c@),
            None => summary_line_model(line@) is None,
        },
{
    let chars = to_chars(line);
    summary_line_chars(chars.as_slice())
}

// ---------------------------------------------------------------------------
// Whole summaries
// ---------------------------------------------------------------------------

/// The file changes of a compact summary, in order.
pub open spec fn summary_files_model(s: Seq<char>) -> Seq<FileChangeModel> {
    filter_map(lines(s), |l: Seq<char>| summary_line_model(l))
}

pub open spec fn changes_view(v: Seq<FileChange>) -> Seq<FileChangeModel> {
    v.map_values(|c: FileChange| c@)
}

/// The sum of the added lines of the changes.
pub open spec fn total_additions(v: Seq<FileChangeModel>) -> nat
    decreases v.len(),
{
    if v.len() == 0 {
        0
    } else {
        total_additions(v.drop_last()) + match v.last().additions {
            Some(a) => a as nat,
            None => 0,
        }
    }
}

/// The sum of the removed lines of the changes.
pub open spec fn total_deletions(v: Seq<FileChangeModel>) -> nat
    decreases v.len(),
{
    if v.len() == 0 {
        0
    } else {
        total_deletions(v.drop_last()) + match v.last().deletions {
            Some(d) => d as nat,
            None => 0,
        }
    }
}

/// The totals of a summary exceed what a `u32` holds.
pub open spec fn summary_overflows(s: Seq<char>) -> bool {
    total_additions(summary_files_model(s)) > u32::MAX || total_deletions(summary_files_model(s))
        > u32::MAX
}

/// The summary of a `git diff --compact-summary` output comparing the given
/// commits, or `None` when its line totals exceed what a `u32` holds.
pub fn summarize_compact_output(
    stdout: &str,
    commit_a: Option<String>,
    commit_b: Option<String>,
) -> (r: Option<GitDiffSummary>)
    ensures
        r is None <==> summary_overflows(stdout@),
        r matches Some(sm) ==> {
            &&& changes_view(sm.files@) == summary_files_model(stdout@)
            &&& sm.total_additions == total_additions(summary_files_model(stdout@))
            &&& sm.total_deletions == total_deletions(summary_files_model(stdout@))
            &&& sm.total_files_changed == summary_files_model(stdout@).len() as u32
            &&& opt_view(sm.commit_a) == opt_view(commit_a)
            &&& opt_view(sm.commit_b) == opt_view(commit_b)
        },
{
    let chars = to_chars(stdout);
    let ls = split_lines(chars.as_slice());
    let ghost vs = views(ls@);
    let ghost f = |l: Seq<char>| summary_line_model(l);
    let mut files: Vec<FileChange> = Vec::new();
    let mut adds: u64 = 0;
    let mut dels: u64 = 0;
    let mut too_big = false;
    let mut i: usize = 0;
    assert(changes_view(files@) =~= Seq::<FileChangeModel>::empty());
    while i < ls.len()
        invariant
            i <= ls@.len(),
            vs == views(ls@),
            vs == lines(stdout@),
            f == (|l: Seq<char>| summary_line_model(l)),
            changes_view(files@) == filter_map_prefix(vs, f, i as nat),
            !too_big ==> adds == total_additions(changes_view(files@)) && adds <= u32::MAX,
            !too_big ==> dels == total_deletions(changes_view(files@)) && dels <= u32::MAX,
            too_big ==> total_additions(changes_view(files@)) > u32::MAX || total_deletions(
                changes_view(files@),
            ) > u32::MAX,
        decreases ls@.len() - i,
    {
        assert(vs[i as int] == ls@[i as int]@);
        match summary_line_chars(ls[i].as_slice()) {
            Some(c) => {
                let ghost before = files@;
                let a = match c.additions {
                    Some(a) => a,
                    None => 0,
                };
                let d = match c.deletions {
                    Some(d) => d,
                    None => 0,
                };
                files.push(c);
                assert(changes_view(files@) =~= changes_view(before).push(files@.last()@));
                assert(changes_view(files@).drop_last() =~= changes_view(before));
                if !too_big {
                    adds = adds + a as u64;
                    dels = dels + d as u64;
                    if adds > 0xFFFF_FFFF || dels > 0xFFFF_FFFF {
                        too_big = true;
                    }
                } else {
                    proof {
                        lemma_totals_grow(changes_view(before), files@.last()@);
                    }
                }
            },
            None => {},
        }
        i = i + 1;
    }
    if too_big {
        return None;
    }
    let n = files.len() as u32;
    Some(
        GitDiffSummary {
            commit_a,
            commit_b,
            files,
            total_files_changed: n,
            total_additions: adds as u32,
            total_deletions: dels as u32,
        },
    )
}

proof fn lemma_totals_grow(v: Seq<FileChangeModel>, c: FileChangeModel)
    ensures
        total_additions(v.push(c)) >= total_additions(v),
        total_deletions(v.push(c)) >= total_deletions(v),
{
    assert(v.push(c).drop_last() =~= v);
}

/// A rename written `prefix{old => new}suffix` (with no `{` in the prefix,
/// no `}` in the new part, and its ` => ` the first one) names the old path
/// `prefix` + `old` + `suffix` and the new path `prefix` + `new` + `suffix`,
/// the parts in braces trimmed: both keep the common prefix and suffix.
pub proof fn law_brace_rename_paths(prefix: Seq<char>, old: Seq<char>, new: Seq<char>, suffix: Seq<char>)
    requires
        !contains(prefix, seq!['{']),
        !contains(prefix + seq!['{'] + old + " =>"@, " => "@),
        !contains(new, seq!['}']),
    ensures
        renamed_paths(prefix + seq!['{'] + old + " => "@ + new + seq!['}'] + suffix) == (
            prefix + trim(old) + suffix,
            prefix + trim(new) + suffix,
        ),
{
    reveal_strlit(" => ");
    reveal_strlit(" =>");
    let arrow = " => "@;
    let lhs = prefix + seq!['{'] + old;
    let rhs = new + seq!['}'] + suffix;
    let fp = prefix + seq!['{'] + old + arrow + new + seq!['}'] + suffix;
    assert(arrow.drop_last() =~= " =>"@);
    assert(fp =~= lhs + arrow + rhs);
    lemma_find_after(lhs, arrow, rhs);
    assert(before(fp, arrow) =~= lhs);
    assert(after(fp, arrow) =~= rhs);
    assert(seq!['{'].drop_last() =~= Seq::<char>::empty());
    assert(prefix + Seq::<char>::empty() =~= prefix);
    assert(lhs =~= prefix + seq!['{'] + old + Seq::<char>::empty());
    lemma_find_after(prefix, seq!['{'], old);
    assert(before(lhs, seq!['{']) =~= prefix);
    assert(after(lhs, seq!['{']) =~= old);
    assert(new + Seq::<char>::empty() =~= new);
    lemma_find_after(new, seq!['}'], suffix);
    assert(before(rhs, seq!['}']) =~= new);
    assert(after(rhs, seq!['}']) =~= suffix);
}

} // verus!
