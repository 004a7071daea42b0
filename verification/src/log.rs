//! Parsing the commit records that `git log` prints.
use vstd::prelude::*;
use crate::commands::{field_sep, record_sep};
use crate::git::{Commit, CommitModel};
use crate::text::{
    filter_map, filter_map_prefix, split, split_exec, splitn, splitn_exec, string_from_chars,
    to_chars, trim, trim_bounds, trimmed, views,
};

verus! {

/// The commit that one record describes: the record's five fields, each
/// trimmed; `None` for a blank record or one with fewer fields.
pub open spec fn commit_record_model(rec: Seq<char>) -> Option<CommitModel> {
    if trim(rec).len() == 0 {
        None
    } else {
        let parts = splitn(5, rec, field_sep());
        if parts.len() < 5 {
            None
        } else {
            Some(
                CommitModel {
                    short_hash: trim(parts[0]),
                    author: trim(parts[1]),
                    date: trim(parts[2]),
                    summary: trim(parts[3]),
                    body: trim(parts[4]),
                },
            )
        }
    }
}

/// The commits of a `git log` output written with `log_format()`.
pub open spec fn log_model(s: Seq<char>) -> Seq<CommitModel> {
    filter_map(split(s, record_sep()), |r: Seq<char>| commit_record_model(r))
}

pub open spec fn commits_view(v: Seq<Commit>) -> Seq<CommitModel> {
    v.map_values(|c: Commit| c@)
}

fn commit_of_record(rec: &[char], sep: &Vec<char>) -> (r: Option<Commit>)
    requires
        sep@ == field_sep(),
    ensures
        match r {
            Some(c) => commit_record_model(rec@) == Some(c@),
            None => commit_record_model(rec@) is None,
        },
{
    let (lo, hi) = trim_bounds(rec);
    if lo == hi {
        return None;
    }
    proof {
        reveal_strlit("><><><<>>");
    }
    let parts = splitn_exec(5, rec, sep.as_slice());
    if parts.len() < 5 {
        return None;
    }
    assert(views(parts@)[0] == parts@[0]@);
    assert(views(parts@)[1] == parts@[1]@);
    assert(views(parts@)[2] == parts@[2]@);
    assert(views(parts@)[3] == parts@[3]@);
    assert(views(parts@)[4] == parts@[4]@);
    let short_hash = string_from_chars(trimmed(parts[0].as_slice()).as_slice());
    let author = string_from_chars(trimmed(parts[1].as_slice()).as_slice());
    let date = string_from_chars(trimmed(parts[2].as_slice()).as_slice());
    let summary = string_from_chars(trimmed(parts[3].as_slice()).as_slice());
    let body = string_from_chars(trimmed(parts[4].as_slice()).as_slice());
    Some(Commit { short_hash, summary, body, author, date })
}

/// The commits of a `git log` output written with the format of
/// `commands::log_args`.
pub fn parse_git_log(stdout: &str) -> (r: Vec<Commit>)
    ensures
        commits_view(r@) == log_model(stdout@),
{
    let chars = to_chars(stdout);
    let rsep = to_chars("<<<><<>>>");
    let fsep = to_chars("><><><<>>");
    proof {
        reveal_strlit("<<<><<>>>");
    }
    let records = split_exec(chars.as_slice(), rsep.as_slice());
    let ghost vs = views(records@);
    let ghost f = |r: Seq<char>| commit_record_model(r);
    let mut out: Vec<Commit> = Vec::new();
    let mut i: usize = 0;
    assert(commits_view(out@) =~= Seq::<CommitModel>::empty());
    while i < records.len()
        invariant
            i <= records@.len(),
            vs == views(records@),
            vs == split(stdout@, record_sep()),
            fsep@ == field_sep(),
            f == (|r: Seq<char>| commit_record_model(r)),
            commits_view(out@) == filter_map_prefix(vs, f, i as nat),
        decreases records@.len() - i,
    {
        assert(vs[i as int] == records@[i as int]@);
        match commit_of_record(records[i].as_slice(), &fsep) {
            Some(c) => {
                let ghost before = out@;
                out.push(c);
                assert(commits_view(out@) =~= commits_view(before).push(c@));
            },
            None => {},
        }
        i = i + 1;
    }
    out
}

} // verus!
