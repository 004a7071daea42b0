//! The argument lists of the git commands the server runs.
use vstd::prelude::*;
use crate::git::{algo_name, opt_view, strings_view, GitFlags};
use crate::text::{decimal, push_decimal, push_str, string_from_chars};

verus! {

/// `prefix` followed by the decimal digits of `n`.
pub fn str_with_number(prefix: &str, n: u32) -> (s: String)
    ensures
        s@ == prefix@ + decimal(n as nat),
{
    let mut v: Vec<char> = Vec::new();
    push_str(&mut v, prefix);
    push_decimal(&mut v, n as u64);
    assert(v@ =~= prefix@ + decimal(n as nat));
    string_from_chars(v.as_slice())
}

/// `a` followed by `b`.
pub fn str_concat(a: &str, b: &str) -> (s: String)
    ensures
        s@ == a@ + b@,
{
    let mut v: Vec<char> = Vec::new();
    push_str(&mut v, a);
    push_str(&mut v, b);
    assert(v@ =~= a@ + b@);
    string_from_chars(v.as_slice())
}

fn push_arg(args: &mut Vec<String>, a: &str)
    ensures
        strings_view(final(args)@) == strings_view(old(args)@).push(a@),
{
    let s = a.to_owned();
    args.push(s);
    assert(strings_view(args@) =~= strings_view(old(args)@).push(a@));
}

fn push_string(args: &mut Vec<String>, a: String)
    ensures
        strings_view(final(args)@) == strings_view(old(args)@).push(a@),
{
    let ghost v = a@;
    args.push(a);
    assert(strings_view(args@) =~= strings_view(old(args)@).push(v));
}

fn push_strings(args: &mut Vec<String>, more: &Vec<String>)
    ensures
        strings_view(final(args)@) == strings_view(old(args)@) + strings_view(more@),
{
    let mut i: usize = 0;
    while i < more.len()
        invariant
            i <= more@.len(),
            strings_view(args@) == strings_view(old(args)@) + strings_view(more@).take(i as int),
        decreases more@.len() - i,
    {
        let ghost before = args@;
        push_string(args, more[i].clone());
        assert(strings_view(more@).take(i + 1) =~= strings_view(more@).take(i as int).push(
            more@[i as int]@,
        ));
        i = i + 1;
    }
    assert(strings_view(more@).take(i as int) =~= strings_view(more@));
}

// ---------------------------------------------------------------------------
// Which commits a diff compares
// ---------------------------------------------------------------------------

/// The commits that git compares: both when both are given, a commit and its
/// parent (`a^`) when only the first is given, the working tree otherwise.
pub open spec fn effective_commits_model(a: Option<Seq<char>>, b: Option<Seq<char>>) -> (
    Option<Seq<char>>,
    Option<Seq<char>>,
) {
    match (a, b) {
        (Some(x), Some(y)) => (Some(x), Some(y)),
        (Some(x), None) => (Some(x + "^"@), Some(x)),
        _ => (None, None),
    }
}

pub open spec fn opt_str_view(o: Option<&str>) -> Option<Seq<char>> {
    match o {
        Some(s) => Some(s@),
        None => None,
    }
}

pub fn effective_commits(a: Option<&str>, b: Option<&str>) -> (r: (Option<String>, Option<String>))
    ensures
        (opt_view(r.0), opt_view(r.1)) == effective_commits_model(opt_str_view(a), opt_str_view(b)),
{
    match (a, b) {
        (Some(x), Some(y)) => (Some(x.to_owned()), Some(y.to_owned())),
        (Some(x), None) => (Some(str_concat(x, "^")), Some(x.to_owned())),
        _ => (None, None),
    }
}

// ---------------------------------------------------------------------------
// Argument lists
// ---------------------------------------------------------------------------

pub open spec fn opt_arg(a: Option<Seq<char>>) -> Seq<Seq<char>> {
    match a {
        Some(x) => seq![x],
        None => seq![],
    }
}

pub open spec fn flag_arg(b: bool, a: Seq<char>) -> Seq<Seq<char>> {
    if b {
        seq![a]
    } else {
        seq![]
    }
}

/// `-- p1 p2 ...` when paths are given.
pub open spec fn paths_args(paths: Option<Seq<Seq<char>>>) -> Seq<Seq<char>> {
    match paths {
        Some(ps) => seq!["--"@] + ps,
        None => seq![],
    }
}

pub open spec fn unified_arg(f: GitFlags) -> Seq<char> {
    "--unified="@ + decimal(f.context_lines as nat)
}

pub open spec fn algo_arg(f: GitFlags) -> Seq<char> {
    "--diff-algorithm="@ + algo_name(f.diff_algo)
}

/// `git diff --patch ...` between two commits, a commit and its parent, or
/// the working tree and the index (or the index and `HEAD` when `cached`).
pub open spec fn diff_args_model(
    a: Option<Seq<char>>,
    b: Option<Seq<char>>,
    f: GitFlags,
    paths: Option<Seq<Seq<char>>>,
    cached: bool,
) -> Seq<Seq<char>> {
    let (ea, eb) = effective_commits_model(a, b);
    seq!["diff"@, "--patch"@, "--no-color"@, "--find-renames"@, "--find-copies"@, unified_arg(f), algo_arg(f)]
        + flag_arg(cached, "--cached"@) + flag_arg(f.ignore_all_space, "--ignore-all-space"@)
        + opt_arg(ea) + opt_arg(eb) + paths_args(paths)
}

/// `git show --patch ...` of one commit.
pub open spec fn show_args_model(c: Seq<char>, f: GitFlags, paths: Option<Seq<Seq<char>>>) -> Seq<
    Seq<char>,
> {
    seq!["show"@, "--patch"@, "--no-color"@, "--find-renames"@, "--find-copies"@, unified_arg(f), algo_arg(f), "--pretty=format:"@]
        + flag_arg(f.ignore_all_space, "--ignore-all-space"@) + seq![c] + paths_args(paths)
}

/// `git diff --compact-summary ...`.
pub open spec fn summary_args_model(a: Option<Seq<char>>, b: Option<Seq<char>>, cached: bool) -> Seq<
    Seq<char>,
> {
    let (ea, eb) = effective_commits_model(a, b);
    seq!["diff"@, "--compact-summary"@, "--stat=10000000"@] + flag_arg(cached, "--cached"@) + opt_arg(
        ea,
    ) + opt_arg(eb)
}

/// The separator before each commit record of `git log`.
pub open spec fn record_sep() -> Seq<char> {
    "<<<><<>>>"@
}

/// The separator between the fields of a commit record.
pub open spec fn field_sep() -> Seq<char> {
    "><><><<>>"@
}

/// The `--pretty` format: hash, author, date, subject and body.
pub open spec fn log_format() -> Seq<char> {
    record_sep() + "%h"@ + field_sep() + "%an"@ + field_sep() + "%ad"@ + field_sep() + "%s"@
        + field_sep() + "%b"@
}

/// `git log ...` of a branch (of `HEAD` when none is given).
pub open spec fn log_args_model(branch: Option<Seq<char>>, max_count: u32) -> Seq<Seq<char>> {
    seq!["log"@, "--max-count="@ + decimal(max_count as nat), "--pretty=format:"@ + log_format(), "--date=iso"@]
        + opt_arg(branch)
}

fn push_opt(args: &mut Vec<String>, a: &Option<String>)
    ensures
        strings_view(final(args)@) == strings_view(old(args)@) + opt_arg(opt_view(*a)),
{
    match a {
        Some(x) => {
            push_string(args, x.clone());
        },
        None => {},
    }
    assert(strings_view(args@) =~= strings_view(old(args)@) + opt_arg(opt_view(*a)));
}

fn push_paths(args: &mut Vec<String>, paths: Option<&Vec<String>>)
    ensures
        strings_view(final(args)@) == strings_view(old(args)@) + paths_args(
            match paths {
                Some(p) => Some(strings_view(p@)),
                None => None,
            },
        ),
{
    match paths {
        Some(ps) => {
            push_arg(args, "--");
            let ghost mid = strings_view(args@);
            push_strings(args, ps);
            assert(strings_view(args@) =~= strings_view(old(args)@) + (seq!["--"@]
                + strings_view(ps@)));
        },
        None => {
            assert(strings_view(args@) =~= strings_view(old(args)@) + Seq::<Seq<char>>::empty());
        },
    }
}

pub open spec fn opt_vec_view(p: Option<&Vec<String>>) -> Option<Seq<Seq<char>>> {
    match p {
        Some(v) => Some(strings_view(v@)),
        None => None,
    }
}

/// The arguments of `git diff`, with the commits it compares.
pub fn diff_args(
    commit_a: Option<&str>,
    commit_b: Option<&str>,
    flags: &GitFlags,
    paths: Option<&Vec<String>>,
    cached: bool,
) -> (r: (Vec<String>, Option<String>, Option<String>))
    ensures
        strings_view(r.0@) == diff_args_model(
            opt_str_view(commit_a),
            opt_str_view(commit_b),
            *flags,
            opt_vec_view(paths),
            cached,
        ),
        (opt_view(r.1), opt_view(r.2)) == effective_commits_model(
            opt_str_view(commit_a),
            opt_str_view(commit_b),
        ),
{
    let mut args: Vec<String> = Vec::new();
    push_arg(&mut args, "diff");
    push_arg(&mut args, "--patch");
    push_arg(&mut args, "--no-color");
    push_arg(&mut args, "--find-renames");
    push_arg(&mut args, "--find-copies");
    push_string(&mut args, str_with_number("--unified=", flags.context_lines));
    push_string(&mut args, str_concat("--diff-algorithm=", flags.diff_algo.as_str()));
    let ghost head = strings_view(args@);
    if cached {
        push_arg(&mut args, "--cached");
    }
    if flags.ignore_all_space {
        push_arg(&mut args, "--ignore-all-space");
    }
    let ghost flagged = strings_view(args@);
    assert(flagged =~= head + flag_arg(cached, "--cached"@) + flag_arg(
        flags.ignore_all_space,
        "--ignore-all-space"@,
    ));
    let (ea, eb) = effective_commits(commit_a, commit_b);
    push_opt(&mut args, &ea);
    push_opt(&mut args, &eb);
    push_paths(&mut args, paths);
    assert(head =~= seq!["diff"@, "--patch"@, "--no-color"@, "--find-renames"@, "--find-copies"@, unified_arg(*flags), algo_arg(*flags)]);
    assert(strings_view(args@) =~= diff_args_model(
        opt_str_view(commit_a),
        opt_str_view(commit_b),
        *flags,
        opt_vec_view(paths),
        cached,
    ));
    (args, ea, eb)
}

/// The arguments of `git show` for one commit.
pub fn show_args(commit: &str, flags: &GitFlags, paths: Option<&Vec<String>>) -> (r: Vec<String>)
    ensures
        strings_view(r@) == show_args_model(commit@, *flags, opt_vec_view(paths)),
{
    let mut args: Vec<String> = Vec::new();
    push_arg(&mut args, "show");
    push_arg(&mut args, "--patch");
    push_arg(&mut args, "--no-color");
    push_arg(&mut args, "--find-renames");
    push_arg(&mut args, "--find-copies");
    push_string(&mut args, str_with_number("--unified=", flags.context_lines));
    push_string(&mut args, str_concat("--diff-algorithm=", flags.diff_algo.as_str()));
    push_arg(&mut args, "--pretty=format:");
    let ghost head = strings_view(args@);
    if flags.ignore_all_space {
        push_arg(&mut args, "--ignore-all-space");
    }
    push_arg(&mut args, commit);
    let ghost mid = strings_view(args@);
    push_paths(&mut args, paths);
    assert(head =~= seq!["show"@, "--patch"@, "--no-color"@, "--find-renames"@, "--find-copies"@, unified_arg(*flags), algo_arg(*flags), "--pretty=format:"@]);
    assert(mid =~= head + flag_arg(flags.ignore_all_space, "--ignore-all-space"@) + seq![commit@]);
    assert(strings_view(args@) =~= show_args_model(commit@, *flags, opt_vec_view(paths)));
    args
}

/// The arguments of `git diff --compact-summary`, with the commits it
/// compares.
pub fn summary_args(commit_a: Option<&str>, commit_b: Option<&str>, cached: bool) -> (r: (
    Vec<String>,
    Option<String>,
    Option<String>,
))
    ensures
        strings_view(r.0@) == summary_args_model(
            opt_str_view(commit_a),
            opt_str_view(commit_b),
            cached,
        ),
        (opt_view(r.1), opt_view(r.2)) == effective_commits_model(
            opt_str_view(commit_a),
            opt_str_view(commit_b),
        ),
{
    let mut args: Vec<String> = Vec::new();
    push_arg(&mut args, "diff");
    push_arg(&mut args, "--compact-summary");
    push_arg(&mut args, "--stat=10000000");
    let ghost head = strings_view(args@);
    if cached {
        push_arg(&mut args, "--cached");
    }
    let ghost flagged = strings_view(args@);
    assert(flagged =~= head + flag_arg(cached, "--cached"@));
    let (ea, eb) = effective_commits(commit_a, commit_b);
    push_opt(&mut args, &ea);
    push_opt(&mut args, &eb);
    assert(head =~= seq!["diff"@, "--compact-summary"@, "--stat=10000000"@]);
    assert(strings_view(args@) =~= summary_args_model(
        opt_str_view(commit_a),
        opt_str_view(commit_b),
        cached,
    ));
    (args, ea, eb)
}

/// The arguments of `git log` for at most `max_count` commits.
pub fn log_args(branch: Option<&str>, max_count: u32) -> (r: Vec<String>)
    ensures
        strings_view(r@) == log_args_model(opt_str_view(branch), max_count),
{
    let mut args: Vec<String> = Vec::new();
    push_arg(&mut args, "log");
    push_string(&mut args, str_with_number("--max-count=", max_count));
    let mut fmt: Vec<char> = Vec::new();
    push_str(&mut fmt, "--pretty=format:");
    push_str(&mut fmt, "<<<><<>>>");
    push_str(&mut fmt, "%h");
    push_str(&mut fmt, "><><><<>>");
    push_str(&mut fmt, "%an");
    push_str(&mut fmt, "><><><<>>");
    push_str(&mut fmt, "%ad");
    push_str(&mut fmt, "><><><<>>");
    push_str(&mut fmt, "%s");
    push_str(&mut fmt, "><><><<>>");
    push_str(&mut fmt, "%b");
    assert(fmt@ =~= "--pretty=format:"@ + log_format());
    push_string(&mut args, string_from_chars(fmt.as_slice()));
    push_arg(&mut args, "--date=iso");
    let ghost head = strings_view(args@);
    match branch {
        Some(b) => {
            push_arg(&mut args, b);
        },
        None => {},
    }
    assert(head =~= seq!["log"@, "--max-count="@ + decimal(max_count as nat), "--pretty=format:"@ + log_format(), "--date=iso"@]);
    assert(strings_view(args@) =~= log_args_model(opt_str_view(branch), max_count));
    args
}

/// `git fetch --all`.
pub fn fetch_args() -> (r: Vec<String>)
    ensures
        strings_view(r@) == seq!["fetch"@, "--all"@],
{
    let mut args: Vec<String> = Vec::new();
    push_arg(&mut args, "fetch");
    push_arg(&mut args, "--all");
    args
}

/// `git branch --list --all --no-color`.
pub fn branch_list_args() -> (r: Vec<String>)
    ensures
        strings_view(r@) == seq!["branch"@, "--list"@, "--all"@, "--no-color"@],
{
    let mut args: Vec<String> = Vec::new();
    push_arg(&mut args, "branch");
    push_arg(&mut args, "--list");
    push_arg(&mut args, "--all");
    push_arg(&mut args, "--no-color");
    args
}

/// `git tag --list --no-color`.
pub fn tag_list_args() -> (r: Vec<String>)
    ensures
        strings_view(r@) == seq!["tag"@, "--list"@, "--no-color"@],
{
    let mut args: Vec<String> = Vec::new();
    push_arg(&mut args, "tag");
    push_arg(&mut args, "--list");
    push_arg(&mut args, "--no-color");
    args
}

/// `git ls-files --others --exclude-standard`.
pub fn untracked_list_args() -> (r: Vec<String>)
    ensures
        strings_view(r@) == seq!["ls-files"@, "--others"@, "--exclude-standard"@],
{
    let mut args: Vec<String> = Vec::new();
    push_arg(&mut args, "ls-files");
    push_arg(&mut args, "--others");
    push_arg(&mut args, "--exclude-standard");
    args
}

/// `git worktree list --porcelain`.
pub fn worktree_list_args() -> (r: Vec<String>)
    ensures
        strings_view(r@) == seq!["worktree"@, "list"@, "--porcelain"@],
{
    let mut args: Vec<String> = Vec::new();
    push_arg(&mut args, "worktree");
    push_arg(&mut args, "list");
    push_arg(&mut args, "--porcelain");
    args
}

/// The flags `f` with whitespace ignored or not.
pub open spec fn with_ignore_all_space(f: GitFlags, v: bool) -> GitFlags {
    GitFlags { ignore_all_space: v, ..f }
}

/// Ignoring whitespace adds exactly one argument, `--ignore-all-space`, to
/// both `git diff` and `git show`, among the options (before the commits and
/// paths): `git show` of one commit honours the setting as `git diff` does.
pub proof fn law_ignore_all_space_argument(
    a: Option<Seq<char>>,
    b: Option<Seq<char>>,
    c: Seq<char>,
    f: GitFlags,
    paths: Option<Seq<Seq<char>>>,
    cached: bool,
)
    ensures
        show_args_model(c, with_ignore_all_space(f, true), paths) == show_args_model(
            c,
            with_ignore_all_space(f, false),
            paths,
        ).insert(8, "--ignore-all-space"@),
        diff_args_model(a, b, with_ignore_all_space(f, true), paths, cached) == diff_args_model(
            a,
            b,
            with_ignore_all_space(f, false),
            paths,
            cached,
        ).insert(if cached { 8 } else { 7 }, "--ignore-all-space"@),
        show_args_model(c, with_ignore_all_space(f, false), paths)[8] == c,
{
    let t = with_ignore_all_space(f, true);
    let u = with_ignore_all_space(f, false);
    assert(show_args_model(c, t, paths) =~= show_args_model(c, u, paths).insert(
        8,
        "--ignore-all-space"@,
    ));
    assert(diff_args_model(a, b, t, paths, cached) =~= diff_args_model(a, b, u, paths, cached).insert(
        if cached { 8 } else { 7 },
        "--ignore-all-space"@,
    ));
}

} // verus!
