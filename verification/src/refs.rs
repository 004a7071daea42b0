//! Parsing the branch and tag listings of git.
use vstd::prelude::*;
use crate::git::{BranchModel, GitBranch, GitTag, TagModel};
use crate::text::{
    after, before, contains, copy_range, filter_map, filter_map_prefix, lemma_filter_map_nonblank,
    lemma_filter_map_from, lemma_find, lemma_trim_exact, lemma_trim_leading_spaces, lines,
    nonblank_count, is_ws, lemma_find_after, find, matches_at, trim_start,
    split_lines, split_once_exec, starts_with, starts_with_exec, string_from_chars, strip_prefix,
    to_chars, trim, trimmed, views, ws_index, ws_index_exec,
};

verus! {

/// The second `/`-separated part of a name that holds a `/`
/// (`x.split('/').nth(1)`).
pub open spec fn second_segment(x: Seq<char>) -> Seq<char> {
    let rest = after(x, seq!['/']);
    if contains(rest, seq!['/']) {
        before(rest, seq!['/'])
    } else {
        rest
    }
}

/// A branch named `name_part` as listed; a `remotes/` name is a remote
/// branch of the remote named by its second part.
pub open spec fn branch_model(name_part: Seq<char>, is_current: bool, points_to: Option<Seq<char>>) -> BranchModel {
    let is_remote = starts_with(name_part, "remotes/"@);
    BranchModel {
        name: if is_remote {
            strip_prefix(name_part, "remotes/"@)
        } else {
            name_part
        },
        is_current,
        is_remote,
        remote: if is_remote {
            Some(second_segment(name_part))
        } else {
            None
        },
        points_to,
    }
}

/// The branch that one line of `git branch --list --all` describes: `* `
/// marks the current branch, `+ ` a branch checked out elsewhere, and
/// `name -> target` a symbolic reference.
pub open spec fn branch_line_model(line: Seq<char>) -> Option<BranchModel> {
    let t = trim(line);
    if t.len() == 0 {
        None
    } else {
        let is_current = starts_with(t, "* "@);
        let l1 = if is_current {
            strip_prefix(t, "* "@)
        } else {
            t
        };
        let l2 = if starts_with(l1, "+ "@) {
            strip_prefix(l1, "+ "@)
        } else {
            l1
        };
        if contains(l2, "->"@) {
            Some(branch_model(trim(before(l2, "->"@)), is_current, Some(trim(after(l2, "->"@)))))
        } else {
            Some(branch_model(l2, is_current, None))
        }
    }
}

/// The branches of a `git branch --list --all` listing, one per non-blank
/// line, in order.
pub open spec fn branches_model(s: Seq<char>) -> Seq<BranchModel> {
    filter_map(lines(s), |l: Seq<char>| branch_line_model(l))
}

pub open spec fn branches_view(v: Seq<GitBranch>) -> Seq<BranchModel> {
    v.map_values(|b: GitBranch| b@)
}

fn second_segment_exec(x: &[char]) -> (r: Vec<char>)
    requires
        contains(x@, seq!['/']),
    ensures
        r@ == second_segment(x@),
{
    let slash = ['/'];
    assert(slash@ == seq!['/']);
    match split_once_exec(x, slash.as_slice()) {
        Some((_, rest)) => match split_once_exec(rest.as_slice(), slash.as_slice()) {
            Some((seg, _)) => seg,
            None => rest,
        },
        None => Vec::new(),
    }
}

fn make_branch(name_part: &[char], is_current: bool, points_to: Option<String>) -> (b: GitBranch)
    ensures
        b@ == branch_model(name_part@, is_current, crate::git::opt_view(points_to)),
{
    let remotes = to_chars("remotes/");
    let is_remote = starts_with_exec(name_part, remotes.as_slice());
    if is_remote {
        let name = copy_range(name_part, remotes.len(), name_part.len());
        assert(name@ =~= strip_prefix(name_part@, "remotes/"@));
        proof {
            assert(name_part@.len() >= 8 && name_part@.subrange(7, 8) =~= seq!['/']) by {
                reveal_strlit("remotes/");
                assert("remotes/"@.len() == 8);
                assert("remotes/"@[7] == '/');
                assert(name_part@.take(8) == "remotes/"@);
                assert(name_part@[7] == name_part@.take(8)[7]);
            }
            assert(crate::text::matches_at(name_part@, seq!['/'], 7));
            crate::text::lemma_find(name_part@, seq!['/']);
        }
        let remote = second_segment_exec(name_part);
        GitBranch {
            name: string_from_chars(name.as_slice()),
            is_current,
            is_remote: true,
            remote: Some(string_from_chars(remote.as_slice())),
            points_to,
        }
    } else {
        GitBranch {
            name: string_from_chars(name_part),
            is_current,
            is_remote: false,
            remote: None,
            points_to,
        }
    }
}

fn branch_of_line(line: &[char]) -> (r: Option<GitBranch>)
    ensures
        match r {
            Some(b) => branch_line_model(line@) == Some(b@),
            None => branch_line_model(line@) is None,
        },
{
    let t = trimmed(line);
    if t.len() == 0 {
        return None;
    }
    let star = to_chars("* ");
    let plus = to_chars("+ ");
    let is_current = starts_with_exec(t.as_slice(), star.as_slice());
    let l1 = if is_current {
        copy_range(t.as_slice(), star.len(), t.len())
    } else {
        t
    };
    assert(l1@ =~= (if is_current {
        strip_prefix(trim(line@), "* "@)
    } else {
        trim(line@)
    }));
    let l2 = if starts_with_exec(l1.as_slice(), plus.as_slice()) {
        copy_range(l1.as_slice(), plus.len(), l1.len())
    } else {
        l1
    };
    assert(l2@ =~= (if starts_with(l1@, "+ "@) {
        strip_prefix(l1@, "+ "@)
    } else {
        l1@
    }));
    let arrow = to_chars("->");
    match split_once_exec(l2.as_slice(), arrow.as_slice()) {
        Some((np, tg)) => {
            let name_part = trimmed(np.as_slice());
            let target = trimmed(tg.as_slice());
            Some(make_branch(name_part.as_slice(), is_current, Some(string_from_chars(target.as_slice()))))
        },
        None => Some(make_branch(l2.as_slice(), is_current, None)),
    }
}

/// The branches of a `git branch --list --all --no-color` listing.
pub fn parse_git_branches(output: &str) -> (r: Vec<GitBranch>)
    ensures
        branches_view(r@) == branches_model(output@),
{
    let chars = to_chars(output);
    let ls = split_lines(chars.as_slice());
    let ghost vs = views(ls@);
    let ghost f = |l: Seq<char>| branch_line_model(l);
    let mut r: Vec<GitBranch> = Vec::new();
    let mut i: usize = 0;
    assert(branches_view(r@) =~= Seq::<BranchModel>::empty());
    while i < ls.len()
        invariant
            i <= ls@.len(),
            vs == views(ls@),
            vs == lines(output@),
            f == (|l: Seq<char>| branch_line_model(l)),
            branches_view(r@) == filter_map_prefix(vs, f, i as nat),
        decreases ls@.len() - i,
    {
        assert(vs[i as int] == ls@[i as int]@);
        match branch_of_line(ls[i].as_slice()) {
            Some(b) => {
                let ghost before = r@;
                r.push(b);
                assert(branches_view(r@) =~= branches_view(before).push(b@));
            },
            None => {},
        }
        i = i + 1;
    }
    r
}

/// The tag that one line of `git tag --list` describes: its first word, and
/// what follows the first whitespace after it, if anything does.
pub open spec fn tag_line_model(line: Seq<char>) -> Option<TagModel> {
    let t = trim(line);
    if t.len() == 0 {
        None
    } else {
        let k = ws_index(t);
        Some(
            TagModel {
                name: t.take(k),
                message: if k < t.len() {
                    Some(t.skip(k + 1))
                } else {
                    None
                },
            },
        )
    }
}

/// The tags of a `git tag --list` listing, one per non-blank line, in order.
pub open spec fn tags_model(s: Seq<char>) -> Seq<TagModel> {
    filter_map(lines(s), |l: Seq<char>| tag_line_model(l))
}

pub open spec fn tags_view(v: Seq<GitTag>) -> Seq<TagModel> {
    v.map_values(|t: GitTag| t@)
}

fn tag_of_line(line: &[char]) -> (r: Option<GitTag>)
    ensures
        match r {
            Some(t) => tag_line_model(line@) == Some(t@),
            None => tag_line_model(line@) is None,
        },
{
    let t = trimmed(line);
    if t.len() == 0 {
        return None;
    }
    let k = ws_index_exec(t.as_slice());
    let name = string_from_chars(crate::text::copy_range(t.as_slice(), 0, k).as_slice());
    assert(t@.subrange(0, k as int) =~= t@.take(k as int));
    let message = if k < t.len() {
        let m = copy_range(t.as_slice(), k + 1, t.len());
        assert(m@ =~= t@.skip(k + 1));
        Some(string_from_chars(m.as_slice()))
    } else {
        None
    };
    Some(GitTag { name, message })
}

/// The tags of a `git tag --list --no-color` listing.
pub fn parse_git_tags(output: &str) -> (r: Vec<GitTag>)
    ensures
        tags_view(r@) == tags_model(output@),
{
    let chars = to_chars(output);
    let ls = split_lines(chars.as_slice());
    let ghost vs = views(ls@);
    let ghost f = |l: Seq<char>| tag_line_model(l);
    let mut r: Vec<GitTag> = Vec::new();
    let mut i: usize = 0;
    assert(tags_view(r@) =~= Seq::<TagModel>::empty());
    while i < ls.len()
        invariant
            i <= ls@.len(),
            vs == views(ls@),
            vs == lines(output@),
            f == (|l: Seq<char>| tag_line_model(l)),
            tags_view(r@) == filter_map_prefix(vs, f, i as nat),
        decreases ls@.len() - i,
    {
        assert(vs[i as int] == ls@[i as int]@);
        match tag_of_line(ls[i].as_slice()) {
            Some(t) => {
                let ghost before = r@;
                r.push(t);
                assert(tags_view(r@) =~= tags_view(before).push(t@));
            },
            None => {},
        }
        i = i + 1;
    }
    r
}

/// The first branch from position `i` on that is the current one.
pub open spec fn first_current_from(v: Seq<BranchModel>, i: int) -> Option<BranchModel>
    decreases v.len() - i,
{
    if i < 0 || i >= v.len() {
        None
    } else if v[i].is_current {
        Some(v[i])
    } else {
        first_current_from(v, i + 1)
    }
}

/// The first branch of a listing that is the current one.
pub open spec fn first_current(v: Seq<BranchModel>) -> Option<BranchModel> {
    first_current_from(v, 0)
}

fn current_index(branches: &Vec<GitBranch>) -> (r: usize)
    ensures
        r <= branches@.len(),
        r < branches@.len() ==> first_current(branches_view(branches@)) == Some(branches@[r as int]@),
        r == branches@.len() ==> first_current(branches_view(branches@)) is None,
{
    let ghost bv = branches_view(branches@);
    let mut i: usize = 0;
    while i < branches.len()
        invariant
            i <= branches@.len(),
            bv == branches_view(branches@),
            first_current(bv) == first_current_from(bv, i as int),
        decreases branches@.len() - i,
    {
        assert(bv[i as int] == branches@[i as int]@);
        if branches[i].is_current {
            return i;
        }
        i = i + 1;
    }
    i
}

/// The current branch of a listing, if it has one.
pub fn current_branch(branches: Vec<GitBranch>) -> (r: Option<GitBranch>)
    ensures
        match r {
            Some(b) => first_current(branches_view(branches@)) == Some(b@),
            None => first_current(branches_view(branches@)) is None,
        },
{
    let i = current_index(&branches);
    if i < branches.len() {
        let mut branches = branches;
        let b = branches.remove(i);
        Some(b)
    } else {
        None
    }
}

/// How many tags are sent to the browser at most.
pub const MAX_TAGS_SHOWN: usize = 100;

/// The first `MAX_TAGS_SHOWN` tags.
pub fn tags_to_show(tags: Vec<GitTag>) -> (r: Vec<GitTag>)
    ensures
        r@ == (if tags@.len() <= MAX_TAGS_SHOWN {
            tags@
        } else {
            tags@.take(MAX_TAGS_SHOWN as int)
        }),
{
    let mut tags = tags;
    tags.truncate(MAX_TAGS_SHOWN);
    proof {
        if tags@.len() <= MAX_TAGS_SHOWN {
        }
    }
    tags
}

/// A branch listing has one branch for each non-blank line.
pub proof fn law_one_branch_per_line(s: Seq<char>)
    ensures
        branches_model(s).len() == nonblank_count(lines(s), lines(s).len()),
{
    let f = |l: Seq<char>| branch_line_model(l);
    assert forall|l: Seq<char>| #[trigger] f(l) is Some <==> trim(l).len() > 0 by {}
    lemma_filter_map_nonblank(lines(s), f, lines(s).len());
}

/// A tag listing has one tag for each non-blank line.
pub proof fn law_one_tag_per_line(s: Seq<char>)
    ensures
        tags_model(s).len() == nonblank_count(lines(s), lines(s).len()),
{
    let f = |l: Seq<char>| tag_line_model(l);
    assert forall|l: Seq<char>| #[trigger] f(l) is Some <==> trim(l).len() > 0 by {}
    lemma_filter_map_nonblank(lines(s), f, lines(s).len());
}

/// The current branch found in a listing is marked current.
pub proof fn law_current_is_current(v: Seq<BranchModel>, i: int)
    requires
        0 <= i,
    ensures
        first_current_from(v, i) matches Some(b) ==> b.is_current,
    decreases v.len() - i,
{
    if i < v.len() && !v[i].is_current {
        law_current_is_current(v, i + 1);
    }
}

/// A listed branch is a remote branch exactly when it names its remote.
pub proof fn law_remote_branches_name_their_remote(s: Seq<char>)
    ensures
        forall|i: int|
            0 <= i < branches_model(s).len() ==> (#[trigger] branches_model(s)[i]).is_remote == (
            branches_model(s)[i].remote is Some),
{
    let f = |l: Seq<char>| branch_line_model(l);
    lemma_filter_map_from(lines(s), f, lines(s).len());
    assert forall|i: int| 0 <= i < branches_model(s).len() implies (
    #[trigger] branches_model(s)[i]).is_remote == (branches_model(s)[i].remote is Some) by {
        let j = choose|j: int|
            0 <= j < lines(s).len() && f(lines(s)[j]) == Some(branches_model(s)[i]);
        assert(branch_line_model(lines(s)[j]) == Some(branches_model(s)[i]));
    }
}

/// The line `  name` (or `* name` for the current branch) of a listing
/// describes a remote branch exactly when `name` starts with `remotes/`; a
/// remote branch drops that prefix from its name and names its remote, a
/// local one keeps `name` whole and names no remote, and neither points
/// anywhere.
pub proof fn law_branch_line_remote_by_prefix(name: Seq<char>, current: bool)
    requires
        name.len() > 0,
        !is_ws(name[0]),
        !is_ws(name.last()),
        !starts_with(name, "* "@),
        !starts_with(name, "+ "@),
        !contains(name, "->"@),
    ensures
        ({
            let line = (if current { "* "@ } else { "  "@ }) + name;
            let r = starts_with(name, "remotes/"@);
            &&& branch_line_model(line) is Some
            &&& branch_line_model(line)->0.is_current == current
            &&& branch_line_model(line)->0.is_remote == r
            &&& branch_line_model(line)->0.name == (if r { name.skip(8) } else { name })
            &&& (branch_line_model(line)->0.remote is Some) == r
            &&& branch_line_model(line)->0.points_to is None
        }),
{
    reveal_strlit("* ");
    reveal_strlit("  ");
    reveal_strlit("remotes/");
    if current {
        let line = "* "@ + name;
        assert(line[0] == '*');
        assert(!is_ws('*'));
        assert(line.last() == name.last());
        lemma_trim_exact(line);
        assert(line.take(2) =~= "* "@);
        assert(strip_prefix(line, "* "@) =~= name);
    } else {
        lemma_trim_leading_spaces(name);
    }
}

/// The line `  name -> target` (or `* name -> target`) of a listing is a
/// symbolic reference: it points to `target`, and it is a remote branch
/// exactly when `name` starts with `remotes/`.
pub proof fn law_symbolic_line_remote_by_prefix(name: Seq<char>, target: Seq<char>, current: bool)
    requires
        name.len() > 0,
        !is_ws(name[0]),
        !is_ws(name.last()),
        name[0] != '*',
        name[0] != '+',
        !contains(name, "->"@),
        target.len() > 0,
        !is_ws(target[0]),
        !is_ws(target.last()),
    ensures
        ({
            let line = (if current { "* "@ } else { "  "@ }) + name + " -> "@ + target;
            let r = starts_with(name, "remotes/"@);
            &&& branch_line_model(line) is Some
            &&& branch_line_model(line)->0.is_current == current
            &&& branch_line_model(line)->0.is_remote == r
            &&& branch_line_model(line)->0.name == (if r { name.skip(8) } else { name })
            &&& (branch_line_model(line)->0.remote is Some) == r
            &&& branch_line_model(line)->0.points_to == Some(target)
        }),
{
    reveal_strlit("* ");
    reveal_strlit("  ");
    reveal_strlit(" -> ");
    reveal_strlit("+ ");
    reveal_strlit("->");
    reveal_strlit("remotes/");
    let body = name + " -> "@ + target;
    assert(body[0] == name[0]);
    assert(body.last() == target.last());
    if current {
        let line = "* "@ + body;
        assert(line =~= "* "@ + name + " -> "@ + target);
        assert(line[0] == '*');
        assert(!is_ws('*'));
        assert(line.last() == body.last());
        lemma_trim_exact(line);
        assert(line.take(2) =~= "* "@);
        assert(strip_prefix(line, "* "@) =~= body);
    } else {
        assert("  "@ + name + " -> "@ + target =~= "  "@ + body);
        lemma_trim_leading_spaces(body);
    }
    assert(!starts_with(body, "* "@)) by {
        assert(body.take(2)[0] == name[0]);
    }
    assert(!starts_with(body, "+ "@)) by {
        assert(body.take(2)[0] == name[0]);
    }
    // the first `->` is the one after `name `
    let a = name + seq![' '];
    let q = a + seq!['-'];
    lemma_find(name, "->"@);
    assert(!contains(q, "->"@)) by {
        lemma_find(q, "->"@);
        if find(q, "->"@) is Some {
            let k = find(q, "->"@)->0;
            if k + 2 <= name.len() {
                assert(name.subrange(k, k + 2) =~= q.subrange(k, k + 2));
                assert(matches_at(name, "->"@, k));
            } else {
                assert(q.subrange(k, k + 2)[1] == q[k + 1]);
                assert(q[k + 1] == ' ');
            }
        }
    }
    assert("->"@.drop_last() =~= seq!['-']);
    let b = seq![' '] + target;
    assert(body =~= a + "->"@ + b);
    lemma_find_after(a, "->"@, b);
    assert(before(body, "->"@) =~= a);
    assert(after(body, "->"@) =~= b);
    assert(contains(body, "->"@));
    assert(trim_start(a) == a) by {
        assert(a[0] == name[0]);
    }
    assert(is_ws(' '));
    assert(a.drop_last() =~= name);
    lemma_trim_exact(name);
    assert(trim(a) == name);
    assert(b.drop_first() =~= target);
    lemma_trim_exact(target);
    assert(trim(b) == target);
}

} // verus!
