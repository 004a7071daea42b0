//! Finding repositories below a root, and grouping the worktrees of one
//! repository under a single entry.
use vstd::prelude::*;
use crate::git::{
    opt_view, strings_view, worktrees_view, RepoEntry, RepoEntryModel, Worktree, WorktreeModel,
};
use crate::text::{
    copy_range, lines, split_lines, starts_with, starts_with_exec, string_from_chars,
    strip_prefix, to_chars, views,
};

verus! {

// ---------------------------------------------------------------------------
// `git worktree list --porcelain`
// ---------------------------------------------------------------------------

/// The worktrees read so far, and the one being read.
pub struct WorktreeParse {
    pub done: Seq<WorktreeModel>,
    pub path: Option<Seq<char>>,
    pub branch: Option<Seq<char>>,
}

/// The worktree being read joins the finished ones.
pub open spec fn finish_worktree(st: WorktreeParse) -> Seq<WorktreeModel> {
    match st.path {
        Some(p) => st.done.push(WorktreeModel { path: p, branch: st.branch }),
        None => st.done,
    }
}

/// One line of the listing: `worktree <path>` starts a worktree,
/// `branch refs/heads/<name>` names its branch; other lines are ignored.
pub open spec fn worktree_step(st: WorktreeParse, l: Seq<char>) -> WorktreeParse {
    if starts_with(l, "worktree "@) {
        WorktreeParse {
            done: finish_worktree(st),
            path: Some(strip_prefix(l, "worktree "@)),
            branch: None,
        }
    } else if starts_with(l, "branch refs/heads/"@) {
        WorktreeParse {
            done: st.done,
            path: st.path,
            branch: Some(strip_prefix(l, "branch refs/heads/"@)),
        }
    } else {
        st
    }
}

pub open spec fn worktree_fold(ls: Seq<Seq<char>>, n: nat) -> WorktreeParse
    decreases n,
{
    if n == 0 {
        WorktreeParse { done: seq![], path: None, branch: None }
    } else {
        worktree_step(worktree_fold(ls, (n - 1) as nat), ls[n - 1])
    }
}

/// The worktrees of a `git worktree list --porcelain` output, in order.
pub open spec fn worktrees_model(s: Seq<char>) -> Seq<WorktreeModel> {
    finish_worktree(worktree_fold(lines(s), lines(s).len()))
}

/// The worktrees of a `git worktree list --porcelain` output.
pub fn parse_worktree_list(stdout: &str) -> (r: Vec<Worktree>)
    ensures
        worktrees_view(r@) == worktrees_model(stdout@),
{
    let chars = to_chars(stdout);
    let ls = split_lines(chars.as_slice());
    let ghost vs = views(ls@);
    let wt = to_chars("worktree ");
    let br = to_chars("branch refs/heads/");
    let mut done: Vec<Worktree> = Vec::new();
    let mut path: Option<String> = None;
    let mut branch: Option<String> = None;
    let mut i: usize = 0;
    assert(worktrees_view(done@) =~= Seq::<WorktreeModel>::empty());
    while i < ls.len()
        invariant
            i <= ls@.len(),
            vs == views(ls@),
            vs == lines(stdout@),
            wt@ == "worktree "@,
            br@ == "branch refs/heads/"@,
            worktree_fold(vs, i as nat) == (WorktreeParse {
                done: worktrees_view(done@),
                path: opt_view(path),
                branch: opt_view(branch),
            }),
        decreases ls@.len() - i,
    {
        assert(vs[i as int] == ls@[i as int]@);
        let l = ls[i].as_slice();
        if starts_with_exec(l, wt.as_slice()) {
            match path.take() {
                Some(p) => {
                    let ghost before = done@;
                    let w = Worktree { path: p, branch: branch.take() };
                    let ghost wv = w@;
                    done.push(w);
                    assert(worktrees_view(done@) =~= worktrees_view(before).push(wv));
                },
                None => {},
            }
            let rest = copy_range(l, wt.len(), l.len());
            assert(rest@ =~= strip_prefix(l@, "worktree "@));
            path = Some(string_from_chars(rest.as_slice()));
            branch = None;
        } else if starts_with_exec(l, br.as_slice()) {
            let rest = copy_range(l, br.len(), l.len());
            assert(rest@ =~= strip_prefix(l@, "branch refs/heads/"@));
            branch = Some(string_from_chars(rest.as_slice()));
        }
        i = i + 1;
    }
    match path {
        Some(p) => {
            let ghost before = done@;
            let w = Worktree { path: p, branch };
            let ghost wv = w@;
            done.push(w);
            assert(worktrees_view(done@) =~= worktrees_view(before).push(wv));
        },
        None => {},
    }
    done
}

// ---------------------------------------------------------------------------
// Grouping worktrees
// ---------------------------------------------------------------------------

/// The first `n` worktrees that are among the found repositories.
pub open spec fn relevant_prefix(wts: Seq<WorktreeModel>, paths: Seq<Seq<char>>, n: nat) -> Seq<
    WorktreeModel,
>
    decreases n,
{
    if n == 0 {
        seq![]
    } else {
        let prev = relevant_prefix(wts, paths, (n - 1) as nat);
        if paths.contains(wts[n - 1].path) {
            prev.push(wts[n - 1])
        } else {
            prev
        }
    }
}

/// The worktrees that are among the found repositories, in order.
pub open spec fn relevant(wts: Seq<WorktreeModel>, paths: Seq<Seq<char>>) -> Seq<WorktreeModel> {
    relevant_prefix(wts, paths, wts.len())
}

pub open spec fn worktree_paths(wts: Seq<WorktreeModel>) -> Seq<Seq<char>> {
    wts.map_values(|w: WorktreeModel| w.path)
}

/// The paths already listed as worktrees of an entry, and the entries.
pub struct GroupState {
    pub claimed: Seq<Seq<char>>,
    pub entries: Seq<RepoEntryModel>,
}

/// One found repository with its worktrees: skipped when an earlier entry
/// lists it; its own entry when at most one of its worktrees was found;
/// otherwise an entry at its main worktree (the first listed) that lists
/// the found worktrees, which no later repository repeats.
pub open spec fn group_step(
    paths: Seq<Seq<char>>,
    st: GroupState,
    path: Seq<char>,
    wts: Seq<WorktreeModel>,
) -> GroupState {
    if st.claimed.contains(path) {
        st
    } else {
        let main = if wts.len() > 0 {
            wts[0].path
        } else {
            path
        };
        let rel = relevant(wts, paths);
        if rel.len() <= 1 {
            GroupState {
                claimed: st.claimed,
                entries: st.entries.push(RepoEntryModel { path, worktrees: seq![] }),
            }
        } else {
            GroupState {
                claimed: st.claimed + worktree_paths(rel),
                entries: st.entries.push(RepoEntryModel { path: main, worktrees: rel }),
            }
        }
    }
}

pub open spec fn group_fold(
    paths: Seq<Seq<char>>,
    wts: Seq<Seq<WorktreeModel>>,
    n: nat,
) -> GroupState
    decreases n,
{
    if n == 0 {
        GroupState { claimed: seq![], entries: seq![] }
    } else {
        group_step(paths, group_fold(paths, wts, (n - 1) as nat), paths[n - 1], wts[n - 1])
    }
}

/// The repository entries for the found repositories `paths`, where
/// `wts[i]` are the worktrees git lists for `paths[i]`.
pub open spec fn group_model(paths: Seq<Seq<char>>, wts: Seq<Seq<WorktreeModel>>) -> Seq<
    RepoEntryModel,
> {
    group_fold(paths, wts, paths.len()).entries
}

pub open spec fn entries_view(v: Seq<RepoEntry>) -> Seq<RepoEntryModel> {
    v.map_values(|e: RepoEntry| e@)
}

pub open spec fn worktree_lists_view(v: Seq<Vec<Worktree>>) -> Seq<Seq<WorktreeModel>> {
    v.map_values(|l: Vec<Worktree>| worktrees_view(l@))
}

fn contains_string(v: &Vec<String>, x: &String) -> (r: bool)
    ensures
        r == strings_view(v@).contains(x@),
{
    let mut i: usize = 0;
    while i < v.len()
        invariant
            i <= v@.len(),
            forall|k: int| 0 <= k < i ==> strings_view(v@)[k] != x@,
        decreases v@.len() - i,
    {
        if v[i] == *x {
            assert(strings_view(v@)[i as int] == x@);
            return true;
        }
        i = i + 1;
    }
    false
}

fn copy_worktree(w: &Worktree) -> (r: Worktree)
    ensures
        r@ == w@,
{
    Worktree { path: w.path.clone(), branch: w.branch.clone() }
}

/// Groups the found repositories `paths` by worktree; `worktrees[i]` are the
/// worktrees that `git worktree list` gives for `paths[i]` (the first one
/// being the main worktree). The paths already claimed are kept in a `Vec`
/// searched in order, whose contents, unlike a hashed set of strings, are
/// stated exactly over its view.
pub fn group_repos_by_worktree(paths: &Vec<String>, worktrees: &Vec<Vec<Worktree>>) -> (r: Vec<
    RepoEntry,
>)
    requires
        worktrees@.len() == paths@.len(),
    ensures
        entries_view(r@) == group_model(strings_view(paths@), worktree_lists_view(worktrees@)),
{
    let ghost ps = strings_view(paths@);
    let ghost ws = worktree_lists_view(worktrees@);
    let mut claimed: Vec<String> = Vec::new();
    let mut entries: Vec<RepoEntry> = Vec::new();
    let mut i: usize = 0;
    assert(strings_view(claimed@) =~= Seq::<Seq<char>>::empty());
    assert(entries_view(entries@) =~= Seq::<RepoEntryModel>::empty());
    while i < paths.len()
        invariant
            i <= paths@.len(),
            worktrees@.len() == paths@.len(),
            ps == strings_view(paths@),
            ws == worktree_lists_view(worktrees@),
            group_fold(ps, ws, i as nat) == (GroupState {
                claimed: strings_view(claimed@),
                entries: entries_view(entries@),
            }),
        decreases paths@.len() - i,
    {
        let path = &paths[i];
        let wts = &worktrees[i];
        assert(ps[i as int] == path@);
        assert(ws[i as int] == worktrees_view(wts@));
        if contains_string(&claimed, path) {
            i = i + 1;
            continue;
        }
        let main = if wts.len() > 0 {
            wts[0].path.clone()
        } else {
            path.clone()
        };
        // the worktrees that are among the found repositories
        let mut rel: Vec<Worktree> = Vec::new();
        let mut j: usize = 0;
        assert(worktrees_view(rel@) =~= Seq::<WorktreeModel>::empty());
        while j < wts.len()
            invariant
                j <= wts@.len(),
                ps == strings_view(paths@),
                worktrees_view(rel@) == relevant_prefix(worktrees_view(wts@), ps, j as nat),
            decreases wts@.len() - j,
        {
            assert(worktrees_view(wts@)[j as int] == wts@[j as int]@);
            if contains_string(paths, &wts[j].path) {
                let ghost before = rel@;
                let w = copy_worktree(&wts[j]);
                rel.push(w);
                assert(worktrees_view(rel@) =~= worktrees_view(before).push(wts@[j as int]@));
            }
            j = j + 1;
        }
        if rel.len() <= 1 {
            let ghost before = entries@;
            let e = RepoEntry { path: path.clone(), worktrees: Vec::new() };
            assert(worktrees_view(e.worktrees@) =~= Seq::<WorktreeModel>::empty());
            entries.push(e);
            assert(entries_view(entries@) =~= entries_view(before).push(
                RepoEntryModel { path: path@, worktrees: seq![] },
            ));
        } else {
            let ghost before_claimed = claimed@;
            let mut k: usize = 0;
            while k < rel.len()
                invariant
                    k <= rel@.len(),
                    strings_view(claimed@) == strings_view(before_claimed) + worktree_paths(
                        worktrees_view(rel@),
                    ).take(k as int),
                decreases rel@.len() - k,
            {
                let ghost b = claimed@;
                claimed.push(rel[k].path.clone());
                assert(strings_view(claimed@) =~= strings_view(b).push(rel@[k as int].path@));
                assert(worktree_paths(worktrees_view(rel@)).take(k + 1) =~= worktree_paths(
                    worktrees_view(rel@),
                ).take(k as int).push(rel@[k as int].path@));
                k = k + 1;
            }
            assert(worktree_paths(worktrees_view(rel@)).take(k as int) =~= worktree_paths(
                worktrees_view(rel@),
            ));
            let ghost before = entries@;
            let ghost relv = worktrees_view(rel@);
            let e = RepoEntry { path: main, worktrees: rel };
            entries.push(e);
            assert(entries_view(entries@) =~= entries_view(before).push(
                RepoEntryModel { path: e@.path, worktrees: relv },
            ));
        }
        i = i + 1;
    }
    entries
}

/// Grouping never gives more entries than there are repositories.
pub proof fn law_group_no_more_entries(paths: Seq<Seq<char>>, wts: Seq<Seq<WorktreeModel>>, n: nat)
    requires
        n <= paths.len(),
    ensures
        group_fold(paths, wts, n).entries.len() <= n,
    decreases n,
{
    if n > 0 {
        law_group_no_more_entries(paths, wts, (n - 1) as nat);
    }
}

/// When no repository has two of its worktrees among the found ones, each
/// repository is an entry of its own, in order, with no worktrees listed.
pub proof fn law_group_without_shared_worktrees(
    paths: Seq<Seq<char>>,
    wts: Seq<Seq<WorktreeModel>>,
    n: nat,
)
    requires
        n <= paths.len(),
        n <= wts.len(),
        forall|i: int| 0 <= i < n ==> #[trigger] relevant(wts[i], paths).len() <= 1,
    ensures
        group_fold(paths, wts, n).claimed.len() == 0,
        group_fold(paths, wts, n).entries == paths.take(n as int).map_values(
            |p: Seq<char>| RepoEntryModel { path: p, worktrees: seq![] },
        ),
    decreases n,
{
    if n > 0 {
        law_group_without_shared_worktrees(paths, wts, (n - 1) as nat);
        let prev = group_fold(paths, wts, (n - 1) as nat);
        assert(relevant(wts[n - 1], paths).len() <= 1);
        assert(!prev.claimed.contains(paths[n - 1]));
        assert(paths.take(n as int).map_values(
            |p: Seq<char>| RepoEntryModel { path: p, worktrees: seq![] },
        ) =~= paths.take(n - 1).map_values(
            |p: Seq<char>| RepoEntryModel { path: p, worktrees: seq![] },
        ).push(RepoEntryModel { path: paths[n - 1], worktrees: seq![] }));
    } else {
        assert(paths.take(0).map_values(
            |p: Seq<char>| RepoEntryModel { path: p, worktrees: seq![] },
        ) =~= Seq::<RepoEntryModel>::empty());
    }
}

// ---------------------------------------------------------------------------
// Searching the directory tree
// ---------------------------------------------------------------------------

/// One entry of a directory listing.
pub struct DirEntryInfo {
    pub name: String,
    pub path: String,
    pub is_dir: bool,
}

pub struct DirEntryModel {
    pub name: Seq<char>,
    pub path: Seq<char>,
    pub is_dir: bool,
}

impl View for DirEntryInfo {
    type V = DirEntryModel;

    open spec fn view(&self) -> DirEntryModel {
        DirEntryModel { name: self.name@, path: self.path@, is_dir: self.is_dir }
    }
}

pub open spec fn dir_entries_view(v: Seq<DirEntryInfo>) -> Seq<DirEntryModel> {
    v.map_values(|e: DirEntryInfo| e@)
}

/// The paths of the first `n` entries that are directories.
pub open spec fn subdirs_prefix(es: Seq<DirEntryModel>, n: nat) -> Seq<Seq<char>>
    decreases n,
{
    if n == 0 {
        seq![]
    } else {
        let prev = subdirs_prefix(es, (n - 1) as nat);
        if es[n - 1].is_dir {
            prev.push(es[n - 1].path)
        } else {
            prev
        }
    }
}

pub open spec fn subdirs(es: Seq<DirEntryModel>) -> Seq<Seq<char>> {
    subdirs_prefix(es, es.len())
}

/// A directory is a repository when it holds an entry named `.git`.
pub open spec fn has_git(es: Seq<DirEntryModel>) -> bool {
    exists|i: int| 0 <= i < es.len() && es[i].name == ".git"@
}

/// The directories left to look at (the next one last) and the
/// repositories found, in the order a depth-first search meets them.
pub struct RepoScan {
    pending: Vec<String>,
    found: Vec<String>,
}

pub struct ScanModel {
    pub pending: Seq<Seq<char>>,
    pub found: Seq<Seq<char>>,
}

impl View for RepoScan {
    type V = ScanModel;

    closed spec fn view(&self) -> ScanModel {
        ScanModel { pending: strings_view(self.pending@), found: strings_view(self.found@) }
    }
}

/// The directories of a listing, in the order in which they are to be
/// searched after it.
pub open spec fn visit_model(st: ScanModel, dir: Seq<char>, listing: Option<Seq<DirEntryModel>>) -> ScanModel {
    match listing {
        None => st,
        Some(es) => if has_git(es) {
            ScanModel { pending: st.pending, found: st.found.push(dir) }
        } else {
            ScanModel { pending: st.pending + subdirs(es).reverse(), found: st.found }
        },
    }
}

/// Whether a listing holds `.git`, and the paths of its subdirectories.
fn read_listing(es: &Vec<DirEntryInfo>) -> (r: (bool, Vec<String>))
    ensures
        r.0 == has_git(dir_entries_view(es@)),
        !r.0 ==> strings_view(r.1@) == subdirs(dir_entries_view(es@)),
{
    let ghost ev = dir_entries_view(es@);
    let git = ".git".to_owned();
    let mut subs: Vec<String> = Vec::new();
    let mut i: usize = 0;
    assert(strings_view(subs@) =~= Seq::<Seq<char>>::empty());
    while i < es.len()
        invariant
            i <= es@.len(),
            ev == dir_entries_view(es@),
            git@ == ".git"@,
            forall|k: int| 0 <= k < i ==> ev[k].name != ".git"@,
            strings_view(subs@) == subdirs_prefix(ev, i as nat),
        decreases es@.len() - i,
    {
        assert(ev[i as int] == es@[i as int]@);
        if es[i].name == git {
            assert(ev[i as int].name == ".git"@);
            return (true, subs);
        }
        if es[i].is_dir {
            let ghost before = subs@;
            subs.push(es[i].path.clone());
            assert(strings_view(subs@) =~= strings_view(before).push(ev[i as int].path));
        }
        i = i + 1;
    }
    (false, subs)
}

impl RepoScan {
    /// A search that starts at `root`.
    pub fn new(root: String) -> (s: Self)
        ensures
            s@ == (ScanModel { pending: seq![root@], found: seq![] }),
    {
        let ghost rv = root@;
        let mut pending: Vec<String> = Vec::new();
        pending.push(root);
        let s = RepoScan { pending, found: Vec::new() };
        assert(s@.pending =~= seq![rv]);
        assert(s@.found =~= Seq::<Seq<char>>::empty());
        s
    }

    /// The next directory to list, if any is left.
    pub fn next_dir(&mut self) -> (d: Option<String>)
        ensures
            old(self)@.pending.len() == 0 ==> d is None && final(self)@ == old(self)@,
            old(self)@.pending.len() > 0 ==> d is Some && d->0@ == old(self)@.pending.last()
                && final(self)@ == (ScanModel {
                pending: old(self)@.pending.drop_last(),
                found: old(self)@.found,
            }),
    {
        let d = self.pending.pop();
        proof {
            if old(self).pending@.len() > 0 {
                assert(strings_view(self.pending@) =~= strings_view(old(self).pending@).drop_last());
            }
        }
        d
    }

    /// Takes in the listing of `dir` (`None` when it could not be read): a
    /// directory holding `.git` is a repository and is not searched further;
    /// otherwise its subdirectories are searched next, in listing order.
    pub fn visit(&mut self, dir: String, listing: Option<Vec<DirEntryInfo>>)
        ensures
            final(self)@ == visit_model(
                old(self)@,
                dir@,
                match listing {
                    Some(v) => Some(dir_entries_view(v@)),
                    None => None,
                },
            ),
    {
        let es = match listing {
            Some(es) => es,
            None => {
                return ;
            },
        };
        let (git, subs) = read_listing(&es);
        if git {
            let ghost before = self.found@;
            let ghost dv = dir@;
            self.found.push(dir);
            assert(strings_view(self.found@) =~= strings_view(before).push(dv));
            return ;
        }
        let ghost before = self.pending@;
        let mut k: usize = subs.len();
        while k > 0
            invariant
                k <= subs@.len(),
                self.found@ == old(self).found@,
                strings_view(self.pending@) == strings_view(before) + strings_view(subs@).reverse().take(
                    (subs@.len() - k) as int,
                ),
            decreases k,
        {
            k = k - 1;
            let ghost b = self.pending@;
            self.pending.push(subs[k].clone());
            assert(strings_view(subs@).reverse().take((subs@.len() - k) as int) =~= strings_view(
                subs@,
            ).reverse().take((subs@.len() - k - 1) as int).push(subs@[k as int]@));
            assert(strings_view(self.pending@) =~= strings_view(b).push(subs@[k as int]@));
        }
        assert(strings_view(subs@).reverse().take(subs@.len() as int) =~= strings_view(
            subs@,
        ).reverse());
    }

    /// The repositories found.
    pub fn into_found(self) -> (v: Vec<String>)
        ensures
            strings_view(v@) == self@.found,
    {
        self.found
    }
}

/// A directory that holds `.git` is found and nothing below it is searched;
/// one that does not is searched depth-first: its first subdirectory is the
/// next directory listed, and nothing is found on its account.
pub proof fn law_scan_depth_first(st: ScanModel, dir: Seq<char>, es: Seq<DirEntryModel>)
    ensures
        has_git(es) ==> visit_model(st, dir, Some(es)).found == st.found.push(dir)
            && visit_model(st, dir, Some(es)).pending == st.pending,
        !has_git(es) ==> visit_model(st, dir, Some(es)).found == st.found,
        !has_git(es) && subdirs(es).len() > 0 ==> visit_model(st, dir, Some(es)).pending.last()
            == subdirs(es)[0],
        visit_model(st, dir, None) == st,
{
}

// ---------------------------------------------------------------------------
// The search finds every repository below the root
// ---------------------------------------------------------------------------

/// A directory tree: the listing of each directory (`None` when it cannot be
/// read), where every subdirectory has a smaller rank than its parent (so
/// the tree is finite in depth).
pub open spec fn ranked(
    tree: spec_fn(Seq<char>) -> Option<Seq<DirEntryModel>>,
    rank: spec_fn(Seq<char>) -> nat,
) -> bool {
    forall|d: Seq<char>, i: int|
        #![trigger tree(d), rank(d), subdirs(tree(d)->0)[i]]
        tree(d) is Some && 0 <= i < subdirs(tree(d)->0).len() ==> rank(subdirs(tree(d)->0)[i])
            < rank(d)
}

/// The repositories at or below `d`, in depth-first order: `d` itself when
/// it holds `.git`, otherwise those below its subdirectories in listing
/// order.
pub open spec fn repos_below(
    tree: spec_fn(Seq<char>) -> Option<Seq<DirEntryModel>>,
    rank: spec_fn(Seq<char>) -> nat,
    d: Seq<char>,
) -> Seq<Seq<char>>
    decreases rank(d), 1nat, 0nat,
    when ranked(tree, rank)
{
    match tree(d) {
        None => seq![],
        Some(es) => if has_git(es) {
            seq![d]
        } else {
            repos_below_all(tree, rank, subdirs(es), rank(d))
        },
    }
}

/// The repositories below each of `ds` in turn (each ranked below `bound`).
pub open spec fn repos_below_all(
    tree: spec_fn(Seq<char>) -> Option<Seq<DirEntryModel>>,
    rank: spec_fn(Seq<char>) -> nat,
    ds: Seq<Seq<char>>,
    bound: nat,
) -> Seq<Seq<char>>
    decreases bound, 0nat, ds.len(),
    when ranked(tree, rank) && forall|i: int| 0 <= i < ds.len() ==> rank(#[trigger] ds[i]) < bound
{
    if ds.len() == 0 {
        seq![]
    } else {
        repos_below(tree, rank, ds[0]) + repos_below_all(tree, rank, ds.drop_first(), bound)
    }
}

/// The repositories still to be found below the pending directories, the
/// next one (the last) first.
pub open spec fn pending_repos(
    tree: spec_fn(Seq<char>) -> Option<Seq<DirEntryModel>>,
    rank: spec_fn(Seq<char>) -> nat,
    pending: Seq<Seq<char>>,
) -> Seq<Seq<char>>
    decreases pending.len(),
{
    if pending.len() == 0 {
        seq![]
    } else {
        repos_below(tree, rank, pending.last()) + pending_repos(tree, rank, pending.drop_last())
    }
}

proof fn lemma_pending_append(
    tree: spec_fn(Seq<char>) -> Option<Seq<DirEntryModel>>,
    rank: spec_fn(Seq<char>) -> nat,
    p: Seq<Seq<char>>,
    r: Seq<Seq<char>>,
    bound: nat,
)
    requires
        ranked(tree, rank),
        forall|i: int| 0 <= i < r.len() ==> rank(#[trigger] r[i]) < bound,
    ensures
        pending_repos(tree, rank, p + r.reverse()) == repos_below_all(tree, rank, r, bound)
            + pending_repos(tree, rank, p),
    decreases r.len(),
{
    if r.len() == 0 {
        assert(p + r.reverse() =~= p);
        assert(repos_below_all(tree, rank, r, bound) + pending_repos(tree, rank, p) =~= pending_repos(
            tree,
            rank,
            p,
        ));
    } else {
        let q = p + r.reverse();
        assert(q.last() == r[0]);
        assert(q.drop_last() =~= p + r.drop_first().reverse());
        assert forall|i: int| 0 <= i < r.drop_first().len() implies rank(
            #[trigger] r.drop_first()[i],
        ) < bound by {
            assert(r.drop_first()[i] == r[i + 1]);
        }
        lemma_pending_append(tree, rank, p, r.drop_first(), bound);
        assert(pending_repos(tree, rank, q) =~= repos_below(tree, rank, r[0]) + (repos_below_all(
            tree,
            rank,
            r.drop_first(),
            bound,
        ) + pending_repos(tree, rank, p)));
    }
}

/// Taking the next pending directory and its listing keeps "found so far,
/// then still to be found" the same: so a search that starts at `root`
/// (`law_scan_starts_with_all`) and runs until nothing is pending has found
/// exactly `repos_below(root)`, in that order.
pub proof fn law_scan_step_keeps_total(
    tree: spec_fn(Seq<char>) -> Option<Seq<DirEntryModel>>,
    rank: spec_fn(Seq<char>) -> nat,
    st: ScanModel,
)
    requires
        ranked(tree, rank),
        st.pending.len() > 0,
    ensures
        ({
            let d = st.pending.last();
            let st2 = visit_model(
                ScanModel { pending: st.pending.drop_last(), found: st.found },
                d,
                tree(d),
            );
            st2.found + pending_repos(tree, rank, st2.pending) == st.found + pending_repos(
                tree,
                rank,
                st.pending,
            )
        }),
{
    let d = st.pending.last();
    let rest = st.pending.drop_last();
    match tree(d) {
        None => {
            assert(st.found + pending_repos(tree, rank, rest) =~= st.found + (Seq::<Seq<char>>::empty()
                + pending_repos(tree, rank, rest)));
        },
        Some(es) => {
            if has_git(es) {
                assert(st.found.push(d) + pending_repos(tree, rank, rest) =~= st.found + (seq![d]
                    + pending_repos(tree, rank, rest)));
            } else {
                let subs = subdirs(es);
                assert forall|i: int| 0 <= i < subs.len() implies rank(#[trigger] subs[i]) < rank(
                    d,
                ) by {
                    assert(tree(d) is Some);
                    assert(subdirs(tree(d)->0)[i] == subs[i]);
                }
                lemma_pending_append(tree, rank, rest, subs, rank(d));
                assert(st.found + pending_repos(tree, rank, rest + subs.reverse()) =~= st.found + (
                repos_below_all(tree, rank, subs, rank(d)) + pending_repos(tree, rank, rest)));
            }
        },
    }
}

/// A search that starts at `root` has all of `repos_below(root)` to find,
/// and one with nothing pending has found everything it was to find.
pub proof fn law_scan_starts_with_all(
    tree: spec_fn(Seq<char>) -> Option<Seq<DirEntryModel>>,
    rank: spec_fn(Seq<char>) -> nat,
    root: Seq<char>,
    st: ScanModel,
)
    ensures
        pending_repos(tree, rank, seq![root]) == repos_below(tree, rank, root),
        st.pending.len() == 0 ==> st.found + pending_repos(tree, rank, st.pending) == st.found,
{
    assert(seq![root].drop_last() =~= Seq::<Seq<char>>::empty());
    assert(seq![root].last() == root);
    assert(pending_repos(tree, rank, Seq::<Seq<char>>::empty()) == Seq::<Seq<char>>::empty());
    assert(pending_repos(tree, rank, seq![root]) == repos_below(tree, rank, root) + pending_repos(
        tree,
        rank,
        seq![root].drop_last(),
    ));
    assert(repos_below(tree, rank, root) + Seq::<Seq<char>>::empty() =~= repos_below(
        tree,
        rank,
        root,
    ));
    if st.pending.len() == 0 {
        assert(st.found + Seq::<Seq<char>>::empty() =~= st.found);
    }
}

} // verus!
