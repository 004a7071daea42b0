//! The state of one browser session and how each client message changes it.
use vstd::prelude::*;
use crate::refs::{tags_to_show, MAX_TAGS_SHOWN};
use crate::git::{
    default_flags, opt_view, strings_view, Commit, GitBranch, GitDiff, GitDiffAlgorithm,
    GitDiffSummary, GitFlags, GitTag, RepoEntry, Worktree, DEFAULT_CONTEXT_LINES, MAX_COUNT_STEP,
};

verus! {

/// What one browser session is looking at.
#[derive(Debug, Clone)]
pub struct SessionState {
    pub repo: Option<String>,
    pub branch: Option<String>,
    pub commit_a: Option<String>,
    pub commit_b: Option<String>,
    pub open_paths: Vec<String>,
    pub git_flags: GitFlags,
}

pub struct SessionModel {
    pub repo: Option<Seq<char>>,
    pub branch: Option<Seq<char>>,
    pub commit_a: Option<Seq<char>>,
    pub commit_b: Option<Seq<char>>,
    pub open_paths: Seq<Seq<char>>,
    pub git_flags: GitFlags,
}

impl View for SessionState {
    type V = SessionModel;

    open spec fn view(&self) -> SessionModel {
        SessionModel {
            repo: opt_view(self.repo),
            branch: opt_view(self.branch),
            commit_a: opt_view(self.commit_a),
            commit_b: opt_view(self.commit_b),
            open_paths: strings_view(self.open_paths@),
            git_flags: self.git_flags,
        }
    }
}

pub open spec fn default_session() -> SessionModel {
    SessionModel {
        repo: None,
        branch: None,
        commit_a: None,
        commit_b: None,
        open_paths: seq![],
        git_flags: default_flags(),
    }
}

impl Default for SessionState {
    fn default() -> (r: Self)
        ensures
            r@ == default_session(),
    {
        let r = SessionState {
            repo: None,
            branch: None,
            commit_a: None,
            commit_b: None,
            open_paths: Vec::new(),
            git_flags: GitFlags::default(),
        };
        assert(strings_view(r.open_paths@) =~= Seq::<Seq<char>>::empty());
        r
    }
}

/// A message from the browser.
#[derive(Debug, Clone)]
#[allow(inconsistent_fields)]
pub enum ClientMsg {
    Ping,
    Pong,
    Heartbeat { timestamp: u64 },
    SetCommitA { commit: String },
    SetCommitB { commit: String },
    ResetCommitA,
    ResetCommitB,
    SwapCommits,
    ContextInc,
    ContextDec,
    ContextReset,
    MaxCountInc,
    MaxCountDec,
    IgnoreAllSpace { value: bool },
    RepoSelect { repo: String },
    BranchSelect { branch: String },
    GetDiff { paths: Option<Vec<String>> },
    GitFetch,
    OpenPath { path: String },
    ClosePath { path: String },
    SetOpenPaths { paths: Vec<String> },
    SetDiffAlgo { algo: GitDiffAlgorithm },
    GetUntrackedContent { path: String },
    RefreshRepos,
}

/// A message to the browser.
#[derive(Debug, Clone)]
pub enum ServerMsg {
    SessionState { state: SessionState },
    Repos { repos: Vec<RepoEntry>, recent: Vec<Worktree>, root: String },
    Branches { branches: Vec<GitBranch> },
    Tags { tags: Vec<GitTag> },
    Commits { commits: Vec<Commit> },
    Diff { diff: GitDiff, partial: bool },
    StagedDiff { diff: GitDiff, partial: bool },
    DiffSummary { summary: GitDiffSummary },
    StagedSummary { summary: GitDiffSummary },
    UntrackedFiles { files: Vec<String> },
    UntrackedContent { path: String, content: Option<String>, is_binary: bool },
    Notification { message: Option<String> },
    Ping,
    Pong,
    Heartbeat { timestamp: u64 },
}

// ---------------------------------------------------------------------------
// The transition model
// ---------------------------------------------------------------------------

/// Index of the first occurrence of `x` in `s`, at or after `i`, or `s.len()`.
pub open spec fn first_index_from(s: Seq<Seq<char>>, x: Seq<char>, i: int) -> int
    decreases s.len() - i,
{
    if i < 0 || i >= s.len() {
        s.len() as int
    } else if s[i] == x {
        i
    } else {
        first_index_from(s, x, i + 1)
    }
}

pub open spec fn first_index(s: Seq<Seq<char>>, x: Seq<char>) -> int {
    first_index_from(s, x, 0)
}

pub proof fn lemma_first_index_from(s: Seq<Seq<char>>, x: Seq<char>, i: int)
    requires
        0 <= i <= s.len(),
    ensures
        i <= first_index_from(s, x, i) <= s.len(),
        first_index_from(s, x, i) < s.len() ==> s[first_index_from(s, x, i)] == x,
        forall|j: int| i <= j < first_index_from(s, x, i) ==> s[j] != x,
    decreases s.len() - i,
{
    if i < s.len() && s[i] != x {
        lemma_first_index_from(s, x, i + 1);
    }
}

pub proof fn lemma_first_index(s: Seq<Seq<char>>, x: Seq<char>)
    ensures
        0 <= first_index(s, x) <= s.len(),
        first_index(s, x) < s.len() <==> s.contains(x),
        first_index(s, x) < s.len() ==> s[first_index(s, x)] == x,
{
    lemma_first_index_from(s, x, 0);
    if s.contains(x) {
        let k = choose|k: int| 0 <= k < s.len() && s[k] == x;
        assert(first_index(s, x) <= k);
    }
}

pub open spec fn with_flags(s: SessionModel, f: GitFlags) -> SessionModel {
    SessionModel { git_flags: f, ..s }
}

pub open spec fn with_context(s: SessionModel, n: u32) -> SessionModel {
    with_flags(s, GitFlags { context_lines: n, ..s.git_flags })
}

pub open spec fn with_max_count(s: SessionModel, n: u32) -> SessionModel {
    with_flags(s, GitFlags { max_count: n, ..s.git_flags })
}

pub open spec fn with_open_paths(s: SessionModel, p: Seq<Seq<char>>) -> SessionModel {
    SessionModel { open_paths: p, ..s }
}

/// A message that would push a counter past `u32::MAX`.
pub open spec fn msg_overflows(s: SessionModel, m: ClientMsg) -> bool {
    match m {
        ClientMsg::ContextInc => s.git_flags.context_lines == u32::MAX,
        ClientMsg::MaxCountInc => s.git_flags.max_count + MAX_COUNT_STEP > u32::MAX,
        _ => false,
    }
}

/// The session after a message (before the current branch of a newly
/// selected repository is known).
pub open spec fn next_session(s: SessionModel, m: ClientMsg) -> SessionModel {
    match m {
        ClientMsg::SetCommitA { commit } => SessionModel { commit_a: Some(commit@), ..s },
        ClientMsg::ResetCommitA => SessionModel { commit_a: None, ..s },
        ClientMsg::SetCommitB { commit } => SessionModel { commit_b: Some(commit@), ..s },
        ClientMsg::ResetCommitB => SessionModel { commit_b: None, ..s },
        ClientMsg::SwapCommits => SessionModel { commit_a: s.commit_b, commit_b: s.commit_a, ..s },
        ClientMsg::ContextInc => with_context(s, (s.git_flags.context_lines + 1) as u32),
        ClientMsg::ContextDec => if s.git_flags.context_lines > 0 {
            with_context(s, (s.git_flags.context_lines - 1) as u32)
        } else {
            s
        },
        ClientMsg::ContextReset => with_context(s, DEFAULT_CONTEXT_LINES),
        ClientMsg::MaxCountInc => with_max_count(s, (s.git_flags.max_count + MAX_COUNT_STEP) as u32),
        ClientMsg::MaxCountDec => if s.git_flags.max_count > MAX_COUNT_STEP {
            with_max_count(s, (s.git_flags.max_count - MAX_COUNT_STEP) as u32)
        } else {
            s
        },
        ClientMsg::IgnoreAllSpace { value } => with_flags(
            s,
            GitFlags { ignore_all_space: value, ..s.git_flags },
        ),
        ClientMsg::GitFetch => if s.repo is Some {
            with_open_paths(s, seq![])
        } else {
            s
        },
        ClientMsg::RepoSelect { repo } => if s.repo != Some(repo@) {
            SessionModel { commit_a: None, commit_b: None, repo: Some(repo@), ..s }
        } else {
            s
        },
        ClientMsg::BranchSelect { branch } => if s.branch != Some(branch@) {
            SessionModel { branch: Some(branch@), ..s }
        } else {
            s
        },
        ClientMsg::OpenPath { path } => if !s.open_paths.contains(path@) {
            with_open_paths(s, s.open_paths.push(path@))
        } else {
            s
        },
        ClientMsg::ClosePath { path } => if s.open_paths.contains(path@) {
            with_open_paths(s, s.open_paths.remove(first_index(s.open_paths, path@)))
        } else {
            s
        },
        ClientMsg::SetOpenPaths { paths } => with_open_paths(s, strings_view(paths@)),
        ClientMsg::SetDiffAlgo { algo } => with_flags(s, GitFlags { diff_algo: algo, ..s.git_flags }),
        _ => s,
    }
}

/// Whether the browser must be told the new session state.
pub open spec fn msg_changes(s: SessionModel, m: ClientMsg) -> bool {
    match m {
        ClientMsg::Ping | ClientMsg::Pong | ClientMsg::Heartbeat { .. } => false,
        ClientMsg::ContextDec => s.git_flags.context_lines > 0,
        ClientMsg::ContextReset => s.git_flags.context_lines != DEFAULT_CONTEXT_LINES,
        ClientMsg::MaxCountDec => s.git_flags.max_count > MAX_COUNT_STEP,
        ClientMsg::GetDiff { .. } => false,
        ClientMsg::ClosePath { path } => s.open_paths.contains(path@),
        ClientMsg::GetUntrackedContent { .. } | ClientMsg::RefreshRepos => false,
        _ => true,
    }
}

/// Work that a message asks of git, to be done once the session is updated.
pub enum Effect {
    /// Nothing to do.
    Nothing,
    /// Send the diff of the session, of the given paths or of everything.
    SendDiff { paths: Option<Vec<String>> },
    /// Fetch all remotes of the repository, then send its branches, tags,
    /// commits and diff summary.
    Fetch { repo: String },
    /// Look up the current branch of the repository and pass it to
    /// `SessionState::set_current_branch`.
    LookupCurrentBranch { repo: String },
    /// Send the commits of the branch.
    SendCommits { repo: String, branch: String, max_count: u32 },
    /// Send what the untracked file at `path` of the repository holds.
    SendUntrackedContent { repo: String, path: String },
    /// Search the root again for repositories and send them.
    RescanRepos,
}

pub enum EffectModel {
    Nothing,
    SendDiff { paths: Option<Seq<Seq<char>>> },
    Fetch { repo: Seq<char> },
    LookupCurrentBranch { repo: Seq<char> },
    SendCommits { repo: Seq<char>, branch: Seq<char>, max_count: u32 },
    SendUntrackedContent { repo: Seq<char>, path: Seq<char> },
    RescanRepos,
}

pub open spec fn opt_strings_view(o: Option<Vec<String>>) -> Option<Seq<Seq<char>>> {
    match o {
        Some(v) => Some(strings_view(v@)),
        None => None,
    }
}

impl View for Effect {
    type V = EffectModel;

    open spec fn view(&self) -> EffectModel {
        match self {
            Effect::Nothing => EffectModel::Nothing,
            Effect::SendDiff { paths } => EffectModel::SendDiff { paths: opt_strings_view(*paths) },
            Effect::Fetch { repo } => EffectModel::Fetch { repo: repo@ },
            Effect::LookupCurrentBranch { repo } => EffectModel::LookupCurrentBranch { repo: repo@ },
            Effect::SendCommits { repo, branch, max_count } => EffectModel::SendCommits {
                repo: repo@,
                branch: branch@,
                max_count: *max_count,
            },
            Effect::SendUntrackedContent { repo, path } => EffectModel::SendUntrackedContent {
                repo: repo@,
                path: path@,
            },
            Effect::RescanRepos => EffectModel::RescanRepos,
        }
    }
}

/// The work that a message asks of git.
pub open spec fn msg_effect(s: SessionModel, m: ClientMsg) -> EffectModel {
    match m {
        ClientMsg::GetDiff { paths } => EffectModel::SendDiff { paths: opt_strings_view(paths) },
        ClientMsg::GitFetch => match s.repo {
            Some(r) => EffectModel::Fetch { repo: r },
            None => EffectModel::Nothing,
        },
        ClientMsg::RepoSelect { repo } => if s.repo != Some(repo@) {
            EffectModel::LookupCurrentBranch { repo: repo@ }
        } else {
            EffectModel::Nothing
        },
        ClientMsg::BranchSelect { branch } => if s.branch != Some(branch@) {
            match s.repo {
                Some(r) => EffectModel::SendCommits {
                    repo: r,
                    branch: branch@,
                    max_count: s.git_flags.max_count,
                },
                None => EffectModel::Nothing,
            }
        } else {
            EffectModel::Nothing
        },
        ClientMsg::OpenPath { path } => if !s.open_paths.contains(path@) {
            EffectModel::SendDiff { paths: Some(seq![path@]) }
        } else {
            EffectModel::Nothing
        },
        ClientMsg::GetUntrackedContent { path } => match s.repo {
            Some(r) => EffectModel::SendUntrackedContent { repo: r, path: path@ },
            None => EffectModel::Nothing,
        },
        ClientMsg::RefreshRepos => EffectModel::RescanRepos,
        _ => EffectModel::Nothing,
    }
}

/// Whether the session changed, and the work left to do.
pub struct Reaction {
    pub changed: bool,
    pub effect: Effect,
}

// ---------------------------------------------------------------------------
// Handling a message
// ---------------------------------------------------------------------------

/// `o == Some(x)`, on views.
fn opt_is(o: &Option<String>, x: &String) -> (r: bool)
    ensures
        r == (opt_view(*o) == Some(x@)),
{
    match o {
        Some(v) => *v == *x,
        None => false,
    }
}

/// Index of the first element of `v` equal to `x`, or `v.len()`.
fn position_of(v: &Vec<String>, x: &String) -> (r: usize)
    ensures
        r as int == first_index(strings_view(v@), x@),
{
    let ghost sv = strings_view(v@);
    let mut i: usize = 0;
    while i < v.len()
        invariant
            i <= v@.len(),
            sv == strings_view(v@),
            first_index(sv, x@) == first_index_from(sv, x@, i as int),
        decreases v@.len() - i,
    {
        if v[i] == *x {
            return i;
        }
        i = i + 1;
    }
    i
}

impl SessionState {
    /// Whether `msg` would push a counter of this session past `u32::MAX`.
    pub fn would_overflow(&self, msg: &ClientMsg) -> (r: bool)
        ensures
            r == msg_overflows(self@, *msg),
    {
        match msg {
            ClientMsg::ContextInc => self.git_flags.context_lines == u32::MAX,
            ClientMsg::MaxCountInc => self.git_flags.max_count > u32::MAX - MAX_COUNT_STEP,
            _ => false,
        }
    }

    /// Records the current branch that was looked up for a newly selected
    /// repository; a failed lookup leaves the branch as it was.
    pub fn set_current_branch(&mut self, name: Option<String>)
        ensures
            final(self)@ == (match name {
                Some(n) => SessionModel { branch: Some(n@), ..old(self)@ },
                None => old(self)@,
            }),
    {
        match name {
            Some(n) => {
                self.branch = Some(n);
            },
            None => {},
        }
    }
}

/// Applies a message to the session: says whether the browser must be told
/// the new state and what git work the message asks for.
pub fn handle_client_msg(msg: ClientMsg, session: &mut SessionState) -> (r: Reaction)
    requires
        !msg_overflows(old(session)@, msg),
    ensures
        final(session)@ == next_session(old(session)@, msg),
        r.changed == msg_changes(old(session)@, msg),
        r.effect@ == msg_effect(old(session)@, msg),
{
    let ghost m = msg;
    match msg {
        ClientMsg::Heartbeat { .. } | ClientMsg::Ping | ClientMsg::Pong => Reaction {
            changed: false,
            effect: Effect::Nothing,
        },
        ClientMsg::SetCommitA { commit } => {
            session.commit_a = Some(commit);
            Reaction { changed: true, effect: Effect::Nothing }
        },
        ClientMsg::ResetCommitA => {
            session.commit_a = None;
            Reaction { changed: true, effect: Effect::Nothing }
        },
        ClientMsg::SetCommitB { commit } => {
            session.commit_b = Some(commit);
            Reaction { changed: true, effect: Effect::Nothing }
        },
        ClientMsg::ResetCommitB => {
            session.commit_b = None;
            Reaction { changed: true, effect: Effect::Nothing }
        },
        ClientMsg::SwapCommits => {
            std::mem::swap(&mut session.commit_a, &mut session.commit_b);
            Reaction { changed: true, effect: Effect::Nothing }
        },
        ClientMsg::ContextInc => {
            session.git_flags.context_lines = session.git_flags.context_lines + 1;
            Reaction { changed: true, effect: Effect::Nothing }
        },
        ClientMsg::ContextDec => {
            if session.git_flags.context_lines > 0 {
                session.git_flags.context_lines = session.git_flags.context_lines - 1;
                Reaction { changed: true, effect: Effect::Nothing }
            } else {
                Reaction { changed: false, effect: Effect::Nothing }
            }
        },
        ClientMsg::ContextReset => {
            if session.git_flags.context_lines != DEFAULT_CONTEXT_LINES {
                session.git_flags.context_lines = DEFAULT_CONTEXT_LINES;
                Reaction { changed: true, effect: Effect::Nothing }
            } else {
                Reaction { changed: false, effect: Effect::Nothing }
            }
        },
        ClientMsg::MaxCountInc => {
            session.git_flags.max_count = session.git_flags.max_count + MAX_COUNT_STEP;
            Reaction { changed: true, effect: Effect::Nothing }
        },
        ClientMsg::MaxCountDec => {
            if session.git_flags.max_count > MAX_COUNT_STEP {
                session.git_flags.max_count = session.git_flags.max_count - MAX_COUNT_STEP;
                Reaction { changed: true, effect: Effect::Nothing }
            } else {
                Reaction { changed: false, effect: Effect::Nothing }
            }
        },
        ClientMsg::IgnoreAllSpace { value } => {
            session.git_flags.ignore_all_space = value;
            Reaction { changed: true, effect: Effect::Nothing }
        },
        ClientMsg::GetDiff { paths } => Reaction {
            changed: false,
            effect: Effect::SendDiff { paths },
        },
        ClientMsg::GitFetch => {
            match &session.repo {
                Some(repo) => {
                    let repo = repo.clone();
                    session.open_paths = Vec::new();
                    assert(strings_view(session.open_paths@) =~= Seq::<Seq<char>>::empty());
                    Reaction { changed: true, effect: Effect::Fetch { repo } }
                },
                None => Reaction { changed: true, effect: Effect::Nothing },
            }
        },
        ClientMsg::RepoSelect { repo } => {
            if !opt_is(&session.repo, &repo) {
                session.commit_a = None;
                session.commit_b = None;
                let lookup = repo.clone();
                session.repo = Some(repo);
                Reaction { changed: true, effect: Effect::LookupCurrentBranch { repo: lookup } }
            } else {
                Reaction { changed: true, effect: Effect::Nothing }
            }
        },
        ClientMsg::BranchSelect { branch } => {
            if !opt_is(&session.branch, &branch) {
                let shown = branch.clone();
                session.branch = Some(branch);
                match &session.repo {
                    Some(repo) => Reaction {
                        changed: true,
                        effect: Effect::SendCommits {
                            repo: repo.clone(),
                            branch: shown,
                            max_count: session.git_flags.max_count,
                        },
                    },
                    None => Reaction { changed: true, effect: Effect::Nothing },
                }
            } else {
                Reaction { changed: true, effect: Effect::Nothing }
            }
        },
        ClientMsg::OpenPath { path } => {
            let pos = position_of(&session.open_paths, &path);
            proof {
                lemma_first_index(strings_view(session.open_paths@), path@);
            }
            if pos == session.open_paths.len() {
                let ghost old_paths = session.open_paths@;
                let shown = path.clone();
                session.open_paths.push(path);
                assert(strings_view(session.open_paths@) =~= strings_view(old_paths).push(
                    shown@,
                ));
                let mut one: Vec<String> = Vec::new();
                one.push(shown);
                assert(strings_view(one@) =~= seq![shown@]);
                Reaction { changed: true, effect: Effect::SendDiff { paths: Some(one) } }
            } else {
                Reaction { changed: true, effect: Effect::Nothing }
            }
        },
        ClientMsg::ClosePath { path } => {
            let pos = position_of(&session.open_paths, &path);
            proof {
                lemma_first_index(strings_view(session.open_paths@), path@);
            }
            if pos < session.open_paths.len() {
                let ghost old_paths = session.open_paths@;
                session.open_paths.remove(pos);
                assert(strings_view(session.open_paths@) =~= strings_view(old_paths).remove(
                    pos as int,
                ));
                Reaction { changed: true, effect: Effect::Nothing }
            } else {
                Reaction { changed: false, effect: Effect::Nothing }
            }
        },
        ClientMsg::SetOpenPaths { paths } => {
            session.open_paths = paths;
            Reaction { changed: true, effect: Effect::Nothing }
        },
        ClientMsg::SetDiffAlgo { algo } => {
            session.git_flags.diff_algo = algo;
            Reaction { changed: true, effect: Effect::Nothing }
        },
        ClientMsg::GetUntrackedContent { path } => match &session.repo {
            Some(repo) => Reaction {
                changed: false,
                effect: Effect::SendUntrackedContent { repo: repo.clone(), path },
            },
            None => Reaction { changed: false, effect: Effect::Nothing },
        },
        ClientMsg::RefreshRepos => Reaction { changed: false, effect: Effect::RescanRepos },
    }
}

// ---------------------------------------------------------------------------
// What to send the browser
// ---------------------------------------------------------------------------

/// What a diff compares.
pub enum DiffTarget {
    /// Two commits.
    Between { from: String, to: String },
    /// One commit with its parent (`git show`).
    Commit { commit: String },
    /// The working tree with the index.
    WorkingTree,
}

pub enum TargetModel {
    Between { from: Seq<char>, to: Seq<char> },
    Commit { commit: Seq<char> },
    WorkingTree,
}

impl View for DiffTarget {
    type V = TargetModel;

    open spec fn view(&self) -> TargetModel {
        match self {
            DiffTarget::Between { from, to } => TargetModel::Between { from: from@, to: to@ },
            DiffTarget::Commit { commit } => TargetModel::Commit { commit: commit@ },
            DiffTarget::WorkingTree => TargetModel::WorkingTree,
        }
    }
}

/// The diff a session shows: between its two commits, of its first commit
/// alone, or of the working tree.
pub open spec fn target_model(s: SessionModel) -> TargetModel {
    match (s.commit_a, s.commit_b) {
        (Some(a), Some(b)) => TargetModel::Between { from: a, to: b },
        (Some(a), None) => TargetModel::Commit { commit: a },
        _ => TargetModel::WorkingTree,
    }
}

/// A diff to compute and send.
pub struct DiffRequest {
    pub repo: String,
    pub target: DiffTarget,
    pub paths: Option<Vec<String>>,
    pub flags: GitFlags,
    /// Whether only some paths are diffed.
    pub partial: bool,
}

/// A compact summary to compute and send.
pub struct SummaryRequest {
    pub repo: String,
    pub commit_a: Option<String>,
    pub commit_b: Option<String>,
}

/// Branches, tags and commits to send.
pub struct RepoDataRequest {
    pub repo: String,
    pub branch: Option<String>,
    pub max_count: u32,
}

/// Everything to send after the session changed or its files did.
pub struct Refresh {
    pub repo_data: Option<RepoDataRequest>,
    pub summary: Option<SummaryRequest>,
    pub diff: Option<DiffRequest>,
    /// The repository whose files are to be watched from now on.
    pub watch: Option<String>,
}

pub open spec fn diff_request_ok(s: SessionModel, paths: Option<Seq<Seq<char>>>, r: Option<DiffRequest>) -> bool {
    &&& r is Some <==> s.repo is Some
    &&& r matches Some(q) ==> {
        &&& Some(q.repo@) == s.repo
        &&& q.target@ == target_model(s)
        &&& opt_strings_view(q.paths) == paths
        &&& q.flags == s.git_flags
        &&& q.partial == paths is Some
    }
}

pub open spec fn summary_request_ok(s: SessionModel, r: Option<SummaryRequest>) -> bool {
    &&& r is Some <==> s.repo is Some
    &&& r matches Some(q) ==> {
        &&& Some(q.repo@) == s.repo
        &&& opt_view(q.commit_a) == s.commit_a
        &&& opt_view(q.commit_b) == (if s.commit_a is Some {
            s.commit_b
        } else {
            None
        })
    }
}

pub open spec fn repo_data_request_ok(s: SessionModel, r: Option<RepoDataRequest>) -> bool {
    &&& r is Some <==> s.repo is Some
    &&& r matches Some(q) ==> {
        &&& Some(q.repo@) == s.repo
        &&& opt_view(q.branch) == s.branch
        &&& q.max_count == s.git_flags.max_count
    }
}

/// The diff of the session, of `paths` or of everything; none without a
/// repository.
pub fn diff_request(session: &SessionState, paths: Option<Vec<String>>) -> (r: Option<DiffRequest>)
    ensures
        diff_request_ok(session@, opt_strings_view(paths), r),
{
    let repo = match &session.repo {
        Some(repo) => repo.clone(),
        None => {
            return None;
        },
    };
    let target = match (&session.commit_a, &session.commit_b) {
        (Some(a), Some(b)) => DiffTarget::Between { from: a.clone(), to: b.clone() },
        (Some(a), None) => DiffTarget::Commit { commit: a.clone() },
        _ => DiffTarget::WorkingTree,
    };
    let partial = paths.is_some();
    Some(DiffRequest { repo, target, paths, flags: session.git_flags, partial })
}

/// The compact summary of the session: of its commits when the first one is
/// set, of the working tree otherwise; none without a repository.
pub fn summary_request(session: &SessionState) -> (r: Option<SummaryRequest>)
    ensures
        summary_request_ok(session@, r),
{
    let repo = match &session.repo {
        Some(repo) => repo.clone(),
        None => {
            return None;
        },
    };
    match &session.commit_a {
        Some(a) => Some(
            SummaryRequest { repo, commit_a: Some(a.clone()), commit_b: session.commit_b.clone() },
        ),
        None => Some(SummaryRequest { repo, commit_a: None, commit_b: None }),
    }
}

/// The branches, tags and commits of the session's repository.
pub fn repo_data_request(session: &SessionState) -> (r: Option<RepoDataRequest>)
    ensures
        repo_data_request_ok(session@, r),
{
    match &session.repo {
        Some(repo) => Some(
            RepoDataRequest {
                repo: repo.clone(),
                branch: session.branch.clone(),
                max_count: session.git_flags.max_count,
            },
        ),
        None => None,
    }
}

/// The tags that a batch of repository data holds: at most `MAX_TAGS_SHOWN`.
pub open spec fn tags_shown(t: Seq<GitTag>) -> Seq<GitTag> {
    if t.len() <= MAX_TAGS_SHOWN {
        t
    } else {
        t.take(MAX_TAGS_SHOWN as int)
    }
}

/// The messages that carry a repository's data to the browser, in one
/// batch: branches, tags and commits, each only where reading it succeeded.
pub fn repo_data_batch(
    branches: Option<Vec<GitBranch>>,
    tags: Option<Vec<GitTag>>,
    commits: Option<Vec<Commit>>,
) -> (r: Vec<ServerMsg>)
    ensures
        ({
            let nb: int = if branches is Some { 1 } else { 0 };
            let nt: int = if tags is Some { 1 } else { 0 };
            let nc: int = if commits is Some { 1 } else { 0 };
            &&& r@.len() == nb + nt + nc
            &&& branches matches Some(b) ==> (r@[0] matches ServerMsg::Branches { branches: x }
                && x@ == b@)
            &&& tags matches Some(t) ==> (r@[nb] matches ServerMsg::Tags { tags: x } && x@
                == tags_shown(t@))
            &&& commits matches Some(c) ==> (r@[nb + nt] matches ServerMsg::Commits { commits: x }
                && x@ == c@)
        }),
{
    let mut msgs: Vec<ServerMsg> = Vec::new();
    if let Some(b) = branches {
        msgs.push(ServerMsg::Branches { branches: b });
    }
    if let Some(t) = tags {
        msgs.push(ServerMsg::Tags { tags: tags_to_show(t) });
    }
    if let Some(c) = commits {
        msgs.push(ServerMsg::Commits { commits: c });
    }
    msgs
}

/// The repository to watch: the session's, while it shows uncommitted
/// changes (no first commit).
pub fn watch_target(session: &SessionState) -> (r: Option<String>)
    ensures
        opt_view(r) == (if session@.commit_a is None {
            session@.repo
        } else {
            None
        }),
{
    if session.commit_a.is_none() {
        session.repo.clone()
    } else {
        None
    }
}

fn open_paths_diff(session: &SessionState) -> (r: Option<DiffRequest>)
    ensures
        session@.open_paths.len() == 0 ==> r is None,
        session@.open_paths.len() > 0 ==> diff_request_ok(
            session@,
            Some(session@.open_paths),
            r,
        ),
{
    if session.open_paths.len() == 0 {
        None
    } else {
        let paths = session.open_paths.clone();
        assert(strings_view(paths@) =~= strings_view(session.open_paths@));
        diff_request(session, Some(paths))
    }
}

/// What to send once the session changed: its repository's branches, tags
/// and commits, its summary, the diff of its open paths (if any), and the
/// repository to watch.
pub fn refresh_after_change(session: &SessionState) -> (r: Refresh)
    ensures
        repo_data_request_ok(session@, r.repo_data),
        summary_request_ok(session@, r.summary),
        session@.open_paths.len() == 0 ==> r.diff is None,
        session@.open_paths.len() > 0 ==> diff_request_ok(session@, Some(session@.open_paths), r.diff),
        opt_view(r.watch) == (if session@.commit_a is None {
            session@.repo
        } else {
            None
        }),
{
    Refresh {
        repo_data: repo_data_request(session),
        summary: summary_request(session),
        diff: open_paths_diff(session),
        watch: watch_target(session),
    }
}

/// What to send once files of the watched repository changed: the summary
/// and the diff of the open paths.
pub fn refresh_after_file_change(session: &SessionState) -> (r: Refresh)
    ensures
        r.repo_data is None,
        r.watch is None,
        summary_request_ok(session@, r.summary),
        session@.open_paths.len() == 0 ==> r.diff is None,
        session@.open_paths.len() > 0 ==> diff_request_ok(session@, Some(session@.open_paths), r.diff),
{
    Refresh { repo_data: None, summary: summary_request(session), diff: open_paths_diff(session), watch: None }
}

// ---------------------------------------------------------------------------
// Laws of the session
// ---------------------------------------------------------------------------

/// Swapping the commits twice gives back the session.
pub proof fn law_swap_twice(s: SessionModel)
    ensures
        next_session(next_session(s, ClientMsg::SwapCommits), ClientMsg::SwapCommits) == s,
{
}

/// Showing one more context line and then one fewer gives back the session.
pub proof fn law_context_inc_dec(s: SessionModel)
    requires
        !msg_overflows(s, ClientMsg::ContextInc),
    ensures
        next_session(next_session(s, ClientMsg::ContextInc), ClientMsg::ContextDec) == s,
{
    assert(next_session(next_session(s, ClientMsg::ContextInc), ClientMsg::ContextDec).git_flags
        == s.git_flags);
}

/// Listing more commits and then fewer gives back the session (unless it
/// listed none).
pub proof fn law_max_count_inc_dec(s: SessionModel)
    requires
        !msg_overflows(s, ClientMsg::MaxCountInc),
        s.git_flags.max_count > 0,
    ensures
        next_session(next_session(s, ClientMsg::MaxCountInc), ClientMsg::MaxCountDec) == s,
{
    assert(next_session(next_session(s, ClientMsg::MaxCountInc), ClientMsg::MaxCountDec).git_flags
        == s.git_flags);
}

/// The number of commits listed is a positive multiple of 25.
pub open spec fn max_count_ok(s: SessionModel) -> bool {
    s.git_flags.max_count >= MAX_COUNT_STEP && s.git_flags.max_count % MAX_COUNT_STEP == 0
}

/// A fresh session lists 25 commits, and every message keeps the number of
/// listed commits a positive multiple of 25 (a request for more commits
/// that would pass `u32::MAX` is refused before it is applied).
pub proof fn law_max_count_invariant(s: SessionModel, m: ClientMsg)
    requires
        max_count_ok(s),
        m is MaxCountInc ==> s.git_flags.max_count + MAX_COUNT_STEP <= u32::MAX,
    ensures
        max_count_ok(default_session()),
        max_count_ok(next_session(s, m)),
{
}

/// The session after a fresh one has received the messages `ms`, in order.
pub open spec fn session_after(ms: Seq<ClientMsg>) -> SessionModel
    decreases ms.len(),
{
    if ms.len() == 0 {
        default_session()
    } else {
        next_session(session_after(ms.drop_last()), ms.last())
    }
}

proof fn lemma_max_count_prefix(ms: Seq<ClientMsg>, n: nat)
    requires
        n <= ms.len(),
        forall|i: int|
            0 <= i < ms.len() && (#[trigger] ms[i]) is MaxCountInc ==> session_after(ms.take(i)).git_flags.max_count
                + MAX_COUNT_STEP <= u32::MAX,
    ensures
        max_count_ok(session_after(ms.take(n as int))),
    decreases n,
{
    if n == 0 {
        assert(ms.take(0) =~= Seq::<ClientMsg>::empty());
    } else {
        let k = (n - 1) as nat;
        lemma_max_count_prefix(ms, k);
        assert(ms.take(n as int).drop_last() =~= ms.take(k as int));
        assert(ms.take(n as int).last() == ms[k as int]);
        law_max_count_invariant(session_after(ms.take(k as int)), ms[k as int]);
    }
}

/// Whatever messages a fresh session receives, the number of listed commits
/// stays a positive multiple of 25 after each of them, as long as no request
/// for more commits comes while that would pass `u32::MAX`.
pub proof fn law_max_count_in_any_history(ms: Seq<ClientMsg>)
    requires
        forall|i: int|
            0 <= i < ms.len() && (#[trigger] ms[i]) is MaxCountInc ==> session_after(ms.take(i)).git_flags.max_count
                + MAX_COUNT_STEP <= u32::MAX,
    ensures
        forall|n: int| 0 <= n <= ms.len() ==> max_count_ok(#[trigger] session_after(ms.take(n))),
{
    assert forall|n: int| 0 <= n <= ms.len() implies max_count_ok(#[trigger] session_after(ms.take(n))) by {
        lemma_max_count_prefix(ms, n as nat);
    }
}

/// A message that does not change the session leaves it as it was.
pub proof fn law_unchanged_when_not_changed(s: SessionModel, m: ClientMsg)
    requires
        !msg_changes(s, m),
    ensures
        next_session(s, m) == s,
{
}

/// Opening a path that is not open and closing it again gives back the
/// session.
pub proof fn law_open_close(s: SessionModel, p: String)
    requires
        !s.open_paths.contains(p@),
    ensures
        next_session(
            next_session(s, ClientMsg::OpenPath { path: p }),
            ClientMsg::ClosePath { path: p },
        ) == s,
{
    let s1 = next_session(s, ClientMsg::OpenPath { path: p });
    assert(s1.open_paths == s.open_paths.push(p@));
    assert(s1.open_paths[s.open_paths.len() as int] == p@);
    assert(s1.open_paths.contains(p@));
    lemma_first_index(s1.open_paths, p@);
    let k = first_index(s1.open_paths, p@);
    if k < s.open_paths.len() {
        assert(s.open_paths[k] == p@);
        assert(false);
    }
    assert(k == s.open_paths.len());
    assert(s1.open_paths.remove(k) =~= s.open_paths);
}

/// Selecting a repository other than the current one forgets the chosen
/// commits.
pub proof fn law_new_repo_resets_commits(s: SessionModel, r: String)
    requires
        s.repo != Some(r@),
    ensures
        next_session(s, ClientMsg::RepoSelect { repo: r }).commit_a is None,
        next_session(s, ClientMsg::RepoSelect { repo: r }).commit_b is None,
        next_session(s, ClientMsg::RepoSelect { repo: r }).repo == Some(r@),
{
}

/// After a fetch no path is open.
pub proof fn law_fetch_closes_paths(s: SessionModel)
    requires
        s.repo is Some,
    ensures
        next_session(s, ClientMsg::GitFetch).open_paths.len() == 0,
{
}

/// After `IgnoreAllSpace { value }` the session ignores whitespace exactly
/// when `value` holds, whatever it did before; nothing else of the session
/// changes, and of two such messages the later one decides.
pub proof fn law_ignore_all_space_is_set(s: SessionModel, value: bool, later: bool)
    ensures
        next_session(s, ClientMsg::IgnoreAllSpace { value }).git_flags.ignore_all_space == value,
        next_session(s, ClientMsg::IgnoreAllSpace { value }).git_flags.context_lines
            == s.git_flags.context_lines,
        next_session(s, ClientMsg::IgnoreAllSpace { value }).git_flags.max_count
            == s.git_flags.max_count,
        next_session(s, ClientMsg::IgnoreAllSpace { value }).git_flags.diff_algo
            == s.git_flags.diff_algo,
        next_session(s, ClientMsg::IgnoreAllSpace { value }).repo == s.repo,
        next_session(s, ClientMsg::IgnoreAllSpace { value }).branch == s.branch,
        next_session(s, ClientMsg::IgnoreAllSpace { value }).commit_a == s.commit_a,
        next_session(s, ClientMsg::IgnoreAllSpace { value }).commit_b == s.commit_b,
        next_session(s, ClientMsg::IgnoreAllSpace { value }).open_paths == s.open_paths,
        next_session(
            next_session(s, ClientMsg::IgnoreAllSpace { value }),
            ClientMsg::IgnoreAllSpace { value: later },
        ) == next_session(s, ClientMsg::IgnoreAllSpace { value: later }),
{
}

/// The messages that choose something set exactly what they name and
/// leave the rest of the session alone: the first or second commit, the
/// diff algorithm, the branch, the open paths; resetting a commit forgets
/// it, and resetting the context goes back to the default number of lines.
pub proof fn law_choices_are_set(s: SessionModel, c: String, algo: GitDiffAlgorithm, br: String, ps: Vec<String>)
    ensures
        next_session(s, ClientMsg::SetCommitA { commit: c }).commit_a == Some(c@),
        next_session(s, ClientMsg::SetCommitA { commit: c }).commit_b == s.commit_b,
        next_session(s, ClientMsg::SetCommitA { commit: c }).git_flags == s.git_flags,
        next_session(s, ClientMsg::SetCommitB { commit: c }).commit_b == Some(c@),
        next_session(s, ClientMsg::SetCommitB { commit: c }).commit_a == s.commit_a,
        next_session(s, ClientMsg::ResetCommitA).commit_a is None,
        next_session(s, ClientMsg::ResetCommitA).commit_b == s.commit_b,
        next_session(s, ClientMsg::ResetCommitB).commit_b is None,
        next_session(s, ClientMsg::ResetCommitB).commit_a == s.commit_a,
        next_session(s, ClientMsg::SetDiffAlgo { algo }).git_flags.diff_algo == algo,
        next_session(s, ClientMsg::SetDiffAlgo { algo }).git_flags.ignore_all_space
            == s.git_flags.ignore_all_space,
        next_session(s, ClientMsg::SetDiffAlgo { algo }).git_flags.context_lines
            == s.git_flags.context_lines,
        next_session(s, ClientMsg::SetDiffAlgo { algo }).git_flags.max_count
            == s.git_flags.max_count,
        next_session(s, ClientMsg::ContextReset).git_flags.context_lines == DEFAULT_CONTEXT_LINES,
        next_session(s, ClientMsg::ContextReset).git_flags.max_count == s.git_flags.max_count,
        next_session(s, ClientMsg::BranchSelect { branch: br }).branch == Some(br@),
        next_session(s, ClientMsg::BranchSelect { branch: br }).repo == s.repo,
        next_session(s, ClientMsg::SetOpenPaths { paths: ps }).open_paths == strings_view(ps@),
        next_session(s, ClientMsg::SetOpenPaths { paths: ps }).git_flags == s.git_flags,
{
}

} // verus!
