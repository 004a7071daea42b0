//! The records that describe a repository's branches, tags, commits and
//! diffs, each with the mathematical model that the contracts speak of.
use vstd::prelude::*;

verus! {

/// How a file changed between two states of a repository.
#[derive(Debug, Clone, Copy, PartialEq, Eq, Structural)]
pub enum GitFileChangeType {
    Added,
    Deleted,
    Modified,
    Renamed,
    Copied,
}

/// The diff algorithm that git is asked to use.
#[derive(Debug, Clone, Copy, PartialEq, Eq, Structural)]
pub enum GitDiffAlgorithm {
    Myers,
    Minimal,
    Patience,
    Histogram,
}

/// The name git gives to a diff algorithm.
pub open spec fn algo_name(a: GitDiffAlgorithm) -> Seq<char> {
    match a {
        GitDiffAlgorithm::Myers => "myers"@,
        GitDiffAlgorithm::Minimal => "minimal"@,
        GitDiffAlgorithm::Patience => "patience"@,
        GitDiffAlgorithm::Histogram => "histogram"@,
    }
}

impl GitDiffAlgorithm {
    /// The name git gives to this algorithm (`myers`, `minimal`, ...).
    pub fn as_str(&self) -> (s: &'static str)
        ensures
            s@ == algo_name(*self),
    {
        match self {
            GitDiffAlgorithm::Myers => "myers",
            GitDiffAlgorithm::Minimal => "minimal",
            GitDiffAlgorithm::Patience => "patience",
            GitDiffAlgorithm::Histogram => "histogram",
        }
    }
}

impl Default for GitDiffAlgorithm {
    fn default() -> (r: Self)
        ensures
            r == GitDiffAlgorithm::Myers,
    {
        GitDiffAlgorithm::Myers
    }
}

/// The options that shape the git output the UI shows.
#[derive(Debug, Clone, Copy, PartialEq, Eq, Structural)]
pub struct GitFlags {
    pub max_count: u32,
    pub context_lines: u32,
    pub diff_algo: GitDiffAlgorithm,
    pub ignore_all_space: bool,
}

/// The number of commits listed at first, and the step by which it changes.
pub const MAX_COUNT_STEP: u32 = 25;

/// The number of context lines git shows by default.
pub const DEFAULT_CONTEXT_LINES: u32 = 3;

pub open spec fn default_flags() -> GitFlags {
    GitFlags {
        max_count: MAX_COUNT_STEP,
        context_lines: DEFAULT_CONTEXT_LINES,
        diff_algo: GitDiffAlgorithm::Myers,
        ignore_all_space: false,
    }
}

impl Default for GitFlags {
    fn default() -> (r: Self)
        ensures
            r == default_flags(),
    {
        GitFlags {
            max_count: MAX_COUNT_STEP,
            context_lines: DEFAULT_CONTEXT_LINES,
            diff_algo: GitDiffAlgorithm::Myers,
            ignore_all_space: false,
        }
    }
}

/// `Some(s@)` for `Some(s)`.
pub open spec fn opt_view(o: Option<String>) -> Option<Seq<char>> {
    match o {
        Some(s) => Some(s@),
        None => None,
    }
}

/// The views of a sequence of strings.
pub open spec fn strings_view(v: Seq<String>) -> Seq<Seq<char>> {
    v.map_values(|s: String| s@)
}

#[derive(Debug, Clone)]
pub struct GitBranch {
    pub name: String,
    pub is_current: bool,
    pub is_remote: bool,
    pub remote: Option<String>,
    pub points_to: Option<String>,
}

pub struct BranchModel {
    pub name: Seq<char>,
    pub is_current: bool,
    pub is_remote: bool,
    pub remote: Option<Seq<char>>,
    pub points_to: Option<Seq<char>>,
}

impl View for GitBranch {
    type V = BranchModel;

    open spec fn view(&self) -> BranchModel {
        BranchModel {
            name: self.name@,
            is_current: self.is_current,
            is_remote: self.is_remote,
            remote: opt_view(self.remote),
            points_to: opt_view(self.points_to),
        }
    }
}

#[derive(Debug, Clone)]
pub struct Commit {
    pub short_hash: String,
    pub summary: String,
    pub body: String,
    pub author: String,
    pub date: String,
}

pub struct CommitModel {
    pub short_hash: Seq<char>,
    pub summary: Seq<char>,
    pub body: Seq<char>,
    pub author: Seq<char>,
    pub date: Seq<char>,
}

impl View for Commit {
    type V = CommitModel;

    open spec fn view(&self) -> CommitModel {
        CommitModel {
            short_hash: self.short_hash@,
            summary: self.summary@,
            body: self.body@,
            author: self.author@,
            date: self.date@,
        }
    }
}

#[derive(Debug, Clone)]
pub struct GitTag {
    pub name: String,
    pub message: Option<String>,
}

pub struct TagModel {
    pub name: Seq<char>,
    pub message: Option<Seq<char>>,
}

impl View for GitTag {
    type V = TagModel;

    open spec fn view(&self) -> TagModel {
        TagModel { name: self.name@, message: opt_view(self.message) }
    }
}

#[derive(Debug, Clone)]
pub struct DiffHunk {
    pub header: String,
    pub old_start: u32,
    pub old_count: u32,
    pub new_start: u32,
    pub new_count: u32,
    pub content: Vec<String>,
    pub added_lines: u32,
    pub removed_lines: u32,
}

pub struct HunkModel {
    pub header: Seq<char>,
    pub old_start: u32,
    pub old_count: u32,
    pub new_start: u32,
    pub new_count: u32,
    pub content: Seq<Seq<char>>,
    pub added_lines: nat,
    pub removed_lines: nat,
}

impl View for DiffHunk {
    type V = HunkModel;

    open spec fn view(&self) -> HunkModel {
        HunkModel {
            header: self.header@,
            old_start: self.old_start,
            old_count: self.old_count,
            new_start: self.new_start,
            new_count: self.new_count,
            content: strings_view(self.content@),
            added_lines: self.added_lines as nat,
            removed_lines: self.removed_lines as nat,
        }
    }
}

pub open spec fn hunks_view(v: Seq<DiffHunk>) -> Seq<HunkModel> {
    v.map_values(|h: DiffHunk| h@)
}

#[derive(Debug, Clone)]
pub struct DiffFile {
    pub file_path: String,
    pub change_type: String,
    pub hunks: Vec<DiffHunk>,
}

pub struct FileModel {
    pub file_path: Seq<char>,
    pub change_type: Seq<char>,
    pub hunks: Seq<HunkModel>,
}

impl View for DiffFile {
    type V = FileModel;

    open spec fn view(&self) -> FileModel {
        FileModel {
            file_path: self.file_path@,
            change_type: self.change_type@,
            hunks: hunks_view(self.hunks@),
        }
    }
}

pub open spec fn files_view(v: Seq<DiffFile>) -> Seq<FileModel> {
    v.map_values(|f: DiffFile| f@)
}

#[derive(Debug, Clone)]
pub struct GitDiff {
    pub from_commit: Option<String>,
    pub to_commit: Option<String>,
    pub files: Vec<DiffFile>,
}

#[derive(Debug, Clone)]
pub struct FileChange {
    pub path: String,
    pub change_type: GitFileChangeType,
    pub old_path: Option<String>,
    pub is_binary: bool,
    pub additions: Option<u32>,
    pub deletions: Option<u32>,
    pub changes: Option<u32>,
}

pub struct FileChangeModel {
    pub path: Seq<char>,
    pub change_type: GitFileChangeType,
    pub old_path: Option<Seq<char>>,
    pub is_binary: bool,
    pub additions: Option<u32>,
    pub deletions: Option<u32>,
    pub changes: Option<u32>,
}

impl View for FileChange {
    type V = FileChangeModel;

    open spec fn view(&self) -> FileChangeModel {
        FileChangeModel {
            path: self.path@,
            change_type: self.change_type,
            old_path: opt_view(self.old_path),
            is_binary: self.is_binary,
            additions: self.additions,
            deletions: self.deletions,
            changes: self.changes,
        }
    }
}

#[derive(Debug, Clone)]
pub struct GitDiffSummary {
    pub commit_a: Option<String>,
    pub commit_b: Option<String>,
    pub files: Vec<FileChange>,
    pub total_files_changed: u32,
    pub total_additions: u32,
    pub total_deletions: u32,
}

#[derive(Debug, Clone)]
pub struct Worktree {
    pub path: String,
    pub branch: Option<String>,
}

pub struct WorktreeModel {
    pub path: Seq<char>,
    pub branch: Option<Seq<char>>,
}

impl View for Worktree {
    type V = WorktreeModel;

    open spec fn view(&self) -> WorktreeModel {
        WorktreeModel { path: self.path@, branch: opt_view(self.branch) }
    }
}

pub open spec fn worktrees_view(v: Seq<Worktree>) -> Seq<WorktreeModel> {
    v.map_values(|w: Worktree| w@)
}

#[derive(Debug, Clone)]
pub struct RepoEntry {
    pub path: String,
    pub worktrees: Vec<Worktree>,
}

pub struct RepoEntryModel {
    pub path: Seq<char>,
    pub worktrees: Seq<WorktreeModel>,
}

impl View for RepoEntry {
    type V = RepoEntryModel;

    open spec fn view(&self) -> RepoEntryModel {
        RepoEntryModel { path: self.path@, worktrees: worktrees_view(self.worktrees@) }
    }
}

/// What is shown of a file that git does not track.
#[derive(Debug, Clone)]
pub struct UntrackedFileContent {
    pub content: Option<String>,
    pub is_binary: bool,
}

} // verus!
