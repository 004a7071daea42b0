use diffodil::commands::{
    branch_list_args, diff_args, effective_commits, fetch_args, log_args, show_args,
    summary_args, tag_list_args, untracked_list_args, worktree_list_args,
};
use diffodil::git::{GitDiffAlgorithm, GitFlags};

fn v(items: &[&str]) -> Vec<String> {
    items.iter().map(|s| s.to_string()).collect()
}

#[test]
fn effective_commit_pairs() {
    assert_eq!(effective_commits(Some("a"), Some("b")), (Some("a".into()), Some("b".into())));
    assert_eq!(effective_commits(Some("abc"), None), (Some("abc^".into()), Some("abc".into())));
    assert_eq!(effective_commits(None, Some("b")), (None, None));
    assert_eq!(effective_commits(None, None), (None, None));
}

#[test]
fn diff_arguments() {
    let flags = GitFlags::default();
    let (args, a, b) = diff_args(None, None, &flags, None, false);
    assert_eq!(
        args,
        v(&["diff", "--patch", "--no-color", "--find-renames", "--find-copies", "--unified=3", "--diff-algorithm=myers"])
    );
    assert_eq!((a, b), (None, None));
    let flags = GitFlags {
        max_count: 25,
        context_lines: 10,
        diff_algo: GitDiffAlgorithm::Histogram,
        ignore_all_space: true,
    };
    let paths = v(&["x.rs", "y.rs"]);
    let (args, a, b) = diff_args(Some("c1"), None, &flags, Some(&paths), true);
    assert_eq!(
        args,
        v(&[
            "diff", "--patch", "--no-color", "--find-renames", "--find-copies", "--unified=10",
            "--diff-algorithm=histogram", "--cached", "--ignore-all-space", "c1^", "c1", "--",
            "x.rs", "y.rs"
        ])
    );
    assert_eq!(a.as_deref(), Some("c1^"));
    assert_eq!(b.as_deref(), Some("c1"));
}

#[test]
fn show_arguments() {
    let flags = GitFlags { max_count: 25, context_lines: 0, diff_algo: GitDiffAlgorithm::Minimal, ignore_all_space: false };
    let paths = v(&["p"]);
    assert_eq!(
        show_args("deadbeef", &flags, Some(&paths)),
        v(&[
            "show", "--patch", "--no-color", "--find-renames", "--find-copies", "--unified=0",
            "--diff-algorithm=minimal", "--pretty=format:", "deadbeef", "--", "p"
        ])
    );
}

#[test]
fn summary_arguments() {
    let (args, a, b) = summary_args(Some("x"), Some("y"), false);
    assert_eq!(args, v(&["diff", "--compact-summary", "--stat=10000000", "x", "y"]));
    assert_eq!((a.as_deref(), b.as_deref()), (Some("x"), Some("y")));
    let (args, _, _) = summary_args(None, Some("y"), true);
    assert_eq!(args, v(&["diff", "--compact-summary", "--stat=10000000", "--cached"]));
}

#[test]
fn log_arguments() {
    assert_eq!(
        log_args(Some("main"), 50),
        v(&[
            "log",
            "--max-count=50",
            "--pretty=format:<<<><<>>>%h><><><<>>%an><><><<>>%ad><><><<>>%s><><><<>>%b",
            "--date=iso",
            "main"
        ])
    );
    assert_eq!(log_args(None, 25).len(), 4);
}

#[test]
fn fixed_arguments() {
    assert_eq!(fetch_args(), v(&["fetch", "--all"]));
    assert_eq!(branch_list_args(), v(&["branch", "--list", "--all", "--no-color"]));
    assert_eq!(tag_list_args(), v(&["tag", "--list", "--no-color"]));
    assert_eq!(untracked_list_args(), v(&["ls-files", "--others", "--exclude-standard"]));
    assert_eq!(worktree_list_args(), v(&["worktree", "list", "--porcelain"]));
}
