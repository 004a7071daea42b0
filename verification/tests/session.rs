use diffodil::git::{GitBranch, GitDiffAlgorithm, GitFlags, GitTag};
use diffodil::session::{
    diff_request, handle_client_msg, refresh_after_change, refresh_after_file_change,
    repo_data_batch, summary_request, ClientMsg, DiffTarget, Effect, ServerMsg, SessionState,
};

fn session_with_repo() -> SessionState {
    let mut s = SessionState::default();
    s.repo = Some("/r".to_string());
    s.branch = Some("main".to_string());
    s
}

#[test]
fn default_session_state() {
    let s = SessionState::default();
    assert_eq!(s.repo, None);
    assert!(s.open_paths.is_empty());
    assert_eq!(s.git_flags.max_count, 25);
    assert_eq!(s.git_flags.context_lines, 3);
    assert_eq!(s.git_flags.diff_algo, GitDiffAlgorithm::Myers);
    assert!(!s.git_flags.ignore_all_space);
    let f = GitFlags::default();
    assert_eq!(f, s.git_flags);
}

#[test]
fn heartbeats_change_nothing() {
    let mut s = session_with_repo();
    for m in [ClientMsg::Ping, ClientMsg::Pong, ClientMsg::Heartbeat { timestamp: 5 }] {
        let r = handle_client_msg(m, &mut s);
        assert!(!r.changed);
        assert!(matches!(r.effect, Effect::Nothing));
    }
}

#[test]
fn commits_set_reset_swap() {
    let mut s = session_with_repo();
    assert!(handle_client_msg(ClientMsg::SetCommitA { commit: "a1".into() }, &mut s).changed);
    assert!(handle_client_msg(ClientMsg::SetCommitB { commit: "b2".into() }, &mut s).changed);
    assert_eq!(s.commit_a.as_deref(), Some("a1"));
    assert_eq!(s.commit_b.as_deref(), Some("b2"));
    handle_client_msg(ClientMsg::SwapCommits, &mut s);
    assert_eq!(s.commit_a.as_deref(), Some("b2"));
    assert_eq!(s.commit_b.as_deref(), Some("a1"));
    handle_client_msg(ClientMsg::SwapCommits, &mut s);
    assert_eq!(s.commit_a.as_deref(), Some("a1"));
    handle_client_msg(ClientMsg::ResetCommitA, &mut s);
    handle_client_msg(ClientMsg::ResetCommitB, &mut s);
    assert_eq!(s.commit_a, None);
    assert_eq!(s.commit_b, None);
}

#[test]
fn context_lines_bounds() {
    let mut s = SessionState::default();
    assert!(handle_client_msg(ClientMsg::ContextInc, &mut s).changed);
    assert_eq!(s.git_flags.context_lines, 4);
    assert!(handle_client_msg(ClientMsg::ContextDec, &mut s).changed);
    assert_eq!(s.git_flags.context_lines, 3);
    assert!(!handle_client_msg(ClientMsg::ContextReset, &mut s).changed);
    for _ in 0..3 {
        handle_client_msg(ClientMsg::ContextDec, &mut s);
    }
    assert_eq!(s.git_flags.context_lines, 0);
    assert!(!handle_client_msg(ClientMsg::ContextDec, &mut s).changed);
    assert!(handle_client_msg(ClientMsg::ContextReset, &mut s).changed);
    assert_eq!(s.git_flags.context_lines, 3);
}

#[test]
fn max_count_steps() {
    let mut s = SessionState::default();
    assert!(!handle_client_msg(ClientMsg::MaxCountDec, &mut s).changed);
    assert_eq!(s.git_flags.max_count, 25);
    handle_client_msg(ClientMsg::MaxCountInc, &mut s);
    handle_client_msg(ClientMsg::MaxCountInc, &mut s);
    assert_eq!(s.git_flags.max_count, 75);
    assert!(handle_client_msg(ClientMsg::MaxCountDec, &mut s).changed);
    assert_eq!(s.git_flags.max_count, 50);
}

#[test]
fn overflow_is_detected() {
    let mut s = SessionState::default();
    s.git_flags.context_lines = u32::MAX;
    assert!(s.would_overflow(&ClientMsg::ContextInc));
    assert!(!s.would_overflow(&ClientMsg::ContextDec));
    s.git_flags.max_count = u32::MAX - 10;
    assert!(s.would_overflow(&ClientMsg::MaxCountInc));
}

#[test]
fn flags_messages() {
    let mut s = SessionState::default();
    handle_client_msg(ClientMsg::IgnoreAllSpace { value: true }, &mut s);
    assert!(s.git_flags.ignore_all_space);
    handle_client_msg(ClientMsg::SetDiffAlgo { algo: GitDiffAlgorithm::Histogram }, &mut s);
    assert_eq!(s.git_flags.diff_algo, GitDiffAlgorithm::Histogram);
    assert_eq!(GitDiffAlgorithm::Patience.as_str(), "patience");
    assert_eq!(GitDiffAlgorithm::default(), GitDiffAlgorithm::Myers);
}

#[test]
fn open_and_close_paths() {
    let mut s = session_with_repo();
    let r = handle_client_msg(ClientMsg::OpenPath { path: "a.rs".into() }, &mut s);
    assert!(r.changed);
    match r.effect {
        Effect::SendDiff { paths: Some(p) } => assert_eq!(p, vec!["a.rs".to_string()]),
        _ => panic!("expected a diff of the opened path"),
    }
    let again = handle_client_msg(ClientMsg::OpenPath { path: "a.rs".into() }, &mut s);
    assert!(again.changed);
    assert!(matches!(again.effect, Effect::Nothing));
    assert_eq!(s.open_paths.len(), 1);
    handle_client_msg(ClientMsg::OpenPath { path: "b.rs".into() }, &mut s);
    assert!(handle_client_msg(ClientMsg::ClosePath { path: "a.rs".into() }, &mut s).changed);
    assert_eq!(s.open_paths, vec!["b.rs".to_string()]);
    assert!(!handle_client_msg(ClientMsg::ClosePath { path: "zz".into() }, &mut s).changed);
    handle_client_msg(
        ClientMsg::SetOpenPaths { paths: vec!["x".into(), "x".into(), "y".into()] },
        &mut s,
    );
    handle_client_msg(ClientMsg::ClosePath { path: "x".into() }, &mut s);
    assert_eq!(s.open_paths, vec!["x".to_string(), "y".to_string()]);
}

#[test]
fn repo_and_branch_selection() {
    let mut s = SessionState::default();
    s.commit_a = Some("c".into());
    let r = handle_client_msg(ClientMsg::RepoSelect { repo: "/repo".into() }, &mut s);
    assert!(r.changed);
    match r.effect {
        Effect::LookupCurrentBranch { repo } => assert_eq!(repo, "/repo"),
        _ => panic!("expected a branch lookup"),
    }
    assert_eq!(s.repo.as_deref(), Some("/repo"));
    assert_eq!(s.commit_a, None);
    s.set_current_branch(Some("dev".into()));
    assert_eq!(s.branch.as_deref(), Some("dev"));
    s.set_current_branch(None);
    assert_eq!(s.branch.as_deref(), Some("dev"));
    let same = handle_client_msg(ClientMsg::RepoSelect { repo: "/repo".into() }, &mut s);
    assert!(same.changed);
    assert!(matches!(same.effect, Effect::Nothing));

    let b = handle_client_msg(ClientMsg::BranchSelect { branch: "feature".into() }, &mut s);
    match b.effect {
        Effect::SendCommits { repo, branch, max_count } => {
            assert_eq!(repo, "/repo");
            assert_eq!(branch, "feature");
            assert_eq!(max_count, 25);
        }
        _ => panic!("expected commits of the branch"),
    }
    let b2 = handle_client_msg(ClientMsg::BranchSelect { branch: "feature".into() }, &mut s);
    assert!(matches!(b2.effect, Effect::Nothing));
}

#[test]
fn fetch_and_get_diff() {
    let mut none = SessionState::default();
    let r = handle_client_msg(ClientMsg::GitFetch, &mut none);
    assert!(r.changed);
    assert!(matches!(r.effect, Effect::Nothing));

    let mut s = session_with_repo();
    s.open_paths = vec!["a".into()];
    let r = handle_client_msg(ClientMsg::GitFetch, &mut s);
    assert!(matches!(r.effect, Effect::Fetch { .. }));
    assert!(s.open_paths.is_empty());

    let d = handle_client_msg(ClientMsg::GetDiff { paths: None }, &mut s);
    assert!(!d.changed);
    assert!(matches!(d.effect, Effect::SendDiff { paths: None }));

    let u = handle_client_msg(ClientMsg::GetUntrackedContent { path: "n.txt".into() }, &mut s);
    assert!(!u.changed);
    match u.effect {
        Effect::SendUntrackedContent { repo, path } => {
            assert_eq!(repo, "/r");
            assert_eq!(path, "n.txt");
        }
        _ => panic!("expected the untracked file"),
    }
    let rr = handle_client_msg(ClientMsg::RefreshRepos, &mut s);
    assert!(matches!(rr.effect, Effect::RescanRepos));
}

#[test]
fn requests_follow_the_session() {
    let mut s = session_with_repo();
    let d = diff_request(&s, None).unwrap();
    assert!(matches!(d.target, DiffTarget::WorkingTree));
    assert!(!d.partial);
    s.commit_a = Some("a".into());
    let d = diff_request(&s, Some(vec!["p".into()])).unwrap();
    assert!(matches!(d.target, DiffTarget::Commit { .. }));
    assert!(d.partial);
    s.commit_b = Some("b".into());
    match diff_request(&s, None).unwrap().target {
        DiffTarget::Between { from, to } => {
            assert_eq!(from, "a");
            assert_eq!(to, "b");
        }
        _ => panic!("expected a range"),
    }
    let sm = summary_request(&s).unwrap();
    assert_eq!(sm.commit_a.as_deref(), Some("a"));
    assert_eq!(sm.commit_b.as_deref(), Some("b"));
    s.commit_a = None;
    let sm = summary_request(&s).unwrap();
    assert_eq!(sm.commit_a, None);
    assert_eq!(sm.commit_b, None);

    let r = refresh_after_change(&s);
    assert!(r.repo_data.is_some());
    assert!(r.diff.is_none());
    assert_eq!(r.watch.as_deref(), Some("/r"));
    s.open_paths = vec!["q".into()];
    s.commit_a = Some("a".into());
    let r = refresh_after_change(&s);
    assert_eq!(r.diff.unwrap().paths, Some(vec!["q".to_string()]));
    assert!(r.watch.is_none());
    let f = refresh_after_file_change(&s);
    assert!(f.repo_data.is_none());
    assert!(f.summary.is_some());

    let empty = SessionState::default();
    assert!(diff_request(&empty, None).is_none());
    assert!(summary_request(&empty).is_none());
}

#[test]
fn unchanged_session_when_nothing_changes() {
    let mut s = session_with_repo();
    s.open_paths = vec!["a".into()];
    let before = format!("{:?}", s);
    for m in [
        ClientMsg::ContextReset,
        ClientMsg::ClosePath { path: "missing".into() },
        ClientMsg::GetDiff { paths: None },
        ClientMsg::MaxCountDec,
        ClientMsg::Ping,
    ] {
        let r = handle_client_msg(m, &mut s);
        assert!(!r.changed);
        assert_eq!(format!("{:?}", s), before);
    }
}

#[test]
fn listed_commits_stay_a_multiple_of_the_step() {
    let mut s = SessionState::default();
    for m in [
        ClientMsg::MaxCountInc,
        ClientMsg::MaxCountDec,
        ClientMsg::MaxCountDec,
        ClientMsg::MaxCountInc,
        ClientMsg::MaxCountInc,
        ClientMsg::MaxCountDec,
    ] {
        handle_client_msg(m, &mut s);
        assert!(s.git_flags.max_count >= 25);
        assert_eq!(s.git_flags.max_count % 25, 0);
    }
    assert_eq!(s.git_flags.max_count, 50);
}

#[test]
fn listed_commits_survive_a_mixed_history() {
    let mut s = SessionState::default();
    let history = vec![
        ClientMsg::ContextInc,
        ClientMsg::MaxCountInc,
        ClientMsg::ContextReset,
        ClientMsg::SwapCommits,
        ClientMsg::MaxCountInc,
        ClientMsg::MaxCountDec,
        ClientMsg::ContextDec,
        ClientMsg::MaxCountDec,
        ClientMsg::MaxCountDec,
    ];
    let mut seen = Vec::new();
    for m in history {
        handle_client_msg(m, &mut s);
        assert!(s.git_flags.max_count >= 25);
        assert_eq!(s.git_flags.max_count % 25, 0);
        seen.push(s.git_flags.max_count);
    }
    assert_eq!(seen, vec![25, 50, 50, 50, 75, 50, 50, 25, 25]);
}

#[test]
fn repo_data_batch_keeps_what_was_read() {
    let tags: Vec<GitTag> =
        (0..150).map(|i| GitTag { name: format!("v{i}"), message: None }).collect();
    let branch = GitBranch {
        name: "main".to_string(),
        is_current: true,
        is_remote: false,
        remote: None,
        points_to: None,
    };
    let batch = repo_data_batch(Some(vec![branch]), Some(tags), None);
    assert_eq!(batch.len(), 2);
    match &batch[0] {
        ServerMsg::Branches { branches } => assert_eq!(branches[0].name, "main"),
        _ => panic!("branches first"),
    }
    match &batch[1] {
        ServerMsg::Tags { tags } => {
            assert_eq!(tags.len(), 100);
            assert_eq!(tags[99].name, "v99");
        }
        _ => panic!("tags second"),
    }
    assert!(repo_data_batch(None, None, None).is_empty());
    let only_tags = repo_data_batch(None, Some(Vec::new()), None);
    assert!(matches!(&only_tags[0], ServerMsg::Tags { tags } if tags.is_empty()));
}
