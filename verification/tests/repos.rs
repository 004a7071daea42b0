use diffodil::git::Worktree;
use diffodil::repos::{group_repos_by_worktree, parse_worktree_list, DirEntryInfo, RepoScan};

fn wt(path: &str, branch: Option<&str>) -> Worktree {
    Worktree { path: path.to_string(), branch: branch.map(|b| b.to_string()) }
}

#[test]
fn worktree_listing() {
    let out = "worktree /src/app\nHEAD abc\nbranch refs/heads/main\n\nworktree /src/app-wt\nHEAD def\ndetached\n\nworktree /src/app-f\nbranch refs/heads/feature/x\n";
    let w = parse_worktree_list(out);
    assert_eq!(w.len(), 3);
    assert_eq!(w[0].path, "/src/app");
    assert_eq!(w[0].branch.as_deref(), Some("main"));
    assert_eq!(w[1].path, "/src/app-wt");
    assert_eq!(w[1].branch, None);
    assert_eq!(w[2].branch.as_deref(), Some("feature/x"));
    assert!(parse_worktree_list("").is_empty());
}

#[test]
fn grouping_worktrees() {
    let paths = vec!["/a".to_string(), "/a-wt".to_string(), "/b".to_string()];
    let lists = vec![
        vec![wt("/a", Some("main")), wt("/a-wt", Some("x")), wt("/elsewhere", None)],
        vec![wt("/a", Some("main")), wt("/a-wt", Some("x"))],
        vec![wt("/b", Some("main"))],
    ];
    let e = group_repos_by_worktree(&paths, &lists);
    assert_eq!(e.len(), 2);
    assert_eq!(e[0].path, "/a");
    assert_eq!(e[0].worktrees.len(), 2);
    assert_eq!(e[0].worktrees[1].path, "/a-wt");
    assert_eq!(e[1].path, "/b");
    assert!(e[1].worktrees.is_empty());

    // a linked worktree found first: its entry is named after the main worktree
    let paths = vec!["/a-wt".to_string(), "/a".to_string()];
    let lists = vec![
        vec![wt("/a", None), wt("/a-wt", None)],
        vec![wt("/a", None), wt("/a-wt", None)],
    ];
    let e = group_repos_by_worktree(&paths, &lists);
    assert_eq!(e.len(), 1);
    assert_eq!(e[0].path, "/a");

    // no worktree information: every repository on its own
    let paths = vec!["/x".to_string(), "/y".to_string()];
    let e = group_repos_by_worktree(&paths, &vec![vec![], vec![]]);
    assert_eq!(e.len(), 2);
    assert_eq!(e[1].path, "/y");
}

fn entry(name: &str, path: &str, is_dir: bool) -> DirEntryInfo {
    DirEntryInfo { name: name.to_string(), path: path.to_string(), is_dir }
}

#[test]
fn scanning_directories() {
    let mut scan = RepoScan::new("/root".to_string());
    let d = scan.next_dir().unwrap();
    assert_eq!(d, "/root");
    scan.visit(
        d,
        Some(vec![
            entry("a", "/root/a", true),
            entry("file.txt", "/root/file.txt", false),
            entry("b", "/root/b", true),
        ]),
    );
    let d = scan.next_dir().unwrap();
    assert_eq!(d, "/root/a");
    scan.visit(d, Some(vec![entry("src", "/root/a/src", true), entry(".git", "/root/a/.git", true)]));
    let d = scan.next_dir().unwrap();
    assert_eq!(d, "/root/b");
    scan.visit(d, None);
    assert!(scan.next_dir().is_none());
    assert_eq!(scan.into_found(), vec!["/root/a".to_string()]);
}
