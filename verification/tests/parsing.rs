use diffodil::diff::{parse_diff_output, parse_hunk_header, try_parse_diff_output};
use diffodil::git::GitFileChangeType;
use diffodil::log::parse_git_log;
use diffodil::refs::{current_branch, parse_git_branches, parse_git_tags, tags_to_show};
use diffodil::git::GitTag;
use diffodil::summary::{parse_compact_summary_line, summarize_compact_output};
use diffodil::text::{decimal_string, parse_u32_exec, to_chars};
use diffodil::untracked::{parse_untracked_files, untracked_content};

#[test]
fn branches_local_remote_and_symbolic() {
    let out = "* main\n  feature/x\n+ wt-branch\n  remotes/origin/HEAD -> origin/main\n  remotes/origin/main\n\n";
    let b = parse_git_branches(out);
    assert_eq!(b.len(), 5);
    assert_eq!(b[0].name, "main");
    assert!(b[0].is_current);
    assert!(!b[0].is_remote);
    assert_eq!(b[0].remote, None);
    assert_eq!(b[0].points_to, None);
    assert_eq!(b[1].name, "feature/x");
    assert!(!b[1].is_current);
    assert_eq!(b[2].name, "wt-branch");
    assert!(!b[2].is_current);
    assert_eq!(b[3].name, "origin/HEAD");
    assert!(b[3].is_remote);
    assert_eq!(b[3].remote.as_deref(), Some("origin"));
    assert_eq!(b[3].points_to.as_deref(), Some("origin/main"));
    assert_eq!(b[4].name, "origin/main");
    assert_eq!(b[4].remote.as_deref(), Some("origin"));
}

#[test]
fn branches_current_detached_head() {
    let out = "* (HEAD detached at abc123)\n  main\n";
    let b = parse_git_branches(out);
    assert_eq!(b.len(), 2);
    assert_eq!(b[0].name, "(HEAD detached at abc123)");
    assert!(b[0].is_current);
    let cur = current_branch(b).unwrap();
    assert_eq!(cur.name, "(HEAD detached at abc123)");
}

#[test]
fn branches_without_current() {
    let b = parse_git_branches("  a\n  b\n");
    assert!(current_branch(b).is_none());
    assert!(parse_git_branches("").is_empty());
}

#[test]
fn tags_with_and_without_message() {
    let t = parse_git_tags("v1.0\nv2.0   Release two\n\n   \nv3.0\tfix\r\n");
    assert_eq!(t.len(), 3);
    assert_eq!(t[0].name, "v1.0");
    assert_eq!(t[0].message, None);
    assert_eq!(t[1].name, "v2.0");
    assert_eq!(t[1].message.as_deref(), Some("  Release two"));
    assert_eq!(t[2].name, "v3.0");
    assert_eq!(t[2].message.as_deref(), Some("fix"));
}

#[test]
fn tags_are_limited_to_one_hundred() {
    let mut tags = Vec::new();
    for i in 0..150 {
        tags.push(GitTag { name: format!("t{i}"), message: None });
    }
    let shown = tags_to_show(tags);
    assert_eq!(shown.len(), 100);
    assert_eq!(shown[99].name, "t99");
}

#[test]
fn hunk_headers() {
    assert_eq!(parse_hunk_header("@@ -1,5 +1,7 @@"), Some((1, 5, 1, 7)));
    assert_eq!(parse_hunk_header("@@ -10 +12 @@ fn main()"), Some((10, 1, 12, 1)));
    assert_eq!(parse_hunk_header("@@ -0,0 +1 @@"), Some((0, 0, 1, 1)));
    assert_eq!(parse_hunk_header("@@ -3,x +4,2 @@"), Some((3, 1, 4, 2)));
    assert_eq!(parse_hunk_header("@@ -a,1 +4,2 @@"), None);
    assert_eq!(parse_hunk_header("@@ -1,2 @@"), None);
    assert_eq!(parse_hunk_header("@@ -1,2 +3,4"), None);
    assert_eq!(parse_hunk_header("diff"), None);
}

const PATCH: &str = "diff --git a/src/a.rs b/src/a.rs\n\
index 111..222 100644\n\
--- a/src/a.rs\n\
+++ b/src/a.rs\n\
@@ -1,3 +1,4 @@\n\
 fn a() {\n\
-    old();\n\
+    new();\n\
+    more();\n\
 }\n\
@@ -10,2 +11,2 @@ fn b()\n\
-x\n\
+y\n\
diff --git a/new.txt b/new.txt\n\
new file mode 100644\n\
--- /dev/null\n\
+++ b/new.txt\n\
@@ -0,0 +1 @@\n\
+hello\n\
diff --git a/gone.txt b/gone.txt\n\
deleted file mode 100644\n\
--- a/gone.txt\n\
+++ /dev/null\n\
@@ -1 +0,0 @@\n\
-bye\n";

#[test]
fn diff_output_files_and_hunks() {
    let files = parse_diff_output(PATCH);
    assert_eq!(files.len(), 3);
    assert_eq!(files[0].file_path, "src/a.rs");
    assert_eq!(files[0].change_type, "modified");
    assert_eq!(files[0].hunks.len(), 2);
    let h = &files[0].hunks[0];
    assert_eq!(h.header, "@@ -1,3 +1,4 @@");
    assert_eq!((h.old_start, h.old_count, h.new_start, h.new_count), (1, 3, 1, 4));
    assert_eq!(h.content.len(), 5);
    assert_eq!(h.content[1], "-    old();");
    assert_eq!(h.added_lines, 2);
    assert_eq!(h.removed_lines, 1);
    let h2 = &files[0].hunks[1];
    assert_eq!(h2.header, "@@ -10,2 +11,2 @@ fn b()");
    assert_eq!((h2.added_lines, h2.removed_lines), (1, 1));
    assert_eq!(files[1].file_path, "new.txt");
    assert_eq!(files[1].change_type, "added");
    assert_eq!(files[1].hunks[0].added_lines, 1);
    assert_eq!(files[2].file_path, "gone.txt");
    assert_eq!(files[2].change_type, "deleted");
    assert_eq!(files[2].hunks[0].removed_lines, 1);
}

#[test]
fn diff_output_empty_and_headerless() {
    assert!(parse_diff_output("").is_empty());
    // a hunk without a file header is dropped
    assert!(parse_diff_output("@@ -1 +1 @@\n+x\n").is_empty());
    let d = try_parse_diff_output("diff --git a/x b/x\n").unwrap();
    assert_eq!(d.len(), 1);
    assert_eq!(d[0].file_path, "");
    assert_eq!(d[0].change_type, "modified");
}

#[test]
fn compact_summary_lines() {
    let c = parse_compact_summary_line(" src/main.rs | 10 +++++++---").unwrap();
    assert_eq!(c.path, "src/main.rs");
    assert_eq!(c.change_type, GitFileChangeType::Modified);
    assert_eq!(c.additions, Some(7));
    assert_eq!(c.deletions, Some(3));
    assert_eq!(c.changes, Some(10));
    assert!(!c.is_binary);

    let n = parse_compact_summary_line(" new.txt (new) | 1 +").unwrap();
    assert_eq!(n.path, "new.txt");
    assert_eq!(n.change_type, GitFileChangeType::Added);

    let g = parse_compact_summary_line(" old.txt (gone) | 2 --").unwrap();
    assert_eq!(g.path, "old.txt");
    assert_eq!(g.change_type, GitFileChangeType::Deleted);
    assert_eq!(g.deletions, Some(2));

    let r = parse_compact_summary_line(" src/{a.rs => b.rs} | 0").unwrap();
    assert_eq!(r.change_type, GitFileChangeType::Renamed);
    assert_eq!(r.old_path.as_deref(), Some("src/a.rs"));
    assert_eq!(r.path, "src/b.rs");
    assert_eq!(r.changes, Some(0));

    let r2 = parse_compact_summary_line(" a.txt => b.txt | 3 ++-").unwrap();
    assert_eq!(r2.old_path.as_deref(), Some("a.txt"));
    assert_eq!(r2.path, "b.txt");

    let b = parse_compact_summary_line(" img.png | Bin 0 -> 1234 bytes").unwrap();
    assert!(b.is_binary);
    assert_eq!(b.additions, None);

    assert!(parse_compact_summary_line(" 3 files changed, 10 insertions(+)").is_none());
    assert!(parse_compact_summary_line("   ").is_none());
}

#[test]
fn compact_summary_totals() {
    let out = " a.rs | 3 ++-\n b.rs (new) | 2 ++\n c.png | Bin 0 -> 10 bytes\n 3 files changed, 4 insertions(+), 1 deletion(-)\n";
    let s = summarize_compact_output(out, Some("x".to_string()), None).unwrap();
    assert_eq!(s.files.len(), 3);
    assert_eq!(s.total_files_changed, 3);
    assert_eq!(s.total_additions, 4);
    assert_eq!(s.total_deletions, 1);
    assert_eq!(s.commit_a.as_deref(), Some("x"));
    assert_eq!(s.commit_b, None);
}

#[test]
fn git_log_records() {
    let out = "<<<><<>>>abc1234><><><<>>Alice><><><<>>2024-01-02 10:00:00 +0100><><><<>>Fix bug><><><<>>Longer\nbody\n\n<<<><<>>>def5678><><><<>>Bob><><><<>>2024-01-01 09:00:00 +0100><><><<>>Initial><><><<>>";
    let c = parse_git_log(out);
    assert_eq!(c.len(), 2);
    assert_eq!(c[0].short_hash, "abc1234");
    assert_eq!(c[0].author, "Alice");
    assert_eq!(c[0].date, "2024-01-02 10:00:00 +0100");
    assert_eq!(c[0].summary, "Fix bug");
    assert_eq!(c[0].body, "Longer\nbody");
    assert_eq!(c[1].short_hash, "def5678");
    assert_eq!(c[1].body, "");
    // records with too few fields are skipped
    assert!(parse_git_log("<<<><<>>>abc><><><<>>only").is_empty());
}

#[test]
fn untracked_listing_and_content() {
    let files = parse_untracked_files("a.txt\n\nsub/b.txt\n");
    assert_eq!(files, vec!["a.txt".to_string(), "sub/b.txt".to_string()]);
    let text = untracked_content(Some("héllo".as_bytes().to_vec()));
    assert_eq!(text.content.as_deref(), Some("héllo"));
    assert!(!text.is_binary);
    let bin = untracked_content(Some(vec![b'a', 0, b'b']));
    assert!(bin.is_binary);
    assert_eq!(bin.content, None);
    let bad = untracked_content(Some(vec![0xff, 0xfe]));
    assert!(bad.is_binary);
    let missing = untracked_content(None);
    assert!(!missing.is_binary);
    assert_eq!(missing.content, None);
    let mut late_zero = vec![b'a'; 8000];
    late_zero.push(0);
    let late = untracked_content(Some(late_zero));
    assert!(!late.is_binary);
}

#[test]
fn numbers_round_trip() {
    for n in [0u32, 7, 10, 25, 4_294_967_295] {
        let s = decimal_string(n as u64);
        assert_eq!(s, n.to_string());
        assert_eq!(parse_u32_exec(&to_chars(&s)), Some(n));
    }
    assert_eq!(parse_u32_exec(&to_chars("+12")), Some(12));
    assert_eq!(parse_u32_exec(&to_chars("+")), None);
    assert_eq!(parse_u32_exec(&to_chars("-1")), None);
    assert_eq!(parse_u32_exec(&to_chars("4294967296")), None);
    assert_eq!(parse_u32_exec(&to_chars("")), None);
}

#[test]
fn diff_output_concatenates_at_file_headers() {
    let a = "diff --git a/one b/one\n--- a/one\n+++ b/one\n@@ -1 +1 @@\n-a\n+b\n";
    let b = "diff --git a/two b/two\nnew file mode 100644\n--- /dev/null\n+++ b/two\n@@ -0,0 +1,2 @@\n+x\n+y\n";
    let joined = format!("{a}{b}");
    let mut expected = parse_diff_output(a);
    expected.extend(parse_diff_output(b));
    let got = parse_diff_output(&joined);
    assert_eq!(got.len(), 2);
    assert_eq!(format!("{:?}", got), format!("{:?}", expected));
    assert_eq!(got[1].file_path, "two");
    assert_eq!(got[1].hunks[0].added_lines, 2);
}

#[test]
fn diff_output_preamble_adds_nothing() {
    let preamble = "commit 0123abc\nAuthor: someone\n\n@@ -1 +1 @@\n+stray\n";
    let joined = format!("{preamble}{PATCH}");
    assert_eq!(
        format!("{:?}", parse_diff_output(&joined)),
        format!("{:?}", parse_diff_output(PATCH))
    );
}
