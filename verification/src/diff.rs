//! Parsing the patch text that `git diff` and `git show` print.
use vstd::prelude::*;
use crate::text::{
    after, before, contains, copy_range, find, find_exec, lemma_find, lemma_first_line_prefix,
    lemma_lines_append, lines,
    parse_u32, parse_u32_exec, split_lines, split_once_exec, starts_with, starts_with_exec,
    string_from_chars, strip_prefix, to_chars, trim, trimmed, views,
};
use crate::git::{
    files_view, hunks_view, opt_view, strings_view, DiffFile, DiffHunk, FileModel, GitDiff, HunkModel,
};

verus! {

/// The first field of a `start,count` range.
pub open spec fn range_start_field(x: Seq<char>) -> Seq<char> {
    if contains(x, seq![',']) {
        before(x, seq![','])
    } else {
        x
    }
}

/// The count of a `start,count` range: 1 when it is missing or unreadable.
pub open spec fn range_count(x: Seq<char>) -> u32 {
    if contains(x, seq![',']) {
        match parse_u32(after(x, seq![','])) {
            Some(n) => n,
            None => 1,
        }
    } else {
        1
    }
}

/// The numbers of a hunk header `@@ -a,b +c,d @@ ...`: `(a, b, c, d)`,
/// with a missing count read as 1.
pub open spec fn hunk_header_model(h: Seq<char>) -> Option<(u32, u32, u32, u32)> {
    if !starts_with(h, "@@ -"@) {
        None
    } else {
        let rp = strip_prefix(h, "@@ -"@);
        match find(rp, " @@"@) {
            None => None,
            Some(at) => {
                let ranges = rp.take(at);
                if !contains(ranges, " +"@) {
                    None
                } else {
                    let old = before(ranges, " +"@);
                    let new = after(ranges, " +"@);
                    match (parse_u32(range_start_field(old)), parse_u32(range_start_field(new))) {
                        (Some(os), Some(ns)) => Some(
                            (os, range_count(old), ns, range_count(new)),
                        ),
                        _ => None,
                    }
                }
            },
        }
    }
}

fn parse_range(x: &[char]) -> (r: (Option<u32>, u32))
    ensures
        r.0 == parse_u32(range_start_field(x@)),
        r.1 == range_count(x@),
{
    let comma = [','];
    assert(comma@ == seq![',']);
    match split_once_exec(x, comma.as_slice()) {
        Some((a, b)) => {
            let start = parse_u32_exec(a.as_slice());
            let count = match parse_u32_exec(b.as_slice()) {
                Some(n) => n,
                None => 1,
            };
            (start, count)
        },
        None => (parse_u32_exec(x), 1),
    }
}

/// The numbers of a hunk header, over characters.
pub fn hunk_header_chars(h: &[char]) -> (r: Option<(u32, u32, u32, u32)>)
    ensures
        r == hunk_header_model(h@),
{
    let pre = to_chars("@@ -");
    if !starts_with_exec(h, pre.as_slice()) {
        return None;
    }
    let rp = copy_range(h, pre.len(), h.len());
    assert(rp@ =~= strip_prefix(h@, "@@ -"@));
    let close = to_chars(" @@");
    let at = match find_exec(rp.as_slice(), close.as_slice()) {
        Some(at) => at,
        None => {
            return None;
        },
    };
    proof {
        lemma_find(rp@, close@);
    }
    let ranges = copy_range(rp.as_slice(), 0, at);
    assert(ranges@ =~= rp@.take(at as int));
    let plus = to_chars(" +");
    match split_once_exec(ranges.as_slice(), plus.as_slice()) {
        None => None,
        Some((old, new)) => {
            let (os, oc) = parse_range(old.as_slice());
            let (ns, nc) = parse_range(new.as_slice());
            match (os, ns) {
                (Some(a), Some(c)) => Some((a, oc, c, nc)),
                _ => None,
            }
        },
    }
}

/// The numbers of a hunk header `@@ -a,b +c,d @@`.
pub fn parse_hunk_header(header: &str) -> (r: Option<(u32, u32, u32, u32)>)
    ensures
        r == hunk_header_model(header@),
{
    let h = to_chars(header);
    hunk_header_chars(h.as_slice())
}

// ---------------------------------------------------------------------------
// The patch model
// ---------------------------------------------------------------------------

/// What has been read of a patch: the finished files, the file and the hunk
/// being read, and whether a line count has gone past `u32::MAX`.
pub struct DiffState {
    pub files: Seq<FileModel>,
    pub file: Option<FileModel>,
    pub hunk: Option<HunkModel>,
    pub overflow: bool,
}

pub open spec fn initial_diff_state() -> DiffState {
    DiffState { files: seq![], file: None, hunk: None, overflow: false }
}

/// The hunk being read joins the file being read (it is dropped if there is
/// no file).
pub open spec fn flush_hunk(st: DiffState) -> DiffState {
    match st.hunk {
        Some(h) => DiffState {
            files: st.files,
            file: match st.file {
                Some(f) => Some(
                    FileModel { file_path: f.file_path, change_type: f.change_type, hunks: f.hunks.push(h) },
                ),
                None => None,
            },
            hunk: None,
            overflow: st.overflow,
        },
        None => st,
    }
}

/// The file being read joins the finished files.
pub open spec fn flush_file(st: DiffState) -> DiffState {
    match st.file {
        Some(f) => DiffState { files: st.files.push(f), file: None, hunk: st.hunk, overflow: st.overflow },
        None => st,
    }
}

pub open spec fn new_file_model() -> FileModel {
    FileModel { file_path: seq![], change_type: "modified"@, hunks: seq![] }
}

pub open spec fn with_change_type(st: DiffState, t: Seq<char>) -> DiffState {
    match st.file {
        Some(f) => DiffState {
            files: st.files,
            file: Some(FileModel { file_path: f.file_path, change_type: t, hunks: f.hunks }),
            hunk: st.hunk,
            overflow: st.overflow,
        },
        None => st,
    }
}

pub open spec fn with_path(st: DiffState, p: Seq<char>) -> DiffState {
    match st.file {
        Some(f) => DiffState {
            files: st.files,
            file: Some(FileModel { file_path: p, change_type: f.change_type, hunks: f.hunks }),
            hunk: st.hunk,
            overflow: st.overflow,
        },
        None => st,
    }
}

/// A content line that adds a line (`+...`, not `+++...`).
pub open spec fn is_added_line(l: Seq<char>) -> bool {
    starts_with(l, seq!['+']) && !starts_with(l, "+++"@)
}

/// A content line that removes a line (`-...`, not `---...`).
pub open spec fn is_removed_line(l: Seq<char>) -> bool {
    !is_added_line(l) && starts_with(l, seq!['-']) && !starts_with(l, "---"@)
}

/// A file header line: `--- ` or `+++ ` while the file has no path yet.
pub open spec fn is_path_line(st: DiffState, l: Seq<char>) -> bool {
    &&& (starts_with(l, "--- "@) || starts_with(l, "+++ "@))
    &&& st.file matches Some(f)
    &&& f.file_path.len() == 0
}

/// A hunk after one more content line.
pub open spec fn hunk_with_line(h: HunkModel, l: Seq<char>) -> HunkModel {
    HunkModel {
        header: h.header,
        old_start: h.old_start,
        old_count: h.old_count,
        new_start: h.new_start,
        new_count: h.new_count,
        content: h.content.push(l),
        added_lines: h.added_lines + if is_added_line(l) {
            1nat
        } else {
            0nat
        },
        removed_lines: h.removed_lines + if is_removed_line(l) {
            1nat
        } else {
            0nat
        },
    }
}

/// The effect of one line of patch text.
pub open spec fn diff_step(st: DiffState, l: Seq<char>) -> DiffState {
    if starts_with(l, "diff --git"@) {
        let s1 = flush_file(flush_hunk(st));
        DiffState { files: s1.files, file: Some(new_file_model()), hunk: s1.hunk, overflow: s1.overflow }
    } else if starts_with(l, "new file mode"@) {
        with_change_type(st, "added"@)
    } else if starts_with(l, "deleted file mode"@) {
        with_change_type(st, "deleted"@)
    } else if is_path_line(st, l) {
        if starts_with(l, "+++ b/"@) {
            with_path(st, strip_prefix(l, "+++ b/"@))
        } else if starts_with(l, "--- a/"@) {
            with_path(st, strip_prefix(l, "--- a/"@))
        } else {
            st
        }
    } else if starts_with(l, "@@"@) {
        let s1 = flush_hunk(st);
        match hunk_header_model(trim(l)) {
            Some((a, b, c, d)) => DiffState {
                files: s1.files,
                file: s1.file,
                hunk: Some(
                    HunkModel {
                        header: trim(l),
                        old_start: a,
                        old_count: b,
                        new_start: c,
                        new_count: d,
                        content: seq![],
                        added_lines: 0,
                        removed_lines: 0,
                    },
                ),
                overflow: s1.overflow,
            },
            None => s1,
        }
    } else {
        match st.hunk {
            Some(h) => {
                let h2 = hunk_with_line(h, l);
                DiffState {
                    files: st.files,
                    file: st.file,
                    hunk: Some(h2),
                    overflow: st.overflow || h2.added_lines > u32::MAX || h2.removed_lines
                        > u32::MAX,
                }
            },
            None => st,
        }
    }
}

/// The state after the first `n` lines.
pub open spec fn diff_fold(ls: Seq<Seq<char>>, n: nat) -> DiffState
    decreases n,
{
    if n == 0 {
        initial_diff_state()
    } else {
        diff_step(diff_fold(ls, (n - 1) as nat), ls[n - 1])
    }
}

/// The state after all lines of `s`.
pub open spec fn diff_end(s: Seq<char>) -> DiffState {
    diff_fold(lines(s), lines(s).len())
}

/// The files of a patch text, in order.
pub open spec fn diff_files_model(s: Seq<char>) -> Seq<FileModel> {
    flush_file(flush_hunk(diff_end(s))).files
}

/// Some hunk of the patch has more added or more removed lines than a `u32`
/// counts.
pub open spec fn diff_overflows(s: Seq<char>) -> bool {
    diff_end(s).overflow
}

proof fn lemma_overflow_stays(ls: Seq<Seq<char>>, k: nat, n: nat)
    requires
        k <= n,
        diff_fold(ls, k).overflow,
    ensures
        diff_fold(ls, n).overflow,
    decreases n - k,
{
    if k < n {
        lemma_overflow_stays(ls, k, (n - 1) as nat);
    }
}

// ---------------------------------------------------------------------------
// Reading a patch
// ---------------------------------------------------------------------------

pub open spec fn opt_file_view(o: Option<DiffFile>) -> Option<FileModel> {
    match o {
        Some(f) => Some(f@),
        None => None,
    }
}

pub open spec fn opt_hunk_view(o: Option<DiffHunk>) -> Option<HunkModel> {
    match o {
        Some(h) => Some(h@),
        None => None,
    }
}

/// The files, file and hunk read so far.
struct DiffBuilder {
    files: Vec<DiffFile>,
    file: Option<DiffFile>,
    hunk: Option<DiffHunk>,
}

impl DiffBuilder {
    spec fn model(&self) -> DiffState {
        DiffState {
            files: files_view(self.files@),
            file: opt_file_view(self.file),
            hunk: opt_hunk_view(self.hunk),
            overflow: false,
        }
    }

    fn new() -> (b: Self)
        ensures
            b.model() == initial_diff_state(),
    {
        let b = DiffBuilder { files: Vec::new(), file: None, hunk: None };
        assert(files_view(b.files@) =~= Seq::<FileModel>::empty());
        b
    }

    fn flush_hunk(&mut self)
        ensures
            final(self).model() == flush_hunk(old(self).model()),
    {
        match self.hunk.take() {
            Some(h) => {
                match self.file.take() {
                    Some(mut f) => {
                        let ghost hv = h@;
                        let ghost old_hunks = f.hunks@;
                        f.hunks.push(h);
                        assert(hunks_view(f.hunks@) =~= hunks_view(old_hunks).push(hv));
                        self.file = Some(f);
                    },
                    None => {},
                }
            },
            None => {},
        }
    }

    fn flush_file(&mut self)
        ensures
            final(self).model() == flush_file(old(self).model()),
    {
        match self.file.take() {
            Some(f) => {
                let ghost fv = f@;
                let ghost old_files = self.files@;
                self.files.push(f);
                assert(files_view(self.files@) =~= files_view(old_files).push(fv));
            },
            None => {},
        }
    }

    fn set_change_type(&mut self, t: &str)
        ensures
            final(self).model() == with_change_type(old(self).model(), t@),
    {
        match self.file.take() {
            Some(mut f) => {
                f.change_type = t.to_owned();
                self.file = Some(f);
            },
            None => {},
        }
    }

    fn set_path(&mut self, p: &[char])
        ensures
            final(self).model() == with_path(old(self).model(), p@),
    {
        match self.file.take() {
            Some(mut f) => {
                f.file_path = string_from_chars(p);
                self.file = Some(f);
            },
            None => {},
        }
    }

    fn is_path_line(&self, l: &[char]) -> (r: bool)
        ensures
            r == is_path_line(self.model(), l@),
    {
        let minus = to_chars("--- ");
        let plus = to_chars("+++ ");
        if !(starts_with_exec(l, minus.as_slice()) || starts_with_exec(l, plus.as_slice())) {
            return false;
        }
        match &self.file {
            Some(f) => f.file_path.as_str().is_empty(),
            None => false,
        }
    }

    /// Reads one line; `false` when a line count would pass `u32::MAX`.
    fn step(&mut self, l: &[char]) -> (ok: bool)
        ensures
            ok == !diff_step(old(self).model(), l@).overflow,
            ok ==> final(self).model() == diff_step(old(self).model(), l@),
    {
        if starts_with_exec(l, to_chars("diff --git").as_slice()) {
            self.flush_hunk();
            self.flush_file();
            let f = DiffFile { file_path: String::new(), change_type: "modified".to_owned(), hunks: Vec::new() };
            assert(hunks_view(f.hunks@) =~= Seq::<HunkModel>::empty());
            self.file = Some(f);
            return true;
        }
        if starts_with_exec(l, to_chars("new file mode").as_slice()) {
            self.set_change_type("added");
            return true;
        }
        if starts_with_exec(l, to_chars("deleted file mode").as_slice()) {
            self.set_change_type("deleted");
            return true;
        }
        if self.is_path_line(l) {
            let plus_b = to_chars("+++ b/");
            let minus_a = to_chars("--- a/");
            if starts_with_exec(l, plus_b.as_slice()) {
                let rest = copy_range(l, plus_b.len(), l.len());
                assert(rest@ =~= strip_prefix(l@, "+++ b/"@));
                self.set_path(rest.as_slice());
            } else if starts_with_exec(l, minus_a.as_slice()) {
                let rest = copy_range(l, minus_a.len(), l.len());
                assert(rest@ =~= strip_prefix(l@, "--- a/"@));
                self.set_path(rest.as_slice());
            }
            return true;
        }
        if starts_with_exec(l, to_chars("@@").as_slice()) {
            self.flush_hunk();
            let t = trimmed(l);
            match hunk_header_chars(t.as_slice()) {
                Some((a, b, c, d)) => {
                    let h = DiffHunk {
                        header: string_from_chars(t.as_slice()),
                        old_start: a,
                        old_count: b,
                        new_start: c,
                        new_count: d,
                        content: Vec::new(),
                        added_lines: 0,
                        removed_lines: 0,
                    };
                    assert(strings_view(h.content@) =~= Seq::<Seq<char>>::empty());
                    self.hunk = Some(h);
                },
                None => {},
            }
            return true;
        }
        let plus = ['+'];
        let minus = ['-'];
        let added = starts_with_exec(l, plus.as_slice()) && !starts_with_exec(
            l,
            to_chars("+++").as_slice(),
        );
        let removed = !added && starts_with_exec(l, minus.as_slice()) && !starts_with_exec(
            l,
            to_chars("---").as_slice(),
        );
        assert(plus@ == seq!['+']);
        assert(minus@ == seq!['-']);
        match self.hunk.take() {
            Some(mut h) => {
                if added {
                    if h.added_lines == u32::MAX {
                        return false;
                    }
                    h.added_lines = h.added_lines + 1;
                } else if removed {
                    if h.removed_lines == u32::MAX {
                        return false;
                    }
                    h.removed_lines = h.removed_lines + 1;
                }
                let ghost old_content = h.content@;
                let line = string_from_chars(l);
                h.content.push(line);
                assert(strings_view(h.content@) =~= strings_view(old_content).push(l@));
                self.hunk = Some(h);
                true
            },
            None => true,
        }
    }
}

fn parse_diff_lines(ls: &Vec<Vec<char>>) -> (r: Option<Vec<DiffFile>>)
    ensures
        r is None <==> diff_fold(views(ls@), ls@.len()).overflow,
        r matches Some(v) ==> files_view(v@) == flush_file(
            flush_hunk(diff_fold(views(ls@), ls@.len())),
        ).files,
{
    let ghost vs = views(ls@);
    let mut b = DiffBuilder::new();
    let mut i: usize = 0;
    while i < ls.len()
        invariant
            i <= ls@.len(),
            vs == views(ls@),
            b.model() == diff_fold(vs, i as nat),
        decreases ls@.len() - i,
    {
        assert(vs[i as int] == ls@[i as int]@);
        if !b.step(ls[i].as_slice()) {
            proof {
                lemma_overflow_stays(vs, (i + 1) as nat, ls@.len() as nat);
            }
            return None;
        }
        i = i + 1;
    }
    b.flush_hunk();
    b.flush_file();
    Some(b.files)
}

/// The files of a patch text, or `None` when some hunk has more added or
/// removed lines than a `u32` counts.
pub fn try_parse_diff_output(stdout: &str) -> (r: Option<Vec<DiffFile>>)
    ensures
        r is None <==> diff_overflows(stdout@),
        r matches Some(v) ==> files_view(v@) == diff_files_model(stdout@),
{
    let chars = to_chars(stdout);
    let ls = split_lines(chars.as_slice());
    parse_diff_lines(&ls)
}

/// The files of a patch text (`git diff --patch` or `git show --patch`).
pub fn parse_diff_output(stdout: &str) -> (r: Vec<DiffFile>)
    requires
        !diff_overflows(stdout@),
    ensures
        files_view(r@) == diff_files_model(stdout@),
{
    match try_parse_diff_output(stdout) {
        Some(v) => v,
        None => {
            assert(false);
            Vec::new()
        },
    }
}

/// The diff of `git diff` or `git show` output comparing `from` and `to`, or
/// `None` when some hunk has more added or removed lines than a `u32` counts.
pub fn diff_from_output(from: Option<String>, to: Option<String>, stdout: &str) -> (r: Option<GitDiff>)
    ensures
        r is None <==> diff_overflows(stdout@),
        r matches Some(d) ==> files_view(d.files@) == diff_files_model(stdout@) && opt_view(
            d.from_commit,
        ) == opt_view(from) && opt_view(d.to_commit) == opt_view(to),
{
    match try_parse_diff_output(stdout) {
        Some(files) => Some(GitDiff { from_commit: from, to_commit: to, files }),
        None => None,
    }
}

// ---------------------------------------------------------------------------
// Laws
// ---------------------------------------------------------------------------

/// How many of the first `n` lines start a file (`diff --git`).
pub open spec fn file_header_count(ls: Seq<Seq<char>>, n: nat) -> nat
    decreases n,
{
    if n == 0 {
        0
    } else {
        file_header_count(ls, (n - 1) as nat) + if starts_with(ls[n - 1], "diff --git"@) {
            1nat
        } else {
            0nat
        }
    }
}

proof fn lemma_file_count(ls: Seq<Seq<char>>, n: nat)
    requires
        n <= ls.len(),
    ensures
        diff_fold(ls, n).files.len() + (if diff_fold(ls, n).file is Some {
            1nat
        } else {
            0nat
        }) == file_header_count(ls, n),
    decreases n,
{
    if n > 0 {
        lemma_file_count(ls, (n - 1) as nat);
    }
}

/// A patch text has one file for each line that starts with `diff --git`.
pub proof fn law_one_file_per_header(s: Seq<char>)
    ensures
        diff_files_model(s).len() == file_header_count(lines(s), lines(s).len()),
{
    lemma_file_count(lines(s), lines(s).len());
}

/// `st1` is `st2` read after a text whose finished files are `done` and whose
/// overflow flag is `ov`: the same file and hunk in progress, `done` before
/// the finished files, and the flags joined.
pub open spec fn diff_state_follows(st1: DiffState, st2: DiffState, done: Seq<FileModel>, ov: bool) -> bool {
    &&& st1.files == done + st2.files
    &&& st1.file == st2.file
    &&& st1.hunk == st2.hunk
    &&& st1.overflow == (ov || st2.overflow)
}

proof fn lemma_step_follows(st1: DiffState, st2: DiffState, done: Seq<FileModel>, ov: bool, l: Seq<char>)
    requires
        diff_state_follows(st1, st2, done, ov),
    ensures
        diff_state_follows(diff_step(st1, l), diff_step(st2, l), done, ov),
{
    let f1 = flush_file(flush_hunk(st1));
    let f2 = flush_file(flush_hunk(st2));
    if let Some(f) = flush_hunk(st2).file {
        assert((done + st2.files).push(f) =~= done + st2.files.push(f));
    }
    assert(diff_state_follows(f1, f2, done, ov));
}

proof fn lemma_flush_follows(st1: DiffState, st2: DiffState, done: Seq<FileModel>, ov: bool)
    requires
        diff_state_follows(st1, st2, done, ov),
    ensures
        diff_state_follows(flush_file(flush_hunk(st1)), flush_file(flush_hunk(st2)), done, ov),
{
    if let Some(f) = flush_hunk(st2).file {
        assert((done + st2.files).push(f) =~= done + st2.files.push(f));
    }
}

/// The state after `n` lines depends on those lines only.
proof fn lemma_fold_prefix(ls1: Seq<Seq<char>>, ls2: Seq<Seq<char>>, n: nat)
    requires
        n <= ls1.len(),
        n <= ls2.len(),
        forall|j: int| 0 <= j < n ==> ls1[j] == ls2[j],
    ensures
        diff_fold(ls1, n) == diff_fold(ls2, n),
    decreases n,
{
    if n > 0 {
        lemma_fold_prefix(ls1, ls2, (n - 1) as nat);
    }
}

/// Reading `la + lb`, once past the first line of `lb` (a file header),
/// follows reading `lb` alone.
proof fn lemma_fold_append(la: Seq<Seq<char>>, lb: Seq<Seq<char>>, k: nat)
    requires
        1 <= k <= lb.len(),
        starts_with(lb[0], "diff --git"@),
    ensures
        diff_state_follows(
            diff_fold(la + lb, la.len() + k),
            diff_fold(lb, k),
            flush_file(flush_hunk(diff_fold(la, la.len()))).files,
            diff_fold(la, la.len()).overflow,
        ),
    decreases k,
{
    let ls = la + lb;
    let done = flush_file(flush_hunk(diff_fold(la, la.len()))).files;
    let ov = diff_fold(la, la.len()).overflow;
    assert(ls[la.len() + k - 1] == lb[k - 1]);
    if k == 1 {
        lemma_fold_prefix(ls, la, la.len());
        assert(diff_fold(lb, 0) == initial_diff_state());
        assert(done + seq![] =~= done);
    } else {
        lemma_fold_append(la, lb, (k - 1) as nat);
        lemma_step_follows(
            diff_fold(ls, (la.len() + k - 1) as nat),
            diff_fold(lb, (k - 1) as nat),
            done,
            ov,
            lb[k - 1],
        );
    }
}

/// A patch text that is empty or ends with a line break, followed by one
/// that starts with a `diff --git` line, reads as the files of the first
/// followed by the files of the second; it overflows exactly when one of
/// them does.
pub proof fn law_diff_concat(a: Seq<char>, b: Seq<char>)
    requires
        a.len() == 0 || a.last() == '\n',
        starts_with(b, "diff --git"@),
    ensures
        diff_files_model(a + b) == diff_files_model(a) + diff_files_model(b),
        diff_overflows(a + b) == (diff_overflows(a) || diff_overflows(b)),
{
    reveal_strlit("diff --git");
    lemma_lines_append(a, b);
    lemma_first_line_prefix(b, "diff --git"@);
    let la = lines(a);
    let lb = lines(b);
    assert(lines(a + b).len() == la.len() + lb.len());
    lemma_fold_append(la, lb, lb.len());
    lemma_flush_follows(
        diff_fold(la + lb, la.len() + lb.len()),
        diff_fold(lb, lb.len()),
        diff_files_model(a),
        diff_overflows(a),
    );
}

/// Text before the first `diff --git` line (any `@@` lines in it included)
/// adds no file to the patch that follows it.
pub proof fn law_preamble_adds_no_file(a: Seq<char>, b: Seq<char>)
    requires
        a.len() == 0 || a.last() == '\n',
        file_header_count(lines(a), lines(a).len()) == 0,
        starts_with(b, "diff --git"@),
    ensures
        diff_files_model(a + b) == diff_files_model(b),
{
    law_diff_concat(a, b);
    law_one_file_per_header(a);
    assert(diff_files_model(a) + diff_files_model(b) =~= diff_files_model(b));
}

/// How many lines of `c` add a line.
pub open spec fn added_count(c: Seq<Seq<char>>) -> nat
    decreases c.len(),
{
    if c.len() == 0 {
        0
    } else {
        added_count(c.drop_last()) + if is_added_line(c.last()) {
            1nat
        } else {
            0nat
        }
    }
}

/// How many lines of `c` remove a line.
pub open spec fn removed_count(c: Seq<Seq<char>>) -> nat
    decreases c.len(),
{
    if c.len() == 0 {
        0
    } else {
        removed_count(c.drop_last()) + if is_removed_line(c.last()) {
            1nat
        } else {
            0nat
        }
    }
}

/// A hunk carries the four numbers of its own header line, in order, and
/// counts the added and removed lines of its content.
pub open spec fn hunk_agrees(h: HunkModel) -> bool {
    &&& hunk_header_model(h.header) == Some((h.old_start, h.old_count, h.new_start, h.new_count))
    &&& h.added_lines == added_count(h.content)
    &&& h.removed_lines == removed_count(h.content)
}

pub open spec fn file_agrees(f: FileModel) -> bool {
    forall|j: int| 0 <= j < f.hunks.len() ==> hunk_agrees(#[trigger] f.hunks[j])
}

pub open spec fn state_agrees(st: DiffState) -> bool {
    &&& forall|i: int| 0 <= i < st.files.len() ==> file_agrees(#[trigger] st.files[i])
    &&& st.file matches Some(f) ==> file_agrees(f)
    &&& st.hunk matches Some(h) ==> hunk_agrees(h)
}

proof fn lemma_flush_agrees(st: DiffState)
    requires
        state_agrees(st),
    ensures
        state_agrees(flush_hunk(st)),
        state_agrees(flush_file(flush_hunk(st))),
{
    let s1 = flush_hunk(st);
    if let Some(h) = st.hunk {
        if let Some(f) = st.file {
            let nf = s1.file->0;
            assert(nf.hunks == f.hunks.push(h));
            assert forall|j: int| 0 <= j < nf.hunks.len() implies hunk_agrees(#[trigger] nf.hunks[j]) by {
                if j < f.hunks.len() {
                    assert(nf.hunks[j] == f.hunks[j]);
                }
            }
        }
    }
    if let Some(f) = s1.file {
        let s2 = flush_file(s1);
        assert forall|i: int| 0 <= i < s2.files.len() implies file_agrees(#[trigger] s2.files[i]) by {
            if i < s1.files.len() {
                assert(s2.files[i] == s1.files[i]);
            }
        }
    }
}

proof fn lemma_step_agrees(st: DiffState, l: Seq<char>)
    requires
        state_agrees(st),
    ensures
        state_agrees(diff_step(st, l)),
{
    lemma_flush_agrees(st);
    let n = diff_step(st, l);
    if starts_with(l, "diff --git"@) {
        assert(file_agrees(new_file_model()));
    } else if starts_with(l, "new file mode"@) || starts_with(l, "deleted file mode"@) {
    } else if is_path_line(st, l) {
    } else if starts_with(l, "@@"@) {
        if let Some(h) = n.hunk {
            assert(h.content =~= Seq::<Seq<char>>::empty());
            assert(hunk_agrees(h));
        }
    } else if let Some(h) = st.hunk {
        let h2 = hunk_with_line(h, l);
        assert(h2.content.drop_last() =~= h.content);
        assert(hunk_agrees(h2));
    }
}

proof fn lemma_fold_agrees(ls: Seq<Seq<char>>, n: nat)
    ensures
        state_agrees(diff_fold(ls, n)),
    decreases n,
{
    if n == 0 {
    } else {
        lemma_fold_agrees(ls, (n - 1) as nat);
        lemma_step_agrees(diff_fold(ls, (n - 1) as nat), ls[n - 1]);
    }
}

/// Every hunk of a parsed patch carries, as its old start, old count, new
/// start and new count, exactly the numbers that its header line gives in
/// that order, and as its added and removed counts the numbers of its
/// content lines that add and remove a line.
pub proof fn law_hunks_agree_with_headers(s: Seq<char>)
    ensures
        forall|i: int, j: int|
            #![trigger diff_files_model(s)[i].hunks[j]]
            0 <= i < diff_files_model(s).len() && 0 <= j < diff_files_model(s)[i].hunks.len()
                ==> {
                let h = diff_files_model(s)[i].hunks[j];
                &&& hunk_header_model(h.header) == Some(
                    (h.old_start, h.old_count, h.new_start, h.new_count),
                )
                &&& h.added_lines == added_count(h.content)
                &&& h.removed_lines == removed_count(h.content)
            },
{
    lemma_fold_agrees(lines(s), lines(s).len());
    lemma_flush_agrees(diff_end(s));
    assert forall|i: int, j: int|
        0 <= i < diff_files_model(s).len() && 0 <= j < diff_files_model(s)[i].hunks.len()
        implies hunk_agrees(#[trigger] diff_files_model(s)[i].hunks[j]) by {
        assert(file_agrees(diff_files_model(s)[i]));
    }
}

} // verus!
