//! Character-level text model: whitespace, trimming, searching, line
//! splitting and decimal numbers, each stated over `Seq<char>` and
//! implemented over `&[char]`.
use vstd::prelude::*;
use vstd::slice::{slice_subrange, slice_to_vec};
use vstd::std_specs::iter::IteratorSpec;

verus! {

// ---------------------------------------------------------------------------
// Characters
// ---------------------------------------------------------------------------

/// Unicode `White_Space` property, as used by `char::is_whitespace`.
pub open spec fn is_ws(c: char) -> bool {
    let n = c as u32;
    ||| 0x09 <= n <= 0x0D
    ||| n == 0x20
    ||| n == 0x85
    ||| n == 0xA0
    ||| n == 0x1680
    ||| 0x2000 <= n <= 0x200A
    ||| n == 0x2028
    ||| n == 0x2029
    ||| n == 0x202F
    ||| n == 0x205F
    ||| n == 0x3000
}

pub fn char_is_ws(c: char) -> (r: bool)
    ensures
        r == is_ws(c),
{
    let n = c as u32;
    (0x09 <= n && n <= 0x0D) || n == 0x20 || n == 0x85 || n == 0xA0 || n == 0x1680 || (0x2000
        <= n && n <= 0x200A) || n == 0x2028 || n == 0x2029 || n == 0x202F || n == 0x205F || n
        == 0x3000
}

/// The characters of a string slice.
pub fn to_chars(s: &str) -> (v: Vec<char>)
    ensures
        v@ == s@,
{
    let mut v: Vec<char> = Vec::new();
    proof {
        broadcast use vstd::string::group_string_axioms;
    }
    for c in it: s.chars()
        invariant
            it.seq() == s@,
            v@ == it.seq().take(it.index() as int),
    {
        v.push(c);
    }
    v
}

/// A `String` holding exactly the given characters (`String::from_iter`).
#[verifier::external_body]
pub(crate) fn string_from_chars(v: &[char]) -> (s: String)
    ensures
        s@ == v@,
{
    String::from_iter(v)
}

/// A copy of `v[lo..hi]`.
pub fn copy_range(v: &[char], lo: usize, hi: usize) -> (r: Vec<char>)
    requires
        lo <= hi <= v@.len(),
    ensures
        r@ == v@.subrange(lo as int, hi as int),
{
    slice_to_vec(slice_subrange(v, lo, hi))
}

/// Appends `p` to `v`.
pub fn push_all(v: &mut Vec<char>, p: &[char])
    ensures
        final(v)@ == old(v)@ + p@,
{
    let mut i: usize = 0;
    while i < p.len()
        invariant
            i <= p@.len(),
            v@ == old(v)@ + p@.take(i as int),
        decreases p@.len() - i,
    {
        v.push(p[i]);
        i = i + 1;
        assert(p@.take(i as int) =~= p@.take(i - 1).push(p@[i - 1]));
    }
    assert(p@.take(i as int) =~= p@);
}

/// Appends the characters of a string slice to `v`.
pub fn push_str(v: &mut Vec<char>, s: &str)
    ensures
        final(v)@ == old(v)@ + s@,
{
    let c = to_chars(s);
    push_all(v, c.as_slice());
}

// ---------------------------------------------------------------------------
// Trimming
// ---------------------------------------------------------------------------

/// `s` without its leading whitespace.
pub open spec fn trim_start(s: Seq<char>) -> Seq<char>
    decreases s.len(),
{
    if s.len() > 0 && is_ws(s[0]) {
        trim_start(s.drop_first())
    } else {
        s
    }
}

/// `s` without its trailing whitespace.
pub open spec fn trim_end(s: Seq<char>) -> Seq<char>
    decreases s.len(),
{
    if s.len() > 0 && is_ws(s.last()) {
        trim_end(s.drop_last())
    } else {
        s
    }
}

/// `s` without leading and trailing whitespace (`str::trim`).
pub open spec fn trim(s: Seq<char>) -> Seq<char> {
    trim_end(trim_start(s))
}

/// Bounds `(lo, hi)` with `v[lo..hi] == trim(v)`.
pub fn trim_bounds(v: &[char]) -> (r: (usize, usize))
    ensures
        r.0 <= r.1 <= v@.len(),
        v@.subrange(r.0 as int, r.1 as int) == trim(v@),
{
    let n = v.len();
    let mut lo: usize = 0;
    assert(v@.skip(0) =~= v@);
    while lo < n && char_is_ws(v[lo])
        invariant
            lo <= n == v@.len(),
            trim_start(v@) == trim_start(v@.skip(lo as int)),
        decreases n - lo,
    {
        assert(v@.skip(lo as int).drop_first() =~= v@.skip(lo + 1));
        lo = lo + 1;
    }
    assert(trim_start(v@.skip(lo as int)) == v@.skip(lo as int));
    assert(v@.skip(lo as int) =~= v@.subrange(lo as int, n as int));
    let mut hi: usize = n;
    while hi > lo && char_is_ws(v[hi - 1])
        invariant
            lo <= hi <= n == v@.len(),
            trim(v@) == trim_end(v@.subrange(lo as int, hi as int)),
        decreases hi,
    {
        assert(v@.subrange(lo as int, hi as int).drop_last() =~= v@.subrange(
            lo as int,
            hi - 1,
        ));
        hi = hi - 1;
    }
    (lo, hi)
}

/// A trimmed copy of `v`.
pub fn trimmed(v: &[char]) -> (r: Vec<char>)
    ensures
        r@ == trim(v@),
{
    let (lo, hi) = trim_bounds(v);
    copy_range(v, lo, hi)
}

/// A copy of `v` without its leading whitespace.
pub fn trim_start_exec(v: &[char]) -> (r: Vec<char>)
    ensures
        r@ == trim_start(v@),
{
    let n = v.len();
    let mut lo: usize = 0;
    assert(v@.skip(0) =~= v@);
    while lo < n && char_is_ws(v[lo])
        invariant
            lo <= n == v@.len(),
            trim_start(v@) == trim_start(v@.skip(lo as int)),
        decreases n - lo,
    {
        assert(v@.skip(lo as int).drop_first() =~= v@.skip(lo + 1));
        lo = lo + 1;
    }
    assert(v@.skip(lo as int) =~= v@.subrange(lo as int, n as int));
    copy_range(v, lo, n)
}

// ---------------------------------------------------------------------------
// Prefixes, suffixes and searching
// ---------------------------------------------------------------------------

pub open spec fn starts_with(s: Seq<char>, p: Seq<char>) -> bool {
    p.len() <= s.len() && s.take(p.len() as int) == p
}

pub open spec fn ends_with(s: Seq<char>, p: Seq<char>) -> bool {
    p.len() <= s.len() && s.skip(s.len() - p.len()) == p
}

/// `p` occurs in `s` at position `i`.
pub open spec fn matches_at(s: Seq<char>, p: Seq<char>, i: int) -> bool {
    0 <= i && i + p.len() <= s.len() && s.subrange(i, i + p.len()) == p
}

/// First position at or after `i` where `p` occurs in `s`.
pub open spec fn find_from(s: Seq<char>, p: Seq<char>, i: int) -> Option<int>
    decreases s.len() + 1 - i,
{
    if i < 0 || i + p.len() > s.len() {
        None
    } else if matches_at(s, p, i) {
        Some(i)
    } else {
        find_from(s, p, i + 1)
    }
}

/// First position where `p` occurs in `s` (`str::find`).
pub open spec fn find(s: Seq<char>, p: Seq<char>) -> Option<int> {
    find_from(s, p, 0)
}

pub open spec fn contains(s: Seq<char>, p: Seq<char>) -> bool {
    find(s, p) is Some
}

/// The part of `s` before the first `p` (requires `contains(s, p)`).
pub open spec fn before(s: Seq<char>, p: Seq<char>) -> Seq<char> {
    s.take(find(s, p)->0)
}

/// The part of `s` after the first `p` (requires `contains(s, p)`).
pub open spec fn after(s: Seq<char>, p: Seq<char>) -> Seq<char> {
    s.skip(find(s, p)->0 + p.len())
}

pub proof fn lemma_find_from_bounds(s: Seq<char>, p: Seq<char>, i: int)
    requires
        0 <= i,
    ensures
        find_from(s, p, i) matches Some(k) ==> i <= k && matches_at(s, p, k) && k + p.len()
            <= s.len(),
        find_from(s, p, i) matches Some(k) ==> forall|j: int| i <= j < k ==> !matches_at(s, p, j),
        find_from(s, p, i) is None ==> forall|j: int| i <= j ==> !matches_at(s, p, j),
    decreases s.len() + 1 - i,
{
    if i + p.len() > s.len() {
    } else if matches_at(s, p, i) {
    } else {
        lemma_find_from_bounds(s, p, i + 1);
    }
}

pub proof fn lemma_find(s: Seq<char>, p: Seq<char>)
    ensures
        find(s, p) matches Some(k) ==> 0 <= k && k + p.len() <= s.len() && s.subrange(
            k,
            k + p.len(),
        ) == p,
        find(s, p) matches Some(k) ==> forall|j: int| 0 <= j < k ==> !matches_at(s, p, j),
        find(s, p) is None ==> forall|j: int| 0 <= j ==> !matches_at(s, p, j),
{
    lemma_find_from_bounds(s, p, 0);
}

/// Whether `p` occurs in `s` at position `i`.
pub fn matches_at_exec(s: &[char], p: &[char], i: usize) -> (r: bool)
    ensures
        r == matches_at(s@, p@, i as int),
{
    if i > s.len() || p.len() > s.len() - i {
        return false;
    }
    let mut j: usize = 0;
    while j < p.len()
        invariant
            i + p@.len() <= s@.len(),
            s@.len() == s.len(),
            j <= p@.len(),
            forall|k: int| 0 <= k < j ==> s@[i + k] == p@[k],
        decreases p@.len() - j,
    {
        if s[i + j] != p[j] {
            assert(s@.subrange(i as int, i + p@.len())[j as int] != p@[j as int]);
            return false;
        }
        j = j + 1;
    }
    assert(s@.subrange(i as int, i + p@.len()) =~= p@);
    true
}

/// First position of `p` in `s`.
pub fn find_exec(s: &[char], p: &[char]) -> (r: Option<usize>)
    ensures
        match r {
            Some(k) => find(s@, p@) == Some(k as int),
            None => find(s@, p@) is None,
        },
{
    let mut i: usize = 0;
    if p.len() > s.len() {
        return None;
    }
    if p.len() == 0 {
        assert(s@.subrange(0, 0) =~= p@);
        return Some(0);
    }
    while i <= s.len() - p.len()
        invariant
            1 <= p@.len() <= s@.len(),
            i <= s@.len() - p@.len() + 1,
            find(s@, p@) == find_from(s@, p@, i as int),
        decreases s@.len() + 1 - i,
    {
        if matches_at_exec(s, p, i) {
            return Some(i);
        }
        i = i + 1;
    }
    None
}

pub fn starts_with_exec(s: &[char], p: &[char]) -> (r: bool)
    ensures
        r == starts_with(s@, p@),
{
    let r = matches_at_exec(s, p, 0);
    proof {
        if p@.len() <= s@.len() {
            assert(s@.subrange(0, p@.len() as int) =~= s@.take(p@.len() as int));
        }
    }
    r
}

pub fn ends_with_exec(s: &[char], p: &[char]) -> (r: bool)
    ensures
        r == ends_with(s@, p@),
{
    if p.len() > s.len() {
        return false;
    }
    let r = matches_at_exec(s, p, s.len() - p.len());
    assert(s@.subrange(s@.len() - p@.len(), s@.len() as int) =~= s@.skip(s@.len() - p@.len()));
    r
}

/// `str::split_once`: the parts before and after the first `p`.
pub fn split_once_exec(s: &[char], p: &[char]) -> (r: Option<(Vec<char>, Vec<char>)>)
    ensures
        r is Some <==> contains(s@, p@),
        r matches Some((a, b)) ==> a@ == before(s@, p@) && b@ == after(s@, p@),
{
    proof {
        lemma_find(s@, p@);
    }
    match find_exec(s, p) {
        Some(i) => {
            assert(i + p@.len() <= s@.len());
            assert(i + p.len() <= s.len());
            let a = copy_range(s, 0, i);
            let b = copy_range(s, i + p.len(), s.len());
            assert(a@ =~= s@.take(i as int));
            assert(b@ =~= s@.skip(i + p@.len()));
            Some((a, b))
        },
        None => None,
    }
}

/// `s` without the prefix `p` (requires `starts_with(s, p)`).
pub open spec fn strip_prefix(s: Seq<char>, p: Seq<char>) -> Seq<char> {
    s.skip(p.len() as int)
}

/// `s` without the suffix `p` (requires `ends_with(s, p)`).
pub open spec fn strip_suffix(s: Seq<char>, p: Seq<char>) -> Seq<char> {
    s.take(s.len() - p.len())
}

// ---------------------------------------------------------------------------
// Splitting
// ---------------------------------------------------------------------------

/// The views of a sequence of character vectors.
pub open spec fn views(v: Seq<Vec<char>>) -> Seq<Seq<char>> {
    v.map_values(|x: Vec<char>| x@)
}

pub proof fn lemma_views_push(v: Seq<Vec<char>>, x: Vec<char>)
    ensures
        views(v.push(x)) == views(v).push(x@),
{
    assert(views(v.push(x)) =~= views(v).push(x@));
}

/// A line without the `'\r'` that ends it, if any.
pub open spec fn strip_cr(l: Seq<char>) -> Seq<char> {
    if l.len() > 0 && l.last() == '\r' {
        l.drop_last()
    } else {
        l
    }
}

/// The lines of `s` as `str::lines` yields them: split at each `'\n'`, a
/// `'\r'` before the `'\n'` removed, no empty line after a final `'\n'`.
pub open spec fn lines(s: Seq<char>) -> Seq<Seq<char>>
    decreases s.len(),
{
    if s.len() == 0 {
        seq![]
    } else {
        match find(s, seq!['\n']) {
            Some(i) => {
                proof {
                    lemma_find(s, seq!['\n']);
                }
                seq![strip_cr(s.take(i))] + lines(s.skip(i + 1))
            },
            None => seq![s],
        }
    }
}

/// A search that succeeds within `a` finds the same place in `a + b`.
pub proof fn lemma_find_from_append(a: Seq<char>, b: Seq<char>, p: Seq<char>, i: int)
    requires
        0 <= i,
        find_from(a, p, i) is Some,
    ensures
        find_from(a + b, p, i) == find_from(a, p, i),
    decreases a.len() + 1 - i,
{
    assert(i + p.len() <= a.len());
    assert((a + b).subrange(i, i + p.len()) =~= a.subrange(i, i + p.len()));
    if !matches_at(a, p, i) {
        lemma_find_from_append(a, b, p, i + 1);
    }
}

/// In `a + p + b`, where `p` does not occur in `a` followed by all of `p`
/// but its last character, the first `p` is the one after `a`.
pub proof fn lemma_find_after(a: Seq<char>, p: Seq<char>, b: Seq<char>)
    requires
        p.len() > 0,
        !contains(a + p.drop_last(), p),
    ensures
        find(a + p + b, p) == Some(a.len() as int),
{
    let s = a + p + b;
    let q = a + p.drop_last();
    assert(s.subrange(a.len() as int, (a.len() + p.len()) as int) =~= p);
    assert(matches_at(s, p, a.len() as int));
    lemma_find(s, p);
    lemma_find(q, p);
    let k = find(s, p)->0;
    assert(k <= a.len());
    if k < a.len() {
        assert(k + p.len() <= q.len());
        assert(q.subrange(k, k + p.len()) =~= s.subrange(k, k + p.len()));
        assert(matches_at(q, p, k));
    }
}

/// Text that is empty or ends with a line break has its lines read
/// separately from whatever follows it.
pub proof fn lemma_lines_append(a: Seq<char>, b: Seq<char>)
    requires
        a.len() == 0 || a.last() == '\n',
    ensures
        lines(a + b) == lines(a) + lines(b),
    decreases a.len(),
{
    let nl = seq!['\n'];
    if a.len() == 0 {
        assert(a + b =~= b);
        assert(lines(a) + lines(b) =~= lines(b));
    } else {
        lemma_find(a, nl);
        assert(a.subrange(a.len() - 1, a.len() as int) =~= nl);
        assert(matches_at(a, nl, a.len() - 1));
        let i = find(a, nl)->0;
        lemma_find_from_append(a, b, nl, 0);
        let rest = a.skip(i + 1);
        assert((a + b).take(i) =~= a.take(i));
        assert((a + b).skip(i + 1) =~= rest + b);
        if rest.len() > 0 {
            assert(rest.last() == a.last());
        }
        lemma_lines_append(rest, b);
        assert(lines(a + b) =~= seq![strip_cr(a.take(i))] + (lines(rest) + lines(b)));
        assert(lines(a + b) =~= lines(a) + lines(b));
    }
}

/// The first line of text that starts with `p` (which holds no line break
/// and does not end with `'\r'`) starts with `p` too.
pub proof fn lemma_first_line_prefix(s: Seq<char>, p: Seq<char>)
    requires
        starts_with(s, p),
        p.len() > 0,
        !p.contains('\n'),
        p.last() != '\r',
    ensures
        lines(s).len() > 0,
        starts_with(lines(s)[0], p),
{
    let nl = seq!['\n'];
    lemma_find(s, nl);
    match find(s, nl) {
        Some(i) => {
            if i < p.len() {
                assert(s.subrange(i, i + 1)[0] == '\n');
                assert(p[i] == s[i]);
                assert(p.contains('\n'));
            }
            let l = s.take(i);
            assert(l.take(p.len() as int) =~= p);
            if l.len() > 0 && l.last() == '\r' {
                if l.len() == p.len() {
                    assert(p.last() == l.last());
                }
                assert(l.drop_last().take(p.len() as int) =~= p);
            }
        },
        None => {},
    }
}

/// The pieces of `s` between the non-overlapping occurrences of `p`, found
/// from the left (`str::split` with a non-empty pattern).
pub open spec fn split(s: Seq<char>, p: Seq<char>) -> Seq<Seq<char>>
    decreases s.len(),
{
    if p.len() == 0 {
        seq![s]
    } else {
        match find(s, p) {
            Some(i) => {
                proof {
                    lemma_find(s, p);
                }
                seq![s.take(i)] + split(s.skip(i + p.len()), p)
            },
            None => seq![s],
        }
    }
}

/// At most `n` pieces: `split`, with everything after the `n - 1`-th
/// occurrence of `p` left in the last piece (`str::splitn`, non-empty `p`).
pub open spec fn splitn(n: nat, s: Seq<char>, p: Seq<char>) -> Seq<Seq<char>>
    decreases n,
{
    if n == 0 {
        seq![]
    } else if n == 1 || p.len() == 0 {
        seq![s]
    } else {
        match find(s, p) {
            Some(i) => seq![s.take(i)] + splitn((n - 1) as nat, s.skip(i + p.len()), p),
            None => seq![s],
        }
    }
}

/// The lines of `s`.
pub fn split_lines(s: &[char]) -> (r: Vec<Vec<char>>)
    ensures
        views(r@) == lines(s@),
{
    let nl = ['\n'];
    let mut r: Vec<Vec<char>> = Vec::new();
    let mut pos: usize = 0;
    assert(s@.skip(0) =~= s@);
    while pos < s.len()
        invariant
            pos <= s@.len(),
            nl@ == seq!['\n'],
            lines(s@) == views(r@) + lines(s@.skip(pos as int)),
        decreases s@.len() - pos,
    {
        let rest = slice_subrange(s, pos, s.len());
        assert(rest@ == s@.skip(pos as int));
        proof {
            lemma_find(rest@, nl@);
        }
        match find_exec(rest, nl.as_slice()) {
            Some(i) => {
                let mut end = pos + i;
                if i > 0 && s[pos + i - 1] == '\r' {
                    end = end - 1;
                }
                let line = copy_range(s, pos, end);
                assert(line@ =~= strip_cr(rest@.take(i as int)));
                assert(rest@.skip(i + 1) =~= s@.skip(pos + i + 1));
                proof {
                    lemma_views_push(r@, line);
                }
                r.push(line);
                pos = pos + i + 1;
                assert(lines(s@) == views(r@) + lines(s@.skip(pos as int)));
            },
            None => {
                let line = copy_range(s, pos, s.len());
                proof {
                    lemma_views_push(r@, line);
                }
                r.push(line);
                pos = s.len();
                assert(s@.skip(pos as int) =~= Seq::<char>::empty());
                assert(lines(s@) == views(r@) + lines(s@.skip(pos as int)));
            },
        }
    }
    assert(s@.skip(pos as int) =~= Seq::<char>::empty());
    assert(views(r@) + Seq::<Seq<char>>::empty() =~= views(r@));
    r
}

/// The pieces of `s` between occurrences of `p`.
pub fn split_exec(s: &[char], p: &[char]) -> (r: Vec<Vec<char>>)
    requires
        p@.len() > 0,
    ensures
        views(r@) == split(s@, p@),
{
    let mut r: Vec<Vec<char>> = Vec::new();
    let mut pos: usize = 0;
    assert(s@.skip(0) =~= s@);
    loop
        invariant
            pos <= s@.len(),
            p@.len() > 0,
            split(s@, p@) == views(r@) + split(s@.skip(pos as int), p@),
        decreases s@.len() - pos,
    {
        let rest = slice_subrange(s, pos, s.len());
        assert(rest@ == s@.skip(pos as int));
        proof {
            lemma_find(rest@, p@);
        }
        match find_exec(rest, p) {
            Some(i) => {
                let piece = copy_range(s, pos, pos + i);
                assert(piece@ =~= rest@.take(i as int));
                assert(rest@.skip(i + p@.len()) =~= s@.skip(pos + i + p@.len()));
                proof {
                    lemma_views_push(r@, piece);
                }
                r.push(piece);
                pos = pos + i + p.len();
                assert(split(s@, p@) == views(r@) + split(s@.skip(pos as int), p@));
            },
            None => {
                let piece = copy_range(s, pos, s.len());
                proof {
                    lemma_views_push(r@, piece);
                }
                r.push(piece);
                assert(views(r@) =~= views(r@.drop_last()) + seq![piece@]);
                return r;
            },
        }
    }
}

/// At most `n` pieces of `s` split at `p`.
pub fn splitn_exec(n: usize, s: &[char], p: &[char]) -> (r: Vec<Vec<char>>)
    requires
        p@.len() > 0,
    ensures
        views(r@) == splitn(n as nat, s@, p@),
{
    let mut r: Vec<Vec<char>> = Vec::new();
    if n == 0 {
        assert(views(r@) =~= Seq::<Seq<char>>::empty());
        return r;
    }
    let mut pos: usize = 0;
    let mut left: usize = n;
    assert(s@.skip(0) =~= s@);
    loop
        invariant
            pos <= s@.len(),
            1 <= left <= n,
            p@.len() > 0,
            splitn(n as nat, s@, p@) == views(r@) + splitn(left as nat, s@.skip(pos as int), p@),
        decreases left,
    {
        let rest = slice_subrange(s, pos, s.len());
        assert(rest@ == s@.skip(pos as int));
        if left == 1 {
            let piece = copy_range(s, pos, s.len());
            proof {
                lemma_views_push(r@, piece);
            }
            r.push(piece);
            assert(views(r@) =~= views(r@.drop_last()) + seq![piece@]);
            return r;
        }
        proof {
            lemma_find(rest@, p@);
        }
        match find_exec(rest, p) {
            Some(i) => {
                let piece = copy_range(s, pos, pos + i);
                assert(piece@ =~= rest@.take(i as int));
                assert(rest@.skip(i + p@.len()) =~= s@.skip(pos + i + p@.len()));
                proof {
                    lemma_views_push(r@, piece);
                }
                r.push(piece);
                pos = pos + i + p.len();
                left = left - 1;
                assert(splitn(n as nat, s@, p@) == views(r@) + splitn(
                    left as nat,
                    s@.skip(pos as int),
                    p@,
                ));
            },
            None => {
                let piece = copy_range(s, pos, s.len());
                proof {
                    lemma_views_push(r@, piece);
                }
                r.push(piece);
                assert(views(r@) =~= views(r@.drop_last()) + seq![piece@]);
                return r;
            },
        }
    }
}

// ---------------------------------------------------------------------------
// Decimal numbers
// ---------------------------------------------------------------------------

pub open spec fn is_digit(c: char) -> bool {
    '0' <= c && c <= '9'
}

pub open spec fn digit_value(c: char) -> nat {
    (c as u32 - '0' as u32) as nat
}

pub open spec fn digit_char(d: nat) -> char {
    ((d + '0' as u32) as u32) as char
}

pub open spec fn all_digits(s: Seq<char>) -> bool {
    forall|i: int| 0 <= i < s.len() ==> is_digit(#[trigger] s[i])
}

/// The number that a string of decimal digits denotes.
pub open spec fn digits_value(s: Seq<char>) -> nat
    decreases s.len(),
{
    if s.len() == 0 {
        0
    } else {
        digits_value(s.drop_last()) * 10 + digit_value(s.last())
    }
}

/// `u32::from_str`: an optional `'+'` and at least one decimal digit, with a
/// value that fits in 32 bits.
pub open spec fn parse_u32(s: Seq<char>) -> Option<u32> {
    let d = if s.len() > 0 && s[0] == '+' {
        s.drop_first()
    } else {
        s
    };
    if d.len() > 0 && all_digits(d) && digits_value(d) <= u32::MAX {
        Some(digits_value(d) as u32)
    } else {
        None
    }
}

/// The decimal digits of `n`, without leading zeros (`n.to_string()`).
pub open spec fn decimal(n: nat) -> Seq<char>
    decreases n,
{
    if n < 10 {
        seq![digit_char(n)]
    } else {
        decimal(n / 10).push(digit_char(n % 10))
    }
}

/// `u32::from_str` on a sequence of characters.
pub fn parse_u32_exec(s: &[char]) -> (r: Option<u32>)
    ensures
        r == parse_u32(s@),
{
    let mut start: usize = 0;
    if s.len() > 0 && s[0] == '+' {
        start = 1;
    }
    let d = slice_subrange(s, start, s.len());
    let ghost dd = if s@.len() > 0 && s@[0] == '+' {
        s@.drop_first()
    } else {
        s@
    };
    assert(d@ =~= dd);
    if d.len() == 0 {
        return None;
    }
    let mut i: usize = 0;
    let mut acc: u64 = 0;
    let mut big = false;
    assert(d@.take(0) =~= Seq::<char>::empty());
    assert(parse_u32(s@) == (if d@.len() > 0 && all_digits(d@) && digits_value(d@) <= u32::MAX {
        Some(digits_value(d@) as u32)
    } else {
        None
    }));
    while i < d.len()
        invariant
            i <= d@.len(),
            parse_u32(s@) == (if d@.len() > 0 && all_digits(d@) && digits_value(d@) <= u32::MAX {
                Some(digits_value(d@) as u32)
            } else {
                None
            }),
            forall|k: int| 0 <= k < i ==> is_digit(#[trigger] d@[k]),
            !big ==> acc == digits_value(d@.take(i as int)) && acc <= u32::MAX,
            big ==> digits_value(d@.take(i as int)) > u32::MAX,
        decreases d@.len() - i,
    {
        let c = d[i];
        if !('0' <= c && c <= '9') {
            assert(!is_digit(d@[i as int]));
            assert(!all_digits(d@));
            return None;
        }
        assert(d@.take(i + 1).drop_last() =~= d@.take(i as int));
        if !big {
            let v = acc * 10 + ((c as u32 - '0' as u32) as u64);
            if v > 0xFFFF_FFFF {
                big = true;
            } else {
                acc = v;
            }
        }
        i = i + 1;
    }
    assert(d@.take(i as int) =~= d@);
    if big {
        None
    } else {
        Some(acc as u32)
    }
}

/// Appends the decimal digits of `n` to `v`.
pub fn push_decimal(v: &mut Vec<char>, n: u64)
    ensures
        final(v)@ == old(v)@ + decimal(n as nat),
    decreases n,
{
    if n >= 10 {
        push_decimal(v, n / 10);
    }
    let d = (n % 10) as u32;
    let c = char_from_digit(d);
    v.push(c);
    assert(old(v)@ + decimal(n as nat) =~= (if n >= 10 {
        old(v)@ + decimal((n / 10) as nat)
    } else {
        old(v)@
    }).push(digit_char((n % 10) as nat)));
}

fn char_from_digit(d: u32) -> (c: char)
    requires
        d < 10,
    ensures
        c == digit_char(d as nat),
{
    if d == 0 { '0' }
    else if d == 1 { '1' }
    else if d == 2 { '2' }
    else if d == 3 { '3' }
    else if d == 4 { '4' }
    else if d == 5 { '5' }
    else if d == 6 { '6' }
    else if d == 7 { '7' }
    else if d == 8 { '8' }
    else { '9' }
}

/// The decimal digits of `n`.
pub fn decimal_string(n: u64) -> (s: String)
    ensures
        s@ == decimal(n as nat),
{
    let mut v: Vec<char> = Vec::new();
    push_decimal(&mut v, n);
    assert(v@ =~= decimal(n as nat));
    string_from_chars(v.as_slice())
}

proof fn lemma_digit_char(d: nat)
    requires
        d < 10,
    ensures
        is_digit(digit_char(d)),
        digit_value(digit_char(d)) == d,
        digit_char(d) != '+',
{
}

proof fn lemma_decimal_digits(n: nat)
    ensures
        all_digits(decimal(n)),
        digits_value(decimal(n)) == n,
        decimal(n).len() > 0,
        decimal(n)[0] != '+',
    decreases n,
{
    if n >= 10 {
        lemma_decimal_digits(n / 10);
        let d = decimal(n);
        assert(d.drop_last() =~= decimal(n / 10));
        assert(d.last() == digit_char(n % 10));
        assert(digits_value(d) == digits_value(d.drop_last()) * 10 + digit_value(d.last()));
        assert(d[0] == decimal(n / 10)[0]);
        lemma_digit_char(n % 10);
        assert(digits_value(d.drop_last()) == n / 10);
        assert(digit_value(d.last()) == n % 10);
        let q = n / 10;
        let r = n % 10;
        assert(n == q * 10 + r) by (nonlinear_arith)
            requires
                q == n / 10,
                r == n % 10,
        ;
    } else {
        lemma_digit_char(n);
        let d = decimal(n);
        assert(d.drop_last() =~= Seq::<char>::empty());
        assert(digits_value(d) == digits_value(d.drop_last()) * 10 + digit_value(d.last()));
    }
}

/// Reading back the decimal digits of a 32-bit number gives the number.
pub proof fn law_parse_decimal_roundtrip(n: u32)
    ensures
        parse_u32(decimal(n as nat)) == Some(n),
{
    lemma_decimal_digits(n as nat);
}

// ---------------------------------------------------------------------------
// Counting and words
// ---------------------------------------------------------------------------

/// How many times `c` occurs in `s`.
pub open spec fn count_char(s: Seq<char>, c: char) -> nat
    decreases s.len(),
{
    if s.len() == 0 {
        0
    } else {
        count_char(s.drop_last(), c) + if s.last() == c {
            1nat
        } else {
            0nat
        }
    }
}

pub fn count_char_exec(s: &[char], c: char) -> (r: usize)
    ensures
        r == count_char(s@, c),
{
    let mut i: usize = 0;
    let mut n: usize = 0;
    assert(s@.take(0) =~= Seq::<char>::empty());
    while i < s.len()
        invariant
            i <= s@.len(),
            n <= i,
            n == count_char(s@.take(i as int), c),
        decreases s@.len() - i,
    {
        assert(s@.take(i + 1).drop_last() =~= s@.take(i as int));
        if s[i] == c {
            n = n + 1;
        }
        i = i + 1;
    }
    assert(s@.take(i as int) =~= s@);
    n
}

/// Index of the first whitespace character of `s`, or `s.len()`.
pub open spec fn ws_index_from(s: Seq<char>, i: int) -> int
    decreases s.len() - i,
{
    if i < 0 || i >= s.len() {
        s.len() as int
    } else if is_ws(s[i]) {
        i
    } else {
        ws_index_from(s, i + 1)
    }
}

pub open spec fn ws_index(s: Seq<char>) -> int {
    ws_index_from(s, 0)
}

pub fn ws_index_exec(s: &[char]) -> (r: usize)
    ensures
        r == ws_index(s@),
        r <= s@.len(),
{
    let mut i: usize = 0;
    while i < s.len() && !char_is_ws(s[i])
        invariant
            i <= s@.len(),
            ws_index(s@) == ws_index_from(s@, i as int),
        decreases s@.len() - i,
    {
        i = i + 1;
    }
    i
}

/// The first item of `str::split_whitespace`, if any.
pub open spec fn first_token(s: Seq<char>) -> Option<Seq<char>> {
    let t = trim_start(s);
    if t.len() == 0 {
        None
    } else {
        Some(t.take(ws_index(t)))
    }
}

/// The first item of `str::split_whitespace`.
pub fn first_token_exec(v: &[char]) -> (r: Option<Vec<char>>)
    ensures
        match r {
            Some(t) => first_token(v@) == Some(t@),
            None => first_token(v@) is None,
        },
{
    let t = trim_start_exec(v);
    if t.len() == 0 {
        return None;
    }
    let k = ws_index_exec(t.as_slice());
    let tok = copy_range(t.as_slice(), 0, k);
    assert(tok@ =~= t@.take(k as int));
    Some(tok)
}

// ---------------------------------------------------------------------------
// Collecting over lines
// ---------------------------------------------------------------------------

/// The values `f` gives for the first `n` items of `ls`, skipping `None`.
pub open spec fn filter_map_prefix<A>(
    ls: Seq<Seq<char>>,
    f: spec_fn(Seq<char>) -> Option<A>,
    n: nat,
) -> Seq<A>
    decreases n,
{
    if n == 0 {
        seq![]
    } else {
        let prev = filter_map_prefix(ls, f, (n - 1) as nat);
        match f(ls[n - 1]) {
            Some(a) => prev.push(a),
            None => prev,
        }
    }
}

/// The values `f` gives for the items of `ls`, in order, skipping `None`.
pub open spec fn filter_map<A>(ls: Seq<Seq<char>>, f: spec_fn(Seq<char>) -> Option<A>) -> Seq<A> {
    filter_map_prefix(ls, f, ls.len())
}

/// How many of the first `n` lines hold something other than whitespace.
pub open spec fn nonblank_count(ls: Seq<Seq<char>>, n: nat) -> nat
    decreases n,
{
    if n == 0 {
        0
    } else {
        nonblank_count(ls, (n - 1) as nat) + if trim(ls[n - 1]).len() > 0 {
            1nat
        } else {
            0nat
        }
    }
}

/// A collection that keeps exactly the non-blank lines has one item per
/// non-blank line.
pub proof fn lemma_filter_map_nonblank<A>(ls: Seq<Seq<char>>, f: spec_fn(Seq<char>) -> Option<A>, n: nat)
    requires
        n <= ls.len(),
        forall|l: Seq<char>| #[trigger] f(l) is Some <==> trim(l).len() > 0,
    ensures
        filter_map_prefix(ls, f, n).len() == nonblank_count(ls, n),
    decreases n,
{
    if n > 0 {
        lemma_filter_map_nonblank(ls, f, (n - 1) as nat);
        let l = ls[n - 1];
        assert(f(l) is Some <==> trim(l).len() > 0);
    }
}

/// Text that neither starts nor ends with whitespace is its own trim.
pub proof fn lemma_trim_exact(x: Seq<char>)
    requires
        x.len() > 0,
        !is_ws(x[0]),
        !is_ws(x.last()),
    ensures
        trim_start(x) == x,
        trim(x) == x,
{
}

/// Leading spaces do not change what trimming gives.
pub proof fn lemma_trim_leading_spaces(x: Seq<char>)
    requires
        x.len() > 0,
        !is_ws(x[0]),
        !is_ws(x.last()),
    ensures
        trim("  "@ + x) == x,
{
    reveal_strlit("  ");
    let y = "  "@ + x;
    assert(is_ws(' '));
    assert(y.drop_first() =~= seq![' '] + x);
    assert((seq![' '] + x).drop_first() =~= x);
    lemma_trim_exact(x);
    assert(trim_start(seq![' '] + x) == trim_start(x));
    assert(trim_start(y) == x);
}

/// Every item that `filter_map_prefix` keeps is what `f` gives for one of
/// the first `n` lines.
pub proof fn lemma_filter_map_from<A>(ls: Seq<Seq<char>>, f: spec_fn(Seq<char>) -> Option<A>, n: nat)
    requires
        n <= ls.len(),
    ensures
        forall|i: int|
            0 <= i < filter_map_prefix(ls, f, n).len() ==> exists|j: int|
                0 <= j < n && f(ls[j]) == Some(#[trigger] filter_map_prefix(ls, f, n)[i]),
    decreases n,
{
    if n > 0 {
        let k = (n - 1) as nat;
        lemma_filter_map_from(ls, f, k);
        let prev = filter_map_prefix(ls, f, k);
        let cur = filter_map_prefix(ls, f, n);
        assert forall|i: int| 0 <= i < cur.len() implies exists|j: int|
            0 <= j < n && f(ls[j]) == Some(#[trigger] cur[i]) by {
            if i < prev.len() {
                assert(cur[i] == prev[i]);
                let j = choose|j: int| 0 <= j < k && f(ls[j]) == Some(prev[i]);
                assert(0 <= j < n && f(ls[j]) == Some(cur[i]));
            } else {
                assert(f(ls[k as int]) == Some(cur[i]));
            }
        }
    }
}

} // verus!
