//! Files that git does not track: their list and what is shown of them.
use vstd::prelude::*;
use vstd::utf8::{decode_utf8, valid_utf8};
use crate::git::{opt_view, strings_view, UntrackedFileContent};
use crate::text::{filter_map, filter_map_prefix, lines, split_lines, string_from_chars, to_chars, views};

verus! {

/// The non-empty lines of `git ls-files --others --exclude-standard`.
pub open spec fn untracked_model(s: Seq<char>) -> Seq<Seq<char>> {
    filter_map(
        lines(s),
        |l: Seq<char>|
            if l.len() == 0 {
                None
            } else {
                Some(l)
            },
    )
}

/// The paths listed by `git ls-files --others --exclude-standard`.
pub fn parse_untracked_files(stdout: &str) -> (r: Vec<String>)
    ensures
        strings_view(r@) == untracked_model(stdout@),
{
    let chars = to_chars(stdout);
    let ls = split_lines(chars.as_slice());
    let ghost vs = views(ls@);
    let ghost f = |l: Seq<char>|
        if l.len() == 0 {
            None
        } else {
            Some(l)
        };
    let mut r: Vec<String> = Vec::new();
    let mut i: usize = 0;
    assert(strings_view(r@) =~= Seq::<Seq<char>>::empty());
    while i < ls.len()
        invariant
            i <= ls@.len(),
            vs == views(ls@),
            vs == lines(stdout@),
            f == (|l: Seq<char>|
                if l.len() == 0 {
                    None
                } else {
                    Some(l)
                }),
            strings_view(r@) == filter_map_prefix(vs, f, i as nat),
        decreases ls@.len() - i,
    {
        assert(vs[i as int] == ls@[i as int]@);
        if ls[i].len() > 0 {
            let ghost before = r@;
            let s = string_from_chars(ls[i].as_slice());
            r.push(s);
            assert(strings_view(r@) =~= strings_view(before).push(vs[i as int]));
        }
        i = i + 1;
    }
    r
}

/// How many leading bytes are searched for a zero byte.
pub const BINARY_PROBE_LEN: usize = 8000;

/// A file is shown as binary when one of its first 8000 bytes is zero.
pub open spec fn looks_binary(b: Seq<u8>) -> bool {
    exists|i: int| 0 <= i < b.len() && i < BINARY_PROBE_LEN && b[i] == 0
}

pub struct ContentModel {
    pub content: Option<Seq<char>>,
    pub is_binary: bool,
}

impl View for UntrackedFileContent {
    type V = ContentModel;

    open spec fn view(&self) -> ContentModel {
        ContentModel { content: opt_view(self.content), is_binary: self.is_binary }
    }
}

/// What is shown of a file with the given bytes (`None` when it could not be
/// read): nothing for an unreadable file; nothing, marked binary, when a
/// zero byte comes early or the bytes are not UTF-8; the text otherwise.
pub open spec fn untracked_content_model(read: Option<Seq<u8>>) -> ContentModel {
    match read {
        None => ContentModel { content: None, is_binary: false },
        Some(b) => if looks_binary(b) || !valid_utf8(b) {
            ContentModel { content: None, is_binary: true }
        } else {
            ContentModel { content: Some(decode_utf8(b)), is_binary: false }
        },
    }
}

/// The text of bytes that are valid UTF-8 (`String::from_utf8`).
#[verifier::external_body]
fn utf8_to_string(bytes: Vec<u8>) -> (r: Option<String>)
    ensures
        r is Some <==> valid_utf8(bytes@),
        r matches Some(s) ==> s@ == decode_utf8(bytes@),
{
    String::from_utf8(bytes).ok()
}

fn has_early_zero(bytes: &Vec<u8>) -> (r: bool)
    ensures
        r == looks_binary(bytes@),
{
    let mut i: usize = 0;
    while i < bytes.len() && i < BINARY_PROBE_LEN
        invariant
            i <= bytes@.len(),
            i <= BINARY_PROBE_LEN,
            forall|k: int| 0 <= k < i ==> bytes@[k] != 0,
        decreases bytes@.len() - i,
    {
        if bytes[i] == 0 {
            return true;
        }
        i = i + 1;
    }
    false
}

/// What is shown of an untracked file, from the result of reading it.
pub fn untracked_content(read: Option<Vec<u8>>) -> (r: UntrackedFileContent)
    ensures
        r@ == untracked_content_model(
            match read {
                Some(b) => Some(b@),
                None => None,
            },
        ),
{
    let bytes = match read {
        Some(b) => b,
        None => {
            return UntrackedFileContent { content: None, is_binary: false };
        },
    };
    if has_early_zero(&bytes) {
        return UntrackedFileContent { content: None, is_binary: true };
    }
    match utf8_to_string(bytes) {
        Some(s) => UntrackedFileContent { content: Some(s), is_binary: false },
        None => UntrackedFileContent { content: None, is_binary: true },
    }
}

} // verus!
