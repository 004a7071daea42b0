//! Serving the files of the browser UI.
use vstd::prelude::*;
use crate::text::{copy_range, string_from_chars, to_chars};

verus! {

/// The embedded file that a request path names: `index.html` for the root,
/// the path without its leading `/` otherwise.
pub open spec fn asset_path_model(p: Seq<char>) -> Seq<char> {
    if p.len() == 0 || p == seq!['/'] {
        "index.html"@
    } else if p[0] == '/' {
        p.drop_first()
    } else {
        p
    }
}

/// The embedded file that a request path names.
pub fn asset_path(path: &str) -> (r: String)
    ensures
        r@ == asset_path_model(path@),
{
    let p = to_chars(path);
    if p.len() == 0 || (p.len() == 1 && p[0] == '/') {
        proof {
            if p@.len() == 1 {
                assert(p@ =~= seq!['/']);
            }
        }
        return "index.html".to_owned();
    }
    if p[0] == '/' {
        let rest = copy_range(p.as_slice(), 1, p.len());
        assert(rest@ =~= p@.drop_first());
        proof {
            if p@ == seq!['/'] {
                assert(p@.len() == 1);
            }
        }
        string_from_chars(rest.as_slice())
    } else {
        string_from_chars(p.as_slice())
    }
}

/// The MIME type that `mime_guess` gives a path, from its extension.
pub uninterp spec fn guessed_mime(path: Seq<char>) -> Seq<char>;

/// `mime_guess::from_path(path).first_or_octet_stream()`: the first MIME type
/// known for the path's extension, `application/octet-stream` when none is.
/// The contract names the result and claims only that it is a function of
/// the path.
#[verifier::external_body]
fn mime_for_path(path: &str) -> (r: String)
    ensures
        r@ == guessed_mime(path@),
{
    mime_guess::from_path(path).first_or_octet_stream().to_string()
}

/// The answer to a request for an embedded file.
pub enum EmbeddedResponse {
    Found { content_type: String, data: Vec<u8> },
    NotFound,
}

/// The answer for the embedded file at `path` (see `asset_path`), given its
/// contents and those of `index.html`: the file with its guessed type, or
/// else `index.html` as HTML (so that the UI handles its own routes), or
/// else "not found".
pub fn embedded_response(path: &str, asset: Option<Vec<u8>>, index: Option<Vec<u8>>) -> (r:
    EmbeddedResponse)
    ensures
        asset matches Some(a) ==> (r matches EmbeddedResponse::Found { content_type, data }
            && content_type@ == guessed_mime(path@) && data@ == a@),
        asset is None ==> (index matches Some(i) ==> (r matches EmbeddedResponse::Found {
            content_type,
            data,
        } && content_type@ == "text/html"@ && data@ == i@)),
        asset is None && index is None ==> r is NotFound,
{
    match asset {
        Some(data) => EmbeddedResponse::Found { content_type: mime_for_path(path), data },
        None => match index {
            Some(data) => EmbeddedResponse::Found { content_type: "text/html".to_owned(), data },
            None => EmbeddedResponse::NotFound,
        },
    }
}

} // verus!
