//! File URLs, built by the `url` crate.

use vstd::prelude::*;

verus! {

/// The `file:` URL that the `url` crate builds for the absolute path text `path`.
pub uninterp spec fn file_url_of(path: Seq<char>) -> Seq<char>;

/// Relies on url::Url::from_file_path (Unix build): a path that starts with `/`
/// becomes its `file:` URL, any other path is refused.
#[verifier::external_body]
pub(crate) fn file_url(path: &str) -> (r: Option<String>)
    ensures
        r is Some <==> (path@.len() > 0 && path@[0] == '/'),
        r is Some ==> r->Some_0@ == file_url_of(path@),
{
    url::Url::from_file_path(path).ok().map(String::from)
}

} // verus!
