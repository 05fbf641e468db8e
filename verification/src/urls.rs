//! The addresses of documents.

use vstd::prelude::*;

verus! {

/// The normal form of an address and its path, where a text is an address.
pub uninterp spec fn url_parts(text: Seq<char>) -> Option<(Seq<char>, Seq<char>)>;

/// The normal form of an address, where a text is one.
pub open spec fn normal_url(text: Seq<char>) -> Option<Seq<char>> {
    match url_parts(text) {
        Some(parts) => Some(parts.0),
        None => None,
    }
}

/// The path of an address, where a text is one.
pub open spec fn path_of_url(text: Seq<char>) -> Option<Seq<char>> {
    match url_parts(text) {
        Some(parts) => Some(parts.1),
        None => None,
    }
}

/// Parses an address with `Url::parse` of the `url` crate, and takes the text and the `Url::path`
/// of the result.
///
/// Whether a text is an address, the normal form that it is written in, and the path that it
/// has, depend on the text alone. They are named and not described.
#[verifier::external_body]
fn parse_url(text: &str) -> (r: Option<(String, String)>)
    ensures
        r.deep_view() == url_parts(text@),
{
    let url = tower_lsp::lsp_types::Url::parse(text).ok()?;
    let path = url.path().to_owned();
    Some((String::from(url), path))
}

/// The normal form of an address, where a text is one.
pub fn normalize_url(text: &str) -> (r: Option<String>)
    ensures
        r.deep_view() == normal_url(text@),
{
    match parse_url(text) {
        Some((normal, _)) => Some(normal),
        None => None,
    }
}

/// The path of an address, where a text is one.
pub fn url_path(text: &str) -> (r: Option<String>)
    ensures
        r.deep_view() == path_of_url(text@),
{
    match parse_url(text) {
        Some((_, path)) => Some(path),
        None => None,
    }
}

}
