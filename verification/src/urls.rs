//! What the crates `url` and `url_escape` make of a URL. Their results are
//! given names here, and the rules of this library are stated over the names.

use vstd::prelude::*;
use crate::album::texts;
use crate::params::pair_texts;

verus! {

/// The absolute URL that `reference` stands for where `base` is the URL of
/// the page that holds it, as `url::Url::join` resolves it; `None` where
/// `base` is no absolute URL or `reference` cannot be resolved against it.
pub uninterp spec fn url_joined(base: Seq<char>, reference: Seq<char>) -> Option<Seq<char>>;

/// The segments of the path of an absolute URL, still percent-encoded, as
/// `url::Url::path_segments` gives them; `None` where the text is no
/// absolute URL or its path has no segments.
pub uninterp spec fn url_path_segments(url: Seq<char>) -> Option<Seq<Seq<char>>>;

/// The keys and values of the query string of an absolute URL, as
/// `url::Url::query_pairs` gives them; none where the text is no absolute
/// URL.
pub uninterp spec fn url_query_pairs(url: Seq<char>) -> Seq<(Seq<char>, Seq<char>)>;

/// A text with its percent-escapes resolved, as `url_escape::decode` does
/// it.
pub uninterp spec fn url_decoded(text: Seq<char>) -> Seq<char>;

/// The text of a string that may be missing.
pub open spec fn option_text(text: Option<String>) -> Option<Seq<char>> {
    match text {
        Some(text) => Some(text@),
        None => None,
    }
}

/// The texts of a list of strings that may be missing.
pub open spec fn option_texts(list: Option<Vec<String>>) -> Option<Seq<Seq<char>>> {
    match list {
        Some(list) => Some(texts(list@)),
        None => None,
    }
}

/// Resolves `reference` against `base` with `url::Url::join`, after
/// `url::Url::parse` has read `base`. The contract only names the result.
#[verifier::external_body]
pub(crate) fn join_url(base: &str, reference: &str) -> (absolute: Option<String>)
    ensures
        option_text(absolute) == url_joined(base@, reference@),
{
    let base = url::Url::parse(base).ok()?;
    base.join(reference).ok().map(String::from)
}

/// The path of an absolute URL, split with `url::Url::path_segments`. The
/// contract only names the result.
#[verifier::external_body]
pub(crate) fn path_segments(url: &str) -> (segments: Option<Vec<String>>)
    ensures
        option_texts(segments) == url_path_segments(url@),
{
    let url = url::Url::parse(url).ok()?;
    let segments = url.path_segments()?;
    Some(segments.map(String::from).collect())
}

/// The query string of an absolute URL, parsed with `url::Url::query_pairs`.
/// The contract only names the result.
#[verifier::external_body]
pub(crate) fn query_pairs(url: &str) -> (pairs: Vec<(String, String)>)
    ensures
        pair_texts(pairs@) == url_query_pairs(url@),
{
    match url::Url::parse(url) {
        Ok(url) => url.query_pairs().map(|(key, value)| (key.into_owned(), value.into_owned())).collect(),
        Err(_) => Vec::new(),
    }
}

/// Resolves percent-escapes with `url_escape::decode`. The contract only
/// names the result.
#[verifier::external_body]
pub(crate) fn decode(text: &str) -> (decoded: String)
    ensures
        decoded@ == url_decoded(text@),
{
    url_escape::decode(text).into_owned()
}

} // verus!
