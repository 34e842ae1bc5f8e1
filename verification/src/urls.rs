//! URL construction through the `url` crate.

use vstd::prelude::*;

verus! {

/// The error `url::Url` parsing reports.
#[verifier::external_type_specification]
#[verifier::external_body]
pub struct ExUrlParseError(url::ParseError);

/// A URL that the `url` crate refused.
#[derive(Debug)]
pub struct UrlError {
    /// The parser's own error.
    pub cause: url::ParseError,
}

/// The serialization of `input` parsed as an absolute URL, or `None` when
/// `url::Url::parse` rejects it.
pub uninterp spec fn parsed_url(input: Seq<char>) -> Option<Seq<char>>;

/// The serialization of `base` parsed as an absolute URL with the pair
/// `key=value` added to its query, or `None` when `base` does not parse.
pub uninterp spec fn url_with_query_pair(base: Seq<char>, key: Seq<char>, value: Seq<char>) -> Option<
    Seq<char>,
>;

/// The serialization of `base` with a trailing empty path segment dropped
/// and `segments` appended as path segments, or `None` when `base` does not
/// parse or cannot be a base.
pub uninterp spec fn url_with_path_segments(base: Seq<char>, segments: Seq<Seq<char>>) -> Option<
    Seq<char>,
>;

/// Calls `url::Url::parse` and returns the serialization of the parsed URL
/// (`String::from(Url)`). The contract names the result for the input; the
/// WHATWG parsing rules are not restated.
#[verifier::external_body]
pub(crate) fn parse_url(input: &str) -> (res: Result<String, url::ParseError>)
    ensures
        match res {
            Ok(u) => parsed_url(input@) == Some(u@),
            Err(_) => parsed_url(input@) is None,
        },
{
    match url::Url::parse(input) {
        Ok(u) => Ok(u.into()),
        Err(e) => Err(e),
    }
}

/// Calls `url::Url::parse_with_params` with the single pair `(key, value)`
/// and returns the serialization of the URL. Its documentation says the
/// pair is appended, form-urlencoded, to the query of `base`; the contract
/// names the result for the three arguments and states no more.
#[verifier::external_body]
pub(crate) fn parse_with_query_pair(base: &str, key: &str, value: &str) -> (res: Result<
    String,
    url::ParseError,
>)
    ensures
        match res {
            Ok(u) => url_with_query_pair(base@, key@, value@) == Some(u@),
            Err(_) => url_with_query_pair(base@, key@, value@) is None,
        },
{
    match url::Url::parse_with_params(base, [(key, value)]) {
        Ok(u) => Ok(u.into()),
        Err(e) => Err(e),
    }
}

/// Parses `base` with `url::Url::parse`, then edits its path through
/// `Url::path_segments_mut`: `PathSegmentsMut::pop_if_empty` drops a
/// trailing empty segment and `PathSegmentsMut::extend` appends `segments`
/// (percent-encoding them). Returns the serialization, or `None` when the
/// parse fails or the URL cannot be a base. The contract names the result
/// for the two arguments; the encoding rules are not restated.
#[verifier::external_body]
pub(crate) fn append_path_segments(base: &str, segments: &[String]) -> (res: Option<String>)
    ensures
        match res {
            Some(u) => url_with_path_segments(base@, segments@.map_values(|s: String| s@))
                == Some(u@),
            None => url_with_path_segments(base@, segments@.map_values(|s: String| s@)) is None,
        },
{
    let mut url = match url::Url::parse(base) {
        Ok(url) => url,
        Err(_) => return None,
    };
    match url.path_segments_mut() {
        Ok(mut path) => {
            path.pop_if_empty().extend(segments);
        },
        Err(()) => return None,
    }
    Some(url.into())
}

} // verus!
