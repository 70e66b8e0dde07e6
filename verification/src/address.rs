//! Absolute URLs, read by the `url` crate.
use vstd::prelude::*;

verus! {

/// What `url::Url::parse` makes of a text: for an absolute URL, its
/// serialization and its host, if it has one; otherwise the text of the error.
pub uninterp spec fn url_parse(text: Seq<char>) -> Result<(Seq<char>, Option<Seq<char>>), Seq<char>>;

/// What `url::Url::join` makes of the text `relative` read against the URL
/// parsed from `base`: the serialization and the path of the result.
pub uninterp spec fn url_join(base: Seq<char>, relative: Seq<char>) -> Option<(Seq<char>, Seq<char>)>;

/// A parsed URL: its serialization and its host.
pub struct ParsedUrl {
    pub text: String,
    pub host: Option<String>,
}

/// A URL resolved against a base: its serialization and its path.
pub struct JoinedUrl {
    pub text: String,
    pub path: String,
}

/// Calls `url::Url::parse` and reads `as_str` and `host_str` of the result,
/// or the `Display` text of the error. Claims only that the outcome is the
/// crate's for this text.
#[verifier::external_body]
pub(crate) fn parse_url(text: &str) -> (res: Result<ParsedUrl, String>)
    ensures
        match url_parse(text@) {
            Err(m) => res matches Err(e) && e@ == m,
            Ok((s, h)) => res matches Ok(u) && u.text@ == s && match h {
                None => u.host is None,
                Some(hv) => u.host matches Some(x) && x@ == hv,
            },
        },
{
    url::Url::parse(text)
        .map(|url| ParsedUrl { text: url.as_str().to_owned(), host: url.host_str().map(str::to_owned) })
        .map_err(|error| error.to_string())
}

/// Calls `url::Url::parse` on `base` and `url::Url::join` with `relative`,
/// and reads `as_str` and `path` of the result. Claims only that the outcome
/// is the crate's for these two texts.
#[verifier::external_body]
pub(crate) fn join_url(base: &str, relative: &str) -> (res: Option<JoinedUrl>)
    ensures
        match url_join(base@, relative@) {
            None => res is None,
            Some((s, p)) => res matches Some(u) && u.text@ == s && u.path@ == p,
        },
{
    url::Url::parse(base).and_then(|url| url.join(relative)).ok().map(
        |url| JoinedUrl { text: url.as_str().to_owned(), path: url.path().to_owned() },
    )
}

} // verus!
