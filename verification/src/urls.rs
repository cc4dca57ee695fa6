use vstd::prelude::*;

use crate::errors::PipelineError;

verus! {

/// Whether `url::Url::parse` accepts `s` as an absolute URL.
pub uninterp spec fn url_parse_ok(s: Seq<char>) -> bool;

/// The absolute URL, written back out as a string, that resolving
/// `reference` against the URL parsed from `base` yields under standard
/// URL-join semantics; `None` when the base does not parse or the join
/// fails.
pub uninterp spec fn url_join_of(base: Seq<char>, reference: Seq<char>) -> Option<Seq<char>>;

/// The path component of the URL parsed from `s`; meaningful only when
/// `url_parse_ok(s)` holds.
pub uninterp spec fn url_path_of(s: Seq<char>) -> Seq<char>;

/// Relies on url::Url::parse: whether a string parses as an absolute URL
/// depends on the string alone.
#[verifier::external_body]
pub(crate) fn url_parse_check(s: &str) -> (r: bool)
    ensures
        r == url_parse_ok(s@),
{
    url::Url::parse(s).is_ok()
}

/// Relies on url::Url::parse and url::Url::join, with the joined URL
/// written back out through its Display form: resolution depends on the
/// two strings alone. A join result is itself a well-formed absolute
/// URL: what Display writes is the Url's own normalized serialization,
/// which url::Url::parse accepts again.
#[verifier::external_body]
fn url_join(base: &str, reference: &str) -> (r: Option<String>)
    ensures
        match r {
            Some(s) => url_join_of(base@, reference@) == Some(s@) && url_parse_ok(s@),
            None => url_join_of(base@, reference@) is None,
        },
{
    match url::Url::parse(base) {
        Ok(u) => match u.join(reference) {
            Ok(j) => Some(j.to_string()),
            Err(_) => None,
        },
        Err(_) => None,
    }
}

/// Relies on url::Url::parse and url::Url::path: the path component of a
/// parsed URL depends on the URL string alone.
#[verifier::external_body]
pub(crate) fn url_path(s: &str) -> (r: Option<String>)
    ensures
        match r {
            Some(p) => url_parse_ok(s@) && p@ == url_path_of(s@),
            None => !url_parse_ok(s@),
        },
{
    match url::Url::parse(s) {
        Ok(u) => Some(u.path().to_string()),
        Err(_) => None,
    }
}

/// Resolves one segment reference against the playlist's own URL,
/// following standard URL-join semantics; a success is itself a
/// well-formed absolute URL.
pub fn resolve_segment_url(base: &str, reference: &str) -> (r: Result<String, PipelineError>)
    ensures
        match r {
            Ok(s) => url_join_of(base@, reference@) == Some(s@) && url_parse_ok(s@),
            Err(e) => e == PipelineError::UrlParse && url_join_of(base@, reference@) is None,
        },
{
    match url_join(base, reference) {
        Some(s) => Ok(s),
        None => Err(PipelineError::UrlParse),
    }
}

} // verus!
