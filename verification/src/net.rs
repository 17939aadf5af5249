//! Joining a query fragment against the base API URL. The URL grammar
//! itself belongs to the url crate: what it returns for two given texts is
//! given a name, the one trusted wrapper is bound to that name, and the
//! library's own functions are exact relative to it.
use vstd::prelude::*;
use crate::errors::ConnectorError;

verus! {

/// What resolving `fragment` against the absolute URL `base` yields:
/// the resolved URL's text, or nothing when the URL grammar refuses one of
/// the two. The outcome depends on the two texts alone.
pub uninterp spec fn url_join_of(base: Seq<char>, fragment: Seq<char>) -> Option<Seq<char>>;

/// Relies on url::Url::parse and url::Url::join: parses `base` as an
/// absolute URL and resolves `fragment` against it; both steps are
/// functions of their texts alone, so the outcome carries the name
/// `url_join_of`.
#[verifier::external_body]
fn url_join(base: &str, fragment: &str) -> (res: Option<String>)
    ensures
        res is Some <==> url_join_of(base@, fragment@) is Some,
        res matches Some(s) ==> url_join_of(base@, fragment@) == Some(s@),
{
    match url::Url::parse(base) {
        Ok(b) => match b.join(fragment) {
            Ok(u) => Some(u.as_str().to_string()),
            Err(_) => None,
        },
        Err(_) => None,
    }
}

/// The fixed endpoint of the weather API.
pub fn default_api_base_url() -> (res: &'static str)
    ensures
        res@ == "https://api.meteomatics.com"@,
{
    "https://api.meteomatics.com"
}

/// Resolves a query fragment against a base URL: the resolved URL exactly
/// when the URL grammar accepts the pair, else the parse error, never a
/// panic.
pub fn build_url_on(base: &str, url_fragment: &str) -> (res: Result<String, ConnectorError>)
    ensures
        res is Ok <==> url_join_of(base@, url_fragment@) is Some,
        res matches Ok(s) ==> url_join_of(base@, url_fragment@) == Some(s@),
        res is Err ==> res matches Err(ConnectorError::ParseError),
{
    match url_join(base, url_fragment) {
        Some(s) => Ok(s),
        None => Err(ConnectorError::ParseError),
    }
}

/// Resolves a query fragment against the fixed API endpoint.
pub fn build_url(url_fragment: &str) -> (res: Result<String, ConnectorError>)
    ensures
        res is Ok <==> url_join_of("https://api.meteomatics.com"@, url_fragment@) is Some,
        res matches Ok(s) ==> url_join_of("https://api.meteomatics.com"@, url_fragment@) == Some(
            s@),
        res is Err ==> res matches Err(ConnectorError::ParseError),
{
    build_url_on(default_api_base_url(), url_fragment)
}

} // verus!
