//! Resolution of playlist locations to absolute URLs.
//!
//! Variant and segment locations may be written relative to the document that
//! references them. The `url` crate does the actual parsing and joining
//! behind trusted wrappers; [`resolve_uri`] is the engine's verified rule for
//! turning a location into the absolute URL that is fetched.

use vstd::prelude::*;

use crate::error::Error;

verus! {

/// What a string holds when read as a URL on its own.
pub enum UrlModel {
    /// An absolute URL, in its normalized spelling.
    Absolute(Seq<char>),
    /// A relative reference, meaningful only against a base URL.
    Relative,
    /// Not a URL at all.
    Invalid,
}

/// The outcome of parsing a string as a URL on its own.
enum UrlOutcome {
    Absolute(String),
    Relative,
    Invalid,
}

/// The URL a string parses to on its own, as the `url` crate reads it.
pub uninterp spec fn url_parse_model(s: Seq<char>) -> UrlModel;

/// The absolute URL that joining `rel` onto the absolute URL parsed from
/// `base` yields, as the `url` crate computes it, or `None` where either step
/// fails.
pub uninterp spec fn url_join_model(base: Seq<char>, rel: Seq<char>) -> Option<Seq<char>>;

/// Relies on `url::Url::parse`: an absolute URL parses to its normalized
/// form, and a relative reference is reported as such. The result is a
/// function of the characters alone.
#[verifier::external_body]
fn parse_absolute(s: &str) -> (r: UrlOutcome)
    ensures
        (match r {
            UrlOutcome::Absolute(u) => url_parse_model(s@) == UrlModel::Absolute(u@),
            UrlOutcome::Relative => url_parse_model(s@) is Relative,
            UrlOutcome::Invalid => url_parse_model(s@) is Invalid,
        }),
{
    match url::Url::parse(s) {
        Ok(u) => UrlOutcome::Absolute(String::from(u)),
        Err(url::ParseError::RelativeUrlWithoutBase)
        | Err(url::ParseError::RelativeUrlWithCannotBeABaseBase) => UrlOutcome::Relative,
        Err(_) => UrlOutcome::Invalid,
    }
}

/// Relies on `url::Url::parse` and `url::Url::join`: parses `base` as an
/// absolute URL and joins `rel` onto it. The result is a function of the two
/// character strings alone.
#[verifier::external_body]
fn join_urls(base: &str, rel: &str) -> (r: Option<String>)
    ensures
        (match r {
            Some(u) => url_join_model(base@, rel@) == Some(u@),
            None => url_join_model(base@, rel@) is None,
        }),
{
    match url::Url::parse(base) {
        Ok(b) => match b.join(rel) {
            Ok(u) => Some(String::from(u)),
            Err(_) => None,
        },
        Err(_) => None,
    }
}

/// The absolute URL a location resolves to against a base URL: the location
/// itself where it is absolute, the join against the base where it is
/// relative, and nothing where neither reading succeeds.
pub open spec fn resolve_model(base: Seq<char>, uri: Seq<char>) -> Option<Seq<char>> {
    match url_parse_model(uri) {
        UrlModel::Absolute(u) => Some(u),
        UrlModel::Relative => url_join_model(base, uri),
        UrlModel::Invalid => None,
    }
}

/// Resolve a playlist location to the absolute URL to fetch.
pub fn resolve_uri(base: &str, uri: &str) -> (r: Result<String, Error>)
    ensures
        (match r {
            Ok(u) => resolve_model(base@, uri@) == Some(u@),
            Err(e) => resolve_model(base@, uri@) is None && e == Error::InvalidUrl,
        }),
{
    match parse_absolute(uri) {
        UrlOutcome::Absolute(u) => Ok(u),
        UrlOutcome::Relative => match join_urls(base, uri) {
            Some(u) => Ok(u),
            None => Err(Error::InvalidUrl),
        },
        UrlOutcome::Invalid => Err(Error::InvalidUrl),
    }
}

} // verus!
