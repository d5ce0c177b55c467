//! The engine's failure kinds.
//!
//! Every fallible step of the engine reports one of these values; none of them
//! is fatal to the process. The session loop treats each as a retry signal.

use vstd::prelude::*;

verus! {

/// One variant per failure kind the engine can report.
///
/// Transport-layer failures (connection, timeout, TLS, HTTP status) arise only
/// in the unverified network shell around the library; inside the library a
/// failed step is always one of these values.
#[derive(Clone, Copy, Debug, PartialEq, Eq, Structural)]
pub enum Error {
    /// A segment download produced a zero-byte body (a transient server fault).
    EmptySegment,
    /// A master playlist carried no variant stream to pick from.
    NoVariantStream,
    /// A manifest or media playlist document did not parse.
    ParseError,
    /// A segment or variant location could not be resolved to an absolute URL.
    InvalidUrl,
}

impl Error {
    /// A short description of the failure, for logging by the caller.
    pub fn message(&self) -> (r: String)
        ensures
            r@ == (match *self {
                Error::EmptySegment => "got empty segment from server"@,
                Error::NoVariantStream => "no variant stream found"@,
                Error::ParseError => "playlist parsing error"@,
                Error::InvalidUrl => "could not resolve url"@,
            }),
    {
        match self {
            Error::EmptySegment => "got empty segment from server".to_owned(),
            Error::NoVariantStream => "no variant stream found".to_owned(),
            Error::ParseError => "playlist parsing error".to_owned(),
            Error::InvalidUrl => "could not resolve url".to_owned(),
        }
    }
}

} // verus!
