//! The errors that building and sending a request can end in.
use vstd::prelude::*;

verus! {

/// Why an invocation failed.
#[derive(Debug, Clone, PartialEq, Eq)]
pub enum Error {
    /// A parameter argument holds none of the seven separators; carries the argument.
    ParameterMissingSeparator(String),
    /// Neither a URL nor a method subcommand was given.
    MissingUrlAndCommand,
    /// A `key@file` upload was given without form mode.
    NotFormButHasFormFile,
    /// The transport failed to serialize the request or the response.
    ClientSerialization,
    /// The transport timed out.
    ClientTimeout,
    /// The server answered with an error status code.
    ClientWithStatus(u16),
    /// Any other transport failure.
    ClientOther,
    /// Raw JSON data that does not parse as JSON.
    SerdeJson,
    /// A file could not be read or written; carries the path, or what failed.
    IO(String),
    /// The URL could not be parsed, even after a scheme was added.
    UrlParseError,
}

/// Why the parameters of a request could not be turned into its body.
pub enum BuildFailure {
    /// Raw JSON data, given or read from a file, does not parse.
    Json,
    /// The file at this path could not be read.
    Io(Seq<char>),
}

impl Error {
    /// Whether this error reports `f`.
    pub open spec fn reports(self, f: BuildFailure) -> bool {
        match f {
            BuildFailure::Json => self == Error::SerdeJson,
            BuildFailure::Io(path) => self matches Error::IO(p) && p@ == path,
        }
    }

    /// Whether this is the missing-separator error for the argument `s`.
    pub open spec fn is_missing_separator_for(self, s: Seq<char>) -> bool {
        match self {
            Error::ParameterMissingSeparator(m) => m@ == s,
            _ => false,
        }
    }
}

/// The result of a fallible operation of this library.
pub type HurlResult<T> = Result<T, Error>;

/// Classifies a transport failure: serialization first, then timeout, then an
/// error status, else other.
pub fn classify_client_error(is_serialization: bool, is_timeout: bool, status: Option<u16>) -> (e:
    Error)
    ensures
        is_serialization ==> e == Error::ClientSerialization,
        !is_serialization && is_timeout ==> e == Error::ClientTimeout,
        !is_serialization && !is_timeout && status is Some ==> e == Error::ClientWithStatus(
            status->0,
        ),
        !is_serialization && !is_timeout && status is None ==> e == Error::ClientOther,
{
    if is_serialization {
        return Error::ClientSerialization;
    }
    if is_timeout {
        return Error::ClientTimeout;
    }
    match status {
        Some(s) => Error::ClientWithStatus(s),
        None => Error::ClientOther,
    }
}

} // verus!
