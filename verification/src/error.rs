//! The library's error type.
use reqwest::Error as HttpError;
use vstd::prelude::*;

verus! {

/// A failed HTTP exchange, as `reqwest` reports it. The library only carries
/// such a value from the caller that made the request; nothing in it is read.
#[verifier::external_type_specification]
#[verifier::external_body]
pub struct ExHttpError(HttpError);

/// The library's errors.
#[derive(Debug)]
#[non_exhaustive]
pub enum Error {
    /// An HTTP request failed.
    Request(HttpError),
    /// The image reference could not be parsed; the text says why.
    InvalidImageReference(&'static str),
    /// An upstream service answered that too many requests were made.
    RateLimited,
}

pub type Result<T> = std::result::Result<T, Error>;

/// A failed HTTP request is the error `Request`.
impl From<HttpError> for Error {
    fn from(e: HttpError) -> (r: Error) {
        Error::Request(e)
    }
}

impl vstd::std_specs::convert::FromSpecImpl<HttpError> for Error {
    open spec fn obeys_from_spec() -> bool {
        true
    }

    open spec fn from_spec(v: HttpError) -> Error {
        Error::Request(v)
    }
}

} // verus!
