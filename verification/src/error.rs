//! The library's error type: one tagged variant per component boundary.

use crate::parser;
use vstd::prelude::*;

verus! {

/// A set of errors that can occur.
#[derive(Debug, Clone, PartialEq)]
pub enum Error {
    /// The remote call failed outright; carries a description of the
    /// transport failure.
    Http(String),
    /// The remote call returned a non-success status; carries the status
    /// code and the response body for diagnostics.
    Status(u16, String),
    /// The report document failed structural decoding.
    Parser(parser::Error),
    /// A request target could not be formed from the configured host and
    /// path; carries a description.
    Url(String),
    /// A bounded poll exhausted its attempt budget while the remote
    /// resource remained pending.
    WaitTimeout,
}

impl From<parser::Error> for Error {
    fn from(err: parser::Error) -> (r: Error) {
        Error::Parser(err)
    }
}

impl vstd::std_specs::convert::FromSpecImpl<parser::Error> for Error {
    open spec fn obeys_from_spec() -> bool {
        true
    }

    open spec fn from_spec(err: parser::Error) -> Error {
        Error::Parser(err)
    }
}

} // verus!
