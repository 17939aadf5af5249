//! The closed error taxonomy of the library. Every failure a caller can see
//! is one of these variants; nothing is boxed or downcast.
use vstd::prelude::*;

verus! {

/// Everything that can go wrong between building a query and handing back a
/// decoded result.
#[derive(Clone, Debug, PartialEq)]
pub enum ConnectorError {
    /// The transport failed before any HTTP status was known: network, DNS
    /// or timeout trouble, carried as the transport's own description.
    ReqwestError(String),
    /// A well-formed HTTP response with a status other than 200; carries the
    /// status code and the raw body text.
    HttpError(u16, String),
    /// A 200 response whose body did not have the expected shape.
    DecodeError(String),
    /// A fragment that could not be joined against the base URL.
    ParseError,
    /// A directory or file could not be written.
    FileIOError,
    /// A failure of the library's own plumbing.
    LibraryError(String),
}

} // verus!
