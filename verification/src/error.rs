//! Error taxonomy of the relay. Each variant carries a plain message; the
//! transport that meets an outside failure translates it into the matching
//! variant before handing it to the library, and the library's own decoders
//! build the decode variants themselves.

use vstd::prelude::*;

verus! {

#[derive(Clone, Debug, PartialEq, Eq)]
pub enum Error {
    /// A malformed request or response could not be assembled or sent.
    Http(String),
    /// The upstream connection itself failed.
    Hyper(String),
    /// A JSON document could not be decoded.
    Json(String),
    /// A query string or form body could not be decoded.
    Query(String),
    /// An upstream URL could not be parsed.
    Url(String),
    /// Reading a body failed.
    Io(String),
}

} // verus!
