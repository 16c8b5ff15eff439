//! Error types of the library.
//!
//! Configuration problems abort a run before any network work; a missing
//! content length is a protocol problem of one request; everything that goes
//! wrong while one part streams is recorded at the granularity of that part.

use vstd::prelude::*;

verus! {

/// A configuration problem: the run must not start.
#[derive(Clone, Copy, Debug, PartialEq, Eq, Structural)]
pub enum ConfigError {
    /// A size string that does not parse as a byte count.
    InvalidSize,
    /// A part size of zero; planning would divide by it.
    ZeroPartSize,
}

/// The remote answered without the header the protocol step needs.
#[derive(Clone, Copy, Debug, PartialEq, Eq, Structural)]
pub enum ProtocolError {
    /// A response (to the metadata probe or to a ranged request) carried no
    /// content length.
    MissingContentLength,
}

/// Why a single part fetch failed; the rest of the session goes on.
#[derive(Clone, Debug, PartialEq, Eq)]
pub enum PartError {
    /// The ranged response declared no content length.
    Protocol(ProtocolError),
    /// A network or file error, carried as the transport's own message.
    Io(String),
}

} // verus!
