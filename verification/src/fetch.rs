//! Byte accounting of one part fetch.
//!
//! The transport streams a ranged response chunk by chunk; this module holds
//! the decisions around it: a response must declare a content length before
//! any byte is accepted, every received chunk is counted, and the fetch ends
//! as a `PartResult` — completed with the byte count, or failed with the
//! error, leaving whatever was already written as it is.

use vstd::prelude::*;

use crate::errors::PartError;
use crate::errors::ProtocolError;

verus! {

/// The outcome of one part fetch, consumed once by the session summary.
#[derive(Clone, Debug, PartialEq, Eq)]
pub enum PartResult {
    /// The stream ended; `bytes_written` bytes arrived and were written.
    Completed { part_index: u64, bytes_written: u64 },
    /// The fetch was abandoned on `error`; partial output stays on disk.
    Failed { part_index: u64, error: PartError },
}

impl PartResult {
    /// Whether the part completed.
    pub open spec fn is_completed(self) -> bool {
        self is Completed
    }
}

/// Byte accounting of one ranged response in flight.
#[derive(Clone, Copy, Debug, PartialEq, Eq, Structural)]
pub struct FetchProgress {
    /// The content length the response declared.
    pub expected_total: u64,
    /// Bytes received (and written out) so far.
    pub received: u64,
}

/// Accept a ranged response: it must declare a content length, else the part
/// fails with the protocol error before any byte is read.
pub fn fetch_begin(content_length: Option<u64>) -> (r: Result<FetchProgress, PartError>)
    ensures
        match r {
            Ok(p) => content_length == Some(p.expected_total) && p.received == 0,
            Err(e) => content_length is None && e == PartError::Protocol(
                ProtocolError::MissingContentLength,
            ),
        },
{
    match content_length {
        Some(total) => Ok(FetchProgress { expected_total: total, received: 0 }),
        None => Err(PartError::Protocol(ProtocolError::MissingContentLength)),
    }
}

impl FetchProgress {
    /// Count one chunk of the body as received; the count saturates at
    /// `u64::MAX` instead of wrapping.
    pub fn record_chunk(&mut self, len: u64)
        ensures
            final (self).expected_total == old(self).expected_total,
            final (self).received == if old(self).received + len <= u64::MAX {
                old(self).received + len
            } else {
                u64::MAX as int
            },
    {
        if len <= u64::MAX - self.received {
            self.received = self.received + len;
        } else {
            self.received = u64::MAX;
        }
    }

    /// The result of a fetch whose stream ended normally.
    pub fn complete(self, part_index: u64) -> (r: PartResult)
        ensures
            r == (PartResult::Completed { part_index, bytes_written: self.received }),
    {
        PartResult::Completed { part_index, bytes_written: self.received }
    }

    /// The result of a fetch abandoned on `error`: the part is reported
    /// failed and the bytes already written stay where they are.
    pub fn fail(self, part_index: u64, error: PartError) -> (r: PartResult)
        ensures
            r == (PartResult::Failed { part_index, error }),
    {
        PartResult::Failed { part_index, error }
    }
}

} // verus!
