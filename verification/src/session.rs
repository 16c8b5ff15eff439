//! Session-level decisions of the download coordinator: reading the metadata
//! probe, turning the configuration into planner inputs, and aggregating the
//! part results that arrive in completion order.

use vstd::prelude::*;

use crate::errors::ProtocolError;
use crate::fetch::PartResult;
use crate::plan::PlanRequest;

verus! {

/// The immutable configuration of one invocation.
#[derive(Clone, Debug, PartialEq, Eq)]
pub struct SessionConfig {
    pub url: String,
    pub start_part_number: u64,
    pub start_pos: u64,
    pub max_session_size: u64,
    pub part_size: u64,
}

impl SessionConfig {
    /// The planning inputs this configuration induces once the remote size
    /// is known.
    pub open spec fn plan_request(self, total_remote_size: u64) -> PlanRequest {
        PlanRequest {
            total_remote_size,
            start_pos: self.start_pos,
            max_session_size: self.max_session_size,
            part_size: self.part_size,
            start_part_number: self.start_part_number,
        }
    }

    /// Pair the probed remote size with this configuration for planning.
    pub fn to_plan_request(&self, total_remote_size: u64) -> (r: PlanRequest)
        ensures
            r == self.plan_request(total_remote_size),
    {
        PlanRequest {
            total_remote_size,
            start_pos: self.start_pos,
            max_session_size: self.max_session_size,
            part_size: self.part_size,
            start_part_number: self.start_part_number,
        }
    }
}

/// Read the remote's total size out of the metadata probe. A probe that
/// declares no content length aborts the run before any part is fetched.
pub fn probe_total_size(content_length: Option<u64>) -> (r: Result<u64, ProtocolError>)
    ensures
        match r {
            Ok(v) => content_length == Some(v),
            Err(e) => content_length is None && e == ProtocolError::MissingContentLength,
        },
{
    match content_length {
        Some(v) => Ok(v),
        None => Err(ProtocolError::MissingContentLength),
    }
}

/// How many of the results are completed parts.
pub open spec fn count_completed(s: Seq<PartResult>) -> int
    decreases s.len(),
{
    if s.len() == 0 {
        0
    } else {
        count_completed(s.drop_last()) + if s.last().is_completed() {
            1int
        } else {
            0int
        }
    }
}

/// The aggregate of one session: how many parts completed and how many failed.
#[derive(Clone, Copy, Debug, PartialEq, Eq, Structural)]
pub struct Summary {
    pub completed: u64,
    pub failed: u64,
}

/// Aggregate the part results of one session. The results arrive in
/// completion order, which the counts do not depend on; no failure aborts
/// the aggregation.
pub fn summarize(results: &Vec<PartResult>) -> (s: Summary)
    ensures
        s.completed == count_completed(results@),
        s.failed == results@.len() - count_completed(results@),
{
    let n = results.len();
    let mut completed: u64 = 0;
    let mut failed: u64 = 0;
    let mut i: usize = 0;
    while i < n
        invariant
            0 <= i <= n == results@.len(),
            completed == count_completed(results@.take(i as int)),
            completed + failed == i,
        decreases n - i,
    {
        proof {
            assert(results@.take(i + 1).drop_last() =~= results@.take(i as int));
            assert(results@.take(i + 1).last() == results@[i as int]);
        }
        let done = match &results[i] {
            PartResult::Completed { .. } => true,
            PartResult::Failed { .. } => false,
        };
        if done {
            completed = completed + 1;
        } else {
            failed = failed + 1;
        }
        i = i + 1;
    }
    proof {
        assert(results@.take(n as int) =~= results@);
    }
    Summary { completed, failed }
}

/// The exit status of a session that reached its summary: success, even when
/// single parts failed — failures are reported, not fatal.
pub fn session_exit_code(_summary: &Summary) -> (c: i32)
    ensures
        c == 0,
{
    0
}

} // verus!
