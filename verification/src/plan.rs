//! The range planner: split the bytes of one session into contiguous parts.
//!
//! Given the remote size, a start offset, a session cap and a part size, the
//! planner produces the ordered list of byte ranges to fetch, and the point at
//! which a follow-up invocation must resume when the cap truncated the session.

use vstd::prelude::*;

use crate::errors::ConfigError;

verus! {

/// One contiguous byte range of the remote file, both ends inclusive; it maps
/// to an HTTP `Range: bytes=start-end` request.
#[derive(Clone, Copy, Debug, PartialEq, Eq, Structural)]
pub struct ByteRange {
    pub start: u64,
    pub end: u64,
}

impl ByteRange {
    /// A well-formed range holds at least one byte.
    pub open spec fn wf(self) -> bool {
        self.start <= self.end
    }

    /// How many bytes the range covers.
    pub open spec fn byte_len(self) -> int {
        self.end - self.start + 1
    }
}

/// One entry of a download plan: the part index and the bytes it fetches.
#[derive(Clone, Copy, Debug, PartialEq, Eq, Structural)]
pub struct PlannedPart {
    pub part_index: u64,
    pub range: ByteRange,
}

/// Where a follow-up invocation continues, reported once per session.
#[derive(Clone, Copy, Debug, PartialEq, Eq, Structural)]
pub struct ResumptionState {
    /// The byte immediately after the last byte this session fetches.
    pub next_start_pos: u64,
    /// The part index the next session starts numbering from.
    pub next_part_number: u64,
    /// Whether the session cap cut the download short.
    pub truncated: bool,
}

/// The inputs of one planning pass.
#[derive(Clone, Copy, Debug, PartialEq, Eq, Structural)]
pub struct PlanRequest {
    pub total_remote_size: u64,
    pub start_pos: u64,
    pub max_session_size: u64,
    pub part_size: u64,
    pub start_part_number: u64,
}

impl PlanRequest {
    /// Bytes that remain on the remote past `start_pos` (zero when the offset
    /// lies at or past the end).
    pub open spec fn available(self) -> int {
        if self.start_pos <= self.total_remote_size {
            self.total_remote_size - self.start_pos
        } else {
            0
        }
    }

    /// Bytes this session fetches: what is available, capped by the session limit.
    pub open spec fn effective(self) -> int {
        if self.available() <= self.max_session_size {
            self.available()
        } else {
            self.max_session_size as int
        }
    }

    /// Whether the cap cuts the download short.
    pub open spec fn is_truncated(self) -> bool {
        self.available() > self.max_session_size
    }

    /// How many parts of exactly `part_size` bytes the session holds.
    pub open spec fn full_parts(self) -> int {
        self.effective() / (self.part_size as int)
    }

    /// Bytes left over after the full parts; they form one final shorter part.
    pub open spec fn remainder(self) -> int {
        self.effective() % (self.part_size as int)
    }

    /// How many parts the plan holds in all.
    pub open spec fn num_parts(self) -> int {
        self.full_parts() + if self.remainder() > 0 {
            1int
        } else {
            0int
        }
    }

    /// Part indices are consecutive; the last one assigned must fit in `u64`.
    pub open spec fn indices_fit(self) -> bool {
        self.start_part_number + self.num_parts() <= u64::MAX
    }

    /// The `k`-th planned part: `part_size` bytes for each full part, the
    /// remainder for the final part, contiguous from `start_pos`.
    pub open spec fn part_at(self, k: int) -> PlannedPart {
        let lo = self.start_pos + k * self.part_size;
        let hi = if k < self.full_parts() {
            lo + self.part_size - 1
        } else {
            lo + self.remainder() - 1
        };
        PlannedPart {
            part_index: (self.start_part_number + k) as u64,
            range: ByteRange { start: lo as u64, end: hi as u64 },
        }
    }

    /// The whole plan of this request.
    pub open spec fn plan_seq(self) -> Seq<PlannedPart> {
        Seq::new(self.num_parts() as nat, |k: int| self.part_at(k))
    }

    /// The resumption point this request reports.
    pub open spec fn resumption(self) -> ResumptionState {
        ResumptionState {
            next_start_pos: (self.start_pos + self.effective()) as u64,
            next_part_number: (self.start_part_number + self.num_parts()) as u64,
            truncated: self.is_truncated(),
        }
    }

    /// Whether the plan of this request ends in a remainder part shorter than
    /// `part_size`. The coordinator fetches that one part on its own, after
    /// the concurrently dispatched full parts have resolved.
    pub fn has_trailing_remainder(&self) -> (b: bool)
        requires
            self.part_size > 0,
        ensures
            b == (self.remainder() > 0),
    {
        let available: u64 = if self.start_pos <= self.total_remote_size {
            self.total_remote_size - self.start_pos
        } else {
            0
        };
        let effective: u64 = if available <= self.max_session_size {
            available
        } else {
            self.max_session_size
        };
        effective % self.part_size > 0
    }
}

/// Compute the download plan and the resumption point of one session.
///
/// A zero part size is the one rejected configuration; every other input
/// yields the plan `req.plan_seq()` and the resumption state `req.resumption()`.
pub fn plan(req: &PlanRequest) -> (r: Result<(Vec<PlannedPart>, ResumptionState), ConfigError>)
    requires
        req.part_size > 0 ==> req.indices_fit(),
    ensures
        match r {
            Ok(p) => req.part_size > 0 && p.0@ == req.plan_seq() && p.1 == req.resumption(),
            Err(e) => req.part_size == 0 && e == ConfigError::ZeroPartSize,
        },
{
    if req.part_size == 0 {
        return Err(ConfigError::ZeroPartSize);
    }
    let available: u64 = if req.start_pos <= req.total_remote_size {
        req.total_remote_size - req.start_pos
    } else {
        0
    };
    let truncated: bool = available > req.max_session_size;
    let effective: u64 = if truncated {
        req.max_session_size
    } else {
        available
    };
    let full_parts: u64 = effective / req.part_size;
    let remainder: u64 = effective % req.part_size;
    proof {
        vstd::arithmetic::div_mod::lemma_fundamental_div_mod(
            effective as int,
            req.part_size as int,
        );
        assert(req.part_size as int * req.full_parts() == req.full_parts()
            * req.part_size as int) by (nonlinear_arith);
    }

    let mut parts: Vec<PlannedPart> = Vec::new();
    let mut k: u64 = 0;
    let mut cursor: u64 = req.start_pos;
    while k < full_parts
        invariant
            req.part_size > 0,
            req.indices_fit(),
            available == req.available(),
            effective == req.effective(),
            full_parts == req.full_parts(),
            remainder == req.remainder(),
            req.effective() == req.full_parts() * req.part_size + req.remainder(),
            0 <= k <= full_parts,
            cursor == req.start_pos + k * req.part_size,
            req.start_pos + req.effective() <= u64::MAX,
            parts@.len() == k,
            forall|i: int| 0 <= i < k ==> parts@[i] == req.part_at(i),
        decreases full_parts - k,
    {
        proof {
            vstd::arithmetic::mul::lemma_mul_inequality(
                k + 1,
                full_parts as int,
                req.part_size as int,
            );
            assert(k * req.part_size + req.part_size == (k + 1) * req.part_size) by (
            nonlinear_arith);
        }
        let start: u64 = cursor;
        let end: u64 = cursor + (req.part_size - 1);
        parts.push(PlannedPart { part_index: req.start_part_number + k, range: ByteRange { start, end } });
        cursor = cursor + req.part_size;
        k = k + 1;
    }
    if remainder > 0 {
        parts.push(
            PlannedPart {
                part_index: req.start_part_number + full_parts,
                range: ByteRange { start: cursor, end: cursor + (remainder - 1) },
            },
        );
    }
    let extra: u64 = if remainder > 0 {
        1
    } else {
        0
    };
    let resumption = ResumptionState {
        next_start_pos: req.start_pos + effective,
        next_part_number: req.start_part_number + full_parts + extra,
        truncated,
    };
    proof {
        assert(parts@ =~= req.plan_seq());
    }
    Ok((parts, resumption))
}

/// Every range of the plan is well-formed.
pub open spec fn ranges_wf(s: Seq<PlannedPart>) -> bool {
    forall|i: int| 0 <= i < s.len() ==> (#[trigger] s[i]).range.wf()
}

/// Every range starts immediately after the one before it, so the ranges are
/// contiguous and pairwise non-overlapping.
pub open spec fn ranges_contiguous(s: Seq<PlannedPart>) -> bool {
    forall|i: int| 1 <= i < s.len() ==> (#[trigger] s[i]).range.start == s[i - 1].range.end + 1
}

/// The number of bytes all the ranges of the plan cover together.
pub open spec fn total_bytes(s: Seq<PlannedPart>) -> int
    decreases s.len(),
{
    if s.len() == 0 {
        0
    } else {
        total_bytes(s.drop_last()) + s.last().range.byte_len()
    }
}

proof fn lemma_part_at_bounds(req: PlanRequest, k: int)
    requires
        req.part_size > 0,
        req.start_pos <= req.total_remote_size,
        0 <= k < req.num_parts(),
    ensures
        req.part_at(k).range.start == req.start_pos + k * req.part_size,
        req.part_at(k).range.end + 1 == req.start_pos + (if k < req.full_parts() {
            (k + 1) * req.part_size
        } else {
            req.effective()
        }),
        req.part_at(k).range.wf(),
{
    let ps = req.part_size as int;
    let eff = req.effective();
    let full = req.full_parts();
    vstd::arithmetic::div_mod::lemma_fundamental_div_mod(eff, ps);
    vstd::arithmetic::div_mod::lemma_remainder(eff, ps);
    vstd::arithmetic::mul::lemma_mul_nonnegative(k, ps);
    if k < full {
        vstd::arithmetic::mul::lemma_mul_inequality(k + 1, full, ps);
        assert((k + 1) * ps == k * ps + ps) by (nonlinear_arith);
    } else {
        assert(k == full);
    }
}

/// The planner covers the session exactly: with a positive part size and a
/// start offset within the file, the generated ranges are well-formed,
/// contiguous from `start_pos`, non-overlapping, and together hold exactly
/// `min(total_remote_size - start_pos, max_session_size)` bytes.
pub proof fn lemma_plan_coverage(req: PlanRequest)
    requires
        req.part_size > 0,
        req.start_pos <= req.total_remote_size,
    ensures
        ranges_wf(req.plan_seq()),
        ranges_contiguous(req.plan_seq()),
        forall|i: int, j: int|
            0 <= i < j < req.plan_seq().len() ==> (#[trigger] req.plan_seq()[i]).range.end < (
            #[trigger] req.plan_seq()[j]).range.start,
        req.plan_seq().len() > 0 ==> req.plan_seq()[0].range.start == req.start_pos,
        total_bytes(req.plan_seq()) == req.effective(),
{
    let s = req.plan_seq();
    assert forall|i: int, j: int| 0 <= i < j < s.len() implies (#[trigger] s[i]).range.end < (
    #[trigger] s[j]).range.start by {
        lemma_part_at_bounds(req, i);
        lemma_part_at_bounds(req, j);
        vstd::arithmetic::mul::lemma_mul_inequality(i + 1, j, req.part_size as int);
    }
    assert forall|i: int| 0 <= i < s.len() implies (#[trigger] s[i]).range.wf() by {
        lemma_part_at_bounds(req, i);
    }
    assert forall|i: int| 1 <= i < s.len() implies (#[trigger] s[i]).range.start == s[i
        - 1].range.end + 1 by {
        lemma_part_at_bounds(req, i);
        lemma_part_at_bounds(req, i - 1);
        assert(i * req.part_size == (i - 1 + 1) * req.part_size);
    }
    if s.len() > 0 {
        lemma_part_at_bounds(req, 0);
        assert(0 * req.part_size == 0) by (nonlinear_arith);
    }
    lemma_total_bytes_prefix(req, req.num_parts());
    assert(s.take(req.num_parts()) =~= s);
    if req.num_parts() <= req.full_parts() {
        // then the plan has no remainder part: effective() == full_parts() * part_size
        vstd::arithmetic::div_mod::lemma_fundamental_div_mod(
            req.effective(),
            req.part_size as int,
        );
        assert(req.part_size as int * req.full_parts() == req.full_parts()
            * req.part_size as int) by (nonlinear_arith);
    }
}

proof fn lemma_total_bytes_prefix(req: PlanRequest, n: int)
    requires
        req.part_size > 0,
        req.start_pos <= req.total_remote_size,
        0 <= n <= req.num_parts(),
    ensures
        total_bytes(req.plan_seq().take(n)) == if n <= req.full_parts() {
            n * req.part_size
        } else {
            req.effective()
        },
    decreases n,
{
    let s = req.plan_seq();
    let ps = req.part_size as int;
    if n == 0 {
        assert(s.take(0) =~= Seq::<PlannedPart>::empty());
        assert(0 * ps == 0) by (nonlinear_arith);
    } else {
        lemma_total_bytes_prefix(req, n - 1);
        assert(s.take(n).drop_last() =~= s.take(n - 1));
        assert(s.take(n).last() == req.part_at(n - 1));
        lemma_part_at_bounds(req, n - 1);
        vstd::arithmetic::div_mod::lemma_fundamental_div_mod(req.effective(), ps);
        if n - 1 < req.full_parts() {
            assert((n - 1) * ps + ps == n * ps) by (nonlinear_arith);
        }
    }
}

/// Part indices are consecutive: the `i`-th planned part carries index
/// `start_part_number + i`, so the indices rise by exactly one per part and
/// the remainder part never reuses an index.
pub proof fn lemma_plan_indices(req: PlanRequest)
    requires
        req.part_size > 0,
        req.indices_fit(),
    ensures
        forall|i: int|
            0 <= i < req.plan_seq().len() ==> (#[trigger] req.plan_seq()[i]).part_index
                == req.start_part_number + i,
{
}

/// The session is truncated exactly when more bytes remain than the cap
/// allows; an untruncated session ends at the end of the remote file.
pub proof fn lemma_truncation(req: PlanRequest)
    requires
        req.part_size > 0,
        req.start_pos <= req.total_remote_size,
    ensures
        req.resumption().truncated <==> req.total_remote_size - req.start_pos
            > req.max_session_size,
        !req.resumption().truncated ==> req.resumption().next_start_pos == req.total_remote_size,
{
}

/// Planning is a pure function of its inputs: two equal requests yield the
/// same plan and the same resumption point, so re-planning changes nothing.
pub proof fn lemma_plan_deterministic(a: PlanRequest, b: PlanRequest)
    requires
        a == b,
    ensures
        a.plan_seq() == b.plan_seq(),
        a.resumption() == b.resumption(),
{
}

} // verus!
