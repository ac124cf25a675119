//! The recompute loop's decision core: the single retained
//! last-known-good comparison result and the signed deltas reported after
//! each successful run. A failed run never overwrites the retained state;
//! the next successful run's delta is computed against the last
//! *successful* result.

use vstd::prelude::*;

use crate::engine::ComparisonResult;
use crate::errors::CoreError;

verus! {

/// An exact signed difference of two unsigned 64-bit values: its
/// magnitude, and whether the new value is below the old one.
#[derive(Clone, Copy, Debug, PartialEq, Eq, Structural)]
pub struct Delta {
    pub negative: bool,
    pub magnitude: u64,
}

/// The difference `new - old`, as sign and magnitude.
pub open spec fn delta_spec(new: u64, old: u64) -> Delta {
    if new >= old {
        Delta { negative: false, magnitude: (new - old) as u64 }
    } else {
        Delta { negative: true, magnitude: (old - new) as u64 }
    }
}

/// Computes the exact signed difference `new - old`.
pub fn delta_u64(new: u64, old: u64) -> (r: Delta)
    ensures
        r == delta_spec(new, old),
{
    if new >= old {
        Delta { negative: false, magnitude: new - old }
    } else {
        Delta { negative: true, magnitude: old - new }
    }
}

/// What one successful run reports: the resolved offset and length, and,
/// when a previous successful run is retained, the signed deltas against
/// it.
#[derive(Clone, Copy, Debug, PartialEq, Eq, Structural)]
pub struct RunReport {
    pub offset: u64,
    pub length: u64,
    pub offset_delta: Option<Delta>,
    pub length_delta: Option<Delta>,
}

/// The retained state after a run: a successful run replaces the
/// last-known-good result, a failed run leaves it untouched.
pub open spec fn last_after(
    last: Option<ComparisonResult>,
    outcome: Option<ComparisonResult>,
) -> Option<ComparisonResult> {
    match outcome {
        Some(res) => Some(res),
        None => last,
    }
}

/// The report for a successful run against the retained state.
pub open spec fn report_spec(last: Option<ComparisonResult>, res: ComparisonResult) -> RunReport {
    match last {
        Some(prev) => RunReport {
            offset: res.offset,
            length: res.length,
            offset_delta: Some(delta_spec(res.offset, prev.offset)),
            length_delta: Some(delta_spec(res.length, prev.length)),
        },
        None => RunReport {
            offset: res.offset,
            length: res.length,
            offset_delta: None,
            length_delta: None,
        },
    }
}

/// The state the recompute loop carries across iterations: nothing but
/// the last successful comparison result. Explicitly passed, never
/// ambient.
pub struct RecomputeState {
    pub last_offset_length: Option<ComparisonResult>,
}

impl RecomputeState {
    /// A fresh state with no retained run.
    pub fn new() -> (r: RecomputeState)
        ensures
            r.last_offset_length is None,
    {
        RecomputeState { last_offset_length: None }
    }

    /// Folds one run's outcome into the state: on success, reports the
    /// result with deltas against the previously retained run and retains
    /// the new result; on failure, reports nothing and retains the old
    /// state unchanged.
    pub fn record_run(&mut self, outcome: &Result<ComparisonResult, CoreError>) -> (r: Option<
        RunReport,
    >)
        ensures
            outcome matches Ok(res) ==> final(self).last_offset_length == last_after(
                old(self).last_offset_length,
                Some(*res),
            ) && r == Some(report_spec(old(self).last_offset_length, *res)),
            outcome is Err ==> final(self).last_offset_length == old(self).last_offset_length && r
                is None,
    {
        match outcome {
            Ok(res) => {
                let report = match self.last_offset_length {
                    Some(prev) => RunReport {
                        offset: res.offset,
                        length: res.length,
                        offset_delta: Some(delta_u64(res.offset, prev.offset)),
                        length_delta: Some(delta_u64(res.length, prev.length)),
                    },
                    None => RunReport {
                        offset: res.offset,
                        length: res.length,
                        offset_delta: None,
                        length_delta: None,
                    },
                };
                self.last_offset_length = Some(*res);
                Some(report)
            },
            Err(_) => None,
        }
    }
}

/// Delta reporting across runs: after a successful run yielding `r1`, any
/// run of failures leaves the retained state at `r1`, and the next
/// successful run `r2` reports exactly the signed differences
/// `r2 - r1` for offset and length.
pub proof fn lemma_delta_reporting(
    s0: Option<ComparisonResult>,
    r1: ComparisonResult,
    r2: ComparisonResult,
)
    ensures
        last_after(last_after(s0, Some(r1)), None) == Some(r1),
        report_spec(last_after(last_after(s0, Some(r1)), None), r2) == (RunReport {
            offset: r2.offset,
            length: r2.length,
            offset_delta: Some(delta_spec(r2.offset, r1.offset)),
            length_delta: Some(delta_spec(r2.length, r1.length)),
        }),
{
}

} // verus!
