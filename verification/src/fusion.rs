//! Summarizing a cycle for the fusion orchestrator: counts, anchors, mean
//! hygiene score of the absorbed fragments, and iteration count.

use vstd::prelude::*;

use crate::engine::{HarpoonCycle, ReportSpec};
use crate::score::{round_div, round_div_u128};

verus! {

/// The summary a fusion caller consumes.  `hygiene_score` is the mean score
/// of the absorbed fragments, in units of `1/10000`.
#[derive(Debug)]
pub struct FusionResult {
    pub absorbed_count: usize,
    pub pending_count: usize,
    pub anchors: Vec<String>,
    pub hygiene_score: Option<u32>,
    pub iterations: usize,
}

/// Lifetime counters of a fusion orchestrator.
#[derive(Debug)]
pub struct FusionStats {
    pub total_fragments_processed: usize,
    pub total_anchors_created: usize,
    pub thread_count: usize,
}

/// Sum of the recorded scores of the first `k` reports; an unscored report
/// counts zero.
pub open spec fn score_sum(reports: Seq<ReportSpec>, k: int) -> int
    decreases k,
{
    if k <= 0 {
        0
    } else {
        score_sum(reports, k - 1) + match reports[k - 1].hygiene_score {
            Some(v) => v,
            None => 0,
        }
    }
}

/// Summarizes a finished cycle.  The mean hygiene score is the rounded
/// average of the absorbed reports' scores; an empty absorption list has no
/// mean.
pub fn summarize_cycle(cycle: &HarpoonCycle) -> (r: FusionResult)
    ensures
        r.absorbed_count == cycle@.absorbed.len(),
        r.pending_count == cycle@.pending.len(),
        r.iterations == cycle@.iterations,
        r.anchors@.map_values(|s: String| s@) == cycle@.anchors,
        match r.hygiene_score {
            Some(v) => cycle@.absorbed.len() > 0 && v == round_div(
                score_sum(cycle@.absorbed, cycle@.absorbed.len() as int),
                cycle@.absorbed.len() as int,
            ),
            None => cycle@.absorbed.len() == 0,
        },
{
    let absorbed = cycle.get_absorbed();
    let pending = cycle.get_pending();
    let anchors_src = cycle.get_anchors();
    let na = absorbed.len();

    let mut anchors: Vec<String> = Vec::new();
    let mut i: usize = 0;
    while i < anchors_src.len()
        invariant
            i <= anchors_src@.len(),
            anchors@.len() == i,
            forall|j: int| 0 <= j < i ==> anchors@[j]@ == anchors_src@[j]@,
        decreases anchors_src@.len() - i,
    {
        anchors.push(anchors_src[i].clone());
        i = i + 1;
    }
    proof {
        assert(anchors@.map_values(|s: String| s@) =~= anchors_src@.map_values(|s: String| s@));
    }

    let hygiene_score: Option<u32> = if na == 0 {
        None
    } else {
        let mut sum: u128 = 0;
        let mut k: usize = 0;
        while k < na
            invariant
                k <= na,
                na == absorbed@.len(),
                sum == score_sum(absorbed@.map_values(|x: crate::engine::FragmentReport| x@), k as int),
                sum <= k * 0xffff_ffffu128,
            decreases na - k,
        {
            let add: u32 = match absorbed[k].hygiene_score {
                Some(v) => v,
                None => 0,
            };
            proof {
                assert(sum + add <= (k + 1) * 0xffff_ffffu128) by (nonlinear_arith)
                    requires
                        sum <= k * 0xffff_ffffu128,
                        add <= 0xffff_ffffu128,
                ;
            }
            sum = sum + add as u128;
            k = k + 1;
        }
        proof {
            assert(na * 0xffff_ffffu128 <= 0xffff_ffffu128 * (na as u128)) by (nonlinear_arith);
        }
        Some(round_div_u128(sum, na as u128, 0xffff_ffffu32))
    };

    FusionResult {
        absorbed_count: na,
        pending_count: pending.len(),
        anchors,
        hygiene_score,
        iterations: cycle.get_iterations(),
    }
}

} // verus!
