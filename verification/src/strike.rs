//! Strike planning: selecting target repositories and following their pull
//! requests.

use vstd::prelude::*;

use crate::covenant::{StrikeTarget, TargetRole};

verus! {

/// Where a pull request stands.
#[derive(Clone, Copy, Debug, PartialEq, Eq, Structural)]
pub enum PrStatus {
    Pending,
    Success,
    Failure,
}

/// A pull request opened for a strike target.
#[derive(Debug)]
pub struct PullRequestInfo {
    pub repo: String,
    pub pr_url: String,
    pub branch_name: String,
    pub status: PrStatus,
}

/// How two repositories are cabled together.
#[derive(Clone, Copy, Debug, PartialEq, Eq, Structural)]
pub enum CableType {
    Primary,
    Secondary,
    Cross,
}

/// Where the strike as a whole stands.
#[derive(Clone, Copy, Debug, PartialEq, Eq, Structural)]
pub enum StrikeStatus {
    Planning,
    Active,
    Complete,
    Failed,
}

/// How many targets a strike takes at most: one anchor and four agnos.
pub open spec fn max_targets() -> int {
    5
}

/// Selects strike targets from candidate repositories: the first becomes the
/// anchor, the rest (up to four more) become agnos.  An empty candidate list
/// is an error.
pub fn select_strike_targets(repos: &Vec<String>) -> (r: Result<Vec<StrikeTarget>, String>)
    ensures
        r is Err <==> repos@.len() == 0,
        r is Err ==> r->Err_0@ == "No suitable targets found"@,
        r is Ok ==> ({
            let t = r->Ok_0@;
            &&& t.len() == (if repos@.len() <= max_targets() {
                repos@.len() as int
            } else {
                max_targets()
            })
            &&& forall|k: int|
                0 <= k < t.len() ==> (#[trigger] t[k]).repo@ == repos@[k]@ && t[k].role == (if k
                    == 0 {
                    TargetRole::Anchor
                } else {
                    TargetRole::Agno
                }) && t[k].rationale@ == "Selected based on covenant objectives"@
        }),
{
    if repos.len() == 0 {
        return Err("No suitable targets found".to_owned());
    }
    let count = if repos.len() <= 5 {
        repos.len()
    } else {
        5
    };
    let mut targets: Vec<StrikeTarget> = Vec::new();
    let mut k: usize = 0;
    while k < count
        invariant
            count <= repos@.len(),
            targets@.len() == k,
            k <= count,
            forall|j: int|
                0 <= j < k ==> (#[trigger] targets@[j]).repo@ == repos@[j]@ && targets@[j].role
                    == (if j == 0 {
                    TargetRole::Anchor
                } else {
                    TargetRole::Agno
                }) && targets@[j].rationale@ == "Selected based on covenant objectives"@,
        decreases count - k,
    {
        let role = if k == 0 {
            TargetRole::Anchor
        } else {
            TargetRole::Agno
        };
        targets.push(
            StrikeTarget {
                repo: repos[k].clone(),
                role,
                rationale: "Selected based on covenant objectives".to_owned(),
            },
        );
        k = k + 1;
    }
    Ok(targets)
}

/// The monitoring step applied to each pull request: a pending one is
/// observed to have succeeded, settled ones keep their state.
pub fn advance_pr_status(status: PrStatus) -> (r: PrStatus)
    ensures
        r == (if status is Pending {
            PrStatus::Success
        } else {
            status
        }),
{
    match status {
        PrStatus::Pending => PrStatus::Success,
        other => other,
    }
}

/// A strike completes once every pull request has succeeded.
pub fn strike_complete(statuses: &Vec<PrStatus>) -> (r: bool)
    ensures
        r == (forall|k: int| 0 <= k < statuses@.len() ==> #[trigger] statuses@[k] is Success),
{
    let n = statuses.len();
    let mut k: usize = 0;
    while k < n
        invariant
            k <= n,
            n == statuses@.len(),
            forall|j: int| 0 <= j < k ==> #[trigger] statuses@[j] is Success,
        decreases n - k,
    {
        if !(statuses[k] == PrStatus::Success) {
            return false;
        }
        k = k + 1;
    }
    true
}

} // verus!
