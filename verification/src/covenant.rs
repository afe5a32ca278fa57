//! Covenant data: the agreement about work to be done, its target state and
//! the agent hierarchy that will carry it out.

use vstd::prelude::*;

verus! {

/// Desired future state.
#[derive(Debug)]
pub struct TargetState {
    pub objectives: Vec<String>,
    pub success_criteria: Vec<String>,
    pub constraints: Vec<String>,
}

/// A function-level reference point in a repository.
#[derive(Debug)]
pub struct FunctionRef {
    pub repo: String,
    pub file_path: String,
    pub line_number: u32,
    pub function_name: String,
    pub signature: String,
    pub purpose: Option<String>,
}

/// One tier of the agent hierarchy.
#[derive(Debug)]
pub struct AgentTier {
    pub tier_name: String,
    pub model_class: String,
    pub task_types: Vec<String>,
    pub expected_count: usize,
}

/// The role a repository plays in a strike.
#[derive(Clone, Copy, Debug, PartialEq, Eq, Structural)]
pub enum TargetRole {
    Anchor,
    Agno,
}

/// A repository selected for a strike.
#[derive(Debug)]
pub struct StrikeTarget {
    pub repo: String,
    pub role: TargetRole,
    pub rationale: String,
}

/// The agent assignments of a strike.
#[derive(Debug)]
pub struct DelegationPlan {
    pub foreman_assignments: Vec<ForemanAssignment>,
    pub worker_pools: Vec<WorkerPool>,
}

/// One foreman and its responsibilities.
#[derive(Debug)]
pub struct ForemanAssignment {
    pub agent_id: String,
    pub model: String,
    pub responsibilities: Vec<String>,
    pub worker_count: usize,
}

/// A pool of worker agents.
#[derive(Debug)]
pub struct WorkerPool {
    pub pool_id: String,
    pub model: String,
    pub task_types: Vec<String>,
    pub size: usize,
}

/// Builds a covenant id from a fresh UUID string: `cov-` plus its first eight
/// characters.
pub fn covenant_id_of(uuid_str: &str) -> (r: String)
    requires
        uuid_str@.len() >= 8,
    ensures
        r@ == "cov-"@ + uuid_str@.take(8),
{
    let mut r = "cov-".to_owned();
    let prefix = uuid_str.substring_char(0, 8);
    r.append(prefix);
    proof {
        assert(uuid_str@.subrange(0, 8) =~= uuid_str@.take(8));
    }
    r
}

} // verus!
