//! The unified request shape: what a caller hands the orchestration layer,
//! and how a fragment context becomes an engine fragment.

use vstd::prelude::*;

use crate::engine::FragmentInput;

verus! {

/// Positional metadata for fusion processing of the request text.
#[derive(Debug)]
pub struct FragmentContext {
    pub path: String,
    pub idx: u32,
    pub lines: String,
}

/// Where the work should run.
#[derive(Clone, Copy, Debug, PartialEq, Eq, Structural)]
pub enum DeploymentTarget {
    Native,
    HostedAI,
}

/// One request into the unified orchestration layer.
#[derive(Debug)]
pub struct UnifiedRequest {
    pub text: String,
    pub covenant_id: Option<String>,
    pub fragment_context: Option<FragmentContext>,
    pub deployment: DeploymentTarget,
}

/// Turns a request's fragment context and text into an engine fragment.
pub fn fragment_from_context(ctx: FragmentContext, body: String) -> (r: FragmentInput)
    ensures
        r.path == ctx.path,
        r.idx == ctx.idx,
        r.lines == ctx.lines,
        r.body == body,
{
    FragmentInput { path: ctx.path, idx: ctx.idx, lines: ctx.lines, body }
}

} // verus!
