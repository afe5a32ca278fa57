//! Strike-related prompts.

use vstd::prelude::*;

use crate::resources::{AgentType, PromptTemplate};

verus! {

/// The variable names of [`delegation_prompt`].
pub open spec fn delegation_variables() -> Seq<Seq<char>> {
    seq!["strike_id"@, "strike_targets"@, "foreman_count"@, "worker_count"@]
}

/// The template text of [`delegation_prompt`].
pub open spec fn delegation_template() -> Seq<char> {
    r#"Create a delegation plan for executing strike {{strike_id}} across the selected repositories.

Strike Targets:
{{strike_targets}}

Available Resources:
- Foremen (Qwen-30B): {{foreman_count}} available
- Workers (Gemma-270M): {{worker_count}} available

For each repository, determine:
1. **Foreman Assignment**: Which foreman agent handles this repo?
2. **Worker Pool Size**: How many workers needed?
3. **Task Breakdown**:
   - Analysis tasks (understanding existing code)
   - Transformation tasks (implementing changes)
   - Integration tasks (connecting with other repos)
   - Documentation tasks (explaining changes)

Consider:
- Anchor repository needs most experienced foreman
- Complex refactoring needs more workers
- Integration points require cross-team coordination
- Balance load across available agents

Output a detailed delegation plan with:
- Agent assignments
- Task distributions
- Communication channels
- Synchronization points"#@
}

/// Delegation planning prompt for strike execution.
pub fn delegation_prompt() -> (r: PromptTemplate)
    ensures
        r.template@ == delegation_template(),
        r.id@ == "strike.delegation"@,
        r.name@ == "Strike Delegation Planning"@,
        r.description@ == "Create delegation plan for multi-agent strike execution"@,
        r.agent_type == AgentType::Architect,
        r.variables@.map_values(|s: String| s@) == delegation_variables(),
{
    let mut variables: Vec<String> = Vec::new();
    variables.push("strike_id".to_owned());
    variables.push("strike_targets".to_owned());
    variables.push("foreman_count".to_owned());
    variables.push("worker_count".to_owned());
    proof {
        assert(variables@.map_values(|s: String| s@) =~= delegation_variables());
    }
    PromptTemplate {
        id: "strike.delegation".to_owned(),
        name: "Strike Delegation Planning".to_owned(),
        description: "Create delegation plan for multi-agent strike execution".to_owned(),
        template: r#"Create a delegation plan for executing strike {{strike_id}} across the selected repositories.

Strike Targets:
{{strike_targets}}

Available Resources:
- Foremen (Qwen-30B): {{foreman_count}} available
- Workers (Gemma-270M): {{worker_count}} available

For each repository, determine:
1. **Foreman Assignment**: Which foreman agent handles this repo?
2. **Worker Pool Size**: How many workers needed?
3. **Task Breakdown**:
   - Analysis tasks (understanding existing code)
   - Transformation tasks (implementing changes)
   - Integration tasks (connecting with other repos)
   - Documentation tasks (explaining changes)

Consider:
- Anchor repository needs most experienced foreman
- Complex refactoring needs more workers
- Integration points require cross-team coordination
- Balance load across available agents

Output a detailed delegation plan with:
- Agent assignments
- Task distributions
- Communication channels
- Synchronization points"#.to_owned(),
        variables,
        agent_type: AgentType::Architect,
    }
}

/// The variable names of [`pr_creation_prompt`].
pub open spec fn pr_creation_variables() -> Seq<Seq<char>> {
    seq!["repo_name"@, "strike_id"@, "repo_role"@, "objectives"@]
}

/// The template text of [`pr_creation_prompt`].
pub open spec fn pr_creation_template() -> Seq<char> {
    r#"Create a pull request for repository {{repo_name}} as part of strike {{strike_id}}.

Repository Role: {{repo_role}}
Covenant Objectives: {{objectives}}

PR Should Include:
1. **Title**: Clear, action-oriented (feat/chore based on role)
2. **Description**:
   - Purpose of changes
   - How it fits into larger covenant
   - Integration points with other repos
3. **Files to Create/Update**:
   - ubq.toml (configuration)
   - Plockfile.yaml (dependency lock)
   - CI workflow for receipts
   - Natural language README updates

For {{repo_role}} repositories:
- ANCHOR: Include rollback commands, full ubiquity spec compliance
- AGNO: Include cable definitions, integration documentation

Make the PR self-documenting with clear explanations of:
- What reality state this addresses
- What target state this achieves
- How to wield this repository in the new configuration"#@
}

/// Pull request creation prompt for a strike target.
pub fn pr_creation_prompt() -> (r: PromptTemplate)
    ensures
        r.template@ == pr_creation_template(),
        r.id@ == "strike.pr_creation"@,
        r.name@ == "Pull Request Creation"@,
        r.description@ == "Create PR content for strike target"@,
        r.agent_type == AgentType::Foreman,
        r.variables@.map_values(|s: String| s@) == pr_creation_variables(),
{
    let mut variables: Vec<String> = Vec::new();
    variables.push("repo_name".to_owned());
    variables.push("strike_id".to_owned());
    variables.push("repo_role".to_owned());
    variables.push("objectives".to_owned());
    proof {
        assert(variables@.map_values(|s: String| s@) =~= pr_creation_variables());
    }
    PromptTemplate {
        id: "strike.pr_creation".to_owned(),
        name: "Pull Request Creation".to_owned(),
        description: "Create PR content for strike target".to_owned(),
        template: r#"Create a pull request for repository {{repo_name}} as part of strike {{strike_id}}.

Repository Role: {{repo_role}}
Covenant Objectives: {{objectives}}

PR Should Include:
1. **Title**: Clear, action-oriented (feat/chore based on role)
2. **Description**:
   - Purpose of changes
   - How it fits into larger covenant
   - Integration points with other repos
3. **Files to Create/Update**:
   - ubq.toml (configuration)
   - Plockfile.yaml (dependency lock)
   - CI workflow for receipts
   - Natural language README updates

For {{repo_role}} repositories:
- ANCHOR: Include rollback commands, full ubiquity spec compliance
- AGNO: Include cable definitions, integration documentation

Make the PR self-documenting with clear explanations of:
- What reality state this addresses
- What target state this achieves
- How to wield this repository in the new configuration"#.to_owned(),
        variables,
        agent_type: AgentType::Foreman,
    }
}

} // verus!
