//! Covenant-related prompts.

use vstd::prelude::*;

use crate::resources::{AgentType, PromptTemplate};

verus! {

/// The variable names of [`creation_prompt`].
pub open spec fn creation_variables() -> Seq<Seq<char>> {
    seq!["org_name"@, "repo_count"@, "primary_language"@]
}

/// The template text of [`creation_prompt`].
pub open spec fn creation_template() -> Seq<char> {
    r#"You are the SuperMe architect working with a user to create a development covenant.

Current Context:
- User Organization: {{org_name}}
- Repository Count: {{repo_count}}
- Primary Language: {{primary_language}}

Your role is to:
1. Understand the user's current reality (existing codebase, architecture, pain points)
2. Help define the target state (desired architecture, improvements, goals)
3. Identify high-intent signals in repositories
4. Create function-level reference points

Start by asking the user:
"I'm here to help create a development covenant for your organization. Let's start by understanding your current system.

What are the main challenges you're facing with your codebase, and what would you like to achieve?"

Guidelines:
- Be conversational and collaborative
- Ask clarifying questions
- Suggest concrete improvements based on patterns you observe
- Create a clear path from reality to target state"#@
}

/// Covenant creation prompt for the architect.
pub fn creation_prompt() -> (r: PromptTemplate)
    ensures
        r.template@ == creation_template(),
        r.id@ == "covenant.creation"@,
        r.name@ == "Covenant Creation"@,
        r.description@ == "Interactive covenant creation with user"@,
        r.agent_type == AgentType::Architect,
        r.variables@.map_values(|s: String| s@) == creation_variables(),
{
    let mut variables: Vec<String> = Vec::new();
    variables.push("org_name".to_owned());
    variables.push("repo_count".to_owned());
    variables.push("primary_language".to_owned());
    proof {
        assert(variables@.map_values(|s: String| s@) =~= creation_variables());
    }
    PromptTemplate {
        id: "covenant.creation".to_owned(),
        name: "Covenant Creation".to_owned(),
        description: "Interactive covenant creation with user".to_owned(),
        template: r#"You are the SuperMe architect working with a user to create a development covenant.

Current Context:
- User Organization: {{org_name}}
- Repository Count: {{repo_count}}
- Primary Language: {{primary_language}}

Your role is to:
1. Understand the user's current reality (existing codebase, architecture, pain points)
2. Help define the target state (desired architecture, improvements, goals)
3. Identify high-intent signals in repositories
4. Create function-level reference points

Start by asking the user:
"I'm here to help create a development covenant for your organization. Let's start by understanding your current system.

What are the main challenges you're facing with your codebase, and what would you like to achieve?"

Guidelines:
- Be conversational and collaborative
- Ask clarifying questions
- Suggest concrete improvements based on patterns you observe
- Create a clear path from reality to target state"#.to_owned(),
        variables,
        agent_type: AgentType::Architect,
    }
}

/// The variable names of [`review_prompt`].
pub open spec fn review_variables() -> Seq<Seq<char>> {
    seq!["covenant_id"@, "covenant_objectives"@, "repo_list"@]
}

/// The template text of [`review_prompt`].
pub open spec fn review_template() -> Seq<char> {
    r#"Analyze the following repositories to select optimal strike targets for covenant {{covenant_id}}.

Covenant Objectives:
{{covenant_objectives}}

Repositories to Analyze:
{{repo_list}}

Selection Criteria:
1. **Intent Signal**: How well does this repo align with covenant objectives?
2. **Complexity Score**: What tier of agent should handle this?
3. **Integration Points**: How does it connect with other repos?
4. **Impact Potential**: What value does transforming this repo provide?

Select exactly 5 targets:
- 1 Anchor (primary repository that will coordinate others)
- 4 Agnos (supporting repositories)

For each selected target, provide:
- Repository name
- Role (ANCHOR or AGNO)
- Rationale for selection
- Recommended agent tier (Foreman/Worker distribution)
- Key integration points

Output as structured JSON matching the HarmonyReview schema."#@
}

/// Harmony review prompt for analyzing repositories.
pub fn review_prompt() -> (r: PromptTemplate)
    ensures
        r.template@ == review_template(),
        r.id@ == "covenant.harmony_review"@,
        r.name@ == "Harmony Review"@,
        r.description@ == "Analyze repositories and select strike targets"@,
        r.agent_type == AgentType::Architect,
        r.variables@.map_values(|s: String| s@) == review_variables(),
{
    let mut variables: Vec<String> = Vec::new();
    variables.push("covenant_id".to_owned());
    variables.push("covenant_objectives".to_owned());
    variables.push("repo_list".to_owned());
    proof {
        assert(variables@.map_values(|s: String| s@) =~= review_variables());
    }
    PromptTemplate {
        id: "covenant.harmony_review".to_owned(),
        name: "Harmony Review".to_owned(),
        description: "Analyze repositories and select strike targets".to_owned(),
        template: r#"Analyze the following repositories to select optimal strike targets for covenant {{covenant_id}}.

Covenant Objectives:
{{covenant_objectives}}

Repositories to Analyze:
{{repo_list}}

Selection Criteria:
1. **Intent Signal**: How well does this repo align with covenant objectives?
2. **Complexity Score**: What tier of agent should handle this?
3. **Integration Points**: How does it connect with other repos?
4. **Impact Potential**: What value does transforming this repo provide?

Select exactly 5 targets:
- 1 Anchor (primary repository that will coordinate others)
- 4 Agnos (supporting repositories)

For each selected target, provide:
- Repository name
- Role (ANCHOR or AGNO)
- Rationale for selection
- Recommended agent tier (Foreman/Worker distribution)
- Key integration points

Output as structured JSON matching the HarmonyReview schema."#.to_owned(),
        variables,
        agent_type: AgentType::Architect,
    }
}

} // verus!
