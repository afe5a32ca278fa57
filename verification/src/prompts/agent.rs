//! Agent communication and coordination prompts.

use vstd::prelude::*;

use crate::resources::{AgentType, PromptTemplate};

verus! {

/// The variable names of [`agent_communication_prompt`].
pub open spec fn agent_communication_variables() -> Seq<Seq<char>> {
    seq![
        "sender_type"@,
        "sender_id"@,
        "receiver_type"@,
        "receiver_id"@,
        "shared_context"@,
        "message_type"@,
        "message_content"@,
        "expected_response"@,
    ]
}

/// The template text of [`agent_communication_prompt`].
pub open spec fn agent_communication_template() -> Seq<char> {
    r#"Message from {{sender_type}} ({{sender_id}}) to {{receiver_type}} ({{receiver_id}}):

Context: {{shared_context}}

Message Type: {{message_type}}

Content:
{{message_content}}

Expected Response:
{{expected_response}}

Please acknowledge receipt and indicate your planned action."#@
}

/// Inter-agent communication prompt.
pub fn agent_communication_prompt() -> (r: PromptTemplate)
    ensures
        r.template@ == agent_communication_template(),
        r.id@ == "agent.communication"@,
        r.name@ == "Agent Communication"@,
        r.description@ == "Template for agent-to-agent communication"@,
        r.agent_type == AgentType::Coordinator,
        r.variables@.map_values(|s: String| s@) == agent_communication_variables(),
{
    let mut variables: Vec<String> = Vec::new();
    variables.push("sender_type".to_owned());
    variables.push("sender_id".to_owned());
    variables.push("receiver_type".to_owned());
    variables.push("receiver_id".to_owned());
    variables.push("shared_context".to_owned());
    variables.push("message_type".to_owned());
    variables.push("message_content".to_owned());
    variables.push("expected_response".to_owned());
    proof {
        assert(variables@.map_values(|s: String| s@) =~= agent_communication_variables());
    }
    PromptTemplate {
        id: "agent.communication".to_owned(),
        name: "Agent Communication".to_owned(),
        description: "Template for agent-to-agent communication".to_owned(),
        template: r#"Message from {{sender_type}} ({{sender_id}}) to {{receiver_type}} ({{receiver_id}}):

Context: {{shared_context}}

Message Type: {{message_type}}

Content:
{{message_content}}

Expected Response:
{{expected_response}}

Please acknowledge receipt and indicate your planned action."#.to_owned(),
        variables,
        agent_type: AgentType::Coordinator,
    }
}

/// The variable names of [`task_delegation_prompt`].
pub open spec fn task_delegation_variables() -> Seq<Seq<char>> {
    seq!["main_task"@, "repository"@, "worker_count"@]
}

/// The template text of [`task_delegation_prompt`].
pub open spec fn task_delegation_template() -> Seq<char> {
    r#"As a Foreman agent, delegate the following task to your worker pool.

Main Task: {{main_task}}
Repository: {{repository}}
Available Workers: {{worker_count}}

Break down the task into subtasks that can be executed in parallel:

1. **Analysis Phase**:
   - What needs to be understood?
   - Which files/functions to examine?

2. **Implementation Phase**:
   - What changes are needed?
   - How to maintain compatibility?

3. **Verification Phase**:
   - What tests to run/create?
   - How to verify integration?

Assign specific workers to each subtask with clear instructions:
- Worker assignments should balance load
- Include synchronization points
- Define clear success criteria
- Specify output format for results

Remember: Workers handle simple tasks best. Complex reasoning stays with you."#@
}

/// Task delegation prompt for foremen.
pub fn task_delegation_prompt() -> (r: PromptTemplate)
    ensures
        r.template@ == task_delegation_template(),
        r.id@ == "agent.task_delegation"@,
        r.name@ == "Task Delegation"@,
        r.description@ == "Foreman delegating tasks to workers"@,
        r.agent_type == AgentType::Foreman,
        r.variables@.map_values(|s: String| s@) == task_delegation_variables(),
{
    let mut variables: Vec<String> = Vec::new();
    variables.push("main_task".to_owned());
    variables.push("repository".to_owned());
    variables.push("worker_count".to_owned());
    proof {
        assert(variables@.map_values(|s: String| s@) =~= task_delegation_variables());
    }
    PromptTemplate {
        id: "agent.task_delegation".to_owned(),
        name: "Task Delegation".to_owned(),
        description: "Foreman delegating tasks to workers".to_owned(),
        template: r#"As a Foreman agent, delegate the following task to your worker pool.

Main Task: {{main_task}}
Repository: {{repository}}
Available Workers: {{worker_count}}

Break down the task into subtasks that can be executed in parallel:

1. **Analysis Phase**:
   - What needs to be understood?
   - Which files/functions to examine?

2. **Implementation Phase**:
   - What changes are needed?
   - How to maintain compatibility?

3. **Verification Phase**:
   - What tests to run/create?
   - How to verify integration?

Assign specific workers to each subtask with clear instructions:
- Worker assignments should balance load
- Include synchronization points
- Define clear success criteria
- Specify output format for results

Remember: Workers handle simple tasks best. Complex reasoning stays with you."#.to_owned(),
        variables,
        agent_type: AgentType::Foreman,
    }
}

} // verus!
