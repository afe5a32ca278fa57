//! Prompt templates and rendering.

use std::collections::HashMap;

use harpoon::prompts::agent::{agent_communication_prompt, task_delegation_prompt};
use harpoon::prompts::covenant::{creation_prompt, review_prompt};
use harpoon::prompts::fusion::hygiene_prompt;
use harpoon::prompts::strike::{delegation_prompt, pr_creation_prompt};
use harpoon::resources::{render_prompt, AgentType, PromptStore, PromptTemplate};

#[test]
fn test_prompt_rendering() {
    let prompt = PromptTemplate {
        id: "test".to_string(),
        name: "Test Prompt".to_string(),
        description: "A test prompt".to_string(),
        template: "Hello {{name}}, you have {{count}} messages".to_string(),
        variables: vec!["name".to_string(), "count".to_string()],
        agent_type: AgentType::Worker,
    };

    let mut vars = HashMap::new();
    vars.insert("name".to_string(), "Alice".to_string());
    vars.insert("count".to_string(), "5".to_string());

    let rendered = render_prompt(&prompt, vars).unwrap();
    assert_eq!(rendered, "Hello Alice, you have 5 messages");
}

#[test]
fn prompt_store_keeps_the_latest_entry_per_id() {
    let mut store = PromptStore::new();
    assert!(store.get_prompt("agent.communication").is_none());
    store.register_prompt(agent_communication_prompt());
    store.register_prompt(task_delegation_prompt());
    let found = store.get_prompt("agent.communication").unwrap();
    assert_eq!(found.name, "Agent Communication");
    // Re-registering under an id shadows the earlier entry.
    store.register_prompt(PromptTemplate {
        id: "agent.communication".to_string(),
        name: "Replacement".to_string(),
        description: "a newer entry".to_string(),
        template: "updated".to_string(),
        variables: vec![],
        agent_type: AgentType::Worker,
    });
    assert_eq!(store.get_prompt("agent.communication").unwrap().name, "Replacement");
    assert!(store.get_prompt("missing.id").is_none());
    assert_eq!(store.entries().len(), 3);
}

#[test]
fn rendering_replaces_every_occurrence() {
    let prompt = PromptTemplate {
        id: "rep".to_string(),
        name: "Repeat".to_string(),
        description: "repeated placeholder".to_string(),
        template: "{{w}} and {{w}} and {{w}}".to_string(),
        variables: vec!["w".to_string()],
        agent_type: AgentType::Worker,
    };
    let mut vars = HashMap::new();
    vars.insert("w".to_string(), "echo".to_string());
    assert_eq!(render_prompt(&prompt, vars).unwrap(), "echo and echo and echo");
}

#[test]
fn rendering_leaves_unknown_placeholders_alone() {
    let prompt = PromptTemplate {
        id: "keep".to_string(),
        name: "Keep".to_string(),
        description: "unknown placeholder".to_string(),
        template: "{{known}} then {{unknown}}".to_string(),
        variables: vec!["known".to_string()],
        agent_type: AgentType::Coordinator,
    };
    let mut vars = HashMap::new();
    vars.insert("known".to_string(), "ok".to_string());
    assert_eq!(render_prompt(&prompt, vars).unwrap(), "ok then {{unknown}}");
}

#[test]
fn builtin_prompts_have_their_ids_and_variables() {
    let p = agent_communication_prompt();
    assert_eq!(p.id, "agent.communication");
    assert_eq!(p.agent_type, AgentType::Coordinator);
    assert_eq!(p.variables.len(), 8);
    assert!(p.template.contains("{{message_content}}"));

    let p = task_delegation_prompt();
    assert_eq!(p.id, "agent.task_delegation");
    assert_eq!(p.agent_type, AgentType::Foreman);
    assert_eq!(p.variables, vec!["main_task", "repository", "worker_count"]);

    let p = creation_prompt();
    assert_eq!(p.id, "covenant.creation");
    assert_eq!(p.agent_type, AgentType::Architect);

    let p = review_prompt();
    assert_eq!(p.id, "covenant.harmony_review");
    assert_eq!(p.variables.len(), 3);

    let p = hygiene_prompt();
    assert_eq!(p.id, "fusion.hygiene");
    assert_eq!(p.agent_type, AgentType::Worker);
    assert_eq!(p.variables.len(), 5);

    let p = delegation_prompt();
    assert_eq!(p.id, "strike.delegation");
    assert_eq!(p.variables.len(), 4);

    let p = pr_creation_prompt();
    assert_eq!(p.id, "strike.pr_creation");
    assert_eq!(p.agent_type, AgentType::Foreman);
}

#[test]
fn rendering_a_builtin_prompt_substitutes_the_details() {
    let p = hygiene_prompt();
    let mut vars = HashMap::new();
    vars.insert("fragment_path".to_string(), "src/x.py".to_string());
    vars.insert("fragment_lines".to_string(), "1-10".to_string());
    vars.insert("language".to_string(), "python".to_string());
    vars.insert("fragment_body".to_string(), "def f(): pass".to_string());
    vars.insert("hygiene_threshold".to_string(), "0.7".to_string());
    let rendered = render_prompt(&p, vars).unwrap();
    assert!(rendered.contains("- Path: src/x.py"));
    assert!(rendered.contains("Current threshold: 0.7"));
    assert!(!rendered.contains("{{fragment_body}}"));
}
