//! Fusion and fragment processing prompts.

use vstd::prelude::*;

use crate::resources::{AgentType, PromptTemplate};

verus! {

/// The variable names of [`hygiene_prompt`].
pub open spec fn hygiene_variables() -> Seq<Seq<char>> {
    seq![
        "fragment_path"@,
        "fragment_lines"@,
        "language"@,
        "fragment_body"@,
        "hygiene_threshold"@,
    ]
}

/// The template text of [`hygiene_prompt`].
pub open spec fn hygiene_template() -> Seq<char> {
    r#"Analyze the following code fragment for hygiene and integration readiness.

Fragment Details:
- Path: {{fragment_path}}
- Lines: {{fragment_lines}}
- Language: {{language}}

Code Fragment:
```{{language}}
{{fragment_body}}
```

Assess the fragment on these criteria:
1. **Code Quality** (0-1): Is the code well-structured and maintainable?
2. **Documentation** (0-1): Are functions/classes properly documented?
3. **Integration Readiness** (0-1): Can this be easily integrated with other components?
4. **Complexity** (0-1): Is the complexity appropriate for its purpose?
5. **Security** (0-1): Are there any obvious security concerns?

Calculate overall hygiene score (0-1) and provide:
- Specific issues found
- Recommendations for improvement
- Integration points identified
- Whether fragment should be absorbed or requeued

Current threshold: {{hygiene_threshold}}"#@
}

/// Fragment hygiene analysis prompt.
pub fn hygiene_prompt() -> (r: PromptTemplate)
    ensures
        r.template@ == hygiene_template(),
        r.id@ == "fusion.hygiene"@,
        r.name@ == "Fragment Hygiene Analysis"@,
        r.description@ == "Analyze code fragment quality and integration readiness"@,
        r.agent_type == AgentType::Worker,
        r.variables@.map_values(|s: String| s@) == hygiene_variables(),
{
    let mut variables: Vec<String> = Vec::new();
    variables.push("fragment_path".to_owned());
    variables.push("fragment_lines".to_owned());
    variables.push("language".to_owned());
    variables.push("fragment_body".to_owned());
    variables.push("hygiene_threshold".to_owned());
    proof {
        assert(variables@.map_values(|s: String| s@) =~= hygiene_variables());
    }
    PromptTemplate {
        id: "fusion.hygiene".to_owned(),
        name: "Fragment Hygiene Analysis".to_owned(),
        description: "Analyze code fragment quality and integration readiness".to_owned(),
        template: r#"Analyze the following code fragment for hygiene and integration readiness.

Fragment Details:
- Path: {{fragment_path}}
- Lines: {{fragment_lines}}
- Language: {{language}}

Code Fragment:
```{{language}}
{{fragment_body}}
```

Assess the fragment on these criteria:
1. **Code Quality** (0-1): Is the code well-structured and maintainable?
2. **Documentation** (0-1): Are functions/classes properly documented?
3. **Integration Readiness** (0-1): Can this be easily integrated with other components?
4. **Complexity** (0-1): Is the complexity appropriate for its purpose?
5. **Security** (0-1): Are there any obvious security concerns?

Calculate overall hygiene score (0-1) and provide:
- Specific issues found
- Recommendations for improvement
- Integration points identified
- Whether fragment should be absorbed or requeued

Current threshold: {{hygiene_threshold}}"#.to_owned(),
        variables,
        agent_type: AgentType::Worker,
    }
}

} // verus!
