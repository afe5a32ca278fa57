//! Routing decisions of the model orchestrator: which model a task goes to,
//! how the classifier's raw output is read back, and the plain request and
//! response shapes.

use vstd::prelude::*;

use crate::text::{chars_of, find_first, str_eq, string_from_chars, sub_vec};

verus! {

/// A classification request.
#[derive(Debug)]
pub struct ClassifyRequest {
    pub text: String,
    pub context: Option<String>,
}

/// The result of one routed generation.
#[derive(Debug)]
pub struct RunResponse {
    pub text: String,
    pub model_used: String,
    pub tokens_generated: usize,
    pub generation_time_ms: u128,
}

/// A task's routing category and complexity, with the classifier's latency.
#[derive(Debug)]
pub struct Classification {
    pub category: String,
    pub complexity: String,
    pub latency_ms: u128,
}

/// Knowledge-vault integration settings.
#[derive(Debug)]
pub struct ObsidianConfig {
    pub enabled: bool,
    pub vault_path: String,
    pub categories: Vec<String>,
}

/// Redaction switches applied to prompts.
#[derive(Debug)]
pub struct SafetyConfig {
    pub redact_emails: bool,
    pub redact_phones: bool,
    pub strip_api_keys: bool,
}

/// The stub inference engine linked when no model backend is available.
#[derive(Debug)]
pub struct DefaultEngine;

impl DefaultEngine {
    /// Builds the stub engine; it never fails.
    pub fn new(_repo: &str) -> (r: Result<DefaultEngine, String>)
        ensures
            r is Ok,
    {
        Ok(DefaultEngine)
    }
}

/// Which of the two models a task is routed to.
#[derive(Clone, Copy, Debug, PartialEq, Eq, Structural)]
pub enum ModelChoice {
    Gemma,
    Qwen,
}

/// The routing rule: simple tasks, and extraction, summary and classification
/// tasks of any complexity, go to the light model; everything else goes to the
/// heavy one.
pub open spec fn spec_route(complexity: Seq<char>, category: Seq<char>) -> ModelChoice {
    if complexity == "simple"@ || category == "extraction"@ || category == "summary"@ || category
        == "classification"@ {
        ModelChoice::Gemma
    } else {
        ModelChoice::Qwen
    }
}

/// Routes a classified task to a model.
pub fn route_model(complexity: &str, category: &str) -> (r: ModelChoice)
    ensures
        r == spec_route(complexity@, category@),
{
    if str_eq(complexity, "simple") || str_eq(category, "extraction") || str_eq(
        category,
        "summary",
    ) || str_eq(category, "classification") {
        ModelChoice::Gemma
    } else {
        ModelChoice::Qwen
    }
}

/// Whether a complexity label counts as complex.
pub fn is_complex_of(complexity: &str) -> (r: bool)
    ensures
        r == (complexity@ == "complex"@),
{
    str_eq(complexity, "complex")
}

/// The heavy model thinks when either the classification or its own
/// configuration asks for it.
pub fn qwen_thinking(complexity_is_complex: bool, configured: bool) -> (r: bool)
    ensures
        r == (complexity_is_complex || configured),
{
    complexity_is_complex || configured
}

/// Assembles a classification from the parsed fields, defaulting a missing
/// category to `classification` and a missing complexity to `simple`.
pub fn classification_of(
    category: Option<String>,
    complexity: Option<String>,
    latency_ms: u128,
) -> (r: Classification)
    ensures
        r.category@ == (match category {
            Some(c) => c@,
            None => "classification"@,
        }),
        r.complexity@ == (match complexity {
            Some(c) => c@,
            None => "simple"@,
        }),
        r.latency_ms == latency_ms,
{
    Classification {
        category: match category {
            Some(c) => c,
            None => "classification".to_owned(),
        },
        complexity: match complexity {
            Some(c) => c,
            None => "simple".to_owned(),
        },
        latency_ms,
    }
}

/// The human-readable reasoning line of a classification.
pub fn reasoning_text(category: &str, complexity: &str) -> (r: String)
    ensures
        r@ == "Category: "@ + category@ + ", Complexity: "@ + complexity@,
{
    let mut r = "Category: ".to_owned();
    r.append(category);
    r.append(", Complexity: ");
    r.append(complexity);
    r
}

/// The classification prompt: a fixed instruction around the task, which is
/// cut off at 800 characters to bound context growth.
pub fn classification_prompt(task: &str) -> (r: String)
    ensures
        r@ == "Return compact JSON with keys {category,complexity}.\nCategories=[code,reasoning,creative,extraction,summary,classification]\nComplexity=[simple,moderate,complex]\nTask: "@
            + task@.take(if task@.len() <= 800 {
            task@.len() as int
        } else {
            800
        }) + "\nJSON:"@,
{
    let mut r =
        "Return compact JSON with keys {category,complexity}.\nCategories=[code,reasoning,creative,extraction,summary,classification]\nComplexity=[simple,moderate,complex]\nTask: ".to_owned();
    let n = task.unicode_len();
    let cut = if n <= 800 {
        n
    } else {
        800
    };
    let head = task.substring_char(0, cut);
    r.append(head);
    r.append("\nJSON:");
    proof {
        assert(task@.subrange(0, cut as int) =~= task@.take(cut as int));
    }
    r
}

/// The first `{`-to-last-`}` window of the model's raw output, where a JSON
/// object is expected; nothing when no such window exists.
pub open spec fn spec_json_window(out: Seq<char>) -> Option<Seq<char>> {
    let i = find_first(out, seq!['{']);
    let j = last_brace(out);
    if i >= 0 && j >= i {
        Some(out.subrange(i, j + 1))
    } else {
        None
    }
}

/// The index of the last `}` in `s`, or `-1` if there is none.
pub open spec fn last_brace(s: Seq<char>) -> int
    decreases s.len(),
{
    if s.len() == 0 {
        -1
    } else if s.last() == '}' {
        s.len() - 1
    } else {
        last_brace(s.drop_last())
    }
}

proof fn lemma_last_brace(s: Seq<char>)
    ensures
        -1 <= last_brace(s) < s.len(),
        last_brace(s) >= 0 ==> s[last_brace(s)] == '}',
        forall|j: int| last_brace(s) < j < s.len() ==> s[j] != '}',
    decreases s.len(),
{
    if s.len() > 0 && s.last() != '}' {
        lemma_last_brace(s.drop_last());
        assert forall|j: int| last_brace(s) < j < s.len() implies s[j] != '}' by {
            if j < s.len() - 1 {
                assert(s.drop_last()[j] == s[j]);
            }
        }
    }
}

proof fn lemma_last_brace_unique(s: Seq<char>, k: int)
    requires
        0 <= k < s.len(),
        s[k] == '}',
        forall|j: int| k < j < s.len() ==> s[j] != '}',
    ensures
        last_brace(s) == k,
{
    lemma_last_brace(s);
    if last_brace(s) < k {
        assert(s[k] == '}');
    }
    if last_brace(s) > k {
        assert(s[last_brace(s)] == '}');
    }
}

/// Cuts the JSON object window out of the model's raw output.
pub fn json_window(out: &str) -> (r: Option<String>)
    ensures
        match r {
            Some(s) => spec_json_window(out@) == Some(s@),
            None => spec_json_window(out@) is None,
        },
{
    let chars = chars_of(out);
    let mut open_pat: Vec<char> = Vec::new();
    open_pat.push('{');
    proof {
        assert(open_pat@ =~= seq!['{']);
    }
    let first = crate::text::find_sub(&chars, &open_pat);
    let i = match first {
        Some(i) => i,
        None => {
            return None;
        },
    };
    let n = chars.len();
    let mut j: usize = n;
    let mut found = false;
    while j > 0 && !found
        invariant
            j <= n,
            n == chars@.len(),
            !found ==> forall|p: int| j <= p < n ==> chars@[p] != '}',
            found ==> j < n && chars@[j as int] == '}' && forall|p: int|
                j < p < n ==> chars@[p] != '}',
        decreases j, (if found { 0int } else { 1int }),
    {
        if chars[j - 1] == '}' {
            j = j - 1;
            found = true;
        } else {
            j = j - 1;
        }
    }
    if !found {
        proof {
            lemma_last_brace(chars@);
            if last_brace(chars@) >= 0 {
                assert(chars@[last_brace(chars@)] == '}');
            }
        }
        return None;
    }
    proof {
        lemma_last_brace_unique(chars@, j as int);
        crate::text::lemma_find_first(chars@, seq!['{']);
    }
    if j < i {
        return None;
    }
    let window = sub_vec(&chars, i, j + 1);
    Some(string_from_chars(&window))
}

} // verus!
