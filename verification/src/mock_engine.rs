//! The mock inference engine: canned responses for development and tests.

use vstd::prelude::*;

use crate::text::{chars_of, find_first, string_from_chars};

verus! {

/// An engine that answers from a fixed rule instead of a model.
#[derive(Debug)]
pub struct MockEngine;

impl MockEngine {
    /// Builds the mock engine; it never fails.
    pub fn new() -> (r: Result<MockEngine, String>)
        ensures
            r is Ok,
    {
        Ok(MockEngine)
    }

    /// The mock rule: a prompt that mentions `JSON` gets a canned
    /// classification object; anything else gets an echo of its first 50
    /// characters.
    pub open spec fn spec_mock_response(prompt: Seq<char>) -> Seq<char> {
        if find_first(prompt, "JSON"@) >= 0 {
            "{\"category\": \"code\", \"complexity\": \"simple\"}"@
        } else {
            "[Mock response for: "@ + prompt.take(
                if prompt.len() <= 50 {
                    prompt.len() as int
                } else {
                    50
                },
            ) + "]"@
        }
    }

    /// Generates the canned response for a prompt.
    pub fn generate_mock(&self, prompt: &str) -> (r: String)
        ensures
            r@ == MockEngine::spec_mock_response(prompt@),
    {
        let chars = chars_of(prompt);
        let pat = chars_of("JSON");
        proof {
            reveal_strlit("JSON");
        }
        if crate::text::contains_sub(&chars, &pat) {
            "{\"category\": \"code\", \"complexity\": \"simple\"}".to_owned()
        } else {
            let n = prompt.unicode_len();
            let cut = if n <= 50 {
                n
            } else {
                50
            };
            let head = prompt.substring_char(0, cut);
            let mut r = "[Mock response for: ".to_owned();
            r.append(head);
            r.append("]");
            proof {
                assert(prompt@.subrange(0, cut as int) =~= prompt@.take(cut as int));
            }
            r
        }
    }
}

} // verus!
