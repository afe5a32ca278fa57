//! Prompt templates, their id-keyed store, and their rendering.
//!
//! A template holds text with `{{name}}` placeholders; rendering substitutes
//! each supplied variable in turn.  Substitution of one variable is specified
//! exactly ([`spec_replace_all`]); because the variables arrive in a hash
//! map, whose iteration order is not specified, the rendering contract states
//! that the result is the fold of the substitutions over the supplied entries
//! in *some* order of them.

use std::collections::HashMap;

use vstd::prelude::*;

use crate::text::{chars_of, find_first, lemma_find_first, string_from_chars};

verus! {

/// Agent kinds a prompt can address.
#[derive(Clone, Copy, Debug, PartialEq, Eq, Structural)]
pub enum AgentType {
    Architect,
    Foreman,
    Worker,
    Coordinator,
}

/// A prompt template with variable substitution.
#[derive(Debug)]
pub struct PromptTemplate {
    pub id: String,
    pub name: String,
    pub description: String,
    pub template: String,
    pub variables: Vec<String>,
    pub agent_type: AgentType,
}

/// An id-keyed store of prompt templates.  Registering under an already-used
/// id shadows the earlier entry, as the insert of a map would; lookups return
/// the live entry.
pub struct PromptStore {
    entries: Vec<PromptTemplate>,
}

impl PromptStore {
    /// The stored templates in registration order; on lookups, later entries
    /// shadow earlier ones with the same id.
    pub closed spec fn spec_entries(&self) -> Seq<PromptTemplate> {
        self.entries@
    }

    /// The index of the live entry under `id`: the last one registered.
    pub open spec fn spec_find(entries: Seq<PromptTemplate>, id: Seq<char>) -> Option<int>
        decreases entries.len(),
    {
        if entries.len() == 0 {
            None
        } else if entries.last().id@ == id {
            Some(entries.len() - 1)
        } else {
            Self::spec_find(entries.drop_last(), id)
        }
    }

    /// An empty store.
    pub fn new() -> (r: PromptStore)
        ensures
            r.spec_entries().len() == 0,
    {
        PromptStore { entries: Vec::new() }
    }

    /// Registers a template; it shadows any earlier entry with the same id.
    pub fn register_prompt(&mut self, prompt: PromptTemplate)
        ensures
            final(self).spec_entries() == old(self).spec_entries().push(prompt),
    {
        self.entries.push(prompt);
    }

    /// The raw entry list, registration order, shadowed entries included.
    pub fn entries(&self) -> (r: &Vec<PromptTemplate>)
        ensures
            r@ == self.spec_entries(),
    {
        &self.entries
    }

    /// Looks an id up: the most recently registered template under it, if any.
    pub fn get_prompt(&self, id: &str) -> (r: Option<&PromptTemplate>)
        ensures
            match r {
                Some(p) => {
                    &&& PromptStore::spec_find(self.spec_entries(), id@) matches Some(k)
                    &&& *p == self.spec_entries()[
                        PromptStore::spec_find(self.spec_entries(), id@)->0]
                },
                None => PromptStore::spec_find(self.spec_entries(), id@) is None,
            },
    {
        let len = self.entries.len();
        let mut i: usize = len;
        proof {
            assert(self.entries@.take(len as int) =~= self.entries@);
        }
        while i > 0
            invariant
                i <= len,
                len == self.entries@.len(),
                PromptStore::spec_find(self.entries@, id@) == PromptStore::spec_find(
                    self.entries@.take(i as int),
                    id@,
                ),
            decreases i,
        {
            i = i - 1;
            let ghost prefix = self.entries@.take(i + 1);
            proof {
                assert(prefix.last() == self.entries@[i as int]);
                assert(prefix.drop_last() =~= self.entries@.take(i as int));
            }
            if crate::text::str_eq(self.entries[i].id.as_str(), id) {
                return Some(&self.entries[i]);
            }
        }
        proof {
            assert(self.entries@.take(0).len() == 0);
        }
        None
    }
}

/// The placeholder a variable name stands behind: `{{name}}`.
pub open spec fn placeholder_of(key: Seq<char>) -> Seq<char> {
    seq!['{', '{'] + key + seq!['}', '}']
}

/// `str::replace` semantics: every occurrence of `pat`, found left to right
/// without overlap, replaced by `val`.
pub open spec fn spec_replace_all(text: Seq<char>, pat: Seq<char>, val: Seq<char>) -> Seq<char>
    decreases text.len(),
    via spec_replace_all_decreases
{
    if pat.len() == 0 {
        text
    } else {
        let i = find_first(text, pat);
        if i == -1 {
            text
        } else {
            text.take(i) + val + spec_replace_all(text.skip(i + pat.len() as int), pat, val)
        }
    }
}

#[via_fn]
proof fn spec_replace_all_decreases(text: Seq<char>, pat: Seq<char>, val: Seq<char>) {
    lemma_find_first(text, pat);
}

/// Rendering: the substitutions applied over the pairs, first to last.
pub open spec fn spec_render(text: Seq<char>, pairs: Seq<(Seq<char>, Seq<char>)>) -> Seq<char>
    decreases pairs.len(),
{
    if pairs.len() == 0 {
        text
    } else {
        spec_render(
            spec_replace_all(text, placeholder_of(pairs[0].0), pairs[0].1),
            pairs.drop_first(),
        )
    }
}

/// The character-level views of a list of variable bindings.
pub open spec fn pairs_views(pairs: Seq<(String, String)>) -> Seq<(Seq<char>, Seq<char>)> {
    pairs.map_values(|p: (String, String)| (p.0@, p.1@))
}

/// `pairs` lists each entry of the map exactly once.
pub open spec fn entries_match(m: Map<String, String>, pairs: Seq<(String, String)>) -> bool {
    &&& pairs.len() == m.dom().len()
    &&& forall|k: int|
        0 <= k < pairs.len() ==> m.dom().contains((#[trigger] pairs[k]).0) && m[pairs[k].0]
            == pairs[k].1
    &&& forall|k1: int, k2: int| 0 <= k1 < k2 < pairs.len() ==> pairs[k1].0 != pairs[k2].0
}

/// Relies on `HashMap::into_iter`: the iterator yields each stored entry
/// exactly once; the order is the map's own and is not specified here.
#[verifier::external_body]
fn map_entries(vars: HashMap<String, String>) -> (r: Vec<(String, String)>)
    ensures
        entries_match(vars@, r@),
{
    vars.into_iter().collect()
}

/// Appends `src[from..to]` onto `dst`.
fn push_range(dst: &mut Vec<char>, src: &Vec<char>, from: usize, to: usize)
    requires
        from <= to <= src@.len(),
    ensures
        final(dst)@ == old(dst)@ + src@.subrange(from as int, to as int),
{
    let mut i: usize = from;
    while i < to
        invariant
            from <= i <= to <= src@.len(),
            dst@ == old(dst)@ + src@.subrange(from as int, i as int),
        decreases to - i,
    {
        dst.push(src[i]);
        i = i + 1;
        proof {
            assert(dst@ =~= old(dst)@ + src@.subrange(from as int, i as int));
        }
    }
}

/// Replaces every occurrence of `pat` in `text` by `val`, left to right.
fn replace_all(text: Vec<char>, pat: &Vec<char>, val: &Vec<char>) -> (r: Vec<char>)
    requires
        pat@.len() >= 1,
    ensures
        r@ == spec_replace_all(text@, pat@, val@),
{
    let ghost text0 = text@;
    let mut acc: Vec<char> = Vec::new();
    let mut rest = text;
    let mut done = false;
    while !done
        invariant
            pat@.len() >= 1,
            spec_replace_all(text0, pat@, val@) == acc@ + spec_replace_all(rest@, pat@, val@),
            done ==> spec_replace_all(rest@, pat@, val@) == Seq::<char>::empty(),
        decreases rest@.len(), (if done { 0int } else { 1int }),
    {
        let ghost rest0 = rest@;
        match crate::text::find_sub(&rest, pat) {
            Some(i) => {
                proof {
                    lemma_find_first(rest0, pat@);
                }
                push_range(&mut acc, &rest, 0, i);
                push_range(&mut acc, val, 0, val.len());
                let rlen = rest.len();
                let tail = crate::text::sub_vec(&rest, i + pat.len(), rlen);
                proof {
                    assert(rest0.take(i as int) =~= rest0.subrange(0, i as int));
                    assert(val@.subrange(0, val@.len() as int) =~= val@);
                    assert(tail@ =~= rest0.skip(i + pat@.len() as int));
                    assert(acc@ + spec_replace_all(tail@, pat@, val@) =~= spec_replace_all(
                        text0,
                        pat@,
                        val@,
                    ));
                }
                rest = tail;
            },
            None => {
                let rlen = rest.len();
                push_range(&mut acc, &rest, 0, rlen);
                rest = Vec::new();
                proof {
                    assert(rest0.subrange(0, rest0.len() as int) =~= rest0);
                    assert(spec_replace_all(rest0, pat@, val@) == rest0);
                    assert(acc@ =~= spec_replace_all(text0, pat@, val@));
                    assert(rest@ =~= Seq::<char>::empty());
                }
                done = true;
            },
        }
    }
    proof {
        assert(acc@ =~= spec_replace_all(text0, pat@, val@));
    }
    acc
}

/// Renders a template: every supplied variable's `{{name}}` placeholder is
/// replaced by its value.  The variables come from a hash map, so the
/// substitution order is some enumeration of its entries; rendering never
/// fails.
pub fn render_prompt(template: &PromptTemplate, vars: HashMap<String, String>) -> (r: Result<
    String,
    String,
>)
    ensures
        r is Ok,
        exists|pairs: Seq<(String, String)>|
            #[trigger] entries_match(vars@, pairs) && (r->Ok_0)@ == spec_render(
                template.template@,
                pairs_views(pairs),
            ),
{
    let ghost m = vars@;
    let pairs = map_entries(vars);
    let ghost pairs0 = pairs@;
    let mut rendered = chars_of(template.template.as_str());
    let np = pairs.len();
    let mut i: usize = 0;
    proof {
        assert(pairs_views(pairs0).skip(0) =~= pairs_views(pairs0));
    }
    while i < np
        invariant
            i <= np,
            np == pairs0.len(),
            pairs@ == pairs0,
            entries_match(m, pairs0),
            spec_render(rendered@, pairs_views(pairs0).skip(i as int)) == spec_render(
                template.template@,
                pairs_views(pairs0),
            ),
        decreases np - i,
    {
        let key = &pairs[i].0;
        let value = &pairs[i].1;
        let key_chars = chars_of(key.as_str());
        let mut pat: Vec<char> = Vec::new();
        pat.push('{');
        pat.push('{');
        let klen = key_chars.len();
        push_range(&mut pat, &key_chars, 0, klen);
        pat.push('}');
        pat.push('}');
        proof {
            assert(key_chars@.subrange(0, key_chars@.len() as int) =~= key_chars@);
            assert(pat@ =~= placeholder_of(pairs0[i as int].0@));
        }
        let val_chars = chars_of(value.as_str());
        let ghost before = rendered@;
        rendered = replace_all(rendered, &pat, &val_chars);
        i = i + 1;
        proof {
            let pv = pairs_views(pairs0);
            assert(pv.skip(i - 1).drop_first() =~= pv.skip(i as int));
            assert(pv.skip(i - 1)[0] == (pairs0[i - 1].0@, pairs0[i - 1].1@));
            assert(spec_render(before, pv.skip(i - 1)) == spec_render(
                spec_replace_all(before, placeholder_of(pairs0[i - 1].0@), pairs0[i - 1].1@),
                pv.skip(i as int),
            ));
        }
    }
    proof {
        assert(pairs_views(pairs0).skip(np as int) =~= Seq::<(Seq<char>, Seq<char>)>::empty());
    }
    let out = string_from_chars(&rendered);
    proof {
        assert(entries_match(m, pairs0) && out@ == spec_render(
            template.template@,
            pairs_views(pairs0),
        ));
    }
    Ok(out)
}

} // verus!
