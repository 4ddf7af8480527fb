//! The template engine: it renders a query template with a set of
//! parameters, checks that no placeholder is left, and remembers what each
//! template rendered to.
//!
//! The cache goes by the text of the template alone. A template that was
//! rendered once gives the same text from then on, also for other
//! parameters; entries are never dropped.

use crate::analyzer::sql_template::{
    entries_view, is_listing_of, lemma_substitute_nothing, lemma_substitute_without_placeholders,
    param_entries, placeholder, substitute, substitute_chars,
};
use crate::analyzer::template_parts::{
    assemble, brace_free, distinct_keys, has_key, lemma_full_substitution,
    lemma_order_is_irrelevant, lemma_value_of_listed, plain_entries, plain_parts, resolve,
    slots_known, value_of, Part,
};
use crate::text::{contains_char, from_chars, occurs_in, to_chars};
use std::collections::HashMap;
use vstd::hash_map::StringHashMap;
use vstd::prelude::*;

verus! {

/// Why a template could not be rendered.
#[derive(Debug, Clone, Copy, PartialEq, Eq, Structural)]
pub enum RenderError {
    /// After all parameters were applied the text still held an opening
    /// and a closing brace.
    UnresolvedPlaceholder,
}

impl RenderError {
    /// The message shown to a user.
    pub fn message(&self) -> (m: String)
        ensures
            m@ == "Missing parameter for one or more placeholders."@,
    {
        "Missing parameter for one or more placeholders.".to_string()
    }
}

/// Whether a text counts as holding a placeholder that was not replaced:
/// it holds an opening brace somewhere and a closing brace somewhere.
pub open spec fn unresolved(s: Seq<char>) -> bool {
    s.contains('{') && s.contains('}')
}

/// Whether no text kept in a cache is unresolved.
pub open spec fn all_resolved(cache: Map<Seq<char>, Seq<char>>) -> bool {
    forall|t: Seq<char>| cache.contains_key(t) ==> !unresolved(#[trigger] cache[t])
}

/// What rendering `template` with `entries` returns on an engine whose
/// cache is `cache`: what the cache holds for the template if it holds
/// anything, else the substituted text unless that is unresolved.
pub open spec fn render_result(
    cache: Map<Seq<char>, Seq<char>>,
    template: Seq<char>,
    entries: Seq<(Seq<char>, Seq<char>)>,
) -> Result<Seq<char>, RenderError> {
    if cache.contains_key(template) {
        Ok(cache[template])
    } else if unresolved(substitute(template, entries)) {
        Err(RenderError::UnresolvedPlaceholder)
    } else {
        Ok(substitute(template, entries))
    }
}

/// The cache that such a call leaves: only a text that was substituted and
/// found resolved is added, under the template's text.
pub open spec fn cache_after(
    cache: Map<Seq<char>, Seq<char>>,
    template: Seq<char>,
    entries: Seq<(Seq<char>, Seq<char>)>,
) -> Map<Seq<char>, Seq<char>> {
    if cache.contains_key(template) || unresolved(substitute(template, entries)) {
        cache
    } else {
        cache.insert(template, substitute(template, entries))
    }
}

/// A rendered text or an error, the text by its characters.
pub open spec fn outcome_view(r: Result<String, RenderError>) -> Result<Seq<char>, RenderError> {
    match r {
        Ok(s) => Ok(s@),
        Err(e) => Err(e),
    }
}

/// `base` without its last character if that is a semicolon.
pub open spec fn strip_terminator(base: Seq<char>) -> Seq<char> {
    if base.len() > 0 && base.last() == ';' {
        base.drop_last()
    } else {
        base
    }
}

/// `base` without one trailing semicolon, a space, then `clause`.
pub open spec fn extended(base: Seq<char>, clause: Seq<char>) -> Seq<char> {
    strip_terminator(base) + seq![' '] + clause
}

/// Renders templates and remembers, for each template text, the text it
/// last rendered to.
pub struct TemplateEngine {
    cache: StringHashMap<String>,
}

impl View for TemplateEngine {
    type V = Map<Seq<char>, Seq<char>>;

    /// The cache: from a template's text to the text it rendered to.
    closed spec fn view(&self) -> Map<Seq<char>, Seq<char>> {
        self.cache@.map_values(|v: String| v@)
    }
}

impl TemplateEngine {
    /// What holds of every engine: no text in its cache is unresolved.
    pub open spec fn wf(&self) -> bool {
        all_resolved(self@)
    }

    /// An engine that has rendered nothing yet.
    pub fn new() -> (engine: Self)
        ensures
            engine@ == Map::<Seq<char>, Seq<char>>::empty(),
            engine.wf(),
    {
        let engine = TemplateEngine { cache: StringHashMap::new() };
        assert(engine@ =~= Map::<Seq<char>, Seq<char>>::empty());
        engine
    }

    /// Renders `template` with the parameters of `entries`, applied in the
    /// order of the list. A template that was rendered before gives the
    /// text it gave then, whatever the parameters are now.
    pub fn render_entries(&mut self, template: &str, entries: &Vec<(String, String)>) -> (r:
        Result<String, RenderError>)
        requires
            old(self).wf(),
        ensures
            outcome_view(r) == render_result(old(self)@, template@, entries_view(entries@)),
            final(self)@ == cache_after(old(self)@, template@, entries_view(entries@)),
            final(self).wf(),
            r matches Ok(s) ==> !unresolved(s@),
    {
        if let Some(cached) = self.cache.get(template) {
            return Ok(cached.clone());
        }
        let chars = substitute_chars(template, entries);
        if contains_char(&chars, '{') && contains_char(&chars, '}') {
            return Err(RenderError::UnresolvedPlaceholder);
        }
        let rendered = from_chars(&chars);
        let ghost before = self@;
        self.cache.insert(template.to_string(), rendered.clone());
        assert(self@ =~= before.insert(template@, rendered@));
        Ok(rendered)
    }

    /// Renders `template` with the parameters of a map, applied in the
    /// order in which the map hands them out. A template that was rendered
    /// before gives the text it gave then, whatever the parameters are now.
    pub fn render(&mut self, template: &str, params: &HashMap<String, String>) -> (r: Result<
        String,
        RenderError,
    >)
        requires
            old(self).wf(),
        ensures
            exists|entries: Seq<(String, String)>|
                is_listing_of(entries, params@) && outcome_view(r) == render_result(
                    old(self)@,
                    template@,
                    #[trigger] entries_view(entries),
                ) && final(self)@ == cache_after(old(self)@, template@, entries_view(entries)),
            old(self)@.contains_key(template@) ==> outcome_view(r) == Ok::<
                Seq<char>,
                RenderError,
            >(old(self)@[template@]) && final(self)@ == old(self)@,
            r is Err ==> final(self)@ == old(self)@,
            final(self).wf(),
            r matches Ok(s) ==> !unresolved(s@),
    {
        let entries = param_entries(params);
        self.render_entries(template, &entries)
    }

    /// Puts `clause` behind `base`: one trailing semicolon of `base` is
    /// dropped, then come a space and `clause` as it is.
    pub fn extend_query(base: &str, clause: &str) -> (q: String)
        ensures
            q@ == extended(base@, clause@),
    {
        let mut chars = to_chars(base);
        let n = chars.len();
        if n > 0 && chars[n - 1] == ';' {
            chars.pop();
        }
        chars.push(' ');
        let mut tail = to_chars(clause);
        chars.append(&mut tail);
        assert(chars@ =~= extended(base@, clause@));
        from_chars(&chars)
    }
}

/// A template whose text is in the cache renders to the cached text
/// whatever the parameters are, and the cache stays as it is.
pub proof fn lemma_cached_template_wins(
    cache: Map<Seq<char>, Seq<char>>,
    template: Seq<char>,
    entries: Seq<(Seq<char>, Seq<char>)>,
)
    requires
        cache.contains_key(template),
    ensures
        render_result(cache, template, entries) == Ok::<Seq<char>, RenderError>(cache[template]),
        cache_after(cache, template, entries) == cache,
{
}

/// Once a template was rendered, rendering it again on the same engine
/// gives the same text, whatever the parameters of the second call are,
/// and leaves the cache as the first call left it.
pub proof fn lemma_second_render_repeats_first(
    cache: Map<Seq<char>, Seq<char>>,
    template: Seq<char>,
    first: Seq<(Seq<char>, Seq<char>)>,
    second: Seq<(Seq<char>, Seq<char>)>,
)
    requires
        render_result(cache, template, first) is Ok,
    ensures
        render_result(cache_after(cache, template, first), template, second) == render_result(
            cache,
            template,
            first,
        ),
        cache_after(cache_after(cache, template, first), template, second) == cache_after(
            cache,
            template,
            first,
        ),
{
}

/// A call that fails leaves the cache as it was, so a later call for the
/// same template is judged by its own parameters.
pub proof fn lemma_failed_render_leaves_no_trace(
    cache: Map<Seq<char>, Seq<char>>,
    template: Seq<char>,
    first: Seq<(Seq<char>, Seq<char>)>,
    second: Seq<(Seq<char>, Seq<char>)>,
)
    requires
        render_result(cache, template, first) is Err,
    ensures
        cache_after(cache, template, first) == cache,
        render_result(cache_after(cache, template, first), template, second) == render_result(
            Map::empty(),
            template,
            second,
        ),
{
}

/// What a template renders to depends on the cache only through the entry
/// for that template: two engines that have not rendered it, two new ones
/// among them, give the same outcome for the same parameters.
pub proof fn lemma_engines_agree(
    one: Map<Seq<char>, Seq<char>>,
    other: Map<Seq<char>, Seq<char>>,
    template: Seq<char>,
    entries: Seq<(Seq<char>, Seq<char>)>,
)
    requires
        !one.contains_key(template),
        !other.contains_key(template),
    ensures
        render_result(one, template, entries) == render_result(other, template, entries),
        render_result(one, template, entries) == render_result(Map::empty(), template, entries),
{
}

/// Rendering changes the cache at the template's own text at most.
pub proof fn lemma_render_keeps_other_templates(
    cache: Map<Seq<char>, Seq<char>>,
    template: Seq<char>,
    entries: Seq<(Seq<char>, Seq<char>)>,
    other: Seq<char>,
)
    requires
        other != template,
    ensures
        cache_after(cache, template, entries).contains_key(other) == cache.contains_key(other),
        cache.contains_key(other) ==> cache_after(cache, template, entries)[other] == cache[other],
{
}

/// A text that was rendered is not unresolved, and a cache of resolved
/// texts stays one.
pub proof fn lemma_rendered_text_is_resolved(
    cache: Map<Seq<char>, Seq<char>>,
    template: Seq<char>,
    entries: Seq<(Seq<char>, Seq<char>)>,
)
    requires
        all_resolved(cache),
    ensures
        all_resolved(cache_after(cache, template, entries)),
        render_result(cache, template, entries) matches Ok(text) ==> !unresolved(text),
{
}

/// Without parameters a template that is not in the cache renders to
/// itself, unless it is unresolved: then the call fails.
pub proof fn lemma_render_without_parameters(
    cache: Map<Seq<char>, Seq<char>>,
    template: Seq<char>,
)
    requires
        !cache.contains_key(template),
    ensures
        render_result(cache, template, Seq::empty()) == if unresolved(template) {
            Err::<Seq<char>, RenderError>(RenderError::UnresolvedPlaceholder)
        } else {
            Ok::<Seq<char>, RenderError>(template)
        },
{
    lemma_substitute_nothing(template);
}

/// A template with an opening and a closing brace in which the placeholder
/// of no parameter stands fails to render, unless its text is in the
/// cache, and the cache stays as it is.
pub proof fn lemma_unknown_placeholder_fails(
    cache: Map<Seq<char>, Seq<char>>,
    template: Seq<char>,
    entries: Seq<(Seq<char>, Seq<char>)>,
)
    requires
        !cache.contains_key(template),
        unresolved(template),
        forall|i: int|
            0 <= i < entries.len() ==> !occurs_in(template, placeholder(#[trigger] entries[i].0)),
    ensures
        render_result(cache, template, entries) == Err::<Seq<char>, RenderError>(
            RenderError::UnresolvedPlaceholder,
        ),
        cache_after(cache, template, entries) == cache,
{
    lemma_substitute_without_placeholders(template, entries);
}

/// A semicolon at the end of the base makes no difference: with it and
/// without it the extended query is the same.
pub proof fn lemma_extend_ignores_one_terminator(base: Seq<char>, clause: Seq<char>)
    requires
        base.len() == 0 || base.last() != ';',
    ensures
        extended(base.push(';'), clause) == extended(base, clause),
        extended(base, clause) == base + seq![' '] + clause,
{
    assert(base.push(';').drop_last() =~= base);
}

/// A template of plain pieces that is not in the cache, given a parameter
/// for each of its slots, with names and values that hold no brace,
/// renders: to the text in which every placeholder is replaced by its
/// parameter's value.
pub proof fn lemma_plain_template_renders(
    cache: Map<Seq<char>, Seq<char>>,
    parts: Seq<Part>,
    entries: Seq<(Seq<char>, Seq<char>)>,
)
    requires
        !cache.contains_key(assemble(parts)),
        plain_parts(parts),
        plain_entries(entries),
        slots_known(parts, entries),
    ensures
        render_result(cache, assemble(parts), entries) == Ok::<Seq<char>, RenderError>(
            assemble(resolve(parts, entries)),
        ),
        cache_after(cache, assemble(parts), entries) == cache.insert(
            assemble(parts),
            assemble(resolve(parts, entries)),
        ),
{
    lemma_full_substitution(parts, entries);
}

/// For a template of plain pieces it makes no difference in which order a
/// map hands out its parameters: any two lists of what the map holds, with
/// names and values that hold no brace, give the same outcome.
pub proof fn lemma_listings_agree(
    cache: Map<Seq<char>, Seq<char>>,
    parts: Seq<Part>,
    params: Map<String, String>,
    one: Seq<(String, String)>,
    other: Seq<(String, String)>,
)
    requires
        plain_parts(parts),
        is_listing_of(one, params),
        is_listing_of(other, params),
        plain_entries(entries_view(one)),
    ensures
        substitute(assemble(parts), entries_view(one)) == substitute(
            assemble(parts),
            entries_view(other),
        ),
        render_result(cache, assemble(parts), entries_view(one)) == render_result(
            cache,
            assemble(parts),
            entries_view(other),
        ),
        cache_after(cache, assemble(parts), entries_view(one)) == cache_after(
            cache,
            assemble(parts),
            entries_view(other),
        ),
{
    let a = entries_view(one);
    let b = entries_view(other);
    lemma_listed_once(one, other, params);
    lemma_listed_once(other, one, params);
    assert forall|e: (Seq<char>, Seq<char>)| a.contains(e) <==> b.contains(e) by {
        if a.contains(e) {
            let i = choose|i: int| 0 <= i < a.len() && a[i] == e;
            let j = choose|j: int| 0 <= j < other.len() && other[j] == one[i];
            assert(b[j] == e);
        }
        if b.contains(e) {
            let i = choose|i: int| 0 <= i < b.len() && b[i] == e;
            let j = choose|j: int| 0 <= j < one.len() && one[j] == other[i];
            assert(a[j] == e);
        }
    }
    assert forall|i: int| 0 <= i < b.len() implies brace_free((#[trigger] b[i]).0) && brace_free(
        b[i].1,
    ) by {
        let j = choose|j: int| 0 <= j < one.len() && one[j] == other[i];
        assert(a[j] == b[i]);
    }
    assert(distinct_keys(a)) by {
        assert forall|i: int, j: int| 0 <= i < j < a.len() implies (#[trigger] a[i]).0 != (
        #[trigger] a[j]).0 by {
            assert(one[i].0@ != one[j].0@);
        }
    }
    assert(distinct_keys(b)) by {
        assert forall|i: int, j: int| 0 <= i < j < b.len() implies (#[trigger] b[i]).0 != (
        #[trigger] b[j]).0 by {
            assert(other[i].0@ != other[j].0@);
        }
    }
    lemma_order_is_irrelevant(parts, a, b);
}

/// Every entry of one list of what a map holds stands in any other list
/// of it.
proof fn lemma_listed_once(
    one: Seq<(String, String)>,
    other: Seq<(String, String)>,
    params: Map<String, String>,
)
    requires
        is_listing_of(one, params),
        is_listing_of(other, params),
    ensures
        forall|i: int| 0 <= i < one.len() ==> other.contains(#[trigger] one[i]),
{
    assert forall|i: int| 0 <= i < one.len() implies other.contains(#[trigger] one[i]) by {
        let k = one[i].0;
        assert(params.contains_key(k));
        let j = choose|j: int| 0 <= j < other.len() && (#[trigger] other[j]).0 == k;
        assert(params[other[j].0] == other[j].1);
        assert(other[j] == one[i]);
    }
}

/// Whether no name and no value in the map holds a brace.
pub open spec fn plain_params(params: Map<String, String>) -> bool {
    forall|k: String| #[trigger]
        params.contains_key(k) ==> brace_free(k@) && brace_free(params[k]@)
}

/// Whether the map has a parameter for every slot among the pieces.
pub open spec fn params_know(parts: Seq<Part>, params: Map<String, String>) -> bool {
    forall|i: int|
        0 <= i < parts.len() ==> (#[trigger] parts[i] matches Part::Slot(name) ==> exists|
            k: String,
        |
            #[trigger] params.contains_key(k) && k@ == name)
}

/// A list of what a map holds gives for each name the value that the map
/// gives for it.
pub proof fn lemma_listing_looks_up(
    entries: Seq<(String, String)>,
    params: Map<String, String>,
    k: String,
)
    requires
        is_listing_of(entries, params),
        params.contains_key(k),
    ensures
        has_key(entries_view(entries), k@),
        value_of(entries_view(entries), k@) == params[k]@,
{
    let listed = entries_view(entries);
    let i = choose|i: int| 0 <= i < entries.len() && (#[trigger] entries[i]).0 == k;
    assert(listed[i].0 == k@);
    assert(params[entries[i].0] == entries[i].1);
    assert(distinct_keys(listed)) by {
        assert forall|a: int, b: int| 0 <= a < b < listed.len() implies (#[trigger] listed[a]).0
            != (#[trigger] listed[b]).0 by {
            assert(entries[a].0@ != entries[b].0@);
        }
    }
    lemma_value_of_listed(listed, i);
}

/// A template of plain pieces that is not in the cache, rendered with a
/// map that has a parameter for each of its slots and no brace in a name
/// or a value, renders, in whatever order the map hands out its
/// parameters: to the text in which every placeholder is replaced by its
/// parameter's value, a text without a brace.
pub proof fn lemma_plain_template_renders_with_map(
    cache: Map<Seq<char>, Seq<char>>,
    parts: Seq<Part>,
    params: Map<String, String>,
    entries: Seq<(String, String)>,
)
    requires
        !cache.contains_key(assemble(parts)),
        plain_parts(parts),
        plain_params(params),
        params_know(parts, params),
        is_listing_of(entries, params),
    ensures
        render_result(cache, assemble(parts), entries_view(entries)) == Ok::<
            Seq<char>,
            RenderError,
        >(assemble(resolve(parts, entries_view(entries)))),
        brace_free(assemble(resolve(parts, entries_view(entries)))),
        forall|other: Seq<(String, String)>|
            is_listing_of(other, params) ==> render_result(
                cache,
                assemble(parts),
                #[trigger] entries_view(other),
            ) == render_result(cache, assemble(parts), entries_view(entries)),
{
    let listed = entries_view(entries);
    assert(plain_entries(listed)) by {
        assert forall|i: int| 0 <= i < listed.len() implies brace_free((#[trigger] listed[i]).0)
            && brace_free(listed[i].1) by {
            assert(params.contains_key(entries[i].0));
            assert(params[entries[i].0] == entries[i].1);
        }
    }
    assert(slots_known(parts, listed)) by {
        assert forall|i: int| 0 <= i < parts.len() implies (#[trigger] parts[i] matches Part::Slot(
            name,
        ) ==> has_key(listed, name)) by {
            if let Part::Slot(name) = parts[i] {
                let k = choose|k: String| #[trigger] params.contains_key(k) && k@ == name;
                lemma_listing_looks_up(entries, params, k);
            }
        }
    }
    lemma_full_substitution(parts, listed);
    lemma_plain_template_renders(cache, parts, listed);
    assert forall|other: Seq<(String, String)>| is_listing_of(other, params) implies render_result(
        cache,
        assemble(parts),
        #[trigger] entries_view(other),
    ) == render_result(cache, assemble(parts), entries_view(entries)) by {
        lemma_listings_agree(cache, parts, params, entries, other);
    }
}

} // verus!
