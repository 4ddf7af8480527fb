//! Query templates with named placeholders, and their substitution by a
//! set of parameters.

use crate::text::{
    from_chars, lemma_replace_all_absent, occurs_in, replace, replace_all, to_chars,
};
use std::collections::HashMap;
use vstd::prelude::*;

verus! {

/// The placeholder for a parameter name: the name between braces.
pub open spec fn placeholder(key: Seq<char>) -> Seq<char> {
    seq!['{'] + key + seq!['}']
}

/// A list of parameters as pairs of name and value, by their characters.
pub open spec fn entries_view(entries: Seq<(String, String)>) -> Seq<(Seq<char>, Seq<char>)> {
    entries.map_values(|e: (String, String)| (e.0@, e.1@))
}

/// The template after the parameters were applied one after the other, in
/// the order of the list: each one replaces every occurrence of its
/// placeholder in the text that the ones before it left.
pub open spec fn substitute(template: Seq<char>, entries: Seq<(Seq<char>, Seq<char>)>) -> Seq<
    char,
>
    decreases entries.len(),
{
    if entries.len() == 0 {
        template
    } else {
        replace_all(
            substitute(template, entries.drop_last()),
            placeholder(entries.last().0),
            entries.last().1,
        )
    }
}

/// Whether `entries` lists what the map holds: every entry is in the map,
/// every key of the map is listed, and no key is listed twice.
pub open spec fn is_listing_of(entries: Seq<(String, String)>, params: Map<String, String>) -> bool {
    &&& forall|i: int|
        0 <= i < entries.len() ==> params.contains_key(#[trigger] entries[i].0) && params[entries[i].0]
            == entries[i].1
    &&& forall|k: String| #[trigger]
        params.contains_key(k) ==> exists|i: int| 0 <= i < entries.len() && #[trigger] entries[i].0 == k
    &&& forall|i: int, j: int|
        0 <= i < j < entries.len() ==> (#[trigger] entries[i]).0@ != (#[trigger] entries[j]).0@
}

/// The entries of a map, in the order in which the map hands them out.
///
/// Trusted: `HashMap::iter` is taken to visit every entry of the map once
/// and nothing else. Nothing is said of the order, which may differ from
/// one map to the next.
#[verifier::external_body]
pub(crate) fn param_entries(params: &HashMap<String, String>) -> (entries: Vec<(String, String)>)
    ensures
        is_listing_of(entries@, params@),
{
    params.iter().map(|(k, v)| (k.clone(), v.clone())).collect()
}

/// The characters of the placeholder for `key`.
pub fn placeholder_chars(key: &str) -> (p: Vec<char>)
    ensures
        p@ == placeholder(key@),
{
    let mut p: Vec<char> = Vec::new();
    p.push('{');
    let mut k = to_chars(key);
    p.append(&mut k);
    p.push('}');
    assert(p@ =~= placeholder(key@));
    p
}

/// Applies the parameters to the characters of a template, in the order of
/// the list.
pub fn substitute_chars(template: &str, entries: &Vec<(String, String)>) -> (r: Vec<char>)
    ensures
        r@ == substitute(template@, entries_view(entries@)),
{
    let mut r = to_chars(template);
    let mut i: usize = 0;
    assert(entries_view(entries@).subrange(0, 0) =~= Seq::empty());
    while i < entries.len()
        invariant
            i <= entries.len(),
            r@ == substitute(template@, entries_view(entries@).subrange(0, i as int)),
        decreases entries.len() - i,
    {
        let pat = placeholder_chars(entries[i].0.as_str());
        let to = to_chars(entries[i].1.as_str());
        r = replace(&r, &pat, &to);
        proof {
            let all = entries_view(entries@);
            let next = all.subrange(0, i + 1);
            assert(next.drop_last() =~= all.subrange(0, i as int));
            assert(next.last() == all[i as int]);
        }
        i += 1;
    }
    assert(entries_view(entries@).subrange(0, entries.len() as int) =~= entries_view(entries@));
    r
}

/// Replaces the placeholders of a template by the values of a list of
/// parameters, applied in the order of the list.
pub fn interpolate_entries(template: &str, entries: &Vec<(String, String)>) -> (r: String)
    ensures
        r@ == substitute(template@, entries_view(entries@)),
{
    let r = substitute_chars(template, entries);
    from_chars(&r)
}

/// Replaces the placeholders of a template by the values of a map of
/// parameters. The parameters are applied one after the other, in the order
/// in which the map hands them out.
pub fn interpolate_template(template: &str, params: &HashMap<String, String>) -> (r: String)
    ensures
        exists|entries: Seq<(String, String)>|
            is_listing_of(entries, params@) && r@ == substitute(
                template@,
                #[trigger] entries_view(entries),
            ),
{
    let entries = param_entries(params);
    interpolate_entries(template, &entries)
}

/// A template in which the placeholder of no parameter stands comes out
/// as it went in.
pub proof fn lemma_substitute_without_placeholders(
    template: Seq<char>,
    entries: Seq<(Seq<char>, Seq<char>)>,
)
    requires
        forall|i: int|
            0 <= i < entries.len() ==> !occurs_in(template, placeholder(#[trigger] entries[i].0)),
    ensures
        substitute(template, entries) == template,
    decreases entries.len(),
{
    if entries.len() > 0 {
        let front = entries.drop_last();
        assert forall|i: int| 0 <= i < front.len() implies !occurs_in(
            template,
            placeholder(#[trigger] front[i].0),
        ) by {
            assert(front[i] == entries[i]);
        }
        lemma_substitute_without_placeholders(template, front);
        assert(entries.last() == entries[entries.len() - 1]);
        lemma_replace_all_absent(template, placeholder(entries.last().0), entries.last().1);
    }
}

/// Without parameters a template comes out as it went in.
pub proof fn lemma_substitute_nothing(template: Seq<char>)
    ensures
        substitute(template, Seq::empty()) == template,
{
}

} // verus!
