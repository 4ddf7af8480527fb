//! Templates seen as pieces of plain text and slots for parameters, and
//! what substitution does to a template that is made of such pieces.

use crate::analyzer::sql_template::{placeholder, substitute};
use crate::text::{lemma_replace_all_short, lemma_replace_all_skips, occurs_at, replace_all};
use vstd::prelude::*;

verus! {

/// Whether a text holds no brace.
pub open spec fn brace_free(s: Seq<char>) -> bool {
    !s.contains('{') && !s.contains('}')
}

/// A piece of a template: plain text, or the place of a parameter.
pub enum Part {
    /// Text that is taken as it is.
    Text(Seq<char>),
    /// The place where the value of the named parameter goes.
    Slot(Seq<char>),
}

/// The text that a piece stands for in a template.
pub open spec fn part_text(p: Part) -> Seq<char> {
    match p {
        Part::Text(t) => t,
        Part::Slot(k) => placeholder(k),
    }
}

/// The template made of the pieces, one behind the other.
pub open spec fn assemble(parts: Seq<Part>) -> Seq<char>
    decreases parts.len(),
{
    if parts.len() == 0 {
        Seq::empty()
    } else {
        part_text(parts[0]) + assemble(parts.drop_first())
    }
}

/// Whether the pieces are plain: no text among them and no parameter name
/// holds a brace, so that the braces of the template are those of its
/// placeholders.
pub open spec fn plain_parts(parts: Seq<Part>) -> bool {
    forall|i: int|
        0 <= i < parts.len() ==> match #[trigger] parts[i] {
            Part::Text(t) => brace_free(t),
            Part::Slot(k) => brace_free(k),
        }
}

/// A piece after the parameter `key` was given the value `value`.
pub open spec fn fill_part(p: Part, key: Seq<char>, value: Seq<char>) -> Part {
    match p {
        Part::Text(t) => p,
        Part::Slot(k) => if k == key {
            Part::Text(value)
        } else {
            p
        },
    }
}

/// The pieces after the parameter `key` was given the value `value`.
pub open spec fn fill(parts: Seq<Part>, key: Seq<char>, value: Seq<char>) -> Seq<Part> {
    parts.map_values(|p: Part| fill_part(p, key, value))
}

/// The placeholder of one name stands at the start of a text that begins
/// with the placeholder of another only if the two names are the same.
proof fn lemma_placeholder_at_start(key: Seq<char>, other: Seq<char>, rest: Seq<char>)
    requires
        brace_free(key),
        brace_free(other),
        occurs_at(placeholder(other) + rest, 0, placeholder(key)),
    ensures
        key == other,
{
    let s = placeholder(other) + rest;
    let pat = placeholder(key);
    let head = s.subrange(0, pat.len() as int);
    assert(head == pat);
    let kl = key.len() as int;
    let ol = other.len() as int;
    if kl < ol {
        assert(head[kl + 1] == s[kl + 1]);
        assert(pat[kl + 1] == '}');
        assert(s[kl + 1] == other[kl]);
        assert(other.contains('}'));
    } else if ol < kl {
        assert(head[ol + 1] == s[ol + 1]);
        assert(s[ol + 1] == '}');
        assert(pat[ol + 1] == key[ol]);
        assert(key.contains('}'));
    } else {
        assert forall|i: int| 0 <= i < key.len() implies key[i] == other[i] by {
            assert(head[i + 1] == s[i + 1]);
            assert(pat[i + 1] == key[i]);
            assert(s[i + 1] == other[i]);
        }
        assert(key =~= other);
    }
}

/// In a template of plain pieces, replacing the placeholder of a parameter
/// by a value fills the slots of that parameter and touches nothing else.
pub proof fn lemma_replace_fills_slots(parts: Seq<Part>, key: Seq<char>, value: Seq<char>)
    requires
        plain_parts(parts),
        brace_free(key),
    ensures
        replace_all(assemble(parts), placeholder(key), value) == assemble(fill(parts, key, value)),
    decreases parts.len(),
{
    let pat = placeholder(key);
    assert(pat[0] == '{');
    if parts.len() == 0 {
        assert(fill(parts, key, value) =~= Seq::<Part>::empty());
    } else {
        let tail = parts.drop_first();
        let rest = assemble(tail);
        let filled = fill(parts, key, value);
        assert(filled.drop_first() =~= fill(tail, key, value));
        assert(filled[0] == fill_part(parts[0], key, value));
        assert forall|i: int| 0 <= i < tail.len() implies match #[trigger] tail[i] {
            Part::Text(t) => brace_free(t),
            Part::Slot(k) => brace_free(k),
        } by {
            assert(tail[i] == parts[i + 1]);
        }
        lemma_replace_fills_slots(tail, key, value);
        match parts[0] {
            Part::Text(t) => {
                lemma_replace_all_skips(t, rest, pat, value);
            },
            Part::Slot(k) => {
                let s = placeholder(k) + rest;
                if k == key {
                    assert(s.subrange(0, pat.len() as int) =~= pat);
                    assert(s.subrange(pat.len() as int, s.len() as int) =~= rest);
                } else {
                    let inner = k + seq!['}'];
                    assert(!inner.contains('{')) by {
                        if inner.contains('{') {
                            let i = choose|i: int| 0 <= i < inner.len() && inner[i] == '{';
                            assert(k[i] == '{');
                            assert(k.contains('{'));
                        }
                    }
                    assert(s.drop_first() =~= inner + rest);
                    lemma_replace_all_skips(inner, rest, pat, value);
                    if s.len() < pat.len() {
                        lemma_replace_all_short(s, pat, value);
                        lemma_replace_all_short(rest, pat, value);
                    } else {
                        if occurs_at(s, 0, pat) {
                            lemma_placeholder_at_start(key, k, rest);
                        }
                        assert(seq![s[0]] + (inner + replace_all(rest, pat, value)) =~= placeholder(
                            k,
                        ) + replace_all(rest, pat, value));
                    }
                }
            },
        }
    }
}

/// Whether a parameter of that name is in the list.
pub open spec fn has_key(entries: Seq<(Seq<char>, Seq<char>)>, key: Seq<char>) -> bool {
    exists|i: int| 0 <= i < entries.len() && (#[trigger] entries[i]).0 == key
}

/// The value of the first parameter of that name in the list. Where the
/// list holds none, the result means nothing.
pub open spec fn value_of(entries: Seq<(Seq<char>, Seq<char>)>, key: Seq<char>) -> Seq<char>
    decreases entries.len(),
{
    if entries.len() == 0 {
        Seq::empty()
    } else if has_key(entries.drop_last(), key) {
        value_of(entries.drop_last(), key)
    } else {
        entries.last().1
    }
}

/// A piece after all parameters of the list were applied: a slot whose
/// parameter is in the list has become its value.
pub open spec fn resolve_part(p: Part, entries: Seq<(Seq<char>, Seq<char>)>) -> Part {
    match p {
        Part::Text(t) => p,
        Part::Slot(k) => if has_key(entries, k) {
            Part::Text(value_of(entries, k))
        } else {
            p
        },
    }
}

/// The pieces after all parameters of the list were applied.
pub open spec fn resolve(parts: Seq<Part>, entries: Seq<(Seq<char>, Seq<char>)>) -> Seq<Part> {
    parts.map_values(|p: Part| resolve_part(p, entries))
}

/// Whether no name and no value in the list holds a brace.
pub open spec fn plain_entries(entries: Seq<(Seq<char>, Seq<char>)>) -> bool {
    forall|i: int|
        0 <= i < entries.len() ==> brace_free((#[trigger] entries[i]).0) && brace_free(entries[i].1)
}

/// Whether the list has a parameter for every slot among the pieces.
pub open spec fn slots_known(parts: Seq<Part>, entries: Seq<(Seq<char>, Seq<char>)>) -> bool {
    forall|i: int|
        0 <= i < parts.len() ==> (#[trigger] parts[i] matches Part::Slot(k) ==> has_key(entries, k))
}

/// Whether no name stands twice in the list.
pub open spec fn distinct_keys(entries: Seq<(Seq<char>, Seq<char>)>) -> bool {
    forall|i: int, j: int|
        0 <= i < j < entries.len() ==> (#[trigger] entries[i]).0 != (#[trigger] entries[j]).0
}

/// Filling the slots of a parameter with a value that holds no brace
/// leaves plain pieces plain.
proof fn lemma_fill_keeps_plain(parts: Seq<Part>, key: Seq<char>, value: Seq<char>)
    requires
        plain_parts(parts),
        brace_free(value),
    ensures
        plain_parts(fill(parts, key, value)),
{
    let filled = fill(parts, key, value);
    assert forall|i: int| 0 <= i < filled.len() implies match #[trigger] filled[i] {
        Part::Text(t) => brace_free(t),
        Part::Slot(k) => brace_free(k),
    } by {
        assert(filled[i] == fill_part(parts[i], key, value));
    }
}

/// Applying the parameters one after the other, the last one last, is
/// applying them all at once.
proof fn lemma_fill_last(parts: Seq<Part>, entries: Seq<(Seq<char>, Seq<char>)>)
    requires
        entries.len() > 0,
    ensures
        fill(resolve(parts, entries.drop_last()), entries.last().0, entries.last().1) == resolve(
            parts,
            entries,
        ),
{
    let front = entries.drop_last();
    let last = entries.last();
    let stepwise = fill(resolve(parts, front), last.0, last.1);
    let at_once = resolve(parts, entries);
    assert forall|i: int| 0 <= i < parts.len() implies stepwise[i] == at_once[i] by {
        assert(stepwise[i] == fill_part(resolve_part(parts[i], front), last.0, last.1));
        assert(at_once[i] == resolve_part(parts[i], entries));
        match parts[i] {
            Part::Text(t) => {},
            Part::Slot(k) => {
                if has_key(front, k) {
                    let j = choose|j: int| 0 <= j < front.len() && (#[trigger] front[j]).0 == k;
                    assert(entries[j] == front[j]);
                    assert(has_key(entries, k));
                } else if k == last.0 {
                    assert(entries[entries.len() - 1].0 == k);
                    assert(has_key(entries, k));
                } else {
                    if has_key(entries, k) {
                        let j = choose|j: int|
                            0 <= j < entries.len() && (#[trigger] entries[j]).0 == k;
                        if j < front.len() {
                            assert(front[j] == entries[j]);
                        }
                    }
                    assert(!has_key(entries, k));
                }
            },
        }
    }
    assert(stepwise =~= at_once);
}

/// In a template of plain pieces, with names and values that hold no
/// brace, substitution fills every slot whose parameter is in the list
/// with that parameter's value and touches nothing else.
pub proof fn lemma_substitute_resolves(parts: Seq<Part>, entries: Seq<(Seq<char>, Seq<char>)>)
    requires
        plain_parts(parts),
        plain_entries(entries),
    ensures
        substitute(assemble(parts), entries) == assemble(resolve(parts, entries)),
        plain_parts(resolve(parts, entries)),
    decreases entries.len(),
{
    if entries.len() == 0 {
        assert(resolve(parts, entries) =~= parts);
    } else {
        let front = entries.drop_last();
        let last = entries.last();
        assert forall|i: int| 0 <= i < front.len() implies brace_free((#[trigger] front[i]).0)
            && brace_free(front[i].1) by {
            assert(front[i] == entries[i]);
        }
        assert(last == entries[entries.len() - 1]);
        lemma_substitute_resolves(parts, front);
        lemma_replace_fills_slots(resolve(parts, front), last.0, last.1);
        lemma_fill_keeps_plain(resolve(parts, front), last.0, last.1);
        lemma_fill_last(parts, entries);
    }
}

/// Pieces that are plain texts make a text without a brace.
proof fn lemma_texts_are_brace_free(parts: Seq<Part>)
    requires
        plain_parts(parts),
        forall|i: int| 0 <= i < parts.len() ==> #[trigger] parts[i] is Text,
    ensures
        brace_free(assemble(parts)),
    decreases parts.len(),
{
    if parts.len() > 0 {
        let tail = parts.drop_first();
        assert forall|i: int| 0 <= i < tail.len() implies #[trigger] tail[i] is Text && match tail[i] {
            Part::Text(t) => brace_free(t),
            Part::Slot(k) => brace_free(k),
        } by {
            assert(tail[i] == parts[i + 1]);
        }
        lemma_texts_are_brace_free(tail);
        let head = part_text(parts[0]);
        let rest = assemble(tail);
        assert forall|c: char| (c == '{' || c == '}') implies !(head + rest).contains(c) by {
            if (head + rest).contains(c) {
                let i = choose|i: int| 0 <= i < (head + rest).len() && (head + rest)[i] == c;
                if i < head.len() {
                    assert(head[i] == c);
                    assert(head.contains(c));
                } else {
                    assert(rest[i - head.len()] == c);
                    assert(rest.contains(c));
                }
            }
        }
    }
}

/// A template of plain pieces, given a parameter for each of its slots,
/// with names and values that hold no brace, comes out with every
/// placeholder replaced by its parameter's value and without a brace.
pub proof fn lemma_full_substitution(parts: Seq<Part>, entries: Seq<(Seq<char>, Seq<char>)>)
    requires
        plain_parts(parts),
        plain_entries(entries),
        slots_known(parts, entries),
    ensures
        substitute(assemble(parts), entries) == assemble(resolve(parts, entries)),
        brace_free(substitute(assemble(parts), entries)),
{
    lemma_substitute_resolves(parts, entries);
    let resolved = resolve(parts, entries);
    assert forall|i: int| 0 <= i < resolved.len() implies #[trigger] resolved[i] is Text by {
        assert(resolved[i] == resolve_part(parts[i], entries));
    }
    lemma_texts_are_brace_free(resolved);
}

/// Where no name stands twice, the value found for a name of the list is
/// the one listed with it.
pub proof fn lemma_value_of_listed(entries: Seq<(Seq<char>, Seq<char>)>, i: int)
    requires
        distinct_keys(entries),
        0 <= i < entries.len(),
    ensures
        value_of(entries, entries[i].0) == entries[i].1,
    decreases entries.len(),
{
    let front = entries.drop_last();
    let key = entries[i].0;
    if i == entries.len() - 1 {
        if has_key(front, key) {
            let j = choose|j: int| 0 <= j < front.len() && (#[trigger] front[j]).0 == key;
            assert(front[j] == entries[j]);
        }
    } else {
        assert(front[i] == entries[i]);
        assert(has_key(front, key));
        assert forall|a: int, b: int| 0 <= a < b < front.len() implies (#[trigger] front[a]).0 != (
        #[trigger] front[b]).0 by {
            assert(front[a] == entries[a]);
            assert(front[b] == entries[b]);
        }
        lemma_value_of_listed(front, i);
    }
}

/// For a template of plain pieces, the order of the parameters makes no
/// difference: two lists of the same parameters, each name once, with
/// names and values that hold no brace, give the same text.
pub proof fn lemma_order_is_irrelevant(
    parts: Seq<Part>,
    one: Seq<(Seq<char>, Seq<char>)>,
    other: Seq<(Seq<char>, Seq<char>)>,
)
    requires
        plain_parts(parts),
        plain_entries(one),
        plain_entries(other),
        distinct_keys(one),
        distinct_keys(other),
        forall|e: (Seq<char>, Seq<char>)| one.contains(e) <==> other.contains(e),
    ensures
        substitute(assemble(parts), one) == substitute(assemble(parts), other),
{
    lemma_substitute_resolves(parts, one);
    lemma_substitute_resolves(parts, other);
    assert forall|k: Seq<char>| has_key(one, k) implies has_key(other, k) && value_of(other, k)
        == value_of(one, k) by {
        lemma_same_parameters(one, other, k);
    }
    assert forall|k: Seq<char>| has_key(other, k) implies has_key(one, k) by {
        lemma_same_parameters(other, one, k);
    }
    assert(resolve(parts, one) =~= resolve(parts, other));
}

/// A name that one list holds is held by a list of the same parameters
/// too, with the same value.
proof fn lemma_same_parameters(
    one: Seq<(Seq<char>, Seq<char>)>,
    other: Seq<(Seq<char>, Seq<char>)>,
    key: Seq<char>,
)
    requires
        distinct_keys(one),
        distinct_keys(other),
        forall|e: (Seq<char>, Seq<char>)| one.contains(e) ==> other.contains(e),
        has_key(one, key),
    ensures
        has_key(other, key),
        value_of(other, key) == value_of(one, key),
{
    let i = choose|i: int| 0 <= i < one.len() && (#[trigger] one[i]).0 == key;
    assert(one.contains(one[i]));
    assert(other.contains(one[i]));
    let j = choose|j: int| 0 <= j < other.len() && other[j] == one[i];
    assert(other[j].0 == key);
    lemma_value_of_listed(one, i);
    lemma_value_of_listed(other, j);
}

} // verus!
