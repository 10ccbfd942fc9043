//! The dictionary store's contract: which entries a lookup finds, and in what
//! order. The lookups here run over a table in memory and say what any store
//! behind the bot has to answer.

use crate::entry::{views, Entry, EntryView};
use crate::text::{same_text, to_chars};
use vstd::prelude::*;

verus! {

/// Stands for any run of characters in a pattern.
pub const WILDCARD: &'static str = "%";

/// Whether `term` stands in `key` at position `at`.
pub open spec fn occurs_at(key: Seq<char>, term: Seq<char>, at: int) -> bool {
    0 <= at && at + term.len() <= key.len() && key.subrange(at, at + term.len()) == term
}

/// Whether `term` stands somewhere in `key`, character by character.
pub open spec fn contains_term(key: Seq<char>, term: Seq<char>) -> bool {
    exists|at: int| occurs_at(key, term, at)
}

/// Whether a lookup for `term` in `language` finds `entry`: the entry's key
/// contains the term, and its language is the one asked for.
pub open spec fn matches(entry: EntryView, term: Seq<char>, language: Seq<char>) -> bool {
    contains_term(entry.canonical_key, term) && entry.language_tag == language
}

/// The entries of `table` that a lookup for `term` in `language` finds, in
/// the table's order.
pub open spec fn found(table: Seq<EntryView>, term: Seq<char>, language: Seq<char>) -> Seq<
    EntryView,
> {
    table.filter(|e: EntryView| matches(e, term, language))
}

/// Whether `at` is the place of the first entry of `table` that a lookup for
/// `term` in `language` finds.
pub open spec fn is_first_match(
    table: Seq<EntryView>,
    term: Seq<char>,
    language: Seq<char>,
    at: int,
) -> bool {
    &&& 0 <= at < table.len()
    &&& matches(table[at], term, language)
    &&& forall|k: int| 0 <= k < at ==> !matches(#[trigger] table[k], term, language)
}

/// Tells whether `term` stands in `key` at position `at`.
fn stands_at(key: &Vec<char>, term: &Vec<char>, at: usize) -> (r: bool)
    requires
        at + term.len() <= key.len(),
    ensures
        r == occurs_at(key@, term@, at as int),
{
    let mut i: usize = 0;
    while i < term.len()
        invariant
            i <= term.len(),
            at + term.len() <= key.len(),
            forall|k: int| 0 <= k < i ==> key[at + k] == term[k],
        decreases term.len() - i,
    {
        if key[at + i] != term[i] {
            return false;
        }
        i += 1;
    }
    proof {
        assert(key@.subrange(at as int, at + term.len()) =~= term@);
    }
    true
}

/// Tells whether `term` stands somewhere in `key`.
pub fn key_contains(key: &str, term: &str) -> (r: bool)
    ensures
        r == contains_term(key@, term@),
{
    let k = to_chars(key);
    let t = to_chars(term);
    if t.len() > k.len() {
        return false;
    }
    let last: usize = k.len() - t.len();
    let mut at: usize = 0;
    loop
        invariant
            k@ == key@,
            t@ == term@,
            at <= last,
            last + t.len() == k.len(),
            forall|j: int| 0 <= j < at ==> !occurs_at(key@, term@, j),
        decreases last - at,
    {
        if stands_at(&k, &t, at) {
            return true;
        }
        if at == last {
            return false;
        }
        at += 1;
    }
}

/// Tells whether a lookup for `term` in `language` finds `entry`.
pub fn entry_matches(entry: &Entry, term: &str, language: &str) -> (r: bool)
    ensures
        r == matches(entry@, term@, language@),
{
    same_text(entry.language_tag.as_str(), language) && key_contains(
        entry.canonical_key.as_str(),
        term,
    )
}

/// Looks up all the entries of `table` whose key contains `term` and whose
/// language is `language`. They come in the table's order; where none
/// matches, the result is empty.
pub fn find_many(table: &Vec<Entry>, term: &str, language: &str) -> (r: Vec<Entry>)
    ensures
        views(r@) == found(views(table@), term@, language@),
{
    let ghost keep = |e: EntryView| matches(e, term@, language@);
    let mut out: Vec<Entry> = Vec::new();
    let mut i: usize = 0;
    while i < table.len()
        invariant
            i <= table.len(),
            keep == |e: EntryView| matches(e, term@, language@),
            views(out@) == views(table@).take(i as int).filter(keep),
        decreases table.len() - i,
    {
        proof {
            reveal(Seq::filter);
            let next = views(table@).take(i + 1);
            assert(next.drop_last() == views(table@).take(i as int));
        }
        if entry_matches(&table[i], term, language) {
            out.push(table[i].clone());
        }
        i += 1;
    }
    proof {
        assert(views(table@).take(table.len() as int) == views(table@));
    }
    out
}

/// Looks up the first entry of `table` whose key contains `term` and whose
/// language is `language`: the first of those that [`find_many`] finds, or
/// none where it finds none.
pub fn find_one(table: &Vec<Entry>, term: &str, language: &str) -> (r: Option<Entry>)
    ensures
        match r {
            Some(entry) => found(views(table@), term@, language@).len() > 0 && entry@ == found(
                views(table@),
                term@,
                language@,
            )[0],
            None => found(views(table@), term@, language@).len() == 0,
        },
{
    let mut i: usize = 0;
    while i < table.len()
        invariant
            i <= table.len(),
            forall|k: int| 0 <= k < i ==> !matches(#[trigger] views(table@)[k], term@, language@),
        decreases table.len() - i,
    {
        if entry_matches(&table[i], term, language) {
            proof {
                lemma_found_starts_with_first_match(views(table@), term@, language@);
                assert(is_first_match(views(table@), term@, language@, i as int));
            }
            return Some(table[i].clone());
        }
        i += 1;
    }
    proof {
        lemma_found_starts_with_first_match(views(table@), term@, language@);
    }
    None
}

/// The pattern that asks a store for the keys that contain `term`: the term
/// between two wildcards.
pub fn containment_pattern(term: &str) -> (r: String)
    ensures
        r@ == WILDCARD@ + term@ + WILDCARD@,
{
    let mut pattern = String::new();
    pattern.append(WILDCARD);
    pattern.append(term);
    pattern.append(WILDCARD);
    pattern
}

/// The empty term stands in every key, so a lookup for it finds each entry
/// of the language asked for.
pub proof fn lemma_empty_term_matches_language(entry: EntryView, language: Seq<char>)
    ensures
        matches(entry, Seq::empty(), language) <==> entry.language_tag == language,
{
    let none = Seq::<char>::empty();
    assert(entry.canonical_key.subrange(0, 0) =~= none);
    assert(occurs_at(entry.canonical_key, none, 0));
}

/// A lookup for the empty term finds every entry of the language asked for,
/// and no other.
pub proof fn lemma_empty_term_finds_the_language(table: Seq<EntryView>, language: Seq<char>)
    ensures
        found(table, Seq::empty(), language) == table.filter(
            |e: EntryView| e.language_tag == language,
        ),
{
    let by_term = |e: EntryView| matches(e, Seq::empty(), language);
    let by_language = |e: EntryView| e.language_tag == language;
    assert forall|e: EntryView| #[trigger] by_term(e) == by_language(e) by {
        lemma_empty_term_matches_language(e, language);
    }
    assert(by_term =~= by_language);
}

/// What a lookup of many finds is what a lookup of one goes by: the first
/// entry found is at the first matching place, and nothing is found exactly
/// where no entry matches.
pub proof fn lemma_found_starts_with_first_match(
    table: Seq<EntryView>,
    term: Seq<char>,
    language: Seq<char>,
)
    ensures
        found(table, term, language).len() == 0 <==> forall|k: int|
            0 <= k < table.len() ==> !matches(#[trigger] table[k], term, language),
        forall|at: int|
            is_first_match(table, term, language, at) ==> found(table, term, language).len() > 0
                && found(table, term, language)[0] == table[at],
    decreases table.len(),
{
    reveal(Seq::filter);
    let keep = |e: EntryView| matches(e, term, language);
    if table.len() > 0 {
        let front = table.drop_last();
        lemma_found_starts_with_first_match(front, term, language);
        assert forall|at: int| is_first_match(table, term, language, at) implies found(
            table,
            term,
            language,
        ).len() > 0 && found(table, term, language)[0] == table[at] by {
            if at < front.len() {
                assert(is_first_match(front, term, language, at));
            } else {
                assert(front.filter(keep).len() == 0);
            }
        }
        if found(table, term, language).len() == 0 {
            assert(front.filter(keep).len() == 0);
            assert(!keep(table.last()));
            assert forall|k: int| 0 <= k < table.len() implies !matches(
                #[trigger] table[k],
                term,
                language,
            ) by {
                if k < front.len() {
                    assert(front[k] == table[k]);
                }
            }
        }
    }
}

} // verus!
