//! The inline result list: the candidates that answer a search for many
//! entries.

use crate::card::{card, compose_card};
use crate::decimal::{decimal, lemma_decimal_injective, to_decimal};
use crate::entry::{distinct_ids, views as entry_views, Entry, EntryView};
use vstd::prelude::*;

verus! {

/// The most candidates that one list holds.
pub const LIST_CAP: usize = 20;

/// The identifier of the placeholder candidate.
pub const PLACEHOLDER_ID: &'static str = "noting_found";

/// The title of the placeholder candidate.
pub const PLACEHOLDER_TITLE: &'static str = "No such word found";

/// The body of the placeholder candidate, and its description line.
pub const PLACEHOLDER_BODY: &'static str = "Found nothing :(";

/// One selectable result of an inline search.
#[derive(Debug, PartialEq, Eq)]
pub struct Candidate {
    /// Identifies the candidate within its list.
    pub id: String,
    /// The visible title.
    pub title: String,
    /// The message that choosing the candidate sends, as markup.
    pub body: String,
    /// The short line under the title, as plain text.
    pub description: String,
}

/// A candidate as a mathematical value.
pub struct CandidateView {
    pub id: Seq<char>,
    pub title: Seq<char>,
    pub body: Seq<char>,
    pub description: Seq<char>,
}

impl View for Candidate {
    type V = CandidateView;

    open spec fn view(&self) -> CandidateView {
        CandidateView {
            id: self.id@,
            title: self.title@,
            body: self.body@,
            description: self.description@,
        }
    }
}

impl Clone for Candidate {
    fn clone(&self) -> (r: Self)
        ensures
            r@ == self@,
    {
        Candidate {
            id: self.id.clone(),
            title: self.title.clone(),
            body: self.body.clone(),
            description: self.description.clone(),
        }
    }
}

/// The candidates of `s` as mathematical values, in the same order.
pub open spec fn views(s: Seq<Candidate>) -> Seq<CandidateView> {
    s.map_values(|c: Candidate| c@)
}

/// The candidate that stands for an empty result.
pub open spec fn placeholder_view() -> CandidateView {
    CandidateView {
        id: PLACEHOLDER_ID@,
        title: PLACEHOLDER_TITLE@,
        body: PLACEHOLDER_BODY@,
        description: PLACEHOLDER_BODY@,
    }
}

/// The candidate that presents `entry`: identified by the entry's identifier
/// in decimal, titled with its display name, with its card as the body and
/// its description, as it is, as the short line.
pub open spec fn candidate_of(entry: EntryView) -> CandidateView {
    CandidateView {
        id: decimal(entry.id),
        title: entry.display_name,
        body: card(entry),
        description: entry.description,
    }
}

/// The list that answers a search which found `entries`: one candidate for
/// each of the first [`LIST_CAP`] entries, in their order; where there is no
/// entry, the one candidate `fallback`.
pub open spec fn listing(entries: Seq<EntryView>, fallback: CandidateView) -> Seq<CandidateView> {
    if entries.len() == 0 {
        seq![fallback]
    } else if entries.len() <= LIST_CAP {
        entries.map_values(|e: EntryView| candidate_of(e))
    } else {
        entries.take(LIST_CAP as int).map_values(|e: EntryView| candidate_of(e))
    }
}

/// Makes the candidate that stands for an empty result.
pub fn placeholder() -> (r: Candidate)
    ensures
        r@ == placeholder_view(),
{
    Candidate {
        id: PLACEHOLDER_ID.to_owned(),
        title: PLACEHOLDER_TITLE.to_owned(),
        body: PLACEHOLDER_BODY.to_owned(),
        description: PLACEHOLDER_BODY.to_owned(),
    }
}

/// Makes the candidate that presents `entry`.
pub fn compose_candidate(entry: &Entry) -> (r: Candidate)
    ensures
        r@ == candidate_of(entry@),
{
    Candidate {
        id: to_decimal(entry.id),
        title: entry.display_name.clone(),
        body: compose_card(entry),
        description: entry.description.clone(),
    }
}

/// Makes the list that answers a search which found `entries`, with
/// `fallback` standing in where nothing was found.
pub fn compose_list(entries: &Vec<Entry>, fallback: &Candidate) -> (r: Vec<Candidate>)
    ensures
        views(r@) == listing(entry_views(entries@), fallback@),
{
    let mut list: Vec<Candidate> = Vec::new();
    if entries.len() == 0 {
        list.push(fallback.clone());
        return list;
    }
    let n: usize = if entries.len() <= LIST_CAP {
        entries.len()
    } else {
        LIST_CAP
    };
    let mut i: usize = 0;
    while i < n
        invariant
            i <= n <= entries.len(),
            list.len() == i,
            forall|k: int| 0 <= k < i ==> (#[trigger] list[k])@ == candidate_of(entries[k]@),
        decreases n - i,
    {
        list.push(compose_candidate(&entries[i]));
        i += 1;
    }
    list
}

/// Composing is repeatable: two lists made of the same entries and the same
/// fallback hold the same candidates in the same order.
pub proof fn lemma_list_is_repeatable(
    entries: Seq<Entry>,
    fallback: Candidate,
    first: Seq<Candidate>,
    second: Seq<Candidate>,
)
    requires
        views(first) == listing(entry_views(entries), fallback@),
        views(second) == listing(entry_views(entries), fallback@),
    ensures
        views(first) == views(second),
        first.len() == second.len(),
        forall|i: int| 0 <= i < first.len() ==> (#[trigger] first[i])@ == second[i]@,
{
    assert(views(first).len() == first.len());
    assert(views(second).len() == second.len());
    assert forall|i: int| 0 <= i < first.len() implies (#[trigger] first[i])@ == second[i]@ by {
        assert(views(first)[i] == first[i]@);
        assert(views(second)[i] == second[i]@);
    }
}

/// A search that found nothing is answered by the fallback candidate and
/// nothing else.
pub proof fn lemma_empty_result_gives_fallback(fallback: CandidateView)
    ensures
        listing(Seq::empty(), fallback) == seq![fallback],
{
}

/// A list is never empty and never longer than [`LIST_CAP`]. Where entries
/// were found, it holds the first of them, as many as fit, in their order,
/// and the fallback candidate is not added.
pub proof fn lemma_listing_is_capped(entries: Seq<EntryView>, fallback: CandidateView)
    ensures
        1 <= listing(entries, fallback).len() <= LIST_CAP,
        entries.len() > 0 ==> listing(entries, fallback).len() == if entries.len() <= LIST_CAP {
            entries.len()
        } else {
            LIST_CAP as nat
        },
        entries.len() > 0 ==> forall|i: int|
            0 <= i < listing(entries, fallback).len() ==> #[trigger] listing(entries, fallback)[i]
                == candidate_of(entries[i]),
{
}

/// Where the entries found have identifiers of their own, so have the
/// candidates of the list, whatever the titles are.
pub proof fn lemma_listing_ids_are_distinct(entries: Seq<EntryView>, fallback: CandidateView)
    requires
        distinct_ids(entries),
    ensures
        forall|i: int, j: int|
            0 <= i < j < listing(entries, fallback).len() ==> #[trigger] listing(
                entries,
                fallback,
            )[i].id != #[trigger] listing(entries, fallback)[j].id,
{
    let list = listing(entries, fallback);
    lemma_listing_is_capped(entries, fallback);
    assert forall|i: int, j: int| 0 <= i < j < list.len() implies #[trigger] list[i].id
        != #[trigger] list[j].id by {
        if list[i].id == list[j].id {
            lemma_decimal_injective(entries[i].id, entries[j].id);
        }
    }
}

} // verus!
