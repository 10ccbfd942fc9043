//! Dictionary entries.

use vstd::prelude::*;

verus! {

/// One record of the dictionary.
#[derive(Debug, PartialEq, Eq)]
pub struct Entry {
    /// Identifies the entry; no two entries share one.
    pub id: i64,
    /// The normalized term that lookups search in.
    pub canonical_key: String,
    /// The title shown to users.
    pub display_name: String,
    /// The explanation, as free text.
    pub description: String,
    /// The credit line, as free text.
    pub attribution: String,
    /// The language that the entry belongs to.
    pub language_tag: String,
}

/// An entry as a mathematical value.
pub struct EntryView {
    pub id: int,
    pub canonical_key: Seq<char>,
    pub display_name: Seq<char>,
    pub description: Seq<char>,
    pub attribution: Seq<char>,
    pub language_tag: Seq<char>,
}

impl View for Entry {
    type V = EntryView;

    open spec fn view(&self) -> EntryView {
        EntryView {
            id: self.id as int,
            canonical_key: self.canonical_key@,
            display_name: self.display_name@,
            description: self.description@,
            attribution: self.attribution@,
            language_tag: self.language_tag@,
        }
    }
}

impl Clone for Entry {
    fn clone(&self) -> (r: Self)
        ensures
            r@ == self@,
    {
        Entry {
            id: self.id,
            canonical_key: self.canonical_key.clone(),
            display_name: self.display_name.clone(),
            description: self.description.clone(),
            attribution: self.attribution.clone(),
            language_tag: self.language_tag.clone(),
        }
    }
}

/// The entries of `s` as mathematical values, in the same order.
pub open spec fn views(s: Seq<Entry>) -> Seq<EntryView> {
    s.map_values(|e: Entry| e@)
}

/// Whether no two entries of `s` share an identifier.
pub open spec fn distinct_ids(s: Seq<EntryView>) -> bool {
    forall|i: int, j: int| 0 <= i < j < s.len() ==> s[i].id != s[j].id
}

} // verus!
