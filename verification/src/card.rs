//! The text card: the markup that presents one entry.

use crate::entry::{Entry, EntryView};
use crate::markup::{escape, escaped, lemma_escaped_is_character_data};
use vstd::prelude::*;
use vstd::seq_lib::{lemma_multiset_commutative, to_multiset_contains};
use vstd::utf8::encode_utf8;

verus! {

/// Opens the card, before the title.
pub const CARD_OPEN: &'static str = "<b>";

/// Stands between the title and the quoted block.
pub const CARD_QUOTE: &'static str = "</b>\n<blockquote expandable>";

/// Stands between the title and the description inside the quoted block.
pub const CARD_DASH: &'static str = " \u{2014} ";

/// Closes the quoted block and opens the attribution link.
pub const CARD_SOURCE: &'static str =
    "</blockquote>\nSource: <a href=\"https://t.me/brainwormsbot?start=source\">";

/// Closes the attribution link and the card.
pub const CARD_CLOSE: &'static str = "</a>\n";

/// The card of an entry: its title in bold; a collapsible quoted block with
/// title, dash and description; a line that credits the attribution as a link.
/// Each field is escaped before it is put in.
pub open spec fn card(entry: EntryView) -> Seq<char> {
    CARD_OPEN@ + escaped(entry.display_name) + CARD_QUOTE@ + escaped(entry.display_name)
        + CARD_DASH@ + escaped(entry.description) + CARD_SOURCE@ + escaped(entry.attribution)
        + CARD_CLOSE@
}

/// Renders the card of `entry`.
pub fn compose_card(entry: &Entry) -> (out: String)
    ensures
        out@ == card(entry@),
{
    let name = escape(entry.display_name.as_str());
    let description = escape(entry.description.as_str());
    let attribution = escape(entry.attribution.as_str());
    let mut out = String::new();
    out.append(CARD_OPEN);
    out.append(name.as_str());
    out.append(CARD_QUOTE);
    out.append(name.as_str());
    out.append(CARD_DASH);
    out.append(description.as_str());
    out.append(CARD_SOURCE);
    out.append(attribution.as_str());
    out.append(CARD_CLOSE);
    out
}

/// The fixed text of a card: what stands around the fields.
pub open spec fn frame() -> Seq<char> {
    CARD_OPEN@ + CARD_QUOTE@ + CARD_DASH@ + CARD_SOURCE@ + CARD_CLOSE@
}

/// The fields of an entry add no markup to its card: whatever they hold, the
/// card has as many opening and as many closing angle brackets as its fixed
/// text has.
pub proof fn lemma_card_keeps_its_markup(entry: EntryView)
    ensures
        card(entry).to_multiset().count('<') == frame().to_multiset().count('<'),
        card(entry).to_multiset().count('>') == frame().to_multiset().count('>'),
{
    broadcast use {lemma_multiset_commutative, to_multiset_contains};

    let name = escaped(entry.display_name);
    let description = escaped(entry.description);
    let attribution = escaped(entry.attribution);
    lemma_escaped_is_character_data(entry.display_name);
    lemma_escaped_is_character_data(entry.description);
    lemma_escaped_is_character_data(entry.attribution);
    assert(!name.contains('<') && !name.contains('>'));
    assert(!description.contains('<') && !description.contains('>'));
    assert(!attribution.contains('<') && !attribution.contains('>'));
}

/// Composing is repeatable: two cards made of one entry are the same text,
/// and so the same bytes.
pub proof fn lemma_card_is_repeatable(entry: Entry, first: String, second: String)
    requires
        first@ == card(entry@),
        second@ == card(entry@),
    ensures
        first@ == second@,
        encode_utf8(first@) == encode_utf8(second@),
{
}

} // verus!
