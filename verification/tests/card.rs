use brainworms::card::compose_card;
use brainworms::entry::Entry;

fn entry(id: i64, name: &str, description: &str, attribution: &str) -> Entry {
    Entry {
        id,
        canonical_key: name.to_lowercase(),
        display_name: name.to_string(),
        description: description.to_string(),
        attribution: attribution.to_string(),
        language_tag: "en".to_string(),
    }
}

#[test]
fn card_has_three_lines() {
    let e = entry(1, "Hello", "a greeting", "someone");
    assert_eq!(
        compose_card(&e),
        "<b>Hello</b>\n<blockquote expandable>Hello \u{2014} a greeting</blockquote>\nSource: <a href=\"https://t.me/brainwormsbot?start=source\">someone</a>\n"
    );
}

#[test]
fn card_follows_the_template() {
    let e = entry(5, "Word", "what it means", "the author");
    let expected = format!(
        "<b>{name}</b>\n<blockquote expandable>{name} \u{2014} {desc}</blockquote>\nSource: <a href=\"https://t.me/brainwormsbot?start=source\">{by}</a>\n",
        name = "Word",
        desc = "what it means",
        by = "the author"
    );
    assert_eq!(compose_card(&e), expected);
}

#[test]
fn card_escapes_the_description() {
    let e = entry(2, "Pair", "a & b", "me");
    let card = compose_card(&e);
    assert!(card.contains("Pair \u{2014} a &amp; b</blockquote>"));
    assert!(!card.contains("a & b"));
}

#[test]
fn card_escapes_every_field() {
    let e = entry(3, "<i>", "x < y", "a&b <c>");
    assert_eq!(
        compose_card(&e),
        "<b>&lt;i&gt;</b>\n<blockquote expandable>&lt;i&gt; \u{2014} x &lt; y</blockquote>\nSource: <a href=\"https://t.me/brainwormsbot?start=source\">a&amp;b &lt;c&gt;</a>\n"
    );
}

#[test]
fn card_of_empty_fields() {
    let e = entry(4, "", "", "");
    assert_eq!(
        compose_card(&e),
        "<b></b>\n<blockquote expandable> \u{2014} </blockquote>\nSource: <a href=\"https://t.me/brainwormsbot?start=source\"></a>\n"
    );
}

#[test]
fn composing_twice_gives_the_same_bytes() {
    let e = entry(6, "Twice", "said <twice> & again", "x");
    let first = compose_card(&e);
    let second = compose_card(&e);
    assert_eq!(first.as_bytes(), second.as_bytes());
    let copy = e.clone();
    assert_eq!(compose_card(&copy).as_bytes(), first.as_bytes());
}

#[test]
fn card_does_not_show_key_or_language() {
    let mut e = entry(7, "Shown", "text", "by");
    e.canonical_key = "hidden-key".to_string();
    e.language_tag = "zz".to_string();
    let card = compose_card(&e);
    assert!(!card.contains("hidden-key"));
    assert!(!card.contains("zz"));
}
