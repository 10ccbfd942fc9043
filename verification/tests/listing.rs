use brainworms::card::compose_card;
use brainworms::entry::Entry;
use brainworms::listing::{compose_candidate, compose_list, placeholder, Candidate, LIST_CAP};

fn entry(id: i64, name: &str, description: &str) -> Entry {
    Entry {
        id,
        canonical_key: name.to_lowercase(),
        display_name: name.to_string(),
        description: description.to_string(),
        attribution: "someone".to_string(),
        language_tag: "en".to_string(),
    }
}

fn entries(n: i64) -> Vec<Entry> {
    let mut v = Vec::new();
    let mut i: i64 = 0;
    while i < n {
        v.push(entry(100 + i, &format!("name{}", i), &format!("description {}", i)));
        i += 1;
    }
    v
}

#[test]
fn cap_is_twenty() {
    assert_eq!(LIST_CAP, 20);
}

#[test]
fn placeholder_has_the_fixed_texts() {
    let p = placeholder();
    assert_eq!(p.id, "noting_found");
    assert_eq!(p.title, "No such word found");
    assert_eq!(p.body, "Found nothing :(");
    assert_eq!(p.description, "Found nothing :(");
}

#[test]
fn candidate_presents_the_entry() {
    let e = entry(-12, "Hello", "a <greeting> & more");
    let c = compose_candidate(&e);
    assert_eq!(c.id, "-12");
    assert_eq!(c.title, "Hello");
    assert_eq!(c.body, compose_card(&e));
    assert_eq!(c.description, "a <greeting> & more");
}

#[test]
fn empty_result_gives_the_placeholder_alone() {
    let list = compose_list(&Vec::new(), &placeholder());
    assert_eq!(list, vec![placeholder()]);
    assert_eq!(list.len(), 1);
    assert_eq!(list[0].title, "No such word found");
    assert_eq!(list[0].body, "Found nothing :(");
}

#[test]
fn empty_result_gives_the_fallback_it_was_handed() {
    let other = Candidate {
        id: "none".to_string(),
        title: "Nothing".to_string(),
        body: "Nothing here".to_string(),
        description: "".to_string(),
    };
    assert_eq!(compose_list(&Vec::new(), &other), vec![other.clone()]);
}

#[test]
fn thirty_seven_entries_give_the_first_twenty() {
    let found = entries(37);
    let list = compose_list(&found, &placeholder());
    assert_eq!(list.len(), 20);
    for (i, c) in list.iter().enumerate() {
        assert_eq!(*c, compose_candidate(&found[i]));
    }
    assert!(!list.contains(&placeholder()));
}

#[test]
fn lists_at_the_cap() {
    assert_eq!(compose_list(&entries(1), &placeholder()).len(), 1);
    assert_eq!(compose_list(&entries(19), &placeholder()).len(), 19);
    assert_eq!(compose_list(&entries(20), &placeholder()).len(), 20);
    assert_eq!(compose_list(&entries(21), &placeholder()).len(), 20);
}

#[test]
fn list_keeps_the_order_of_the_store() {
    let found = vec![entry(3, "c", "third"), entry(1, "a", "first"), entry(2, "b", "second")];
    let list = compose_list(&found, &placeholder());
    let ids: Vec<&str> = list.iter().map(|c| c.id.as_str()).collect();
    assert_eq!(ids, vec!["3", "1", "2"]);
}

#[test]
fn ids_are_unique_where_names_collide() {
    let found = vec![
        entry(1, "same", "one"),
        entry(-1, "same", "two"),
        entry(10, "same", "three"),
        entry(11, "same", "four"),
    ];
    let list = compose_list(&found, &placeholder());
    assert_eq!(list.len(), 4);
    for i in 0..list.len() {
        for j in 0..list.len() {
            if i != j {
                assert_ne!(list[i].id, list[j].id);
            }
            assert_eq!(list[i].title, list[j].title);
        }
    }
}

#[test]
fn composing_a_list_twice_gives_the_same_list() {
    let found = entries(5);
    assert_eq!(compose_list(&found, &placeholder()), compose_list(&found, &placeholder()));
}
