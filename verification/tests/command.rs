use brainworms::command::{
    classify, classify_inline, classify_normalized, dispatch, intent, split_command, Classified,
    Intent, Row,
};

fn classified(row: Row, intent: Intent) -> Classified {
    Classified { row, intent }
}

#[test]
fn search_in_capitals() {
    assert_eq!(
        classify("/SEARCH Hello"),
        classified(Row::Search, Intent::SearchOne("hello".to_string()))
    );
}

#[test]
fn lowercase_text_is_what_is_classified() {
    assert_eq!(classify("/SEARCH Hello"), classify_normalized("/search hello"));
    assert_eq!(classify("SOURCE"), classify_normalized("source"));
    assert_eq!(classify("Info"), classify_normalized("info"));
}

#[test]
fn normalized_text_is_not_lowered_again() {
    assert_eq!(
        classify_normalized("/SEARCH Hello"),
        classified(Row::Other, Intent::Unrecognized)
    );
    assert_eq!(
        classify_normalized("s Hello"),
        classified(Row::Search, Intent::SearchOne("Hello".to_string()))
    );
}

#[test]
fn search_without_a_term() {
    assert_eq!(classify("s"), classified(Row::SearchWithoutTerm, Intent::Unrecognized));
    assert_eq!(classify("/search"), classified(Row::SearchWithoutTerm, Intent::Unrecognized));
    assert_eq!(classify("search   "), classified(Row::SearchWithoutTerm, Intent::Unrecognized));
}

#[test]
fn start_with_source() {
    assert_eq!(classify("/start source"), classified(Row::StartSource, Intent::ShowSource));
}

#[test]
fn start_alone() {
    assert_eq!(classify("/start"), classified(Row::StartAlone, Intent::Unrecognized));
    assert_eq!(classify("/start  "), classified(Row::StartAlone, Intent::Unrecognized));
}

#[test]
fn start_with_something_else() {
    assert_eq!(classify("/start hello"), classified(Row::StartOther, Intent::Unrecognized));
    assert_eq!(classify("/start source now"), classified(Row::StartOther, Intent::Unrecognized));
}

#[test]
fn every_alias_is_accepted() {
    assert_eq!(classify("/source"), classified(Row::Source, Intent::ShowSource));
    assert_eq!(classify("source"), classified(Row::Source, Intent::ShowSource));
    assert_eq!(classify("source anything"), classified(Row::Source, Intent::ShowSource));
    assert_eq!(classify("/info"), classified(Row::Info, Intent::ShowInfo));
    assert_eq!(classify("info and more"), classified(Row::Info, Intent::ShowInfo));
    for word in ["/search", "search", "s"] {
        assert_eq!(
            classify(&format!("{} term", word)),
            classified(Row::Search, Intent::SearchOne("term".to_string()))
        );
    }
}

#[test]
fn anything_else_is_unrecognized() {
    for text in ["", "   ", "hello", "start", "/s word", "/help", "searching x", "/start/", "//info"] {
        assert_eq!(classify(text), classified(Row::Other, Intent::Unrecognized), "{:?}", text);
    }
}

#[test]
fn empty_text_has_no_command() {
    assert_eq!(split_command(""), ("", ""));
    assert_eq!(split_command(" \t\n"), ("", ""));
}

#[test]
fn split_takes_the_first_word() {
    assert_eq!(split_command("/search hello"), ("/search", "hello"));
    assert_eq!(split_command("one"), ("one", ""));
    assert_eq!(split_command("one "), ("one", ""));
}

#[test]
fn split_trims_the_start_of_the_argument_only() {
    assert_eq!(split_command("  s \t  hello  world  "), ("s", "hello  world  "));
    assert_eq!(split_command("\u{3000}s\u{00A0}\u{2003}word"), ("s", "word"));
}

#[test]
fn split_keeps_other_characters() {
    assert_eq!(split_command("s caf\u{00E9} \u{1F41B}"), ("s", "caf\u{00E9} \u{1F41B}"));
    assert_eq!(split_command("a\u{200B}b c"), ("a\u{200B}b", "c"));
}

#[test]
fn argument_of_several_words() {
    assert_eq!(
        classify("S  Hello   World "),
        classified(Row::Search, Intent::SearchOne("hello   world ".to_string()))
    );
}

#[test]
fn dispatch_goes_by_the_table() {
    assert_eq!(dispatch("/start", "source"), Row::StartSource);
    assert_eq!(dispatch("/start", ""), Row::StartAlone);
    assert_eq!(dispatch("/start", "sources"), Row::StartOther);
    assert_eq!(dispatch("/source", ""), Row::Source);
    assert_eq!(dispatch("source", "x"), Row::Source);
    assert_eq!(dispatch("/search", "x"), Row::Search);
    assert_eq!(dispatch("search", ""), Row::SearchWithoutTerm);
    assert_eq!(dispatch("s", "x"), Row::Search);
    assert_eq!(dispatch("/info", "x"), Row::Info);
    assert_eq!(dispatch("info", ""), Row::Info);
    assert_eq!(dispatch("", ""), Row::Other);
    assert_eq!(dispatch("/START", "source"), Row::Other);
}

#[test]
fn intent_of_each_row() {
    assert_eq!(intent(Row::StartSource, "source"), Intent::ShowSource);
    assert_eq!(intent(Row::StartAlone, ""), Intent::Unrecognized);
    assert_eq!(intent(Row::StartOther, "x"), Intent::Unrecognized);
    assert_eq!(intent(Row::Source, "x"), Intent::ShowSource);
    assert_eq!(intent(Row::Search, "x y"), Intent::SearchOne("x y".to_string()));
    assert_eq!(intent(Row::SearchWithoutTerm, ""), Intent::Unrecognized);
    assert_eq!(intent(Row::Info, ""), Intent::ShowInfo);
    assert_eq!(intent(Row::Other, "x"), Intent::Unrecognized);
}

#[test]
fn inline_query_is_always_a_search_for_many() {
    assert_eq!(classify_inline("Hello"), Intent::SearchMany("Hello".to_string()));
    assert_eq!(classify_inline(""), Intent::SearchMany("".to_string()));
    assert_eq!(classify_inline("/start source"), Intent::SearchMany("/start source".to_string()));
}

#[test]
fn classification_is_repeatable() {
    for text in ["", "s", "/SEARCH Hello", "/start source", "what"] {
        assert_eq!(classify(text), classify(text));
    }
}
