use brainworms::markup::escape;

#[test]
fn ampersand_is_escaped() {
    assert_eq!(escape("a & b"), "a &amp; b");
}

#[test]
fn angle_brackets_are_escaped() {
    assert_eq!(escape("<b>bold</b>"), "&lt;b&gt;bold&lt;/b&gt;");
}

#[test]
fn plain_text_is_kept() {
    assert_eq!(escape("plain text, \"quoted\" 'too'"), "plain text, \"quoted\" 'too'");
    assert_eq!(escape(""), "");
    assert_eq!(escape("caf\u{00E9} \u{2014} \u{1F41B}"), "caf\u{00E9} \u{2014} \u{1F41B}");
}

#[test]
fn an_entity_is_escaped_again() {
    assert_eq!(escape("&amp;"), "&amp;amp;");
    assert_eq!(escape("&&"), "&amp;&amp;");
}

#[test]
fn escaped_text_has_no_markup_left() {
    let out = escape("x<y && y>z <a href=\"u\">");
    assert!(!out.contains('<'));
    assert!(!out.contains('>'));
    for (at, _) in out.match_indices('&') {
        let rest = &out[at..];
        assert!(rest.starts_with("&amp;") || rest.starts_with("&lt;") || rest.starts_with("&gt;"));
    }
}

#[test]
fn escape_agrees_with_the_transport_library() {
    let samples = ["", "a & b", "<>", "&lt;", "no markup", "a<b>c&d", "\u{2014}<\u{1F41B}>"];
    for s in samples {
        assert_eq!(escape(s), teloxide::utils::html::escape(s));
    }
}
