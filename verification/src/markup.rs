//! Escaping of text that is embedded in HTML-style markup.

use vstd::prelude::*;

verus! {

/// What stands for one character in escaped text: an entity for `&`, `<` and
/// `>`, the character itself for any other.
pub open spec fn escaped_char(c: char) -> Seq<char> {
    if c == '&' {
        seq!['&', 'a', 'm', 'p', ';']
    } else if c == '<' {
        seq!['&', 'l', 't', ';']
    } else if c == '>' {
        seq!['&', 'g', 't', ';']
    } else {
        seq![c]
    }
}

/// `text` with each of its characters escaped, in order.
pub open spec fn escaped(text: Seq<char>) -> Seq<char>
    decreases text.len(),
{
    if text.len() == 0 {
        Seq::empty()
    } else {
        escaped(text.drop_last()) + escaped_char(text.last())
    }
}

/// Escapes `text` for use as character data in markup.
pub fn escape(text: &str) -> (out: String)
    ensures
        out@ == escaped(text@),
{
    let mut out = String::new();
    for c in it: text.chars()
        invariant
            it.seq() == text@,
            out@ == escaped(text@.take(it.index())),
    {
        proof {
            let i = it.index();
            assert(text@.take(i + 1).drop_last() == text@.take(i));
            assert(text@.take(i + 1).last() == c);
        }
        if c == '&' {
            out.push('&');
            out.push('a');
            out.push('m');
            out.push('p');
            out.push(';');
        } else if c == '<' {
            out.push('&');
            out.push('l');
            out.push('t');
            out.push(';');
        } else if c == '>' {
            out.push('&');
            out.push('g');
            out.push('t');
            out.push(';');
        } else {
            out.push(c);
        }
    }
    proof {
        assert(text@.take(text@.len() as int) == text@);
    }
    out
}

/// Whether the ampersand at position `i` of `s` is followed by the rest of
/// one of the three entities.
pub open spec fn opens_entity(s: Seq<char>, i: int) -> bool {
    ||| i + 4 < s.len() && s[i + 1] == 'a' && s[i + 2] == 'm' && s[i + 3] == 'p' && s[i + 4] == ';'
    ||| i + 3 < s.len() && s[i + 1] == 'l' && s[i + 2] == 't' && s[i + 3] == ';'
    ||| i + 3 < s.len() && s[i + 1] == 'g' && s[i + 2] == 't' && s[i + 3] == ';'
}

/// Whether `s` can stand in markup as character data: it holds no angle
/// bracket, and each ampersand in it begins an entity.
pub open spec fn is_character_data(s: Seq<char>) -> bool {
    forall|i: int|
        0 <= i < s.len() ==> {
            let c = #[trigger] s[i];
            &&& c != '<'
            &&& c != '>'
            &&& c == '&' ==> opens_entity(s, i)
        }
}

/// The empty text is escaped as itself, and a text of one character as what
/// stands for the character.
pub proof fn lemma_escaped_small(c: char)
    ensures
        escaped(Seq::empty()) == Seq::<char>::empty(),
        escaped(seq![c]) == escaped_char(c),
{
    let one = seq![c];
    assert(one.drop_last() == Seq::<char>::empty());
    assert(escaped(one) == escaped(one.drop_last()) + escaped_char(one.last()));
}

/// Escaping distributes over concatenation.
pub proof fn lemma_escaped_concat(a: Seq<char>, b: Seq<char>)
    ensures
        escaped(a + b) == escaped(a) + escaped(b),
    decreases b.len(),
{
    if b.len() == 0 {
        assert(a + b == a);
    } else {
        lemma_escaped_concat(a, b.drop_last());
        assert((a + b).drop_last() == a + b.drop_last());
    }
}

/// Escaped text is character data, whatever the text was.
pub proof fn lemma_escaped_is_character_data(text: Seq<char>)
    ensures
        is_character_data(escaped(text)),
    decreases text.len(),
{
    if text.len() > 0 {
        let head = escaped(text.drop_last());
        let tail = escaped_char(text.last());
        let whole = escaped(text);
        lemma_escaped_is_character_data(text.drop_last());
        assert forall|i: int| 0 <= i < whole.len() implies {
            let c = #[trigger] whole[i];
            &&& c != '<'
            &&& c != '>'
            &&& c == '&' ==> opens_entity(whole, i)
        } by {
            if i < head.len() {
                assert(whole[i] == head[i]);
                if head[i] == '&' {
                    assert(opens_entity(head, i));
                    assert(whole[i + 1] == head[i + 1]);
                    assert(whole[i + 2] == head[i + 2]);
                    assert(whole[i + 3] == head[i + 3]);
                    if i + 4 < head.len() {
                        assert(whole[i + 4] == head[i + 4]);
                    }
                }
            } else {
                let j = i - head.len();
                assert(whole[i] == tail[j]);
                if tail[j] == '&' {
                    assert(j == 0);
                    assert(whole[i + 1] == tail[1]);
                    assert(whole[i + 2] == tail[2]);
                    assert(whole[i + 3] == tail[3]);
                    if tail.len() == 5 {
                        assert(whole[i + 4] == tail[4]);
                    }
                }
            }
        }
    }
}

} // verus!
