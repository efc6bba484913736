//! Escaping of free text for embedding in SVG or XML, as element text or as
//! attribute content.

use vstd::prelude::*;
use crate::text::{chars_of, string_of, occurs_at};

verus! {

/// The five characters that carry meaning in markup.
pub open spec fn is_markup_char(c: char) -> bool {
    c == '<' || c == '>' || c == '"' || c == '\'' || c == '&'
}

/// `&lt;`
pub open spec fn entity_lt() -> Seq<char> {
    seq!['&', 'l', 't', ';']
}

/// `&gt;`
pub open spec fn entity_gt() -> Seq<char> {
    seq!['&', 'g', 't', ';']
}

/// `&#34;`
pub open spec fn entity_quot() -> Seq<char> {
    seq!['&', '#', '3', '4', ';']
}

/// `&#39;`
pub open spec fn entity_apos() -> Seq<char> {
    seq!['&', '#', '3', '9', ';']
}

/// `&#38;`
pub open spec fn entity_amp() -> Seq<char> {
    seq!['&', '#', '3', '8', ';']
}

/// What stands for the character `c` in escaped text: its entity if it is
/// one of the five markup characters, else the character itself.
pub open spec fn escaped_char(c: char) -> Seq<char> {
    if c == '<' {
        entity_lt()
    } else if c == '>' {
        entity_gt()
    } else if c == '"' {
        entity_quot()
    } else if c == '\'' {
        entity_apos()
    } else if c == '&' {
        entity_amp()
    } else {
        seq![c]
    }
}

/// The escaped form of `s`: each character replaced by what stands for it.
pub open spec fn escaped(s: Seq<char>) -> Seq<char>
    decreases s.len(),
{
    if s.len() == 0 {
        Seq::empty()
    } else {
        escaped(s.drop_last()) + escaped_char(s.last())
    }
}

/// Whether one of the five entities starts at position `i` of `t`.
pub open spec fn entity_at(t: Seq<char>, i: int) -> bool {
    ||| occurs_at(t, i, entity_lt())
    ||| occurs_at(t, i, entity_gt())
    ||| occurs_at(t, i, entity_quot())
    ||| occurs_at(t, i, entity_apos())
    ||| occurs_at(t, i, entity_amp())
}

/// Text is markup-safe when it holds none of `<`, `>`, `"`, `'`, and every
/// `&` in it starts one of the five entities.
pub open spec fn markup_safe(t: Seq<char>) -> bool {
    forall|i: int|
        0 <= i < t.len() ==> {
            &&& #[trigger] t[i] != '<'
            &&& t[i] != '>'
            &&& t[i] != '"'
            &&& t[i] != '\''
            &&& (t[i] == '&' ==> entity_at(t, i))
        }
}

/// Text is plain when it holds none of the five markup characters.
pub open spec fn plain(s: Seq<char>) -> bool {
    forall|i: int| 0 <= i < s.len() ==> !is_markup_char(#[trigger] s[i])
}

/// Escapes `s` for embedding in markup: `<`, `>`, `"`, `'` and `&` become
/// `&lt;`, `&gt;`, `&#34;`, `&#39;` and `&#38;`; every other character,
/// ASCII or not, is kept.
pub fn esc_xml(s: &str) -> (out: String)
    ensures
        out@ == escaped(s@),
{
    let v = chars_of(s);
    let r = esc_chars(&v);
    string_of(&r)
}

/// Escapes the characters of `v` for embedding in markup.
pub fn esc_chars(v: &Vec<char>) -> (out: Vec<char>)
    ensures
        out@ == escaped(v@),
{
    let mut out: Vec<char> = Vec::new();
    let mut i: usize = 0;
    while i < v.len()
        invariant
            i <= v.len(),
            out@ == escaped(v@.take(i as int)),
        decreases v.len() - i,
    {
        let c = v[i];
        proof {
            let next = v@.take(i + 1);
            assert(next.drop_last() == v@.take(i as int));
            assert(next.last() == c);
        }
        if c == '<' {
            out.push('&');
            out.push('l');
            out.push('t');
            out.push(';');
        } else if c == '>' {
            out.push('&');
            out.push('g');
            out.push('t');
            out.push(';');
        } else if c == '"' {
            out.push('&');
            out.push('#');
            out.push('3');
            out.push('4');
            out.push(';');
        } else if c == '\'' {
            out.push('&');
            out.push('#');
            out.push('3');
            out.push('9');
            out.push(';');
        } else if c == '&' {
            out.push('&');
            out.push('#');
            out.push('3');
            out.push('8');
            out.push(';');
        } else {
            out.push(c);
        }
        assert(out@ == escaped(v@.take(i as int)) + escaped_char(c));
        i += 1;
    }
    assert(v@.take(v.len() as int) == v@);
    out
}

/// Escaping distributes over concatenation.
pub proof fn lemma_escaped_concat(a: Seq<char>, b: Seq<char>)
    ensures
        escaped(a + b) == escaped(a) + escaped(b),
    decreases b.len(),
{
    if b.len() == 0 {
        assert(a + b == a);
    } else {
        lemma_escaped_concat(a, b.drop_last());
        assert((a + b).drop_last() == a + b.drop_last());
        assert((a + b).last() == b.last());
    }
}

/// Markup-safe text followed by markup-safe text is markup-safe.
pub proof fn lemma_markup_safe_concat(a: Seq<char>, b: Seq<char>)
    requires
        markup_safe(a),
        markup_safe(b),
    ensures
        markup_safe(a + b),
{
    let t = a + b;
    assert forall|i: int| 0 <= i < t.len() implies {
        &&& #[trigger] t[i] != '<'
        &&& t[i] != '>'
        &&& t[i] != '"'
        &&& t[i] != '\''
        &&& (t[i] == '&' ==> entity_at(t, i))
    } by {
        if i < a.len() {
            assert(t[i] == a[i]);
            if a[i] == '&' {
                assert(entity_at(a, i));
                assert forall|e: Seq<char>| occurs_at(a, i, e) implies occurs_at(t, i, e) by {
                    assert(t.subrange(i, i + e.len()) == a.subrange(i, i + e.len()));
                }
            }
        } else {
            let k = i - a.len();
            assert(t[i] == b[k]);
            if b[k] == '&' {
                assert(entity_at(b, k));
                assert forall|e: Seq<char>| occurs_at(b, k, e) implies occurs_at(t, i, e) by {
                    assert(t.subrange(i, i + e.len()) == b.subrange(k, k + e.len()));
                }
            }
        }
    }
}

/// What stands for one character is markup-safe.
pub proof fn lemma_escaped_char_safe(c: char)
    ensures
        markup_safe(escaped_char(c)),
{
    let t = escaped_char(c);
    assert(t.subrange(0, t.len() as int) == t);
}

/// Escaped text never holds an unescaped `<`, `>`, `"`, `'` or `&`,
/// whatever the input was.
pub proof fn lemma_escaped_is_markup_safe(s: Seq<char>)
    ensures
        markup_safe(escaped(s)),
    decreases s.len(),
{
    if s.len() > 0 {
        lemma_escaped_is_markup_safe(s.drop_last());
        lemma_escaped_char_safe(s.last());
        lemma_markup_safe_concat(escaped(s.drop_last()), escaped_char(s.last()));
    }
}

/// Escaping leaves plain text as it is, so escaping it twice gives the same
/// text both times.
pub proof fn lemma_escaped_plain(s: Seq<char>)
    requires
        plain(s),
    ensures
        escaped(s) == s,
        escaped(escaped(s)) == escaped(s),
    decreases s.len(),
{
    if s.len() > 0 {
        let front = s.drop_last();
        assert forall|i: int| 0 <= i < front.len() implies !is_markup_char(#[trigger] front[i]) by {
            assert(front[i] == s[i]);
        }
        lemma_escaped_plain(front);
        assert(!is_markup_char(s.last()));
        assert(front + seq![s.last()] == s);
    }
}

/// Escaping is the identity only on plain text: text with a markup
/// character in it grows.
pub proof fn lemma_escaped_length(s: Seq<char>)
    ensures
        escaped(s).len() >= s.len(),
        escaped(s).len() == s.len() <==> plain(s),
    decreases s.len(),
{
    if s.len() > 0 {
        let front = s.drop_last();
        lemma_escaped_length(front);
        if plain(s) {
            lemma_escaped_plain(s);
        } else {
            if plain(front) {
                assert(is_markup_char(s.last())) by {
                    if !is_markup_char(s.last()) {
                        assert forall|i: int| 0 <= i < s.len() implies !is_markup_char(
                            #[trigger] s[i],
                        ) by {
                            if i < front.len() {
                                assert(front[i] == s[i]);
                            }
                        }
                    }
                }
            }
        }
        if plain(s) {
            assert forall|i: int| 0 <= i < front.len() implies !is_markup_char(
                #[trigger] front[i],
            ) by {
                assert(front[i] == s[i]);
            }
        }
    }
}

} // verus!
