//! Escaping of text for the inline markup of the delivery transport.

use vstd::prelude::*;

verus! {

/// What one character of text becomes once escaped.
pub open spec fn escape_char(c: char) -> Seq<char> {
    if c == '&' {
        "&amp;"@
    } else if c == '"' {
        "&quot;"@
    } else if c == '<' {
        "&lt;"@
    } else if c == '>' {
        "&gt;"@
    } else {
        seq![c]
    }
}

/// The escaped form of `s`: each character replaced on its own, in one pass.
pub open spec fn escaped(s: Seq<char>) -> Seq<char>
    decreases s.len(),
{
    if s.len() == 0 {
        Seq::empty()
    } else {
        escaped(s.drop_last()) + escape_char(s.last())
    }
}

/// Whether `c` is one of the characters that escaping replaces.
pub open spec fn is_special(c: char) -> bool {
    c == '&' || c == '"' || c == '<' || c == '>'
}

/// Replaces `&`, `"`, `<` and `>` by their entities. The ampersand is
/// handled as one character among the others, so the entities written for
/// the other three are never escaped again.
pub fn escape(text: String) -> (r: String)
    ensures
        r@ == escaped(text@),
{
    let v = crate::text::chars_of(text.as_str());
    let mut r = String::new();
    let mut k: usize = 0;
    while k < v.len()
        invariant
            k <= v.len(),
            v@ == text@,
            r@ == escaped(v@.take(k as int)),
        decreases v.len() - k,
    {
        let c = v[k];
        assert(v@.take(k + 1).drop_last() =~= v@.take(k as int));
        if c == '&' {
            r.append("&amp;");
        } else if c == '"' {
            r.append("&quot;");
        } else if c == '<' {
            r.append("&lt;");
        } else if c == '>' {
            r.append("&gt;");
        } else {
            r.push(c);
            assert(r@ =~= escaped(v@.take(k as int)) + seq![c]);
        }
        k = k + 1;
    }
    assert(v@.take(v.len() as int) =~= v@);
    r
}

/// Escaping distributes over concatenation: it works character by character.
pub proof fn lemma_escape_concat(a: Seq<char>, b: Seq<char>)
    ensures
        escaped(a + b) == escaped(a) + escaped(b),
    decreases b.len(),
{
    if b.len() == 0 {
        assert(a + b =~= a);
        assert(escaped(a) + escaped(b) =~= escaped(a));
    } else {
        assert((a + b).drop_last() =~= a + b.drop_last());
        lemma_escape_concat(a, b.drop_last());
        assert(escaped(a) + escaped(b.drop_last()) + escape_char(b.last()) =~= escaped(a) + (
        escaped(b.drop_last()) + escape_char(b.last())));
    }
}

/// Text without any of the four special characters is left as it is by
/// escaping, so escaping it once more changes nothing either.
pub proof fn lemma_escape_plain_text(s: Seq<char>)
    requires
        forall|i: int| 0 <= i < s.len() ==> !is_special(#[trigger] s[i]),
    ensures
        escaped(s) == s,
        escaped(escaped(s)) == escaped(s),
    decreases s.len(),
{
    if s.len() > 0 {
        assert(!is_special(s[s.len() - 1]));
        lemma_escape_plain_text(s.drop_last());
        assert(s.drop_last().push(s.last()) =~= s);
        assert(seq![s.last()] + Seq::empty() =~= seq![s.last()]);
        assert(escaped(s.drop_last()) + seq![s.last()] =~= s);
    }
}

/// Escaped text holds no `"`, `<` or `>`: the only markup characters left
/// are the ampersands that open entities.
pub proof fn lemma_escaped_is_safe(s: Seq<char>)
    ensures
        forall|i: int|
            0 <= i < escaped(s).len() ==> {
                let c = #[trigger] escaped(s)[i];
                c != '"' && c != '<' && c != '>'
            },
    decreases s.len(),
{
    if s.len() > 0 {
        lemma_escape_safe_char(s.last());
        lemma_escaped_is_safe(s.drop_last());
        let a = escaped(s.drop_last());
        let b = escape_char(s.last());
        assert forall|i: int| 0 <= i < escaped(s).len() implies {
            let c = #[trigger] escaped(s)[i];
            c != '"' && c != '<' && c != '>'
        } by {
            if i < a.len() {
                assert(escaped(s)[i] == a[i]);
            } else {
                assert(escaped(s)[i] == b[i - a.len()]);
            }
        }
    }
}

proof fn lemma_escape_safe_char(c: char)
    ensures
        forall|i: int|
            0 <= i < escape_char(c).len() ==> {
                let d = #[trigger] escape_char(c)[i];
                d != '"' && d != '<' && d != '>'
            },
{
    reveal_strlit("&amp;");
    reveal_strlit("&quot;");
    reveal_strlit("&lt;");
    reveal_strlit("&gt;");
}

} // verus!
