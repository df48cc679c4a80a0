//! HTML text: escaping what a page shows, the way maud's templates do.

use maud::Render;
use vstd::prelude::*;

verus! {

/// The escaped form of one character: `&`, `<`, `>` and `"` become entities,
/// every other character stays as it is.
pub open spec fn escape_char(c: char) -> Seq<char> {
    if c == '&' {
        "&amp;"@
    } else if c == '<' {
        "&lt;"@
    } else if c == '>' {
        "&gt;"@
    } else if c == '"' {
        "&quot;"@
    } else {
        seq![c]
    }
}

/// `s` escaped for HTML text and attribute values.
pub open spec fn html_escape(s: Seq<char>) -> Seq<char>
    decreases s.len(),
{
    if s.len() == 0 {
        seq![]
    } else {
        escape_char(s[0]) + html_escape(s.drop_first())
    }
}

/// `<str as maud::Render>::render_to`: appends `text` to `out` with `&`, `<`,
/// `>` and `"` replaced by `&amp;`, `&lt;`, `&gt;` and `&quot;`.
#[verifier::external_body]
pub(crate) fn push_escaped(out: &mut String, text: &str)
    ensures
        final(out)@ == old(out)@ + html_escape(text@),
{
    text.render_to(out)
}

proof fn lemma_entity_chars(e: Seq<char>)
    requires
        e == "&amp;"@ || e == "&lt;"@ || e == "&gt;"@ || e == "&quot;"@,
    ensures
        forall|i: int| 0 <= i < e.len() ==> #[trigger] e[i] != '<' && e[i] != '>' && e[i] != '"',
{
    reveal_strlit("&amp;");
    reveal_strlit("&lt;");
    reveal_strlit("&gt;");
    reveal_strlit("&quot;");
}

/// Escaped text holds no `<`, `>` or `"`: whatever a user wrote cannot open
/// or close a tag or leave an attribute value.
pub proof fn lemma_escaped_has_no_markup(s: Seq<char>)
    ensures
        forall|i: int|
            0 <= i < html_escape(s).len() ==> #[trigger] html_escape(s)[i] != '<' && html_escape(
                s,
            )[i] != '>' && html_escape(s)[i] != '"',
    decreases s.len(),
{
    if s.len() > 0 {
        lemma_escaped_has_no_markup(s.drop_first());
        let c = s[0];
        let e = escape_char(c);
        if c == '&' || c == '<' || c == '>' || c == '"' {
            lemma_entity_chars(e);
        }
        let h = html_escape(s);
        let t = html_escape(s.drop_first());
        assert forall|i: int| 0 <= i < h.len() implies #[trigger] h[i] != '<' && h[i] != '>' && h[i]
            != '"' by {
            if i < e.len() {
                assert(h[i] == e[i]);
            } else {
                assert(h[i] == t[i - e.len()]);
            }
        }
    }
}

/// Text without `&`, `<`, `>` and `"` is its own escaped form.
pub proof fn lemma_escape_plain(s: Seq<char>)
    requires
        forall|i: int| 0 <= i < s.len() ==> #[trigger] s[i] != '&' && s[i] != '<' && s[i] != '>' && s[i] != '"',
    ensures
        html_escape(s) == s,
    decreases s.len(),
{
    if s.len() > 0 {
        assert forall|i: int| 0 <= i < s.drop_first().len() implies #[trigger] s.drop_first()[i] != '&'
            && s.drop_first()[i] != '<' && s.drop_first()[i] != '>' && s.drop_first()[i] != '"' by {
            assert(s.drop_first()[i] == s[i + 1]);
        }
        lemma_escape_plain(s.drop_first());
        assert(s == seq![s[0]] + s.drop_first());
    }
}

} // verus!
