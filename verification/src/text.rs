//! Character-level helpers shared by the syntax highlighters: Unicode
//! character classes (trusted, from std) and conversions between strings
//! and character vectors.

use vstd::prelude::*;

verus! {

/// Whether a character is Unicode whitespace, as std classifies it.
pub uninterp spec fn unicode_whitespace(c: char) -> bool;

/// Whether a character is Unicode alphabetic, as std classifies it.
pub uninterp spec fn unicode_alphabetic(c: char) -> bool;

/// Whether a character is Unicode alphanumeric, as std classifies it.
pub uninterp spec fn unicode_alphanumeric(c: char) -> bool;

/// Relies on std's `char::is_whitespace`; the blank ASCII characters are
/// whitespace and the ASCII letters and digits are not.
#[verifier::external_body]
pub fn char_is_whitespace(c: char) -> (r: bool)
    ensures
        r == unicode_whitespace(c),
        c == ' ' || c == '\t' || c == '\n' || c == '\r' ==> r,
        'a' <= c && c <= 'z' || 'A' <= c && c <= 'Z' || '0' <= c && c <= '9' ==> !r,
{
    c.is_whitespace()
}

/// Relies on std's `char::is_alphabetic`.
#[verifier::external_body]
pub fn char_is_alphabetic(c: char) -> (r: bool)
    ensures
        r == unicode_alphabetic(c),
{
    c.is_alphabetic()
}

/// Relies on std's `char::is_alphanumeric`.
#[verifier::external_body]
pub fn char_is_alphanumeric(c: char) -> (r: bool)
    ensures
        r == unicode_alphanumeric(c),
{
    c.is_alphanumeric()
}

/// Relies on std's `str::chars`: the characters of the string, in order.
#[verifier::external_body]
pub fn chars_vec(s: &str) -> (r: Vec<char>)
    ensures
        r@ == s@,
{
    s.chars().collect()
}

/// Relies on std's `FromIterator for String`: the string of exactly these
/// characters.
#[verifier::external_body]
pub fn chars_to_string(v: &Vec<char>) -> (s: String)
    ensures
        s@ == v@,
{
    v.iter().collect()
}

/// Append the characters of a string slice to a character vector.
pub fn push_str_chars(out: &mut Vec<char>, s: &str)
    ensures
        final(out)@ == old(out)@ + s@,
{
    let cs = chars_vec(s);
    out.extend_from_slice(cs.as_slice());
    proof {
        assert(out@ =~= old(out)@ + s@);
    }
}

/// The HTML escaping of one character: the five special characters become
/// entities, everything else stands as itself.
pub open spec fn escape_char_seq(c: char) -> Seq<char> {
    if c == '<' {
        "&lt;"@
    } else if c == '>' {
        "&gt;"@
    } else if c == '&' {
        "&amp;"@
    } else if c == '"' {
        "&quot;"@
    } else if c == '\'' {
        "&#39;"@
    } else {
        seq![c]
    }
}

/// The HTML escaping of a character sequence.
pub open spec fn escape_seq(s: Seq<char>) -> Seq<char>
    decreases s.len(),
{
    if s.len() == 0 {
        Seq::empty()
    } else {
        escape_char_seq(s[0]) + escape_seq(s.drop_first())
    }
}

/// Escaping distributes over concatenation.
pub proof fn lemma_escape_seq_concat(a: Seq<char>, b: Seq<char>)
    ensures
        escape_seq(a + b) == escape_seq(a) + escape_seq(b),
    decreases a.len(),
{
    if a.len() == 0 {
        assert(a + b =~= b);
        assert(escape_seq(a) + escape_seq(b) =~= escape_seq(b));
    } else {
        assert((a + b).drop_first() =~= a.drop_first() + b);
        lemma_escape_seq_concat(a.drop_first(), b);
        assert(escape_seq(a + b) =~= escape_seq(a) + escape_seq(b));
    }
}

/// A colored span: fixed markup around the escaped text.
pub open spec fn colored_span(text: Seq<char>, color: Seq<char>) -> Seq<char> {
    "<span style=\"color:"@ + color + "\">"@ + escape_seq(text) + "</span>"@
}

/// Append the HTML escaping of one character to the output.
pub fn push_escaped_char(out: &mut Vec<char>, c: char)
    ensures
        final(out)@ == old(out)@ + escape_char_seq(c),
{
    if c == '<' {
        push_str_chars(out, "&lt;");
    } else if c == '>' {
        push_str_chars(out, "&gt;");
    } else if c == '&' {
        push_str_chars(out, "&amp;");
    } else if c == '"' {
        push_str_chars(out, "&quot;");
    } else if c == '\'' {
        push_str_chars(out, "&#39;");
    } else {
        out.push(c);
        proof {
            assert(out@ =~= old(out)@ + seq![c]);
        }
    }
}

/// Append the HTML escaping of a character slice to the output.
pub fn push_escaped(out: &mut Vec<char>, text: &[char])
    ensures
        final(out)@ == old(out)@ + escape_seq(text@),
{
    let len = text.len();
    let mut i: usize = 0;
    while i < len
        invariant
            len == text@.len(),
            i <= len,
            out@ == old(out)@ + escape_seq(text@.take(i as int)),
        decreases len - i,
    {
        push_escaped_char(out, text[i]);
        proof {
            assert(text@.take(i + 1) =~= text@.take(i as int) + seq![text@[i as int]]);
            lemma_escape_seq_concat(text@.take(i as int), seq![text@[i as int]]);
            assert(seq![text@[i as int]].drop_first() =~= Seq::<char>::empty());
            assert(escape_seq(Seq::<char>::empty()) =~= Seq::<char>::empty());
            assert(escape_seq(seq![text@[i as int]]) =~= escape_char_seq(text@[i as int]));
        }
        i = i + 1;
    }
    proof {
        assert(text@.take(len as int) =~= text@);
    }
}

/// The characters of `lit` stand at position `i` of `s`.
pub open spec fn spells(s: Seq<char>, i: int, lit: Seq<char>) -> bool {
    i + lit.len() <= s.len() && s.subrange(i, i + lit.len() as int) == lit
}

/// Position `i` of `s` opens one of the fixed markup pieces the
/// renderers emit: a styled span, a span close, a `pre` wrapper, or a
/// `pre` close.
pub open spec fn markup_at(s: Seq<char>, i: int) -> bool {
    ||| spells(s, i, "<span style=\""@)
    ||| spells(s, i, "</span>"@)
    ||| spells(s, i, "<pre style=\""@)
    ||| spells(s, i, "</pre>"@)
}

/// Every `<` of a rendered fragment opens fixed markup: none comes from
/// the input, whose text is escaped. This is the output-safety claim of
/// the highlighters: an implementation that let input text through
/// unescaped could not satisfy it.
pub open spec fn tags_are_markup(s: Seq<char>) -> bool {
    forall|i: int| 0 <= i < s.len() && #[trigger] s[i] == '<' ==> markup_at(s, i)
}

/// No `<` occurs in the fragment.
pub open spec fn no_lt(s: Seq<char>) -> bool {
    forall|i: int| 0 <= i < s.len() ==> #[trigger] s[i] != '<'
}

/// A fragment without `<` is trivially markup-safe.
pub proof fn lemma_markup_no_lt(s: Seq<char>)
    requires
        no_lt(s),
    ensures
        tags_are_markup(s),
{
}

/// A spelled literal survives appending to the right.
pub proof fn lemma_spells_extend(a: Seq<char>, b: Seq<char>, i: int, lit: Seq<char>)
    requires
        0 <= i,
        spells(a, i, lit),
    ensures
        spells(a + b, i, lit),
{
    assert((a + b).subrange(i, i + lit.len() as int) =~= a.subrange(i, i + lit.len() as int));
}

/// A spelled literal survives prepending, at the shifted position.
pub proof fn lemma_spells_shift(a: Seq<char>, b: Seq<char>, j: int, lit: Seq<char>)
    requires
        0 <= j,
        spells(b, j, lit),
    ensures
        spells(a + b, a.len() + j, lit),
{
    assert((a + b).subrange(a.len() + j, a.len() + j + lit.len() as int) =~= b.subrange(
        j,
        j + lit.len() as int,
    ));
}

/// Markup safety is closed under concatenation.
pub proof fn lemma_markup_concat(a: Seq<char>, b: Seq<char>)
    requires
        tags_are_markup(a),
        tags_are_markup(b),
    ensures
        tags_are_markup(a + b),
{
    assert forall|i: int| 0 <= i < (a + b).len() && #[trigger] (a + b)[i] == '<' implies markup_at(
        a + b,
        i,
    ) by {
        if i < a.len() {
            assert(a[i] == '<');
            assert(markup_at(a, i));
            if spells(a, i, "<span style=\""@) {
                lemma_spells_extend(a, b, i, "<span style=\""@);
            } else if spells(a, i, "</span>"@) {
                lemma_spells_extend(a, b, i, "</span>"@);
            } else if spells(a, i, "<pre style=\""@) {
                lemma_spells_extend(a, b, i, "<pre style=\""@);
            } else {
                lemma_spells_extend(a, b, i, "</pre>"@);
            }
        } else {
            let j = i - a.len();
            assert(b[j] == '<');
            assert(markup_at(b, j));
            if spells(b, j, "<span style=\""@) {
                lemma_spells_shift(a, b, j, "<span style=\""@);
            } else if spells(b, j, "</span>"@) {
                lemma_spells_shift(a, b, j, "</span>"@);
            } else if spells(b, j, "<pre style=\""@) {
                lemma_spells_shift(a, b, j, "<pre style=\""@);
            } else {
                lemma_spells_shift(a, b, j, "</pre>"@);
            }
        }
    }
}

/// The escaping of one character never contains `<`.
pub proof fn lemma_escape_char_no_lt(c: char)
    ensures
        no_lt(escape_char_seq(c)),
{
    reveal_strlit("&lt;");
    reveal_strlit("&gt;");
    reveal_strlit("&amp;");
    reveal_strlit("&quot;");
    reveal_strlit("&#39;");
}

/// Escaped text never contains `<`.
pub proof fn lemma_escape_no_lt(t: Seq<char>)
    ensures
        no_lt(escape_seq(t)),
    decreases t.len(),
{
    if t.len() > 0 {
        lemma_escape_char_no_lt(t[0]);
        lemma_escape_no_lt(t.drop_first());
    }
}

/// A colored span is markup-safe when its color holds no `<`: the open
/// and close tags are fixed markup and the text is escaped.
pub proof fn lemma_markup_colored_span(text: Seq<char>, color: Seq<char>)
    requires
        no_lt(color),
    ensures
        tags_are_markup(colored_span(text, color)),
{
    let open = "<span style=\"color:"@;
    let mid = "\">"@;
    let close = "</span>"@;
    reveal_strlit("<span style=\"color:");
    reveal_strlit("<span style=\"");
    reveal_strlit("\">");
    reveal_strlit("</span>");
    assert(tags_are_markup(open)) by {
        assert forall|i: int| 0 <= i < open.len() && #[trigger] open[i] == '<' implies markup_at(
            open,
            i,
        ) by {
            assert(i == 0);
            assert(open.subrange(0, 13) =~= "<span style=\""@);
            assert(spells(open, 0, "<span style=\""@));
        }
    }
    assert(tags_are_markup(mid)) by {
        lemma_markup_no_lt(mid);
    }
    assert(tags_are_markup(close)) by {
        assert forall|i: int| 0 <= i < close.len() && #[trigger] close[i] == '<' implies markup_at(
            close,
            i,
        ) by {
            assert(i == 0);
            assert(close.subrange(0, 7) =~= close);
            assert(spells(close, 0, close));
        }
    }
    lemma_escape_no_lt(text);
    lemma_markup_no_lt(escape_seq(text));
    lemma_markup_no_lt(color);
    lemma_markup_concat(open, color);
    lemma_markup_concat(open + color, mid);
    lemma_markup_concat(open + color + mid, escape_seq(text));
    lemma_markup_concat(open + color + mid + escape_seq(text), close);
    assert(colored_span(text, color) == open + color + mid + escape_seq(text) + close);
}

/// Dropping a trailing newline preserves markup safety: no markup piece
/// ends in a newline, so no spelled literal reaches the dropped char.
pub proof fn lemma_markup_drop_last_newline(s: Seq<char>)
    requires
        tags_are_markup(s),
        s.len() > 0,
        s[s.len() - 1] == '\n',
    ensures
        tags_are_markup(s.drop_last()),
{
    reveal_strlit("<span style=\"");
    reveal_strlit("</span>");
    reveal_strlit("<pre style=\"");
    reveal_strlit("</pre>");
    let t = s.drop_last();
    assert forall|i: int| 0 <= i < t.len() && #[trigger] t[i] == '<' implies markup_at(t, i) by {
        assert(s[i] == '<');
        assert(markup_at(s, i));
        if spells(s, i, "<span style=\""@) {
            let lit = "<span style=\""@;
            assert(s.subrange(i, i + lit.len() as int)[lit.len() - 1] == lit[lit.len() - 1]);
            assert(i + lit.len() < s.len());
            assert(t.subrange(i, i + lit.len() as int) =~= s.subrange(i, i + lit.len() as int));
            assert(spells(t, i, lit));
        } else if spells(s, i, "</span>"@) {
            let lit = "</span>"@;
            assert(s.subrange(i, i + lit.len() as int)[lit.len() - 1] == lit[lit.len() - 1]);
            assert(i + lit.len() < s.len());
            assert(t.subrange(i, i + lit.len() as int) =~= s.subrange(i, i + lit.len() as int));
            assert(spells(t, i, lit));
        } else if spells(s, i, "<pre style=\""@) {
            let lit = "<pre style=\""@;
            assert(s.subrange(i, i + lit.len() as int)[lit.len() - 1] == lit[lit.len() - 1]);
            assert(i + lit.len() < s.len());
            assert(t.subrange(i, i + lit.len() as int) =~= s.subrange(i, i + lit.len() as int));
            assert(spells(t, i, lit));
        } else {
            let lit = "</pre>"@;
            assert(s.subrange(i, i + lit.len() as int)[lit.len() - 1] == lit[lit.len() - 1]);
            assert(i + lit.len() < s.len());
            assert(t.subrange(i, i + lit.len() as int) =~= s.subrange(i, i + lit.len() as int));
            assert(spells(t, i, lit));
        }
    }
}

} // verus!
