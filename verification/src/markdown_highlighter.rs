//! Markdown syntax highlighter: a single-pass line-oriented renderer that
//! wraps Markdown tokens in HTML spans with inline colors. Every character
//! of the input passes through HTML escaping, so the output never carries
//! one of the five HTML special characters unescaped.

use vstd::prelude::*;

verus! {

use crate::text::{char_is_whitespace, chars_to_string, chars_vec, colored_span, escape_char_seq,
    escape_seq, lemma_escape_char_no_lt, lemma_escape_no_lt, lemma_markup_colored_span,
    lemma_markup_concat, lemma_markup_drop_last_newline, lemma_markup_no_lt, markup_at, no_lt,
    push_escaped, push_str_chars, spells, tags_are_markup, unicode_whitespace};
use vstd::slice::{slice_subrange, slice_to_vec};
use vstd::string::StringExecFns;
use vstd::utf8::encode_utf8;

/// Blue: headings.
pub const COLOR_HEADING: &'static str = "#569cd6";

/// Gray: emphasis markers.
pub const COLOR_EMPHASIS_MARKER: &'static str = "#808080";

/// Gray: strikethrough text.
pub const COLOR_STRIKE: &'static str = "#9d9d9d";

/// Yellow: inline code and code blocks.
pub const COLOR_CODE: &'static str = "#dcdcaa";

/// Cyan: mermaid diagram blocks.
pub const COLOR_MERMAID: &'static str = "#4ec9b0";

/// Green: link text.
pub const COLOR_LINK_TEXT: &'static str = "#4ec9b0";

/// Orange: link URLs.
pub const COLOR_LINK_URL: &'static str = "#ce9178";

/// Gray: list markers.
pub const COLOR_LIST_MARKER: &'static str = "#d4d4d4";

/// Green: blockquote content.
pub const COLOR_BLOCKQUOTE: &'static str = "#73a561";

/// Gray: horizontal rules.
pub const COLOR_HR: &'static str = "#808080";

/// Byte limit on the input; larger documents are rejected outright.
pub const MAX_INPUT_SIZE: usize = 5242880;

/// Escape one character for HTML.
fn escape_char(c: char) -> (r: Vec<char>)
    ensures
        r@ == escape_char_seq(c),
{
    let mut out: Vec<char> = Vec::new();
    if c == '<' {
        push_str_chars(&mut out, "&lt;");
    } else if c == '>' {
        push_str_chars(&mut out, "&gt;");
    } else if c == '&' {
        push_str_chars(&mut out, "&amp;");
    } else if c == '"' {
        push_str_chars(&mut out, "&quot;");
    } else if c == '\'' {
        push_str_chars(&mut out, "&#39;");
    } else {
        out.push(c);
        proof {
            assert(out@ =~= seq![c]);
        }
    }
    proof {
        assert(out@ =~= Seq::<char>::empty() + out@);
    }
    out
}

/// Escape every HTML special character in a character slice.
fn escape_html(s: &[char]) -> (r: Vec<char>)
    ensures
        r@ == escape_seq(s@),
{
    let mut out: Vec<char> = Vec::new();
    push_escaped(&mut out, s);
    proof {
        assert(Seq::<char>::empty() + escape_seq(s@) =~= escape_seq(s@));
    }
    out
}

/// Append a colored HTML span with HTML escaping to the output.
fn push_colored_escaped(output: &mut Vec<char>, text: &[char], color: &str)
    ensures
        final(output)@ == old(output)@ + colored_span(text@, color@),
        no_lt(color@) && tags_are_markup(old(output)@) ==> tags_are_markup(final(output)@),
{
    push_str_chars(output, "<span style=\"color:");
    push_str_chars(output, color);
    push_str_chars(output, "\">");
    push_escaped(output, text);
    push_str_chars(output, "</span>");
    proof {
        assert(output@ =~= old(output)@ + colored_span(text@, color@));
        if no_lt(color@) && tags_are_markup(old(output)@) {
            lemma_markup_colored_span(text@, color@);
            lemma_markup_concat(old(output)@, colored_span(text@, color@));
        }
    }
}

/// Append a colored HTML span with HTML escaping (alias kept for the
/// call sites that read better with an explicit target).
fn push_colored_escaped_to(output: &mut Vec<char>, text: &[char], color: &str)
    ensures
        final(output)@ == old(output)@ + colored_span(text@, color@),
        no_lt(color@) && tags_are_markup(old(output)@) ==> tags_are_markup(final(output)@),
{
    push_colored_escaped(output, text, color);
}

/// Render a character slice as a single colored span.
fn format_colored_escaped(text: &[char], color: &str) -> (r: Vec<char>)
    ensures
        r@ == colored_span(text@, color@),
        no_lt(color@) ==> tags_are_markup(r@),
{
    let mut out: Vec<char> = Vec::new();
    push_colored_escaped_to(&mut out, text, color);
    proof {
        assert(Seq::<char>::empty() + colored_span(text@, color@) =~= colored_span(text@, color@));
        assert(tags_are_markup(Seq::<char>::empty()));
    }
    out
}

/// Append a fixed markup literal to the output.
fn push_markup(out: &mut Vec<char>, lit: &str)
    requires
        tags_are_markup(lit@),
    ensures
        final(out)@ == old(out)@ + lit@,
        tags_are_markup(old(out)@) ==> tags_are_markup(final(out)@),
{
    push_str_chars(out, lit);
    proof {
        if tags_are_markup(old(out)@) {
            lemma_markup_concat(old(out)@, lit@);
        }
    }
}

/// The fixed markup literals this renderer emits are markup-safe, and
/// its colors hold no `<`.
#[verifier::rlimit(50)]
proof fn lemma_markdown_markup_facts()
    ensures
        tags_are_markup("<span style=\"font-weight:bold\">"@),
        tags_are_markup("<span style=\"font-style:italic\">"@),
        tags_are_markup("<span style=\"text-decoration:line-through;color:"@),
        tags_are_markup("<span style=\"color:"@),
        tags_are_markup("\">[</span>"@),
        tags_are_markup("\">](</span>"@),
        tags_are_markup("\">)</span>"@),
        tags_are_markup("\">][</span>"@),
        tags_are_markup("\">]</span>"@),
        tags_are_markup("\">"@),
        tags_are_markup("</span>"@),
        tags_are_markup("<pre style=\"margin:0;font-family:inherit;\">"@),
        tags_are_markup("</pre>"@),
        tags_are_markup("<pre style=\"color:#f44336\">Error: Input exceeds 5MB limit</pre>"@),
        no_lt(COLOR_HEADING@),
        no_lt(COLOR_EMPHASIS_MARKER@),
        no_lt(COLOR_STRIKE@),
        no_lt(COLOR_CODE@),
        no_lt(COLOR_MERMAID@),
        no_lt(COLOR_LINK_TEXT@),
        no_lt(COLOR_LINK_URL@),
        no_lt(COLOR_LIST_MARKER@),
        no_lt(COLOR_BLOCKQUOTE@),
        no_lt(COLOR_HR@),
        tags_are_markup(COLOR_HEADING@),
        tags_are_markup(COLOR_EMPHASIS_MARKER@),
        tags_are_markup(COLOR_STRIKE@),
        tags_are_markup(COLOR_CODE@),
        tags_are_markup(COLOR_MERMAID@),
        tags_are_markup(COLOR_LINK_TEXT@),
        tags_are_markup(COLOR_LINK_URL@),
        tags_are_markup(COLOR_LIST_MARKER@),
        tags_are_markup(COLOR_BLOCKQUOTE@),
        tags_are_markup(COLOR_HR@),
{
    reveal_strlit("<span style=\"");
    reveal_strlit("<pre style=\"");
    reveal_strlit("</span>");
    reveal_strlit("</pre>");
    reveal_strlit("<span style=\"font-weight:bold\">");
    reveal_strlit("<span style=\"font-style:italic\">");
    reveal_strlit("<span style=\"text-decoration:line-through;color:");
    reveal_strlit("<span style=\"color:");
    reveal_strlit("\">[</span>");
    reveal_strlit("\">](</span>");
    reveal_strlit("\">)</span>");
    reveal_strlit("\">][</span>");
    reveal_strlit("\">]</span>");
    reveal_strlit("\">");
    reveal_strlit("<pre style=\"margin:0;font-family:inherit;\">");
    reveal_strlit("<pre style=\"color:#f44336\">Error: Input exceeds 5MB limit</pre>");
    reveal_strlit("#569cd6");
    reveal_strlit("#808080");
    reveal_strlit("#9d9d9d");
    reveal_strlit("#dcdcaa");
    reveal_strlit("#4ec9b0");
    reveal_strlit("#ce9178");
    reveal_strlit("#d4d4d4");
    reveal_strlit("#73a561");
    assert(tags_are_markup("<span style=\"font-weight:bold\">"@)) by {
        let s = "<span style=\"font-weight:bold\">"@;
        assert forall|i: int| 0 <= i < s.len() && #[trigger] s[i] == '<' implies markup_at(s, i) by {
            assert(i == 0);
            assert(s.subrange(0, 13) =~= "<span style=\""@);
            assert(spells(s, 0, "<span style=\""@));
        }
    }
    assert(tags_are_markup("<span style=\"font-style:italic\">"@)) by {
        let s = "<span style=\"font-style:italic\">"@;
        assert forall|i: int| 0 <= i < s.len() && #[trigger] s[i] == '<' implies markup_at(s, i) by {
            assert(i == 0);
            assert(s.subrange(0, 13) =~= "<span style=\""@);
            assert(spells(s, 0, "<span style=\""@));
        }
    }
    assert(tags_are_markup("<span style=\"text-decoration:line-through;color:"@)) by {
        let s = "<span style=\"text-decoration:line-through;color:"@;
        assert forall|i: int| 0 <= i < s.len() && #[trigger] s[i] == '<' implies markup_at(s, i) by {
            assert(i == 0);
            assert(s.subrange(0, 13) =~= "<span style=\""@);
            assert(spells(s, 0, "<span style=\""@));
        }
    }
    assert(tags_are_markup("<span style=\"color:"@)) by {
        let s = "<span style=\"color:"@;
        assert forall|i: int| 0 <= i < s.len() && #[trigger] s[i] == '<' implies markup_at(s, i) by {
            assert(i == 0);
            assert(s.subrange(0, 13) =~= "<span style=\""@);
            assert(spells(s, 0, "<span style=\""@));
        }
    }
    assert(tags_are_markup("\">[</span>"@)) by {
        let s = "\">[</span>"@;
        assert forall|i: int| 0 <= i < s.len() && #[trigger] s[i] == '<' implies markup_at(s, i) by {
            assert(i == 3);
            assert(s.subrange(3, 10) =~= "</span>"@);
            assert(spells(s, 3, "</span>"@));
        }
    }
    assert(tags_are_markup("\">](</span>"@)) by {
        let s = "\">](</span>"@;
        assert forall|i: int| 0 <= i < s.len() && #[trigger] s[i] == '<' implies markup_at(s, i) by {
            assert(i == 4);
            assert(s.subrange(4, 11) =~= "</span>"@);
            assert(spells(s, 4, "</span>"@));
        }
    }
    assert(tags_are_markup("\">)</span>"@)) by {
        let s = "\">)</span>"@;
        assert forall|i: int| 0 <= i < s.len() && #[trigger] s[i] == '<' implies markup_at(s, i) by {
            assert(i == 3);
            assert(s.subrange(3, 10) =~= "</span>"@);
            assert(spells(s, 3, "</span>"@));
        }
    }
    assert(tags_are_markup("\">][</span>"@)) by {
        let s = "\">][</span>"@;
        assert forall|i: int| 0 <= i < s.len() && #[trigger] s[i] == '<' implies markup_at(s, i) by {
            assert(i == 4);
            assert(s.subrange(4, 11) =~= "</span>"@);
            assert(spells(s, 4, "</span>"@));
        }
    }
    assert(tags_are_markup("\">]</span>"@)) by {
        let s = "\">]</span>"@;
        assert forall|i: int| 0 <= i < s.len() && #[trigger] s[i] == '<' implies markup_at(s, i) by {
            assert(i == 3);
            assert(s.subrange(3, 10) =~= "</span>"@);
            assert(spells(s, 3, "</span>"@));
        }
    }
    assert(no_lt("\">"@));
    lemma_markup_no_lt("\">"@);
    assert(tags_are_markup("</span>"@)) by {
        let s = "</span>"@;
        assert forall|i: int| 0 <= i < s.len() && #[trigger] s[i] == '<' implies markup_at(s, i) by {
            assert(i == 0);
            assert(s.subrange(0, 7) =~= s);
            assert(spells(s, 0, "</span>"@));
        }
    }
    assert(tags_are_markup("<pre style=\"margin:0;font-family:inherit;\">"@)) by {
        let s = "<pre style=\"margin:0;font-family:inherit;\">"@;
        assert forall|i: int| 0 <= i < s.len() && #[trigger] s[i] == '<' implies markup_at(s, i) by {
            assert(i == 0);
            assert(s.subrange(0, 12) =~= "<pre style=\""@);
            assert(spells(s, 0, "<pre style=\""@));
        }
    }
    assert(tags_are_markup("</pre>"@)) by {
        let s = "</pre>"@;
        assert forall|i: int| 0 <= i < s.len() && #[trigger] s[i] == '<' implies markup_at(s, i) by {
            assert(i == 0);
            assert(s.subrange(0, 6) =~= s);
            assert(spells(s, 0, "</pre>"@));
        }
    }
    assert(tags_are_markup("<pre style=\"color:#f44336\">Error: Input exceeds 5MB limit</pre>"@)) by {
        let s = "<pre style=\"color:#f44336\">Error: Input exceeds 5MB limit</pre>"@;
        assert forall|i: int| 0 <= i < s.len() && #[trigger] s[i] == '<' implies markup_at(s, i) by {
            assert(i == 0 || i == 57);
            if i == 0 {
                assert(s.subrange(0, 12) =~= "<pre style=\""@);
                assert(spells(s, 0, "<pre style=\""@));
            } else {
                assert(s.subrange(57, 63) =~= "</pre>"@);
                assert(spells(s, 57, "</pre>"@));
            }
        }
    }
    assert(no_lt(COLOR_HEADING@));
    assert(no_lt(COLOR_EMPHASIS_MARKER@));
    assert(no_lt(COLOR_STRIKE@));
    assert(no_lt(COLOR_CODE@));
    assert(no_lt(COLOR_MERMAID@));
    assert(no_lt(COLOR_LINK_TEXT@));
    assert(no_lt(COLOR_LINK_URL@));
    assert(no_lt(COLOR_LIST_MARKER@));
    assert(no_lt(COLOR_BLOCKQUOTE@));
    assert(no_lt(COLOR_HR@));
    lemma_markup_no_lt(COLOR_HEADING@);
    lemma_markup_no_lt(COLOR_EMPHASIS_MARKER@);
    lemma_markup_no_lt(COLOR_STRIKE@);
    lemma_markup_no_lt(COLOR_CODE@);
    lemma_markup_no_lt(COLOR_MERMAID@);
    lemma_markup_no_lt(COLOR_LINK_TEXT@);
    lemma_markup_no_lt(COLOR_LINK_URL@);
    lemma_markup_no_lt(COLOR_LIST_MARKER@);
    lemma_markup_no_lt(COLOR_BLOCKQUOTE@);
    lemma_markup_no_lt(COLOR_HR@);
}

/// A line is a horizontal rule when, ignoring whitespace, it is three or
/// more copies of one of `-`, `*`, `_` and nothing else.
pub open spec fn is_hr_spec(line: Seq<char>) -> bool {
    &&& exists|i: int, j: int, k: int|
        0 <= i < j && j < k && k < line.len() && !unicode_whitespace(line[i])
            && !unicode_whitespace(line[j]) && !unicode_whitespace(line[k])
    &&& forall|i: int, j: int|
        0 <= i < line.len() && 0 <= j < line.len() && !unicode_whitespace(line[i])
            && !unicode_whitespace(line[j]) ==> line[i] == line[j]
    &&& forall|i: int|
        0 <= i < line.len() && !unicode_whitespace(line[i]) ==> line[i] == '-' || line[i] == '*'
            || line[i] == '_'
}

/// Check whether a line is a horizontal rule.
fn is_horizontal_rule(line: &[char]) -> (r: bool)
    ensures
        r == is_hr_spec(line@),
{
    let len = line.len();
    let mut i: usize = 0;
    let mut count: usize = 0;
    let mut mark: char = ' ';
    let ghost mut first_idx: int = 0;
    let ghost mut second_idx: int = 0;
    let ghost mut third_idx: int = 0;
    while i < len
        invariant
            len == line@.len(),
            i <= len,
            count <= i,
            forall|k: int| 0 <= k < i && !unicode_whitespace(line@[k]) ==> line@[k] == mark,
            count == 0 ==> forall|k: int| 0 <= k < i ==> unicode_whitespace(line@[k]),
            count > 0 ==> (mark == '-' || mark == '*' || mark == '_'),
            count > 0 ==> 0 <= first_idx < i && !unicode_whitespace(line@[first_idx]),
            count > 1 ==> first_idx < second_idx < i && !unicode_whitespace(line@[second_idx]),
            count > 2 ==> second_idx < third_idx < i && !unicode_whitespace(line@[third_idx]),
            count == 1 ==> forall|k: int|
                0 <= k < i && !unicode_whitespace(line@[k]) ==> k == first_idx,
            count == 2 ==> forall|k: int|
                0 <= k < i && !unicode_whitespace(line@[k]) ==> k == first_idx || k == second_idx,
        decreases len - i,
    {
        let c = line[i];
        if !char_is_whitespace(c) {
            if count == 0 {
                if c != '-' && c != '*' && c != '_' {
                    proof {
                        if is_hr_spec(line@) {
                            assert(line@[i as int] == '-' || line@[i as int] == '*'
                                || line@[i as int] == '_');
                        }
                    }
                    return false;
                }
                mark = c;
                proof {
                    first_idx = i as int;
                }
                count = 1;
            } else if c != mark {
                proof {
                    if is_hr_spec(line@) {
                        assert(line@[first_idx] == line@[i as int]);
                    }
                }
                return false;
            } else {
                proof {
                    if count == 1 {
                        second_idx = i as int;
                    } else if count == 2 {
                        third_idx = i as int;
                    }
                }
                count = count + 1;
            }
        }
        i = i + 1;
    }
    if count >= 3 {
        proof {
            assert(0 <= first_idx < second_idx && second_idx < third_idx && third_idx < len
                && !unicode_whitespace(line@[first_idx]) && !unicode_whitespace(line@[second_idx])
                && !unicode_whitespace(line@[third_idx]));
        }
        true
    } else {
        proof {
            if is_hr_spec(line@) {
                let (a, b, c) = choose|a: int, b: int, c: int|
                    0 <= a < b && b < c && c < line@.len() && !unicode_whitespace(line@[a])
                        && !unicode_whitespace(line@[b]) && !unicode_whitespace(line@[c]);
                assert(false);
            }
        }
        false
    }
}

/// The first `n` characters are whitespace and the run stops there.
pub open spec fn is_ws_run(s: Seq<char>, n: int) -> bool {
    &&& 0 <= n <= s.len()
    &&& forall|k: int| 0 <= k < n ==> unicode_whitespace(s[k])
    &&& (n == s.len() || !unicode_whitespace(s[n]))
}

/// The length of the leading whitespace run of a line.
fn leading_ws_len(line: &[char]) -> (w: usize)
    ensures
        is_ws_run(line@, w as int),
{
    let len = line.len();
    let mut i: usize = 0;
    while i < len
        invariant
            i <= len,
            len == line@.len(),
            forall|k: int| 0 <= k < i ==> unicode_whitespace(line@[k]),
        decreases len - i,
    {
        if !char_is_whitespace(line[i]) {
            return i;
        }
        i = i + 1;
    }
    i
}

/// The length of the trailing whitespace run of a slice.
fn trailing_ws_len(s: &[char]) -> (t: usize)
    ensures
        t <= s@.len(),
{
    let len = s.len();
    let mut t: usize = 0;
    while t < len
        invariant
            t <= len,
            len == s@.len(),
        decreases len - t,
    {
        if !char_is_whitespace(s[len - 1 - t]) {
            return t;
        }
        t = t + 1;
    }
    t
}

/// Try to render a heading line: leading whitespace, one to six `#`, then
/// a space or the end of the line; the whole line takes the heading color.
fn try_highlight_heading(line: &[char]) -> (r: Option<Vec<char>>)
    ensures
        r matches Some(out) ==> out@ == colored_span(line@, COLOR_HEADING@),
        r matches Some(out) ==> tags_are_markup(out@),
{
    let len = line.len();
    let w = leading_ws_len(line);
    if w >= len || line[w] != '#' {
        return None;
    }
    let mut h: usize = 0;
    while w + h < len && line[w + h] == '#'
        invariant
            w + h <= len,
            len == line@.len(),
        decreases len - w - h,
    {
        h = h + 1;
    }
    if h > 6 {
        return None;
    }
    if w + h < len && line[w + h] != ' ' {
        return None;
    }
    let result = format_colored_escaped(line, COLOR_HEADING);
    proof {
        lemma_markdown_markup_facts();
    }
    Some(result)
}

/// Try to render a blockquote line: the leading whitespace is escaped as
/// it stands and everything from `>` on takes the blockquote color.
fn try_highlight_blockquote(line: &[char]) -> (r: Option<Vec<char>>)
    ensures
        r matches Some(out) ==> exists|w: int|
            0 <= w <= line@.len() && out@ == escape_seq(line@.take(w)) + colored_span(
                line@.skip(w),
                COLOR_BLOCKQUOTE@,
            ),
        r matches Some(out) ==> tags_are_markup(out@),
{
    let len = line.len();
    let w = leading_ws_len(line);
    if w >= len || line[w] != '>' {
        return None;
    }
    let ws = slice_subrange(line, 0, w);
    let trimmed = slice_subrange(line, w, len);
    let mut result = escape_html(ws);
    push_colored_escaped_to(&mut result, trimmed, COLOR_BLOCKQUOTE);
    proof {
        assert(line@.take(w as int) =~= ws@);
        assert(line@.skip(w as int) =~= trimmed@);
        lemma_markdown_markup_facts();
        lemma_escape_no_lt(ws@);
        lemma_markup_no_lt(escape_seq(ws@));
    }
    Some(result)
}

/// Parse an inline code span opened by a backtick run; the returned
/// characters are the full span, opening and closing backticks included.
fn parse_inline_code(chars: &[char], start: usize) -> (r: Option<(Vec<char>, usize)>)
    requires
        start < chars@.len(),
    ensures
        r matches Some(t) ==> start < t.1 <= chars@.len() && t.0@ == chars@.subrange(
            start as int,
            t.1 as int,
        ),
{
    let len = chars.len();
    if chars[start] != '`' {
        return None;
    }
    let mut i = start;
    while i < len && chars[i] == '`'
        invariant
            start <= i <= len,
            len == chars@.len(),
            chars@[start as int] == '`',
        decreases len - i,
    {
        i = i + 1;
    }
    proof {
        assert(i > start);
    }
    let backticks = i - start;
    while i < len
        invariant
            start < i <= len,
            len == chars@.len(),
        decreases len - i,
    {
        if chars[i] == '`' {
            let ghost i0 = i as int;
            let mut close: usize = 0;
            while i < len && chars[i] == '`'
                invariant
                    start < i <= len,
                    i0 <= i,
                    close <= i,
                    len == chars@.len(),
                    chars@[i0] == '`',
                    i0 < len,
                decreases len - i,
            {
                close = close + 1;
                i = i + 1;
            }
            proof {
                assert(i > i0);
            }
            if close == backticks {
                let full = slice_to_vec(slice_subrange(chars, start, i));
                return Some((full, i));
            }
        } else {
            i = i + 1;
        }
    }
    None
}

/// Parse an emphasis span delimited by `count` copies of `marker`; the
/// returned characters are the content between the delimiters.
fn parse_emphasis(chars: &[char], start: usize, marker: char, count: usize) -> (r: Option<
    (Vec<char>, usize),
>)
    requires
        start < chars@.len(),
        1 <= count <= 2,
    ensures
        r matches Some(t) ==> {
            &&& start + 2 * count < t.1 <= chars@.len()
            &&& t.0@ == chars@.subrange(start + count, t.1 - count)
            &&& t.0@.len() < chars@.len()
        },
{
    let len = chars.len();
    if len < count || start > len - count {
        return None;
    }
    if chars[start] != marker {
        return None;
    }
    if count == 2 && chars[start + 1] != marker {
        return None;
    }
    let content_start = start + count;
    if content_start >= len {
        return None;
    }
    if char_is_whitespace(chars[content_start]) {
        return None;
    }
    let mut i = content_start;
    while i <= len - count
        invariant
            content_start <= i,
            i <= len,
            1 <= count <= 2,
            count <= len,
            len == chars@.len(),
            content_start == start + count,
            content_start < len,
        decreases len - i,
    {
        if chars[i] == marker && (count == 1 || chars[i + 1] == marker) {
            if i > content_start && !char_is_whitespace(chars[i - 1]) {
                let content = slice_to_vec(slice_subrange(chars, content_start, i));
                return Some((content, i + count));
            }
        }
        i = i + 1;
    }
    None
}

/// Parse an inline link `[text](url)`, honoring backslash escapes and
/// nested brackets or parentheses.
fn parse_link(chars: &[char], start: usize) -> (r: Option<(Vec<char>, Vec<char>, usize)>)
    requires
        start < chars@.len(),
    ensures
        r matches Some(t) ==> start < t.2 <= chars@.len(),
{
    let len = chars.len();
    if chars[start] != '[' {
        return None;
    }
    let mut i = start + 1;
    let mut depth: usize = 1;
    let mut text: Vec<char> = Vec::new();
    while i < len && depth > 0
        invariant
            start < i <= len,
            depth <= i - start,
            len == chars@.len(),
        decreases len - i,
    {
        let c = chars[i];
        if c == '\\' && i + 1 < len {
            text.push(chars[i + 1]);
            i = i + 2;
            continue;
        }
        if c == '[' {
            depth = depth + 1;
        } else if c == ']' {
            depth = depth - 1;
        }
        if depth > 0 {
            text.push(c);
        }
        i = i + 1;
    }
    if depth != 0 {
        return None;
    }
    if i >= len || chars[i] != '(' {
        return None;
    }
    i = i + 1;
    let mut url: Vec<char> = Vec::new();
    let mut pdepth: usize = 1;
    while i < len && pdepth > 0
        invariant
            start < i <= len,
            pdepth <= i - start,
            len == chars@.len(),
        decreases len - i,
    {
        let c = chars[i];
        if c == '\\' && i + 1 < len {
            url.push(chars[i + 1]);
            i = i + 2;
            continue;
        }
        if c == '(' {
            pdepth = pdepth + 1;
        } else if c == ')' {
            pdepth = pdepth - 1;
        }
        if pdepth > 0 {
            url.push(c);
        }
        i = i + 1;
    }
    if pdepth != 0 {
        return None;
    }
    Some((text, url, i))
}

/// Parse a reference-style link `[text][ref]`; nested brackets are not
/// allowed and the text must be non-empty.
fn parse_reference_link(chars: &[char], start: usize) -> (r: Option<(Vec<char>, Vec<char>, usize)>)
    requires
        start < chars@.len(),
    ensures
        r matches Some(t) ==> start < t.2 <= chars@.len(),
{
    let len = chars.len();
    if chars[start] != '[' {
        return None;
    }
    let mut i = start + 1;
    let mut text: Vec<char> = Vec::new();
    while i < len && chars[i] != ']'
        invariant
            start < i <= len,
            len == chars@.len(),
        decreases len - i,
    {
        if chars[i] == '[' {
            return None;
        }
        text.push(chars[i]);
        i = i + 1;
    }
    if i >= len || text.len() == 0 {
        return None;
    }
    i = i + 1;
    if i >= len || chars[i] != '[' {
        return None;
    }
    i = i + 1;
    let mut ref_id: Vec<char> = Vec::new();
    while i < len && chars[i] != ']'
        invariant
            start < i <= len,
            len == chars@.len(),
        decreases len - i,
    {
        ref_id.push(chars[i]);
        i = i + 1;
    }
    if i >= len {
        return None;
    }
    i = i + 1;
    Some((text, ref_id, i))
}

/// Render inline Markdown: code spans, bold, italic, strikethrough, and
/// links, with everything else escaped as plain text. Every `<` of the
/// result opens fixed markup: no character of the input survives
/// unescaped as a tag.
fn highlight_inline(text: &[char]) -> (output: Vec<char>)
    ensures
        tags_are_markup(output@),
    decreases text@.len(),
{
    let len = text.len();
    let mut output: Vec<char> = Vec::new();
    let mut i: usize = 0;
    while i < len
        invariant
            i <= len,
            len == text@.len(),
            tags_are_markup(output@),
        decreases len - i,
    {
        proof {
            lemma_markdown_markup_facts();
        }
        let c = text[i];
        if c == '`' {
            if let Some((code_content, end)) = parse_inline_code(text, i) {
                push_colored_escaped_to(&mut output, code_content.as_slice(), COLOR_CODE);
                i = end;
                continue;
            }
        }
        if (c == '*' || c == '_') && i + 1 < len && text[i + 1] == c {
            if let Some((content, end)) = parse_emphasis(text, i, c, 2) {
                let mut marker: Vec<char> = Vec::new();
                marker.push(c);
                marker.push(c);
                push_colored_escaped_to(&mut output, marker.as_slice(), COLOR_EMPHASIS_MARKER);
                push_markup(&mut output, "<span style=\"font-weight:bold\">");
                let inner = highlight_inline(content.as_slice());
                let ghost before = output@;
                output.extend_from_slice(inner.as_slice());
                proof {
                    assert(output@ =~= before + inner@);
                    lemma_markup_concat(before, inner@);
                }
                push_markup(&mut output, "</span>");
                push_colored_escaped_to(&mut output, marker.as_slice(), COLOR_EMPHASIS_MARKER);
                i = end;
                continue;
            }
        }
        if c == '*' || c == '_' {
            if let Some((content, end)) = parse_emphasis(text, i, c, 1) {
                let mut marker: Vec<char> = Vec::new();
                marker.push(c);
                push_colored_escaped_to(&mut output, marker.as_slice(), COLOR_EMPHASIS_MARKER);
                push_markup(&mut output, "<span style=\"font-style:italic\">");
                let inner = highlight_inline(content.as_slice());
                let ghost before = output@;
                output.extend_from_slice(inner.as_slice());
                proof {
                    assert(output@ =~= before + inner@);
                    lemma_markup_concat(before, inner@);
                }
                push_markup(&mut output, "</span>");
                push_colored_escaped_to(&mut output, marker.as_slice(), COLOR_EMPHASIS_MARKER);
                i = end;
                continue;
            }
        }
        if c == '~' && i + 1 < len && text[i + 1] == '~' {
            if let Some((content, end)) = parse_emphasis(text, i, '~', 2) {
                let mut marker: Vec<char> = Vec::new();
                marker.push('~');
                marker.push('~');
                push_colored_escaped_to(&mut output, marker.as_slice(), COLOR_EMPHASIS_MARKER);
                push_markup(&mut output, "<span style=\"text-decoration:line-through;color:");
                push_markup(&mut output, COLOR_STRIKE);
                push_markup(&mut output, "\">");
                let ghost before = output@;
                push_escaped(&mut output, content.as_slice());
                proof {
                    lemma_escape_no_lt(content@);
                    lemma_markup_no_lt(escape_seq(content@));
                    lemma_markup_concat(before, escape_seq(content@));
                }
                push_markup(&mut output, "</span>");
                push_colored_escaped_to(&mut output, marker.as_slice(), COLOR_EMPHASIS_MARKER);
                i = end;
                continue;
            }
        }
        if c == '[' {
            if let Some((link_text, url, end)) = parse_link(text, i) {
                push_markup(&mut output, "<span style=\"color:");
                push_markup(&mut output, COLOR_EMPHASIS_MARKER);
                push_markup(&mut output, "\">[</span>");
                push_colored_escaped_to(&mut output, link_text.as_slice(), COLOR_LINK_TEXT);
                push_markup(&mut output, "<span style=\"color:");
                push_markup(&mut output, COLOR_EMPHASIS_MARKER);
                push_markup(&mut output, "\">](</span>");
                push_colored_escaped_to(&mut output, url.as_slice(), COLOR_LINK_URL);
                push_markup(&mut output, "<span style=\"color:");
                push_markup(&mut output, COLOR_EMPHASIS_MARKER);
                push_markup(&mut output, "\">)</span>");
                i = end;
                continue;
            }
            if let Some((link_text, ref_id, end)) = parse_reference_link(text, i) {
                push_markup(&mut output, "<span style=\"color:");
                push_markup(&mut output, COLOR_EMPHASIS_MARKER);
                push_markup(&mut output, "\">[</span>");
                push_colored_escaped_to(&mut output, link_text.as_slice(), COLOR_LINK_TEXT);
                push_markup(&mut output, "<span style=\"color:");
                push_markup(&mut output, COLOR_EMPHASIS_MARKER);
                push_markup(&mut output, "\">][</span>");
                push_colored_escaped_to(&mut output, ref_id.as_slice(), COLOR_LINK_URL);
                push_markup(&mut output, "<span style=\"color:");
                push_markup(&mut output, COLOR_EMPHASIS_MARKER);
                push_markup(&mut output, "\">]</span>");
                i = end;
                continue;
            }
        }
        let ec = escape_char(c);
        let ghost before = output@;
        output.extend_from_slice(ec.as_slice());
        proof {
            assert(output@ =~= before + ec@);
            lemma_escape_char_no_lt(c);
            lemma_markup_no_lt(ec@);
            lemma_markup_concat(before, ec@);
        }
        i = i + 1;
    }
    output
}

/// Try to render a list line: an unordered marker (`- `, `* `, `+ `) or
/// an ordered marker (digits, dot, space) takes the marker color and the
/// rest is rendered as inline Markdown.
fn try_highlight_list(line: &[char]) -> (r: Option<Vec<char>>)
    ensures
        r matches Some(out) ==> exists|w: int, m: int|
            {
                &&& #[trigger] is_ws_run(line@, w)
                &&& 2 <= m
                &&& w + m <= line@.len()
                &&& ({
                    let pre = escape_seq(line@.take(w)) + #[trigger] colored_span(
                        line@.subrange(w, w + m),
                        COLOR_LIST_MARKER@,
                    );
                    out@.len() >= pre.len() && out@.take(pre.len() as int) == pre
                })
            },
        r matches Some(out) ==> tags_are_markup(out@),
{
    let len = line.len();
    let w = leading_ws_len(line);
    let trimmed = slice_subrange(line, w, len);
    let tlen = len - w;
    if tlen >= 2 && (trimmed[0] == '-' || trimmed[0] == '*' || trimmed[0] == '+') && trimmed[1]
        == ' ' {
        let marker = slice_subrange(trimmed, 0, 2);
        let rest = slice_subrange(trimmed, 2, tlen);
        let ws = slice_subrange(line, 0, w);
        let mut result = escape_html(ws);
        push_colored_escaped_to(&mut result, marker, COLOR_LIST_MARKER);
        let inner = highlight_inline(rest);
        result.extend_from_slice(inner.as_slice());
        proof {
            let wi = w as int;
            let mi = 2int;
            assert(ws@ =~= line@.take(wi));
            assert(marker@ =~= line@.subrange(wi, wi + mi));
            let pre = escape_seq(line@.take(wi)) + colored_span(
                line@.subrange(wi, wi + mi),
                COLOR_LIST_MARKER@,
            );
            assert(result@ =~= pre + inner@);
            assert(result@.take(pre.len() as int) =~= pre);
            assert(is_ws_run(line@, wi) && 2 <= mi && wi + mi <= line@.len());
            lemma_markdown_markup_facts();
            lemma_escape_no_lt(ws@);
            lemma_markup_no_lt(escape_seq(ws@));
            lemma_markup_concat(pre, inner@);
        }
        return Some(result);
    }
    let mut d: usize = 0;
    while d < tlen && '0' <= trimmed[d] && trimmed[d] <= '9'
        invariant
            d <= tlen,
            tlen == trimmed@.len(),
        decreases tlen - d,
    {
        d = d + 1;
    }
    if d > 0 && d < tlen && tlen - d > 1 && trimmed[d] == '.' && trimmed[d + 1] == ' ' {
        let marker = slice_subrange(trimmed, 0, d + 2);
        let rest = slice_subrange(trimmed, d + 2, tlen);
        let ws = slice_subrange(line, 0, w);
        let mut result = escape_html(ws);
        push_colored_escaped_to(&mut result, marker, COLOR_LIST_MARKER);
        let inner = highlight_inline(rest);
        result.extend_from_slice(inner.as_slice());
        proof {
            let wi = w as int;
            let mi = d + 2 as int;
            assert(ws@ =~= line@.take(wi));
            assert(marker@ =~= line@.subrange(wi, wi + mi));
            let pre = escape_seq(line@.take(wi)) + colored_span(
                line@.subrange(wi, wi + mi),
                COLOR_LIST_MARKER@,
            );
            assert(result@ =~= pre + inner@);
            assert(result@.take(pre.len() as int) =~= pre);
            assert(is_ws_run(line@, wi) && 2 <= mi && wi + mi <= line@.len());
            lemma_markdown_markup_facts();
            lemma_escape_no_lt(ws@);
            lemma_markup_no_lt(escape_seq(ws@));
            lemma_markup_concat(pre, inner@);
        }
        return Some(result);
    }
    None
}

/// Render a single line of Markdown: horizontal rules, headings,
/// blockquotes, and lists first, then inline elements.
fn highlight_line(line: &[char]) -> (r: Vec<char>)
    ensures
        is_hr_spec(line@) ==> r@ == colored_span(line@, COLOR_HR@),
        tags_are_markup(r@),
{
    if is_horizontal_rule(line) {
        let result = format_colored_escaped(line, COLOR_HR);
        proof {
            lemma_markdown_markup_facts();
        }
        return result;
    }
    if let Some(result) = try_highlight_heading(line) {
        return result;
    }
    if let Some(result) = try_highlight_blockquote(line) {
        return result;
    }
    if let Some(result) = try_highlight_list(line) {
        return result;
    }
    highlight_inline(line)
}

/// Split text into lines the way std's line iterator does: lines end at
/// `\n`, a `\r` immediately before the `\n` is dropped, and a trailing
/// line terminator opens no further line.
fn split_lines(chars: &[char]) -> (lines: Vec<Vec<char>>)
{
    let len = chars.len();
    let mut lines: Vec<Vec<char>> = Vec::new();
    let mut cur: Vec<char> = Vec::new();
    let mut i: usize = 0;
    while i < len
        invariant
            i <= len,
            len == chars@.len(),
        decreases len - i,
    {
        let c = chars[i];
        if c == '\n' {
            if cur.len() > 0 && cur[cur.len() - 1] == '\r' {
                cur.pop();
            }
            lines.push(cur);
            cur = Vec::new();
        } else {
            cur.push(c);
        }
        i = i + 1;
    }
    if cur.len() > 0 {
        lines.push(cur);
    }
    lines
}

/// Whether a line opens or closes a code fence at offset `w`: three
/// backticks after the leading whitespace.
fn is_fence_at(line: &[char], w: usize) -> (r: bool)
    requires
        w <= line@.len(),
    ensures
        r ==> w + 3 <= line@.len(),
{
    let len = line.len();
    len - w >= 3 && line[w] == '`' && line[w + 1] == '`' && line[w + 2] == '`'
}

/// Whether a fence's info string, once trimmed, reads `mermaid` in any
/// ASCII case.
fn is_mermaid_lang(lang: &[char]) -> (r: bool)
{
    let len = lang.len();
    let lw = leading_ws_len(lang);
    let tw = trailing_ws_len(lang);
    if lw > len - tw {
        return false;
    }
    let core = slice_subrange(lang, lw, len - tw);
    if core.len() != 7 {
        return false;
    }
    (core[0] == 'm' || core[0] == 'M') && (core[1] == 'e' || core[1] == 'E') && (core[2] == 'r'
        || core[2] == 'R') && (core[3] == 'm' || core[3] == 'M') && (core[4] == 'a' || core[4]
        == 'A') && (core[5] == 'i' || core[5] == 'I') && (core[6] == 'd' || core[6] == 'D')
}

/// Highlight a Markdown document as HTML with inline styles. The empty
/// input gives the empty string; an input over the byte limit gives a
/// fixed error fragment; everything else is wrapped in a single `pre`
/// element.
pub fn highlight_markdown(input: &str) -> (r: String)
    ensures
        input@.len() == 0 ==> r@ == Seq::<char>::empty(),
        input@.len() > 0 && encode_utf8(input@).len() as usize > MAX_INPUT_SIZE ==> r@
            == "<pre style=\"color:#f44336\">Error: Input exceeds 5MB limit</pre>"@,
        input@.len() > 0 && encode_utf8(input@).len() as usize <= MAX_INPUT_SIZE ==> exists|body: Seq<char>|
            r@ == "<pre style=\"margin:0;font-family:inherit;\">"@ + body + "</pre>"@,
        tags_are_markup(r@),
{
    if input.is_empty() {
        let empty = String::new();
        proof {
            assert(tags_are_markup(empty@));
        }
        return empty;
    }
    if input.len() > MAX_INPUT_SIZE {
        let over = String::from_str("<pre style=\"color:#f44336\">Error: Input exceeds 5MB limit</pre>");
        proof {
            lemma_markdown_markup_facts();
        }
        return over;
    }
    let chars = chars_vec(input);
    let lines = split_lines(chars.as_slice());
    let line_count = lines.len();
    let mut inner: Vec<char> = Vec::new();
    let mut in_code_block = false;
    let mut is_mermaid = false;
    let mut code_buffer: Vec<char> = Vec::new();
    let mut li: usize = 0;
    while li < line_count
        invariant
            li <= line_count,
            line_count == lines@.len(),
            tags_are_markup(inner@),
        decreases line_count - li,
    {
        proof {
            lemma_markdown_markup_facts();
        }
        let line = lines[li].as_slice();
        if in_code_block {
            let w = leading_ws_len(line);
            if is_fence_at(line, w) {
                if code_buffer.len() > 0 {
                    let color = if is_mermaid {
                        COLOR_MERMAID
                    } else {
                        COLOR_CODE
                    };
                    push_colored_escaped(&mut inner, code_buffer.as_slice(), color);
                    code_buffer.clear();
                }
                let color = if is_mermaid {
                    COLOR_MERMAID
                } else {
                    COLOR_CODE
                };
                push_colored_escaped(&mut inner, line, color);
                let ghost before_nl = inner@;
                inner.push('\n');
                proof {
                    assert(inner@ =~= before_nl + seq!['\n']);
                    lemma_markup_no_lt(seq!['\n']);
                    lemma_markup_concat(before_nl, seq!['\n']);
                }
                in_code_block = false;
                is_mermaid = false;
            } else {
                code_buffer.extend_from_slice(line);
                code_buffer.push('\n');
            }
            li = li + 1;
            continue;
        }
        let w = leading_ws_len(line);
        if is_fence_at(line, w) {
            in_code_block = true;
            let llen = line.len();
            let lang = slice_subrange(line, w + 3, llen);
            is_mermaid = is_mermaid_lang(lang);
            let color = if is_mermaid {
                COLOR_MERMAID
            } else {
                COLOR_CODE
            };
            push_colored_escaped(&mut inner, line, color);
            let ghost before_nl = inner@;
            inner.push('\n');
            proof {
                assert(inner@ =~= before_nl + seq!['\n']);
                lemma_markup_no_lt(seq!['\n']);
                lemma_markup_concat(before_nl, seq!['\n']);
            }
            li = li + 1;
            continue;
        }
        let rendered = highlight_line(line);
        let ghost before_line = inner@;
        inner.extend_from_slice(rendered.as_slice());
        let ghost before_nl = inner@;
        inner.push('\n');
        proof {
            assert(before_nl =~= before_line + rendered@);
            lemma_markup_concat(before_line, rendered@);
            assert(inner@ =~= before_nl + seq!['\n']);
            lemma_markup_no_lt(seq!['\n']);
            lemma_markup_concat(before_nl, seq!['\n']);
        }
        li = li + 1;
    }
    proof {
        lemma_markdown_markup_facts();
    }
    if in_code_block && code_buffer.len() > 0 {
        let color = if is_mermaid {
            COLOR_MERMAID
        } else {
            COLOR_CODE
        };
        push_colored_escaped(&mut inner, code_buffer.as_slice(), color);
    }
    let ends_with_newline = chars.len() > 0 && chars[chars.len() - 1] == '\n';
    if !ends_with_newline && inner.len() > 0 && inner[inner.len() - 1] == '\n' {
        let ghost before_pop = inner@;
        inner.pop();
        proof {
            assert(inner@ =~= before_pop.drop_last());
            lemma_markup_drop_last_newline(before_pop);
        }
    }
    let mut out: Vec<char> = Vec::new();
    push_markup(&mut out, "<pre style=\"margin:0;font-family:inherit;\">");
    let ghost before_body = out@;
    out.extend_from_slice(inner.as_slice());
    proof {
        assert(out@ =~= before_body + inner@);
        lemma_markup_concat(before_body, inner@);
    }
    push_markup(&mut out, "</pre>");
    let result = chars_to_string(&out);
    proof {
        assert(result@ == "<pre style=\"margin:0;font-family:inherit;\">"@ + inner@ + "</pre>"@);
    }
    result
}

} // verus!
