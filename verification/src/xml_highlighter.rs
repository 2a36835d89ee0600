//! XML syntax highlighter: a single-pass state machine that wraps XML
//! tokens (tags, attributes, comments, CDATA, declarations, entities) in
//! HTML spans with inline colors. All user-derived text passes through
//! HTML escaping; fixed delimiters are emitted pre-escaped. Malformed
//! input never stops the pass: whatever is buffered at the end is flushed
//! in the color of the state it was read in.

use vstd::prelude::*;

verus! {

use crate::text::{char_is_alphabetic, char_is_alphanumeric, char_is_whitespace, chars_to_string,
    chars_vec, colored_span, push_escaped, push_str_chars};
use vstd::string::StringExecFns;
use vstd::utf8::encode_utf8;

/// Blue: tag names.
pub const COLOR_TAG: &'static str = "#569cd6";

/// Light blue: attribute names.
pub const COLOR_ATTR_NAME: &'static str = "#9cdcfe";

/// Orange: attribute values.
pub const COLOR_ATTR_VALUE: &'static str = "#ce9178";

/// Gray: text content between tags.
pub const COLOR_TEXT: &'static str = "#d4d4d4";

/// Green: comments.
pub const COLOR_COMMENT: &'static str = "#6a9955";

/// Yellow: CDATA sections.
pub const COLOR_CDATA: &'static str = "#dcdcaa";

/// Purple: declarations and doctypes.
pub const COLOR_DECLARATION: &'static str = "#c586c0";

/// Gray: angle brackets.
pub const COLOR_BRACKET: &'static str = "#808080";

/// Gold: entity references.
pub const COLOR_ENTITY: &'static str = "#d7ba7d";

/// Byte limit on the input; larger documents are rejected outright.
pub const MAX_INPUT_SIZE: usize = 5242880;

/// Parser state of the single-pass scan.
#[derive(Debug, Clone, Copy, PartialEq, Eq, Structural)]
enum State {
    Text,
    TagOpen,
    TagName,
    TagClose,
    InTag,
    AttrName,
    AttrEquals,
    AttrValue,
    Comment,
    Cdata,
    Declaration,
    Doctype,
}

/// Rank used for termination: the states a scan can enter without
/// consuming a character sit below the ones it leaves.
spec fn state_rank(s: State) -> int {
    match s {
        State::InTag => 0,
        _ => 1,
    }
}

/// A colored span whose text is emitted as given, without escaping; only
/// fixed pre-escaped delimiters go through here.
pub open spec fn colored_raw(text: Seq<char>, color: Seq<char>) -> Seq<char> {
    "<span style=\"color:"@ + color + "\">"@ + text + "</span>"@
}

/// Append a colored HTML span with HTML escaping to the output.
fn push_colored_escaped(output: &mut Vec<char>, text: &[char], color: &str)
    ensures
        final(output)@ == old(output)@ + colored_span(text@, color@),
{
    push_str_chars(output, "<span style=\"color:");
    push_str_chars(output, color);
    push_str_chars(output, "\">");
    push_escaped(output, text);
    push_str_chars(output, "</span>");
    proof {
        assert(output@ =~= old(output)@ + colored_span(text@, color@));
    }
}

/// Append a colored HTML span whose text is already escaped; only fixed
/// delimiters such as `&lt;` and `/&gt;` may pass through here.
fn push_colored(output: &mut Vec<char>, text: &str, color: &str)
    ensures
        final(output)@ == old(output)@ + colored_raw(text@, color@),
{
    push_str_chars(output, "<span style=\"color:");
    push_str_chars(output, color);
    push_str_chars(output, "\">");
    push_str_chars(output, text);
    push_str_chars(output, "</span>");
    proof {
        assert(output@ =~= old(output)@ + colored_raw(text@, color@));
    }
}

/// Whether the characters of `pattern` stand at position `start`.
fn matches_str(chars: &[char], start: usize, pattern: &str) -> (r: bool)
    requires
        start <= chars@.len(),
    ensures
        r == (start + pattern@.len() <= chars@.len() && chars@.subrange(
            start as int,
            start + pattern@.len(),
        ) == pattern@),
{
    let pc = chars_vec(pattern);
    let plen = pc.len();
    let len = chars.len();
    if len - start < plen {
        return false;
    }
    let mut j: usize = 0;
    while j < plen
        invariant
            j <= plen,
            plen == pattern@.len(),
            len == chars@.len(),
            start + plen <= len,
            pc@ == pattern@,
            forall|k: int| 0 <= k < j ==> chars@[start + k] == pattern@[k],
        decreases plen - j,
    {
        if chars[start + j] != pc[j] {
            proof {
                assert(chars@.subrange(start as int, start + pattern@.len())[j as int]
                    != pattern@[j as int]);
            }
            return false;
        }
        j = j + 1;
    }
    proof {
        assert(chars@.subrange(start as int, start + pattern@.len()) =~= pattern@);
    }
    true
}

/// Scan an entity reference opened by `&`: the returned characters run
/// to the closing `;`, or stop at the first character that cannot belong
/// to an entity (which is included in the returned text but not
/// consumed), or at the end of the input.
fn parse_entity(chars: &[char], start: usize) -> (r: (Vec<char>, usize))
    requires
        start < chars@.len(),
        chars@[start as int] == '&',
    ensures
        start < r.1 <= chars@.len(),
        r.0@ == chars@.subrange(start as int, r.1 as int) || (r.1 < chars@.len() && r.0@
            == chars@.subrange(start as int, r.1 as int) + seq![chars@[r.1 as int]]),
{
    let len = chars.len();
    let mut result: Vec<char> = Vec::new();
    result.push('&');
    let mut i = start + 1;
    proof {
        assert(result@ =~= chars@.subrange(start as int, start + 1));
    }
    while i < len
        invariant
            start < i <= len,
            len == chars@.len(),
            result@ == chars@.subrange(start as int, i as int),
        decreases len - i,
    {
        let c = chars[i];
        result.push(c);
        proof {
            assert(result@ =~= chars@.subrange(start as int, i + 1));
        }
        if c == ';' {
            return (result, i + 1);
        }
        if !char_is_alphanumeric(c) && c != '#' {
            return (result, i);
        }
        i = i + 1;
    }
    (result, i)
}

/// The flush color of each state, used for whatever is still buffered
/// when the input ends.
fn state_flush_color(state: State) -> (r: &'static str)
{
    match state {
        State::Text => COLOR_TEXT,
        State::Comment => COLOR_COMMENT,
        State::Cdata => COLOR_CDATA,
        State::Declaration => COLOR_DECLARATION,
        State::Doctype => COLOR_DECLARATION,
        State::TagName => COLOR_TAG,
        State::TagClose => COLOR_TAG,
        State::AttrName => COLOR_ATTR_NAME,
        State::AttrValue => COLOR_ATTR_VALUE,
        State::AttrEquals => COLOR_BRACKET,
        State::InTag => COLOR_BRACKET,
        State::TagOpen => COLOR_BRACKET,
    }
}

/// Highlight an XML document as HTML with inline styles. The empty input
/// gives the empty string; an input over the byte limit gives a fixed
/// error fragment; everything else is wrapped in a single `pre` element.
pub fn highlight_xml(input: &str) -> (r: String)
    ensures
        input@.len() == 0 ==> r@ == Seq::<char>::empty(),
        input@.len() > 0 && encode_utf8(input@).len() as usize > MAX_INPUT_SIZE ==> r@
            == "<pre style=\"color:#f44336\">Error: Input exceeds 5MB limit</pre>"@,
        input@.len() > 0 && encode_utf8(input@).len() as usize <= MAX_INPUT_SIZE ==> exists|
            body: Seq<char>,
        |
            r@ == "<pre style=\"margin:0;font-family:inherit;\">"@ + body + "</pre>"@,
{
    if input.is_empty() {
        return String::new();
    }
    if input.len() > MAX_INPUT_SIZE {
        return String::from_str("<pre style=\"color:#f44336\">Error: Input exceeds 5MB limit</pre>");
    }
    let chars = chars_vec(input);
    let len = chars.len();
    let cs = chars.as_slice();
    let mut inner: Vec<char> = Vec::new();
    let mut i: usize = 0;
    let mut state = State::Text;
    let mut buffer: Vec<char> = Vec::new();
    let mut quote_char: Option<char> = None;
    while i < len
        invariant
            i <= len,
            len == cs@.len(),
            cs@ == chars@,
        decreases len - i, state_rank(state),
    {
        let c = cs[i];
        match state {
            State::Text => {
                if c == '<' {
                    if buffer.len() > 0 {
                        push_colored_escaped(&mut inner, buffer.as_slice(), COLOR_TEXT);
                        buffer.clear();
                    }
                    state = State::TagOpen;
                    i = i + 1;
                } else if c == '&' {
                    if buffer.len() > 0 {
                        push_colored_escaped(&mut inner, buffer.as_slice(), COLOR_TEXT);
                        buffer.clear();
                    }
                    let (entity, end) = parse_entity(cs, i);
                    push_colored_escaped(&mut inner, entity.as_slice(), COLOR_ENTITY);
                    i = end;
                } else {
                    buffer.push(c);
                    i = i + 1;
                }
            },
            State::TagOpen => {
                if c == '!' {
                    if matches_str(cs, i, "!--") {
                        proof {
                            reveal_strlit("!--");
                        }
                        push_colored(&mut inner, "&lt;!--", COLOR_COMMENT);
                        state = State::Comment;
                        i = i + 3;
                    } else if matches_str(cs, i, "![CDATA[") {
                        proof {
                            reveal_strlit("![CDATA[");
                        }
                        push_colored(&mut inner, "&lt;![CDATA[", COLOR_CDATA);
                        state = State::Cdata;
                        i = i + 8;
                    } else if matches_str(cs, i, "!DOCTYPE") {
                        proof {
                            reveal_strlit("!DOCTYPE");
                        }
                        push_colored(&mut inner, "&lt;!DOCTYPE", COLOR_DECLARATION);
                        state = State::Doctype;
                        i = i + 8;
                    } else {
                        push_colored(&mut inner, "&lt;!", COLOR_BRACKET);
                        state = State::Text;
                        i = i + 1;
                    }
                } else if c == '?' {
                    push_colored(&mut inner, "&lt;?", COLOR_DECLARATION);
                    state = State::Declaration;
                    i = i + 1;
                } else if c == '/' {
                    push_colored(&mut inner, "&lt;/", COLOR_BRACKET);
                    state = State::TagClose;
                    i = i + 1;
                } else if char_is_alphabetic(c) || c == '_' || c == ':' {
                    push_colored(&mut inner, "&lt;", COLOR_BRACKET);
                    buffer.push(c);
                    state = State::TagName;
                    i = i + 1;
                } else {
                    push_colored(&mut inner, "&lt;", COLOR_BRACKET);
                    state = State::Text;
                    i = i + 1;
                }
            },
            State::TagName => {
                if char_is_alphanumeric(c) || c == '_' || c == '-' || c == '.' || c == ':' {
                    buffer.push(c);
                    i = i + 1;
                } else {
                    push_colored_escaped(&mut inner, buffer.as_slice(), COLOR_TAG);
                    buffer.clear();
                    if c == '>' {
                        push_colored(&mut inner, "&gt;", COLOR_BRACKET);
                        state = State::Text;
                        i = i + 1;
                    } else if c == '/' {
                        if i + 1 < len && cs[i + 1] == '>' {
                            push_colored(&mut inner, "/&gt;", COLOR_BRACKET);
                            state = State::Text;
                            i = i + 2;
                        } else {
                            inner.push('/');
                            i = i + 1;
                        }
                    } else {
                        state = State::InTag;
                    }
                }
            },
            State::TagClose => {
                if char_is_alphanumeric(c) || c == '_' || c == '-' || c == '.' || c == ':' {
                    buffer.push(c);
                    i = i + 1;
                } else if c == '>' {
                    push_colored_escaped(&mut inner, buffer.as_slice(), COLOR_TAG);
                    buffer.clear();
                    push_colored(&mut inner, "&gt;", COLOR_BRACKET);
                    state = State::Text;
                    i = i + 1;
                } else {
                    push_colored_escaped(&mut inner, buffer.as_slice(), COLOR_TAG);
                    buffer.clear();
                    state = State::InTag;
                }
            },
            State::InTag => {
                if char_is_whitespace(c) {
                    inner.push(c);
                    i = i + 1;
                } else if c == '>' {
                    push_colored(&mut inner, "&gt;", COLOR_BRACKET);
                    state = State::Text;
                    i = i + 1;
                } else if c == '/' {
                    if i + 1 < len && cs[i + 1] == '>' {
                        push_colored(&mut inner, "/&gt;", COLOR_BRACKET);
                        state = State::Text;
                        i = i + 2;
                    } else {
                        inner.push('/');
                        i = i + 1;
                    }
                } else if char_is_alphabetic(c) || c == '_' || c == ':' {
                    buffer.push(c);
                    state = State::AttrName;
                    i = i + 1;
                } else {
                    inner.push(c);
                    i = i + 1;
                }
            },
            State::AttrName => {
                if char_is_alphanumeric(c) || c == '_' || c == '-' || c == '.' || c == ':' {
                    buffer.push(c);
                    i = i + 1;
                } else {
                    push_colored_escaped(&mut inner, buffer.as_slice(), COLOR_ATTR_NAME);
                    buffer.clear();
                    if c == '=' {
                        inner.push('=');
                        state = State::AttrEquals;
                        i = i + 1;
                    } else {
                        state = State::InTag;
                    }
                }
            },
            State::AttrEquals => {
                if c == '"' || c == '\'' {
                    quote_char = Some(c);
                    buffer.push(c);
                    state = State::AttrValue;
                    i = i + 1;
                } else if char_is_whitespace(c) {
                    inner.push(c);
                    i = i + 1;
                } else {
                    state = State::InTag;
                }
            },
            State::AttrValue => {
                let is_quote = match quote_char {
                    Some(q) => c == q,
                    None => false,
                };
                if is_quote {
                    buffer.push(c);
                    push_colored_escaped(&mut inner, buffer.as_slice(), COLOR_ATTR_VALUE);
                    buffer.clear();
                    quote_char = None;
                    state = State::InTag;
                    i = i + 1;
                } else {
                    buffer.push(c);
                    i = i + 1;
                }
            },
            State::Comment => {
                if matches_str(cs, i, "-->") {
                    proof {
                        reveal_strlit("-->");
                    }
                    if buffer.len() > 0 {
                        push_colored_escaped(&mut inner, buffer.as_slice(), COLOR_COMMENT);
                        buffer.clear();
                    }
                    push_colored(&mut inner, "--&gt;", COLOR_COMMENT);
                    state = State::Text;
                    i = i + 3;
                } else {
                    buffer.push(c);
                    i = i + 1;
                }
            },
            State::Cdata => {
                if matches_str(cs, i, "]]>") {
                    proof {
                        reveal_strlit("]]>");
                    }
                    if buffer.len() > 0 {
                        push_colored_escaped(&mut inner, buffer.as_slice(), COLOR_CDATA);
                        buffer.clear();
                    }
                    push_colored(&mut inner, "]]&gt;", COLOR_CDATA);
                    state = State::Text;
                    i = i + 3;
                } else {
                    buffer.push(c);
                    i = i + 1;
                }
            },
            State::Declaration => {
                if matches_str(cs, i, "?>") {
                    proof {
                        reveal_strlit("?>");
                    }
                    if buffer.len() > 0 {
                        push_colored_escaped(&mut inner, buffer.as_slice(), COLOR_DECLARATION);
                        buffer.clear();
                    }
                    push_colored(&mut inner, "?&gt;", COLOR_DECLARATION);
                    state = State::Text;
                    i = i + 2;
                } else {
                    buffer.push(c);
                    i = i + 1;
                }
            },
            State::Doctype => {
                if c == '>' {
                    if buffer.len() > 0 {
                        push_colored_escaped(&mut inner, buffer.as_slice(), COLOR_DECLARATION);
                        buffer.clear();
                    }
                    push_colored(&mut inner, "&gt;", COLOR_BRACKET);
                    state = State::Text;
                    i = i + 1;
                } else {
                    buffer.push(c);
                    i = i + 1;
                }
            },
        }
    }
    if buffer.len() > 0 {
        let color = state_flush_color(state);
        push_colored_escaped(&mut inner, buffer.as_slice(), color);
    }
    let mut out: Vec<char> = Vec::new();
    push_str_chars(&mut out, "<pre style=\"margin:0;font-family:inherit;\">");
    out.extend_from_slice(inner.as_slice());
    push_str_chars(&mut out, "</pre>");
    let result = chars_to_string(&out);
    proof {
        assert(result@ == "<pre style=\"margin:0;font-family:inherit;\">"@ + inner@ + "</pre>"@);
    }
    result
}

} // verus!
