//! Markdown rendering: GitHub-flavored Markdown to HTML through
//! pulldown-cmark, hardened for untrusted input. Raw HTML events are
//! filtered out of the event stream, the input size is capped, and the
//! rendered HTML passes through a verified sanitizer that neutralizes
//! `javascript:`, `data:`, and `vbscript:` URIs in `href` and `src`
//! attributes.

use vstd::prelude::*;

verus! {

use crate::text::{chars_to_string, chars_vec, push_str_chars, spells};
use vstd::string::StringExecFns;
use vstd::utf8::encode_utf8;

/// Byte limit on the input; larger documents are rejected outright.
pub const MAX_INPUT_SIZE: usize = 2097152;

/// A Markdown rendering failure, with a fixed-shape message.
#[derive(Debug, Clone, PartialEq)]
pub struct RenderError {
    pub message: String,
}

/// The decimal digit character of a value below ten.
pub open spec fn dec_digit_char(d: int) -> char {
    if d == 0 {
        '0'
    } else if d == 1 {
        '1'
    } else if d == 2 {
        '2'
    } else if d == 3 {
        '3'
    } else if d == 4 {
        '4'
    } else if d == 5 {
        '5'
    } else if d == 6 {
        '6'
    } else if d == 7 {
        '7'
    } else if d == 8 {
        '8'
    } else {
        '9'
    }
}

/// The decimal digits of a non-negative number, most significant first.
pub open spec fn dec_digits(n: int) -> Seq<char>
    decreases n,
{
    if n < 10 {
        seq![dec_digit_char(n)]
    } else {
        dec_digits(n / 10) + seq![dec_digit_char(n % 10)]
    }
}

/// The decimal digit character of a value below ten.
fn dec_digit_exec(d: usize) -> (c: char)
    requires
        d < 10,
    ensures
        c == dec_digit_char(d as int),
{
    if d == 0 {
        '0'
    } else if d == 1 {
        '1'
    } else if d == 2 {
        '2'
    } else if d == 3 {
        '3'
    } else if d == 4 {
        '4'
    } else if d == 5 {
        '5'
    } else if d == 6 {
        '6'
    } else if d == 7 {
        '7'
    } else if d == 8 {
        '8'
    } else {
        '9'
    }
}

/// Render a number as its decimal digits, most significant first.
fn usize_to_string(n: usize) -> (r: String)
    ensures
        r@ == dec_digits(n as int),
{
    let mut digits: Vec<char> = Vec::new();
    let mut cur = n;
    proof {
        assert(dec_digits(n as int) =~= dec_digits(n as int) + digits@);
    }
    loop
        invariant
            dec_digits(n as int) == dec_digits(cur as int) + digits@,
        decreases cur,
    {
        let ghost dold = digits@;
        let ghost cold = cur as int;
        let d = cur % 10;
        let c = dec_digit_exec(d);
        digits.insert(0, c);
        proof {
            assert(digits@ =~= seq![dec_digit_char(d as int)] + dold);
            if cold < 10 {
                assert(d as int == cold);
                assert(dec_digits(cold) == seq![dec_digit_char(cold)]);
            } else {
                assert(dec_digits(cold) == dec_digits(cold / 10) + seq![
                    dec_digit_char(cold % 10),
                ]);
            }
        }
        cur = cur / 10;
        if cur == 0 {
            proof {
                assert(cold < 10);
                assert(dec_digits(n as int) =~= digits@);
            }
            return chars_to_string(&digits);
        }
        proof {
            assert(cold >= 10);
            assert(dec_digits(n as int) =~= dec_digits(cur as int) + digits@);
        }
    }
}

/// The HTML rendering of a Markdown document by pulldown-cmark with the
/// GFM extensions on and raw HTML filtered out; a deterministic function
/// of the input text.
pub uninterp spec fn gfm_html_of(input: Seq<char>) -> Seq<char>;

/// Relies on pulldown_cmark's `Parser::new_ext` (tables, strikethrough,
/// and task lists enabled) and `html::push_html`, with the raw-HTML
/// events dropped from the stream before rendering.
#[verifier::external_body]
fn gfm_html(input: &str) -> (r: String)
    ensures
        r@ == gfm_html_of(input@),
{
    let mut opts = pulldown_cmark::Options::empty();
    opts.insert(pulldown_cmark::Options::ENABLE_TABLES);
    opts.insert(pulldown_cmark::Options::ENABLE_STRIKETHROUGH);
    opts.insert(pulldown_cmark::Options::ENABLE_TASKLISTS);
    let parser = pulldown_cmark::Parser::new_ext(input, opts).filter(|ev| !matches!(ev,
        pulldown_cmark::Event::Html(_) | pulldown_cmark::Event::InlineHtml(_)));
    let mut html = String::new();
    pulldown_cmark::html::push_html(&mut html, parser);
    html
}

/// `lit` occurs somewhere in `s`.
pub open spec fn contains_pattern(s: Seq<char>, lit: Seq<char>) -> bool {
    exists|i: int| 0 <= i && #[trigger] spells(s, i, lit)
}

/// One dangerous scheme occurs in an `href` or `src` attribute opening,
/// in either quoting style.
pub open spec fn dangerous_scheme_in(s: Seq<char>, scheme: Seq<char>) -> bool {
    ||| contains_pattern(s, "href=\""@ + scheme)
    ||| contains_pattern(s, "href='"@ + scheme)
    ||| contains_pattern(s, "src=\""@ + scheme)
    ||| contains_pattern(s, "src='"@ + scheme)
}

/// A `javascript:`, `data:`, or `vbscript:` URI, in lower or upper case,
/// opens an `href` or `src` attribute somewhere in the fragment.
pub open spec fn has_dangerous_uri(s: Seq<char>) -> bool {
    ||| dangerous_scheme_in(s, "javascript:"@)
    ||| dangerous_scheme_in(s, "data:"@)
    ||| dangerous_scheme_in(s, "vbscript:"@)
    ||| dangerous_scheme_in(s, "JAVASCRIPT:"@)
    ||| dangerous_scheme_in(s, "DATA:"@)
    ||| dangerous_scheme_in(s, "VBSCRIPT:"@)
}

/// Whether the characters of `pattern` stand at position `at`.
fn slice_matches(html: &[char], at: usize, pattern: &[char]) -> (r: bool)
    requires
        at <= html@.len(),
        pattern@.len() <= html@.len() - at,
    ensures
        r == spells(html@, at as int, pattern@),
{
    let plen = pattern.len();
    let hlen = html.len();
    let mut j: usize = 0;
    while j < plen
        invariant
            j <= plen,
            plen == pattern@.len(),
            hlen == html@.len(),
            at + plen <= hlen,
            forall|k: int| 0 <= k < j ==> html@[at + k] == pattern@[k],
        decreases plen - j,
    {
        if html[at + j] != pattern[j] {
            proof {
                assert(html@.subrange(at as int, at + pattern@.len() as int)[j as int]
                    != pattern@[j as int]);
            }
            return false;
        }
        j = j + 1;
    }
    proof {
        assert(html@.subrange(at as int, at + pattern@.len() as int) =~= pattern@);
    }
    true
}

/// Replace every `pattern` occurrence and the URI that follows it, up to
/// the closing quote, with `replacement`; an occurrence with no closing
/// quote is kept as it stands. A fragment without any occurrence passes
/// through unchanged.
fn replace_uri_attribute(html: &[char], pattern: &[char], quote: char, replacement: &[char]) -> (r:
    Vec<char>)
    requires
        pattern@.len() >= 1,
    ensures
        !contains_pattern(html@, pattern@) ==> r@ == html@,
{
    let hlen = html.len();
    let plen = pattern.len();
    let mut result: Vec<char> = Vec::new();
    let mut pos: usize = 0;
    while pos < hlen
        invariant
            pos <= hlen,
            hlen == html@.len(),
            plen == pattern@.len(),
            plen >= 1,
            !contains_pattern(html@, pattern@) ==> result@ == html@.take(pos as int),
        decreases hlen - pos,
    {
        if plen <= hlen - pos && slice_matches(html, pos, pattern) {
            proof {
                assert(contains_pattern(html@, pattern@));
            }
            let mut q = pos + plen;
            while q < hlen && html[q] != quote
                invariant
                    pos + plen <= q <= hlen,
                    hlen == html@.len(),
                decreases hlen - q,
            {
                q = q + 1;
            }
            if q < hlen {
                result.extend_from_slice(replacement);
                pos = q + 1;
            } else {
                result.extend_from_slice(pattern);
                pos = pos + plen;
            }
        } else {
            result.push(html[pos]);
            proof {
                assert(html@.take(pos + 1) =~= html@.take(pos as int) + seq![html@[pos as int]]);
            }
            pos = pos + 1;
        }
    }
    proof {
        assert(html@.take(hlen as int) =~= html@);
    }
    result
}

/// Neutralize one dangerous scheme in the four attribute contexts:
/// `href` and `src`, double- and single-quoted. A fragment in which the
/// scheme opens no such attribute passes through unchanged.
fn sanitize_scheme(html: Vec<char>, scheme: &str) -> (r: Vec<char>)
    ensures
        !dangerous_scheme_in(html@, scheme@) ==> r@ == html@,
{
    let mut pat_hd: Vec<char> = Vec::new();
    push_str_chars(&mut pat_hd, "href=\"");
    push_str_chars(&mut pat_hd, scheme);
    let mut rep_hd: Vec<char> = Vec::new();
    push_str_chars(&mut rep_hd, "href=\"#\"");
    proof {
        reveal_strlit("href=\"");
    }
    let step1 = replace_uri_attribute(html.as_slice(), pat_hd.as_slice(), '"', rep_hd.as_slice());

    let mut pat_hs: Vec<char> = Vec::new();
    push_str_chars(&mut pat_hs, "href='");
    push_str_chars(&mut pat_hs, scheme);
    let mut rep_hs: Vec<char> = Vec::new();
    push_str_chars(&mut rep_hs, "href='#'");
    proof {
        reveal_strlit("href='");
    }
    let step2 = replace_uri_attribute(step1.as_slice(), pat_hs.as_slice(), '\'', rep_hs.as_slice());

    let mut pat_sd: Vec<char> = Vec::new();
    push_str_chars(&mut pat_sd, "src=\"");
    push_str_chars(&mut pat_sd, scheme);
    let mut rep_sd: Vec<char> = Vec::new();
    push_str_chars(&mut rep_sd, "src=\"\"");
    proof {
        reveal_strlit("src=\"");
    }
    let step3 = replace_uri_attribute(step2.as_slice(), pat_sd.as_slice(), '"', rep_sd.as_slice());

    let mut pat_ss: Vec<char> = Vec::new();
    push_str_chars(&mut pat_ss, "src='");
    push_str_chars(&mut pat_ss, scheme);
    let mut rep_ss: Vec<char> = Vec::new();
    push_str_chars(&mut rep_ss, "src=''");
    proof {
        reveal_strlit("src='");
    }
    let step4 = replace_uri_attribute(step3.as_slice(), pat_ss.as_slice(), '\'', rep_ss.as_slice());
    proof {
        assert(pat_hd@ =~= "href=\""@ + scheme@);
        assert(pat_hs@ =~= "href='"@ + scheme@);
        assert(pat_sd@ =~= "src=\""@ + scheme@);
        assert(pat_ss@ =~= "src='"@ + scheme@);
    }
    step4
}

/// Neutralize `javascript:`, `data:`, and `vbscript:` URIs, in lower and
/// upper case, in `href` and `src` attributes of the rendered HTML. A
/// fragment free of such URIs passes through unchanged.
fn sanitize_dangerous_uris(html: Vec<char>) -> (r: Vec<char>)
    ensures
        !has_dangerous_uri(html@) ==> r@ == html@,
{
    let step = sanitize_scheme(html, "javascript:");
    let step = sanitize_scheme(step, "data:");
    let step = sanitize_scheme(step, "vbscript:");
    let step = sanitize_scheme(step, "JAVASCRIPT:");
    let step = sanitize_scheme(step, "DATA:");
    sanitize_scheme(step, "VBSCRIPT:")
}

/// Render Markdown to HTML with GFM extensions, raw HTML filtered out,
/// dangerous URI schemes neutralized, and the input size capped. A
/// document whose rendering carries no dangerous URI is returned exactly
/// as pulldown-cmark renders it.
pub fn render_markdown(input: &str) -> (r: Result<String, RenderError>)
    ensures
        r is Ok <==> encode_utf8(input@).len() as usize <= MAX_INPUT_SIZE,
        r matches Err(e) ==> e.message@ == "Input too large: "@ + dec_digits(
            encode_utf8(input@).len() as usize as int,
        ) + " bytes exceeds 2MB limit"@,
        r matches Ok(s) ==> (input@.len() == 0 ==> s@ == Seq::<char>::empty()),
        r matches Ok(s) ==> (input@.len() > 0 && !has_dangerous_uri(gfm_html_of(input@)) ==> s@
            == gfm_html_of(input@)),
{
    if input.len() > MAX_INPUT_SIZE {
        let mut message = String::from_str("Input too large: ");
        let digits = usize_to_string(input.len());
        message.append(digits.as_str());
        message.append(" bytes exceeds 2MB limit");
        return Err(RenderError { message });
    }
    if input.is_empty() {
        return Ok(String::new());
    }
    let html = gfm_html(input);
    let hchars = chars_vec(html.as_str());
    let sanitized = sanitize_dangerous_uris(hchars);
    Ok(chars_to_string(&sanitized))
}

} // verus!
