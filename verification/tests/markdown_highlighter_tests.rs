use airgap_json_formatter::markdown_highlighter::{
    highlight_markdown, COLOR_BLOCKQUOTE, COLOR_CODE, COLOR_HEADING, COLOR_HR, COLOR_LINK_TEXT,
    COLOR_LINK_URL, COLOR_LIST_MARKER, COLOR_MERMAID, COLOR_STRIKE,
};

// ========== Basic module tests ==========

#[test]
fn markdown_highlighter_test_highlight_empty() {
    assert!(highlight_markdown("").is_empty());
}

#[test]
fn test_highlight_simple_text() {
    let result = highlight_markdown("Hello world");
    assert!(result.contains("<pre"));
    assert!(result.contains("</pre>"));
    assert!(result.contains("Hello world"));
}

// ========== Heading tests ==========

#[test]
fn markdown_highlighter_test_heading_h1() {
    let result = highlight_markdown("# Heading 1");
    assert!(result.contains(COLOR_HEADING));
    assert!(result.contains("Heading 1"));
}

#[test]
fn test_heading_h2() {
    let result = highlight_markdown("## Heading 2");
    assert!(result.contains(COLOR_HEADING));
}

#[test]
fn test_heading_h6() {
    let result = highlight_markdown("###### Heading 6");
    assert!(result.contains(COLOR_HEADING));
}

#[test]
fn test_not_heading_h7() {
    let result = highlight_markdown("####### Too many");
    // Should not be highlighted as heading
    assert!(!result.contains(COLOR_HEADING));
}

#[test]
fn test_heading_requires_space() {
    let result = highlight_markdown("#NoSpace");
    // Without space after #, not a heading
    assert!(!result.contains(COLOR_HEADING));
}

// ========== Emphasis tests ==========

#[test]
fn test_bold_asterisks() {
    let result = highlight_markdown("This is **bold** text");
    assert!(result.contains("font-weight:bold"));
    assert!(result.contains("bold"));
}

#[test]
fn test_bold_underscores() {
    let result = highlight_markdown("This is __bold__ text");
    assert!(result.contains("font-weight:bold"));
}

#[test]
fn test_italic_asterisk() {
    let result = highlight_markdown("This is *italic* text");
    assert!(result.contains("font-style:italic"));
}

#[test]
fn test_italic_underscore() {
    let result = highlight_markdown("This is _italic_ text");
    assert!(result.contains("font-style:italic"));
}

#[test]
fn markdown_highlighter_test_strikethrough() {
    let result = highlight_markdown("This is ~~strikethrough~~ text");
    assert!(result.contains("text-decoration:line-through"));
    assert!(result.contains(COLOR_STRIKE));
}

#[test]
fn test_nested_emphasis() {
    let result = highlight_markdown("This is ***bold and italic*** text");
    // Should handle nested patterns
    assert!(result.contains("<span"));
}

// ========== Code tests ==========

#[test]
fn markdown_highlighter_test_inline_code() {
    let result = highlight_markdown("Use `code` here");
    assert!(result.contains(COLOR_CODE));
    assert!(result.contains("code"));
}

#[test]
fn test_code_block() {
    let result = highlight_markdown("```\ncode block\n```");
    assert!(result.contains(COLOR_CODE));
    assert!(result.contains("code block"));
}

#[test]
fn markdown_highlighter_test_code_block_with_language() {
    let result = highlight_markdown("```rust\nlet x = 1;\n```");
    assert!(result.contains(COLOR_CODE));
    assert!(result.contains("rust"));
}

#[test]
fn markdown_highlighter_test_mermaid_block() {
    let result = highlight_markdown("```mermaid\ngraph TD\n  A-->B\n```");
    assert!(result.contains(COLOR_MERMAID));
}

#[test]
fn test_mermaid_case_insensitive() {
    let result = highlight_markdown("```MERMAID\ngraph TD\n```");
    assert!(result.contains(COLOR_MERMAID));
}

#[test]
fn test_unclosed_code_block_eof() {
    let result = highlight_markdown("```rust\nfn main() {}");
    // Should still produce valid HTML with proper color
    assert!(result.contains(COLOR_CODE));
    assert!(result.contains("</pre>"));
}

// ========== Link tests ==========

#[test]
fn markdown_highlighter_test_link() {
    let result = highlight_markdown("[click here](https://example.com)");
    assert!(result.contains(COLOR_LINK_TEXT));
    assert!(result.contains(COLOR_LINK_URL));
    assert!(result.contains("click here"));
    assert!(result.contains("https://example.com"));
}

#[test]
fn test_reference_link() {
    let result = highlight_markdown("[text][ref]");
    assert!(result.contains(COLOR_LINK_TEXT));
    assert!(result.contains(COLOR_LINK_URL));
    assert!(result.contains("text"));
    assert!(result.contains("ref"));
}

// ========== List and blockquote tests ==========

#[test]
fn test_unordered_list_dash() {
    let result = highlight_markdown("- List item");
    assert!(result.contains(COLOR_LIST_MARKER));
}

#[test]
fn test_unordered_list_asterisk() {
    let result = highlight_markdown("* List item");
    assert!(result.contains(COLOR_LIST_MARKER));
}

#[test]
fn markdown_highlighter_test_ordered_list() {
    let result = highlight_markdown("1. First item");
    assert!(result.contains(COLOR_LIST_MARKER));
}

#[test]
fn markdown_highlighter_test_blockquote() {
    let result = highlight_markdown("> Quoted text");
    assert!(result.contains(COLOR_BLOCKQUOTE));
}

#[test]
fn test_horizontal_rule_dashes() {
    let result = highlight_markdown("---");
    assert!(result.contains(COLOR_HR));
}

#[test]
fn test_horizontal_rule_asterisks() {
    let result = highlight_markdown("***");
    assert!(result.contains(COLOR_HR));
}

// ========== XSS protection tests ==========

#[test]
fn test_xss_script_tag() {
    let result = highlight_markdown("<script>alert('xss')</script>");
    assert!(!result.contains("<script>"));
    assert!(result.contains("&lt;script&gt;"));
}

#[test]
fn test_xss_in_heading() {
    let result = highlight_markdown("# <script>alert('xss')</script>");
    assert!(!result.contains("<script>"));
    assert!(result.contains("&lt;script&gt;"));
}

#[test]
fn test_xss_span_injection() {
    let result = highlight_markdown("**</span><script>alert(1)</script>**");
    assert!(!result.contains("<script>"));
    assert!(result.contains("&lt;script&gt;"));
    // Span should be properly escaped
    assert!(result.contains("&lt;/span&gt;"));
}

#[test]
fn test_xss_quote_escaping() {
    let result = highlight_markdown("# Test \" with ' quotes");
    assert!(result.contains("&quot;"));
    assert!(result.contains("&#39;"));
}

#[test]
fn test_xss_all_five_chars() {
    let result = highlight_markdown("Test: < > & \" '");
    assert!(result.contains("&lt;"));
    assert!(result.contains("&gt;"));
    assert!(result.contains("&amp;"));
    assert!(result.contains("&quot;"));
    assert!(result.contains("&#39;"));
}

#[test]
fn test_xss_javascript_url() {
    let result = highlight_markdown("[click](javascript:alert(1))");
    // URL should be escaped, not executable
    assert!(result.contains("javascript:alert(1)"));
    // Should be in a span, not an actual link
    assert!(!result.contains("href="));
}

// ========== Performance tests ==========

#[test]
fn test_large_document_performance() {
    let large_doc = "# Heading\n\nParagraph with **bold** and *italic*.\n\n".repeat(10000);
    let start = std::time::Instant::now();
    let result = highlight_markdown(&large_doc);
    let duration = start.elapsed();

    assert!(result.contains("<pre"));
    assert!(result.contains("</pre>"));
    let max_ms = 200;
    assert!(
        duration.as_millis() < max_ms,
        "1MB document highlighting took {}ms, expected < {}ms",
        duration.as_millis(),
        max_ms
    );
}

#[test]
fn test_pathological_regex_input() {
    // Many consecutive asterisks that could cause backtracking
    let input = "*****many*****";
    let start = std::time::Instant::now();
    let result = highlight_markdown(input);
    let duration = start.elapsed();

    assert!(result.contains("<pre"));
    assert!(
        duration.as_millis() < 100,
        "Pathological input took {}ms, expected < 100ms",
        duration.as_millis()
    );
}

#[test]
fn markdown_highlighter_test_input_exceeds_5mb_limit() {
    let large_input: String = "x".repeat(5 * 1024 * 1024 + 1);
    let result = highlight_markdown(&large_input);
    assert!(result.contains("Error: Input exceeds 5MB limit"));
}

// ========== Edge case tests ==========

#[test]
fn test_empty_bold() {
    let result = highlight_markdown("****"); // Empty bold
    // Should not crash, output valid HTML
    assert!(result.contains("<pre"));
    assert!(result.contains("</pre>"));
}

#[test]
fn test_unclosed_emphasis() {
    let result = highlight_markdown("**unclosed bold");
    // Should not hang, output as plain text
    assert!(result.contains("<pre"));
    assert!(result.contains("unclosed bold"));
}

#[test]
fn markdown_highlighter_test_unicode_content() {
    let result = highlight_markdown("# 日本語 heading");
    assert!(result.contains(COLOR_HEADING));
    assert!(result.contains("日本語"));
}

#[test]
fn test_mixed_content() {
    let input = "# Header\n\n**Bold** and *italic*\n\n```rust\ncode\n```\n\n- List\n> Quote";
    let result = highlight_markdown(input);
    assert!(result.contains(COLOR_HEADING));
    assert!(result.contains("font-weight:bold"));
    assert!(result.contains("font-style:italic"));
    assert!(result.contains(COLOR_CODE));
    assert!(result.contains(COLOR_LIST_MARKER));
    assert!(result.contains(COLOR_BLOCKQUOTE));
}
