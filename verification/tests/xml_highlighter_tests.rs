use airgap_json_formatter::xml_highlighter::{
    highlight_xml, COLOR_ATTR_VALUE, COLOR_CDATA, COLOR_COMMENT, COLOR_DECLARATION, COLOR_TAG,
};

#[test]
fn xml_highlighter_test_highlight_empty() {
    assert!(highlight_xml("").is_empty());
}

#[test]
fn test_highlight_simple_element() {
    let result = highlight_xml("<root>text</root>");
    assert!(result.contains("root"));
    assert!(result.contains("text"));
    assert!(result.contains("<span"));
}

#[test]
fn test_highlight_with_attributes() {
    let result = highlight_xml(r#"<elem attr="value"/>"#);
    assert!(result.contains("elem"));
    assert!(result.contains("attr"));
    assert!(result.contains("value"));
}

#[test]
fn test_highlight_comment() {
    let result = highlight_xml("<!-- comment -->");
    assert!(result.contains("comment"));
    assert!(result.contains(COLOR_COMMENT));
}

#[test]
fn test_highlight_cdata() {
    let result = highlight_xml("<![CDATA[raw data]]>");
    assert!(result.contains("raw data"));
    assert!(result.contains(COLOR_CDATA));
}

#[test]
fn test_highlight_declaration() {
    let result = highlight_xml(r#"<?xml version="1.0"?>"#);
    assert!(result.contains("xml"));
    assert!(result.contains(COLOR_DECLARATION));
}

#[test]
fn test_highlight_namespace() {
    let result = highlight_xml(r#"<ns:root xmlns:ns="http://example.com"/>"#);
    assert!(result.contains("ns:root"));
    assert!(result.contains("xmlns:ns"));
}

#[test]
fn test_escapes_html() {
    let result = highlight_xml("<root><![CDATA[<script>]]></root>");
    assert!(!result.contains("<script>"));
    assert!(result.contains("&lt;script&gt;"));
}

// ========== Malformed XML and edge case tests ==========

// Control char after < must terminate
#[test]
fn test_control_char_after_tag_open_terminates() {
    let result = highlight_xml("<\x01");
    // Must terminate (not hang) and return valid HTML
    assert!(result.contains("<pre"));
    assert!(result.contains("</pre>"));
    // The < should be escaped as &lt;
    assert!(result.contains("&lt;"));
}

// Null byte after < must terminate
#[test]
fn test_null_byte_after_tag_open_terminates() {
    let result = highlight_xml("<\x00");
    // Must terminate (not hang) and return valid HTML
    assert!(result.contains("<pre"));
    assert!(result.contains("</pre>"));
    // The < should be escaped as &lt;
    assert!(result.contains("&lt;"));
}

// Unclosed tag flushes with TAG color
#[test]
fn test_unclosed_tag_flushes_with_tag_color() {
    let result = highlight_xml("<root");
    assert!(result.contains("<pre"));
    assert!(result.contains("</pre>"));
    // "root" should be in TAG color (#569cd6)
    assert!(result.contains(COLOR_TAG));
    assert!(result.contains("root"));
}

// Unclosed comment flushes with COMMENT color
#[test]
fn test_unclosed_comment_flushes_with_comment_color() {
    let result = highlight_xml("<!-- comment");
    assert!(result.contains("<pre"));
    assert!(result.contains("</pre>"));
    // Remainder should be in COMMENT color (#6a9955)
    assert!(result.contains(COLOR_COMMENT));
    assert!(result.contains("comment"));
}

// Unclosed CDATA flushes with CDATA color
#[test]
fn test_unclosed_cdata_flushes_with_cdata_color() {
    let result = highlight_xml("<![CDATA[data");
    assert!(result.contains("<pre"));
    assert!(result.contains("</pre>"));
    // Remainder should be in CDATA color (#dcdcaa)
    assert!(result.contains(COLOR_CDATA));
    assert!(result.contains("data"));
}

// Unclosed attribute value flushes with ATTR_VALUE color
#[test]
fn test_unclosed_attr_value_flushes_with_attr_value_color() {
    let result = highlight_xml("<a b=\"value");
    assert!(result.contains("<pre"));
    assert!(result.contains("</pre>"));
    // "value should be in ATTR_VALUE color (#ce9178)
    assert!(result.contains(COLOR_ATTR_VALUE));
    assert!(result.contains("value"));
}

// Incomplete entity (no semicolon) - valid HTML, no crash
#[test]
fn test_incomplete_entity_no_crash() {
    let result = highlight_xml("&amp");
    assert!(result.contains("<pre"));
    assert!(result.contains("</pre>"));
    // Entity should be in output (escaped)
    assert!(result.contains("&amp;amp")); // & becomes &amp;, then "amp" follows
}

// Input exceeding 5MB limit returns error message
#[test]
fn xml_highlighter_test_input_exceeds_5mb_limit() {
    // Generate input slightly over 5MB
    let large_input: String = "x".repeat(5 * 1024 * 1024 + 1);
    let result = highlight_xml(&large_input);
    assert!(result.contains("Error: Input exceeds 5MB limit"));
    assert!(result.contains("#f44336")); // Error color
}

// ========== XSS protection tests ==========

// Single-quoted attribute produces &#39; in output
#[test]
fn test_single_quote_escaped_in_attribute() {
    let result = highlight_xml("<a b='val'>");
    // Single quotes should be escaped as &#39;
    assert!(result.contains("&#39;"));
    // Should NOT contain unescaped single quote in span content
    // The raw ' character should not appear between > and <
    assert!(!result.contains(">val'<") && !result.contains(">'val"));
}

// <script>alert(1)</script> fully escaped
#[test]
fn test_script_tag_xss_escaped() {
    let result = highlight_xml("<script>alert(1)</script>");
    // The <script> tag should be rendered as highlighted XML, not as executable HTML
    // Tag name "script" should be in output
    assert!(result.contains("script"));
    // All < and > should be escaped
    assert!(result.contains("&lt;"));
    assert!(result.contains("&gt;"));
    // No raw <script> tag should exist in output
    assert!(!result.contains("<script>"));
}

// Attribute-context XSS (onclick handler) escaped
#[test]
fn test_onclick_attribute_xss_escaped() {
    let result = highlight_xml(r#"<a onclick="alert(1)">"#);
    // "onclick" should appear (as attribute name)
    assert!(result.contains("onclick"));
    // The quotes in value should be escaped
    assert!(result.contains("&quot;") || result.contains("&#34;"));
    // No raw double quote in attribute value context that could break out
    assert!(result.contains("alert(1)"));
}

// All 5 HTML special chars individually verified in output
#[test]
fn test_all_five_special_chars_escaped() {
    // Test input with all 5 special chars in text content
    let result = highlight_xml("<root>Test: < > & \" '</root>");

    // Each special char should be escaped
    assert!(result.contains("&lt;")); // <
    assert!(result.contains("&gt;")); // >
    assert!(result.contains("&amp;")); // &
    assert!(result.contains("&quot;")); // "
    assert!(result.contains("&#39;")); // '
}

// ========== Performance tests ==========

// Generate 100KB of valid XML for benchmarking
fn generate_100kb_xml() -> String {
    let mut xml = String::with_capacity(110_000);
    xml.push_str("<?xml version=\"1.0\" encoding=\"UTF-8\"?>\n");
    xml.push_str("<root>\n");

    // Each item is ~50 bytes, need ~2000 items for 100KB
    for i in 0..2000 {
        xml.push_str(&format!(
            "  <item id=\"{}\" attr=\"value{}\">Content text {}</item>\n",
            i, i, i
        ));
    }

    xml.push_str("</root>");
    xml
}

// 100KB XML document highlights in < 100ms
#[test]
fn test_100kb_xml_performance() {
    let xml = generate_100kb_xml();
    let input_size = xml.len();
    assert!(
        input_size >= 100_000,
        "Generated XML should be at least 100KB, got {} bytes",
        input_size
    );

    let start = std::time::Instant::now();
    let result = highlight_xml(&xml);
    let duration = start.elapsed();

    // Verify result is valid
    assert!(result.contains("<pre"));
    assert!(result.contains("</pre>"));
    assert!(result.contains(COLOR_TAG));

    // Performance assertion: must complete in < 100ms
    assert!(
        duration.as_millis() < 100,
        "100KB XML highlighting took {}ms, expected < 100ms",
        duration.as_millis()
    );

    // Log actual performance (visible with --nocapture)
    println!("Performance: {}KB input highlighted in {:?}", input_size / 1024, duration);
}

// Memory usage verification (log allocation ratios)
#[test]
fn test_memory_usage_logging() {
    let xml = generate_100kb_xml();
    let input_size = xml.len();

    let result = highlight_xml(&xml);
    let output_size = result.len();

    // Due to HTML span tags wrapping each token, output will be significantly larger.
    // Each token gets ~40 chars of span overhead (<span style="color:#xxxxxx">...</span>)
    // A realistic ratio for heavily-tagged XML is 8-12x.
    let ratio = output_size as f64 / input_size as f64;

    // Log allocation sizes (visible with --nocapture)
    println!(
        "Memory: input={}KB, output={}KB, ratio={:.2}x",
        input_size / 1024,
        output_size / 1024,
        ratio
    );

    // Verify output is reasonable (not exponentially larger due to a bug)
    // Allow up to 15x for heavily tagged content with full highlighting
    assert!(
        ratio < 15.0,
        "Output/input ratio {:.2}x exceeds 15x limit. Input: {}KB, Output: {}KB. This may indicate a bug.",
        ratio,
        input_size / 1024,
        output_size / 1024
    );

    // Verify the output is valid HTML
    assert!(result.starts_with("<pre"));
    assert!(result.ends_with("</pre>"));
}
