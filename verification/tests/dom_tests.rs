use google_plus_posts_dumper::dom::format_markdown_link;

// Tests for format_markdown_link()
#[test]
fn test_format_markdown_link_url_equals_text() {
    let mut text = String::from("Check this out:");
    format_markdown_link(&mut text, "http://example.com", "http://example.com");
    assert_eq!(text, "Check this out: <http://example.com>");
}

#[test]
fn test_format_markdown_link_different_text() {
    let mut text = String::from("Visit");
    format_markdown_link(&mut text, "http://example.com", "Example Site");
    assert_eq!(text, "Visit [Example Site](http://example.com)");
}

#[test]
fn test_format_markdown_link_empty_text() {
    let mut text = String::from("Link:");
    format_markdown_link(&mut text, "http://example.com", "");
    assert_eq!(text, "Link: <http://example.com>");
}

#[test]
fn test_format_markdown_link_empty_buffer() {
    let mut text = String::new();
    format_markdown_link(&mut text, "http://example.com", "Example");
    assert_eq!(text, "[Example](http://example.com)");
}

#[test]
fn test_format_markdown_link_adds_space() {
    let mut text = String::from("Props.");
    format_markdown_link(&mut text, "http://example.com", "Example");
    assert_eq!(text, "Props. [Example](http://example.com)");
}

#[test]
fn test_format_markdown_link_no_double_space() {
    let mut text = String::from("Check this ");
    format_markdown_link(&mut text, "http://example.com", "link");
    assert_eq!(text, "Check this [link](http://example.com)");
}

#[test]
fn test_format_markdown_link_after_newline() {
    let mut text = String::from("Line one\n");
    format_markdown_link(&mut text, "http://example.com", "link");
    assert_eq!(text, "Line one\n[link](http://example.com)");
}

#[test]
fn test_format_markdown_link_https() {
    let mut text = String::from("Secure:");
    format_markdown_link(&mut text, "https://example.com", "https://example.com");
    assert_eq!(text, "Secure: <https://example.com>");
}
