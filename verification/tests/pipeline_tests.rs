use google_plus_posts_dumper::dom::{
    find_parent_href, get_attr_value, get_text_content, get_text_content_formatted, has_attr,
    has_class,
};
use google_plus_posts_dumper::markdown::{generate_markdown, transform_image_path};
use google_plus_posts_dumper::models::PostData;
use google_plus_posts_dumper::parser::extract_post_data;
use google_plus_posts_dumper::tree::{Attr, NodeData, Tree};
use google_plus_posts_dumper::utils::date_prefix_of;

fn attr(name: &str, value: &str) -> Attr {
    Attr {
        name: name.to_string(),
        value: value.to_string(),
    }
}

fn elem(tree: &mut Tree, parent: usize, tag: &str, attrs: Vec<Attr>) -> usize {
    tree.add_node(
        parent,
        NodeData::Element {
            tag: tag.to_string(),
            attrs,
        },
    )
}

fn text(tree: &mut Tree, parent: usize, s: &str) -> usize {
    tree.add_node(
        parent,
        NodeData::Text {
            contents: s.to_string(),
        },
    )
}

#[test]
fn test_predicates_on_attributes() {
    let attrs = vec![attr("class", "entry author-line"), attr("rel", "nofollow")];
    assert!(has_class(&attrs, "author"));
    assert!(has_class(&attrs, "entry"));
    assert!(!has_class(&attrs, "comment"));
    assert!(has_attr(&attrs, "rel", "nofollow"));
    assert!(!has_attr(&attrs, "rel", "follow"));
    assert_eq!(
        get_attr_value(&attrs, "class"),
        Some("entry author-line".to_string())
    );
    assert_eq!(get_attr_value(&attrs, "href"), None);
}

#[test]
fn test_plain_text_ignores_structure() {
    let mut tree = Tree::new();
    let div = elem(&mut tree, 0, "div", vec![]);
    text(&mut tree, div, "  Hello ");
    elem(&mut tree, div, "br", vec![]);
    text(&mut tree, div, "world  ");
    assert_eq!(get_text_content(&tree, div), "Hello world");
}

#[test]
fn test_formatted_text_breaks_and_links() {
    let mut tree = Tree::new();
    let div = elem(&mut tree, 0, "div", vec![]);
    text(&mut tree, div, "Hello");
    elem(&mut tree, div, "br", vec![]);
    text(&mut tree, div, "world");
    let a = elem(
        &mut tree,
        div,
        "a",
        vec![attr("href", "http://example.com")],
    );
    text(&mut tree, a, "http://example.com");
    assert_eq!(
        get_text_content_formatted(&tree, div),
        "Hello\nworld <http://example.com>"
    );
}

#[test]
fn test_find_parent_href_walks_up() {
    let mut tree = Tree::new();
    let a = elem(
        &mut tree,
        0,
        "a",
        vec![attr("href", "http://video.example/v/1")],
    );
    let wrap = elem(&mut tree, a, "div", vec![]);
    let ph = elem(&mut tree, wrap, "div", vec![attr("class", "video-placeholder")]);
    assert_eq!(
        find_parent_href(&tree, ph),
        Some("http://video.example/v/1".to_string())
    );
}

#[test]
fn test_find_parent_href_none_without_ancestor() {
    let mut tree = Tree::new();
    let div = elem(&mut tree, 0, "div", vec![]);
    let inner = elem(&mut tree, div, "span", vec![]);
    assert_eq!(find_parent_href(&tree, inner), None);
}

#[test]
fn test_comment_missing_author_dropped() {
    let mut tree = Tree::new();
    let comment = elem(&mut tree, 0, "div", vec![attr("class", "comment")]);
    let content = elem(
        &mut tree,
        comment,
        "div",
        vec![attr("class", "comment-content")],
    );
    text(&mut tree, content, "Nice post");
    let post = extract_post_data(&tree);
    assert_eq!(post.comments.len(), 0);
}

#[test]
fn test_comment_valid_kept() {
    let mut tree = Tree::new();
    let comment = elem(&mut tree, 0, "div", vec![attr("class", "comment")]);
    let author = elem(&mut tree, comment, "a", vec![attr("class", "author")]);
    text(&mut tree, author, "Bob");
    let time = elem(&mut tree, comment, "span", vec![attr("class", "time")]);
    text(&mut tree, time, "- 2011-08-14 20:39:28-0700");
    let content = elem(
        &mut tree,
        comment,
        "div",
        vec![attr("class", "comment-content")],
    );
    text(&mut tree, content, "Hi there");
    let post = extract_post_data(&tree);
    assert_eq!(post.comments.len(), 1);
    assert_eq!(post.comments[0].author, "Bob");
    assert_eq!(post.comments[0].date, "2011-08-15T03:39:28Z");
    assert_eq!(post.comments[0].content, "Hi there");
}

#[test]
fn test_author_first_match_wins() {
    let mut tree = Tree::new();
    let first = elem(&mut tree, 0, "a", vec![attr("class", "author")]);
    text(&mut tree, first, "Alice");
    let second = elem(&mut tree, 0, "a", vec![attr("class", "author")]);
    text(&mut tree, second, "Mallory");
    let post = extract_post_data(&tree);
    assert_eq!(post.author, "Alice");
}

#[test]
fn test_date_and_canonical_url() {
    let mut tree = Tree::new();
    let a = elem(
        &mut tree,
        0,
        "a",
        vec![attr("href", "https://plus.example.com/+A/posts/xyz")],
    );
    text(&mut tree, a, "2011-08-14 20:39:28-0700");
    let post = extract_post_data(&tree);
    assert_eq!(post.date, "2011-08-15T03:39:28Z");
    assert_eq!(post.canonical_url, "https://plus.example.com/+A/posts/xyz");
}

#[test]
fn test_visibility_prefix_stripped() {
    let mut tree = Tree::new();
    let div = elem(&mut tree, 0, "div", vec![attr("class", "visibility")]);
    text(&mut tree, div, "Shared with: Public");
    let post = extract_post_data(&tree);
    assert_eq!(post.visibility, "Public");
}

#[test]
fn test_plus_ones_split() {
    let mut tree = Tree::new();
    let div = elem(&mut tree, 0, "div", vec![attr("class", "plus-oners")]);
    text(&mut tree, div, "+1'd by: Alice, Bob, Carol");
    let post = extract_post_data(&tree);
    assert_eq!(post.plus_ones, vec!["Alice", "Bob", "Carol"]);
}

#[test]
fn test_plus_ones_without_prefix_ignored() {
    let mut tree = Tree::new();
    let div = elem(&mut tree, 0, "div", vec![attr("class", "plus-oners")]);
    text(&mut tree, div, "Alice, Bob");
    let post = extract_post_data(&tree);
    assert_eq!(post.plus_ones.len(), 0);
}

#[test]
fn test_links_nofollow_collected_in_order() {
    let mut tree = Tree::new();
    let a1 = elem(
        &mut tree,
        0,
        "a",
        vec![attr("rel", "nofollow"), attr("href", "http://one.example")],
    );
    text(&mut tree, a1, "One");
    let a2 = elem(
        &mut tree,
        0,
        "a",
        vec![attr("class", "link-embed"), attr("href", "http://two.example")],
    );
    text(&mut tree, a2, "Two");
    let post = extract_post_data(&tree);
    assert_eq!(
        post.links,
        vec![
            ("http://one.example".to_string(), "One".to_string()),
            ("http://two.example".to_string(), "Two".to_string())
        ]
    );
}

#[test]
fn test_images_collected_in_order() {
    let mut tree = Tree::new();
    elem(
        &mut tree,
        0,
        "img",
        vec![attr("class", "media"), attr("src", "a/first.jpg")],
    );
    elem(
        &mut tree,
        0,
        "img",
        vec![attr("class", "media"), attr("src", "b/second.jpg")],
    );
    let post = extract_post_data(&tree);
    assert_eq!(post.images, vec!["a/first.jpg", "b/second.jpg"]);
}

#[test]
fn test_location_cleaned_in_record() {
    let mut tree = Tree::new();
    let div = elem(&mut tree, 0, "div", vec![attr("class", "location")]);
    text(&mut tree, div, "123 Main StreetAddress: City");
    let post = extract_post_data(&tree);
    assert_eq!(
        post.location,
        Some("123 Main Street Address: City".to_string())
    );
}

#[test]
fn test_title_placeholder_excluded() {
    let mut tree = Tree::new();
    let title = elem(&mut tree, 0, "title", vec![]);
    text(&mut tree, title, "Google+ post");
    let post = extract_post_data(&tree);
    assert_eq!(post.title, "");
}

#[test]
fn test_reshare_attribution_and_body() {
    let mut tree = Tree::new();
    let wrap = elem(&mut tree, 0, "div", vec![]);
    let a = elem(
        &mut tree,
        wrap,
        "a",
        vec![attr("class", "reshare-attribution")],
    );
    text(&mut tree, a, "Originally shared by Dave");
    text(&mut tree, wrap, "Shared body text");
    let post = extract_post_data(&tree);
    assert_eq!(post.reshare_author, Some("Dave".to_string()));
    assert_eq!(post.reshare_content, Some("Shared body text".to_string()));
}

#[test]
fn test_video_url_from_ancestor() {
    let mut tree = Tree::new();
    let a = elem(
        &mut tree,
        0,
        "a",
        vec![attr("href", "http://video.example/v/9")],
    );
    elem(&mut tree, a, "div", vec![attr("class", "video-placeholder")]);
    let post = extract_post_data(&tree);
    assert_eq!(post.video_url, Some("http://video.example/v/9".to_string()));
}

#[test]
fn test_render_always_one_trailing_newline() {
    let empty = PostData::default();
    let md = generate_markdown(&empty, "");
    assert!(md.ends_with('\n'));
    assert!(!md[..md.len() - 1].ends_with(|c: char| c.is_whitespace()));

    let mut tree = Tree::new();
    let comment = elem(&mut tree, 0, "div", vec![attr("class", "comment")]);
    let author = elem(&mut tree, comment, "a", vec![attr("class", "author")]);
    text(&mut tree, author, "Bob");
    let content = elem(
        &mut tree,
        comment,
        "div",
        vec![attr("class", "comment-content")],
    );
    text(&mut tree, content, "Hi");
    let post = extract_post_data(&tree);
    let md2 = generate_markdown(&post, "2011-08-14");
    assert!(md2.ends_with('\n'));
    assert!(!md2[..md2.len() - 1].ends_with(|c: char| c.is_whitespace()));
}

#[test]
fn test_metadata_escaping_single_line() {
    let mut post = PostData::default();
    post.author = "He said \"hi\" \\ now\nbye".to_string();
    let md = generate_markdown(&post, "");
    assert!(md.contains("# author = \"He said \\\"hi\\\" \\\\ now bye\"\n"));
}

#[test]
fn test_end_to_end_document() {
    let mut tree = Tree::new();
    let author = elem(&mut tree, 0, "a", vec![attr("class", "author")]);
    text(&mut tree, author, "Alice");
    let datelink = elem(
        &mut tree,
        0,
        "a",
        vec![attr("href", "https://plus.example.com/+Alice/posts/abc")],
    );
    text(&mut tree, datelink, "2011-08-14 20:39:28-0700");
    let main = elem(&mut tree, 0, "div", vec![attr("class", "main-content")]);
    text(&mut tree, main, "Hello world");
    elem(&mut tree, main, "br", vec![]);
    text(&mut tree, main, "Second line");
    let inner = elem(&mut tree, main, "a", vec![attr("href", "http://example.com")]);
    text(&mut tree, inner, "a link");
    let c1 = elem(&mut tree, 0, "div", vec![attr("class", "comment")]);
    let c1a = elem(&mut tree, c1, "a", vec![attr("class", "author")]);
    text(&mut tree, c1a, "Bob");
    let c1c = elem(&mut tree, c1, "div", vec![attr("class", "comment-content")]);
    text(&mut tree, c1c, "First!");
    let c2 = elem(&mut tree, 0, "div", vec![attr("class", "comment")]);
    let c2a = elem(&mut tree, c2, "a", vec![attr("class", "author")]);
    text(&mut tree, c2a, "Carol");
    let c2c = elem(&mut tree, c2, "div", vec![attr("class", "comment-content")]);
    text(&mut tree, c2c, "Second!");

    let post = extract_post_data(&tree);
    assert_eq!(post.author, "Alice");
    assert_eq!(post.date, "2011-08-15T03:39:28Z");
    assert_eq!(
        post.content,
        "Hello world\nSecond line [a link](http://example.com)"
    );
    assert_eq!(post.comments.len(), 2);

    let md = generate_markdown(&post, "2011-08-15");
    assert!(md.contains("Hello world\nSecond line [a link](http://example.com)"));
    assert!(md.contains("## Comments\n\n"));
    assert!(md.contains("**Bob**\n\nFirst!\n\n---\n\n**Carol**\n\nSecond!\n\n---"));
    assert_eq!(md.matches("\n---\n").count(), 2);
    assert!(md.contains("date = \"2011-08-15T03:39:28Z\"\n"));
    assert!(md.contains("canonicalURL = \"https://plus.example.com/+Alice/posts/abc\"\n"));
    assert!(md.contains("ShowCanonicalLink = true\n"));
    assert!(md.ends_with("Second!\n\n---\n"));
}

#[test]
fn test_nested_link_in_content_also_collected() {
    // A nofollow link inside the main content is rendered inline by the
    // formatted collector and still collected by the link rule.
    let mut tree = Tree::new();
    let main = elem(&mut tree, 0, "div", vec![attr("class", "main-content")]);
    text(&mut tree, main, "See");
    let a = elem(
        &mut tree,
        main,
        "a",
        vec![attr("rel", "nofollow"), attr("href", "http://example.com")],
    );
    text(&mut tree, a, "this");
    let post = extract_post_data(&tree);
    assert_eq!(post.content, "See [this](http://example.com)");
    assert_eq!(
        post.links,
        vec![("http://example.com".to_string(), "this".to_string())]
    );
}

#[test]
fn test_date_prefix_of_stem() {
    assert_eq!(date_prefix_of("2011-08-14-Today_is_my_first_day"), "2011-08-14");
    assert_eq!(date_prefix_of("random_file_name"), "");
    assert_eq!(date_prefix_of("short"), "");
}

#[test]
fn test_image_section_rewrites_paths() {
    let mut post = PostData::default();
    post.images = vec!["../Photos/pretty/image.jpg".to_string()];
    let md = generate_markdown(&post, "2011-11-04");
    assert!(md.contains("## Images\n\n![Image](/posts/2011-11-04-image.jpg)\n"));
    assert_eq!(
        transform_image_path("../Photos/pretty/image.jpg", "2011-11-04"),
        "/posts/2011-11-04-image.jpg"
    );
}
