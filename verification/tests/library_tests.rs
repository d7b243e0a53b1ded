use mdsite::{
    append_references, broken_link_allowed, extract_fm_content, fix_internal_links,
    get_html_with_options, get_links_to, get_table_of_contents_from_html, parse_front_matter,
    slugify, ParserOptions,
};

#[test]
fn test_append_references_with_references() {
    let out = append_references("content", Some("[a]: http://example.com"));
    assert_eq!(out, "content\n\n[a]: http://example.com");
}

#[test]
fn test_append_references_without_references() {
    let out = append_references("content", None);
    assert_eq!(out, "content");
}

#[test]
fn test_slugify_basic() {
    assert_eq!(slugify("Hello World"), "hello-world");
    assert_eq!(slugify("Already-Slugged"), "already-slugged");
    assert_eq!(slugify("  Spaces  "), "spaces");
    assert_eq!(slugify("Header 1"), "header-1");
    assert_eq!(slugify(""), "");
}

#[test]
fn test_broken_link_allowed_cases() {
    assert!(broken_link_allowed("http://example.com"));
    assert!(broken_link_allowed("!callout"));
    assert!(broken_link_allowed("#anchor"));
    assert!(broken_link_allowed("^footnote"));
    assert!(broken_link_allowed("/absolute"));
    assert!(broken_link_allowed("x"));
    assert!(broken_link_allowed(""));
    assert!(!broken_link_allowed("7"));
    assert!(!broken_link_allowed("missing"));
}

#[test]
fn test_parse_front_matter_yaml() {
    let content = "---\ntitle: Example\n---\nBody text";
    let (fm, rest) = parse_front_matter(content).unwrap();
    assert_eq!(rest, "Body text");
    assert_eq!(fm.get("title").unwrap().as_str().unwrap(), "Example");
}

#[test]
fn test_parse_front_matter_toml() {
    let content = "+++\ntitle = \"Example\"\n+++\nBody text";
    let (fm, rest) = parse_front_matter(content).unwrap();
    assert_eq!(rest, "Body text");
    assert_eq!(fm.get("title").unwrap().as_str().unwrap(), "Example");
}

#[test]
fn test_parse_front_matter_none() {
    let content = "\n\nJust a document";
    let (fm, rest) = parse_front_matter(content).unwrap();
    assert_eq!(rest, "Just a document");
    assert!(fm.is_empty());
}

#[test]
fn test_parse_front_matter_bad_yaml_is_error() {
    let content = "---\n:{ not yaml ::\n---\nBody";
    assert!(parse_front_matter(content).is_err());
}

#[test]
fn test_fix_internal_links_uppercase_media_extension() {
    let html = r#"<a href="media/IMAGE.JPG">View</a>"#;
    assert_eq!(fix_internal_links(html), html);
}

#[test]
fn test_fix_internal_links_fragment_is_slugged() {
    let html = r#"<a href="page.md#My-Heading">page.md</a>"#;
    let expected = r#"<a href="page.html#my-heading">page</a>"#;
    assert_eq!(fix_internal_links(html), expected);
}

#[test]
fn test_fix_internal_links_anchor_class_untouched() {
    let html = r##"<a href="#title" aria-hidden="true" class="anchor" id="title"></a>"##;
    assert_eq!(fix_internal_links(html), html);
}

#[test]
fn test_fix_internal_links_text_breadcrumb() {
    let html = r#"<a href="notes#Setup">#notes#Setup</a>"#;
    let expected = r#"<a href="notes.html#setup">notes > Setup</a>"#;
    assert_eq!(fix_internal_links(html), expected);
}

#[test]
fn test_get_links_to_ignores_http_prefix() {
    let html = r#"<a href="https://example.com/page.html">external</a>"#;
    assert_eq!(get_links_to(html), None);
}

#[test]
fn test_toc_title_without_anchor_uses_slug() {
    let html = "<h2>Some Title</h2>";
    let expected = "<ul>\n<ul>\n<li><a href=\"#some-title\">Some Title</a></li>\n</ul>\n</ul>\n";
    assert_eq!(get_table_of_contents_from_html(html), expected);
}

#[test]
fn test_extract_fm_content_json() {
    let content = "{\n\"title\": \"Example\"\n}\nBody text";
    let (fm, rest) = extract_fm_content(content).unwrap();
    assert_eq!(rest, "Body text");
    assert_eq!(fm.get("title").unwrap().as_str().unwrap(), "Example");
}

#[test]
fn test_get_html_with_options_strikethrough_toggle() {
    let on = ParserOptions::default();
    assert_eq!(
        get_html_with_options("Hello ~world~ there.", &on),
        "<p>Hello <del>world</del> there.</p>\n"
    );
    let mut off = ParserOptions::default();
    off.strikethrough = false;
    assert_eq!(
        get_html_with_options("Hello ~world~ there.", &off),
        "<p>Hello ~world~ there.</p>\n"
    );
}
