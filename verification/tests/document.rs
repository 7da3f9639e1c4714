use rokf::document::OkfDocumentText;

#[test]
fn missing_frontmatter_opening_has_no_closed_frontmatter() {
    let document = OkfDocumentText::new("# Customers\n");

    assert!(!document.has_frontmatter_opening());
    assert!(document.closed_frontmatter().is_none());
}

#[test]
fn unclosed_frontmatter_has_opening_but_no_closed_frontmatter() {
    let document = OkfDocumentText::new("---");

    assert!(document.has_frontmatter_opening());
    assert!(document.closed_frontmatter().is_none());
}

#[test]
fn closed_frontmatter_tracks_first_body_line_index() {
    let document = OkfDocumentText::new("---\ntype: Table\n---\n\n# Customers\n");
    let frontmatter = document.closed_frontmatter().expect("closed frontmatter");
    let body_lines = document
        .lines()
        .into_iter()
        .skip(frontmatter.body_start_index())
        .collect::<Vec<_>>();

    assert_eq!(body_lines, vec!["", "# Customers"]);
}

#[test]
fn metadata_value_reads_string_fields() {
    let document = OkfDocumentText::new("---\ntitle: Customers\ncount: 1\n---\n");

    assert_eq!(
        document.metadata_value("title"),
        Some("Customers".to_string())
    );
    assert_eq!(document.metadata_value("count"), None);
    assert_eq!(document.metadata_value("missing"), None);
}

#[test]
fn malformed_yaml_returns_a_parse_error() {
    let document = OkfDocumentText::new("---\ntags: [customers\n---\n");
    let frontmatter = document.closed_frontmatter().expect("closed frontmatter");

    assert!(frontmatter.parse_mapping().is_err());
}

#[test]
fn closed_frontmatter_exposes_raw_yaml() {
    let document = OkfDocumentText::new("---\ntype: Table\ntitle: T\n---\nBody\n");
    let frontmatter = document.closed_frontmatter().expect("closed frontmatter");

    assert_eq!(frontmatter.raw(), "type: Table\ntitle: T");
    assert_eq!(frontmatter.body_start_index(), 4);
}

#[test]
fn opening_without_trailing_line_feed_is_not_closed() {
    let document = OkfDocumentText::new("---\n");

    assert!(document.has_frontmatter_opening());
    assert!(document.closed_frontmatter().is_none());
}

#[test]
fn whitespace_around_lone_delimiter_still_opens_frontmatter() {
    let document = OkfDocumentText::new("  ---\t\n");

    assert!(document.has_frontmatter_opening());
    assert!(document.closed_frontmatter().is_none());
}

#[test]
fn empty_frontmatter_block_needs_a_line_before_the_closing_delimiter() {
    let immediately_closed = OkfDocumentText::new("---\n---\n");
    assert!(immediately_closed.closed_frontmatter().is_none());

    let with_blank_line = OkfDocumentText::new("---\n\n---\n");
    let frontmatter = with_blank_line
        .closed_frontmatter()
        .expect("closed frontmatter");
    assert_eq!(frontmatter.raw(), "");
    assert_eq!(frontmatter.body_start_index(), 3);
}

#[test]
fn metadata_value_is_none_without_closed_frontmatter() {
    let document = OkfDocumentText::new("title: Customers\n");
    assert_eq!(document.metadata_value("title"), None);

    let malformed = OkfDocumentText::new("---\ntitle: [Customers\n---\n");
    assert_eq!(malformed.metadata_value("title"), None);
}

#[test]
fn lines_follow_str_lines() {
    let contents = "a\r\nb\n\nc\r";
    let document = OkfDocumentText::new(contents);

    assert_eq!(document.lines(), contents.lines().collect::<Vec<_>>());
    assert_eq!(document.lines(), vec!["a", "b", "", "c\r"]);
    assert!(OkfDocumentText::new("").lines().is_empty());
    assert_eq!(OkfDocumentText::new("x\n").lines(), vec!["x"]);
}
