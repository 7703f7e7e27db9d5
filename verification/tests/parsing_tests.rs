//! Tests of the document parser and the front matter grammar.
use sitegen::document::parse_document;
use sitegen::front_matter::parse_front_matter;
use sitegen::BuildError;

#[test]
fn title_only_metadata_parses_with_defaults() {
    let fm = parse_front_matter("title: Hello").unwrap();
    assert_eq!(fm.title, "Hello");
    assert!(fm.tags.is_empty());
    assert!(fm.datetime.is_none());
    assert!(fm.template.is_none());
}

#[test]
fn metadata_without_title_fails() {
    let r = parse_front_matter("description: something");
    assert!(matches!(r, Err(BuildError::Format(_))));
}

#[test]
fn empty_title_fails() {
    let r = parse_front_matter("title:");
    assert!(matches!(r, Err(BuildError::Format(_))));
}

#[test]
fn duplicate_title_fails() {
    let r = parse_front_matter("title: A\ntitle: B");
    assert!(matches!(r, Err(BuildError::Format(_))));
}

#[test]
fn tags_block_collects_items_in_order() {
    let fm = parse_front_matter("title: T\ntags:\n  - alpha\n  - beta").unwrap();
    assert_eq!(fm.tags, vec!["alpha".to_string(), "beta".to_string()]);
}

#[test]
fn tags_with_scalar_value_fails() {
    let r = parse_front_matter("title: T\ntags: not-a-list");
    assert!(matches!(r, Err(BuildError::Format(_))));
}

#[test]
fn list_item_under_no_key_fails() {
    let r = parse_front_matter("title: T\n- stray");
    assert!(matches!(r, Err(BuildError::Format(_))));
}

#[test]
fn line_without_colon_fails() {
    let r = parse_front_matter("title: T\njust words");
    assert!(matches!(r, Err(BuildError::Format(_))));
}

#[test]
fn unknown_key_is_ignored() {
    let fm = parse_front_matter("title: T\nauthor: someone").unwrap();
    assert_eq!(fm.title, "T");
}

#[test]
fn unknown_key_block_items_are_ignored() {
    let fm = parse_front_matter("title: T\nauthors:\n  - a\n  - b").unwrap();
    assert_eq!(fm.title, "T");
    assert!(fm.tags.is_empty());
}

#[test]
fn valid_datetime_is_kept() {
    let fm = parse_front_matter("title: T\ndatetime: 2023-01-02T03:04:05+00:00").unwrap();
    assert_eq!(fm.datetime.as_deref(), Some("2023-01-02T03:04:05+00:00"));
}

#[test]
fn invalid_datetime_fails() {
    let r = parse_front_matter("title: T\ndatetime: not-a-date");
    assert!(matches!(r, Err(BuildError::Format(_))));
}

#[test]
fn template_key_is_recorded() {
    let fm = parse_front_matter("title: T\ntemplate: other").unwrap();
    assert_eq!(fm.template.as_deref(), Some("other"));
}

#[test]
fn two_segments_parse_and_body_converts() {
    let post = parse_document("title: Hello\n---\n# Hi").unwrap();
    assert_eq!(post.front_matter.title, "Hello");
    assert_eq!(post.body, "<h1>Hi</h1>\n");
}

#[test]
fn segments_are_trimmed_of_surrounding_whitespace() {
    let post = parse_document("\ntitle: Hello\n---\n\n# Hi\n\n").unwrap();
    assert_eq!(post.front_matter.title, "Hello");
    assert_eq!(post.body, "<h1>Hi</h1>\n");
}

#[test]
fn empty_content_fails_to_split() {
    let r = parse_document("");
    assert!(matches!(r, Err(BuildError::Format(_))));
}

#[test]
fn one_segment_fails_to_split() {
    let r = parse_document("title: Hello");
    assert!(matches!(r, Err(BuildError::Format(_))));
}

#[test]
fn separator_alone_fails_to_split() {
    let r = parse_document("---\n");
    assert!(matches!(r, Err(BuildError::Format(_))));
}

#[test]
fn three_segments_fail_to_split() {
    let r = parse_document("title: A\n---\nbody\n---\nextra");
    assert!(matches!(r, Err(BuildError::Format(_))));
}

#[test]
fn bad_metadata_in_document_fails() {
    let r = parse_document("no title here\n---\nbody");
    assert!(matches!(r, Err(BuildError::Format(_))));
}

#[test]
fn error_message_is_carried() {
    let e = BuildError::Format("something broke".to_string());
    assert_eq!(e.message(), "something broke");
}
