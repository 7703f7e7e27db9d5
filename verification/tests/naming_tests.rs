//! Tests of template name derivation and output file naming.
use sitegen::naming::{derive_template_name, output_file_name};
use sitegen::BuildError;

#[test]
fn stem_with_double_extension_derives_base_name() {
    assert_eq!(derive_template_name("foo.html.hbs").unwrap(), "foo");
}

#[test]
fn stem_with_single_extension_derives_base_name() {
    assert_eq!(derive_template_name("foo.html").unwrap(), "foo");
}

#[test]
fn name_without_extension_is_kept() {
    assert_eq!(derive_template_name("foo").unwrap(), "foo");
}

#[test]
fn derivation_is_idempotent() {
    let once = derive_template_name("foo.html.hbs").unwrap();
    let twice = derive_template_name(&once).unwrap();
    assert_eq!(once, twice);
}

#[test]
fn leading_dot_name_fails() {
    let r = derive_template_name(".hidden");
    assert!(matches!(r, Err(BuildError::Template(_))));
}

#[test]
fn empty_file_name_fails() {
    let r = derive_template_name("");
    assert!(matches!(r, Err(BuildError::Template(_))));
}

#[test]
fn title_becomes_snake_case_html_file() {
    assert_eq!(output_file_name("My First Post"), "my_first_post.html");
}

#[test]
fn snake_case_title_is_unchanged() {
    assert_eq!(output_file_name("my_first_post"), "my_first_post.html");
}

#[test]
fn output_file_name_is_deterministic() {
    assert_eq!(output_file_name("Some Title"), output_file_name("Some Title"));
}
