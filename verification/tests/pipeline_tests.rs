//! Tests of the registry, the renderer and the whole pipeline.
use sitegen::document::load_posts;
use sitegen::pipeline::build;
use sitegen::registry::{load_registry, load_templates};
use sitegen::render::render_document;
use sitegen::BuildError;

fn tpl(name: &str, source: &str) -> (String, String) {
    (name.to_string(), source.to_string())
}

#[test]
fn end_to_end_renders_title_and_body() {
    let templates = vec![tpl("post.html.hbs", "{{title}}:{{{body}}}")];
    let posts = vec!["title: Hello World\n---\n# Hi".to_string()];
    let outputs = build(Some(&templates), Some(&posts)).unwrap();
    assert_eq!(outputs.len(), 1);
    assert_eq!(outputs[0].0, "hello_world.html");
    assert!(outputs[0].1.contains("Hello World"));
    assert!(outputs[0].1.contains("<h1>Hi</h1>"));
}

#[test]
fn missing_posts_directory_is_a_path_error() {
    let templates = vec![tpl("post.hbs", "{{title}}")];
    let r = build(Some(&templates), None);
    match r {
        Err(BuildError::Path(m)) => assert!(m.contains("posts path must exist")),
        _ => panic!("expected a path error"),
    }
}

#[test]
fn missing_templates_directory_is_a_path_error() {
    let posts = vec!["title: T\n---\nbody".to_string()];
    let r = build(None, Some(&posts));
    assert!(matches!(r, Err(BuildError::Path(_))));
}

#[test]
fn strict_mode_rejects_undefined_fields() {
    let templates = vec![tpl("post.hbs", "{{nonexistent}}")];
    let posts = vec!["title: T\n---\nbody".to_string()];
    let r = build(Some(&templates), Some(&posts));
    assert!(matches!(r, Err(BuildError::Render(_))));
}

#[test]
fn missing_post_template_is_a_render_error() {
    let templates = vec![tpl("page.hbs", "{{title}}")];
    let posts = vec!["title: T\n---\nbody".to_string()];
    let r = build(Some(&templates), Some(&posts));
    assert!(matches!(r, Err(BuildError::Render(_))));
}

#[test]
fn template_that_does_not_compile_is_a_template_error() {
    let templates = vec![tpl("post.hbs", "{{#if x}}unclosed")];
    let posts = vec!["title: T\n---\nbody".to_string()];
    let r = build(Some(&templates), Some(&posts));
    assert!(matches!(r, Err(BuildError::Template(_))));
}

#[test]
fn template_file_with_no_name_is_a_template_error() {
    let templates = vec![tpl(".hbs", "{{title}}")];
    let posts = vec!["title: T\n---\nbody".to_string()];
    let r = build(Some(&templates), Some(&posts));
    assert!(matches!(r, Err(BuildError::Template(_))));
}

#[test]
fn malformed_content_is_a_format_error() {
    let templates = vec![tpl("post.hbs", "{{title}}")];
    let posts = vec!["no separator at all".to_string()];
    let r = build(Some(&templates), Some(&posts));
    assert!(matches!(r, Err(BuildError::Format(_))));
}

#[test]
fn later_template_with_colliding_name_wins() {
    let templates = vec![tpl("post.html.hbs", "first"), tpl("post.hbs", "second {{title}}")];
    let posts = vec!["title: T\n---\nbody".to_string()];
    let outputs = build(Some(&templates), Some(&posts)).unwrap();
    assert_eq!(outputs[0].1, "second T");
}

#[test]
fn rendering_twice_is_deterministic() {
    let templates = vec![tpl("post.hbs", "{{title}} and {{{body}}}")];
    let reg = load_registry(&templates).unwrap();
    let mut docs = Vec::new();
    load_posts(&vec!["title: Same\n---\n*text*".to_string()], &mut docs).unwrap();
    let first = render_document(&reg, &docs[0]).unwrap();
    let second = render_document(&reg, &docs[0]).unwrap();
    assert_eq!(first, second);
}

#[test]
fn tags_are_exposed_to_templates() {
    let templates = vec![tpl("post.hbs", "{{#each tags}}[{{this}}]{{/each}}")];
    let posts = vec!["title: T\ntags:\n  - a\n  - b\n---\nbody".to_string()];
    let outputs = build(Some(&templates), Some(&posts)).unwrap();
    assert_eq!(outputs[0].1, "[a][b]");
}

#[test]
fn several_posts_render_in_order() {
    let templates = vec![tpl("post.hbs", "{{title}}")];
    let posts = vec![
        "title: First Post\n---\none".to_string(),
        "title: Second Post\n---\ntwo".to_string(),
    ];
    let outputs = build(Some(&templates), Some(&posts)).unwrap();
    assert_eq!(outputs.len(), 2);
    assert_eq!(outputs[0].0, "first_post.html");
    assert_eq!(outputs[1].0, "second_post.html");
}

#[test]
fn load_templates_populates_an_existing_registry() {
    let mut reg = load_registry(&vec![tpl("post.hbs", "{{title}}")]).unwrap();
    load_templates(&vec![tpl("extra.hbs", "x")], &mut reg).unwrap();
    let mut docs = Vec::new();
    load_posts(&vec!["title: Still Works\n---\nbody".to_string()], &mut docs).unwrap();
    let out = render_document(&reg, &docs[0]).unwrap();
    assert_eq!(out, "Still Works");
}

#[test]
fn first_bad_post_aborts_the_load() {
    let mut docs = Vec::new();
    let r = load_posts(
        &vec!["title: Good\n---\nbody".to_string(), "bad".to_string()],
        &mut docs,
    );
    assert!(matches!(r, Err(BuildError::Format(_))));
}
