//! Rendering: each document goes through the `post` template of the
//! registry, and the output is written under a file name derived from the
//! document's title.
//!
//! A document exposes flat fields to its template: `title` and `body`
//! always, `datetime` and `template` when present, and `tags` as a list.
//! Under strict mode a template that references any other field fails to
//! render.
use crate::document::{post_views, Post, PostView};
use crate::errors::BuildError;
use crate::naming::{output_file_name, spec_output_file_name};
use crate::registry::{hb_render_of, lists_view, pair_views, reg_templates, render_template,
    Registry};
use vstd::prelude::*;

verus! {

/// The text fields a document exposes to a template: `title` and `body`
/// always, `datetime` and `template` when the front matter holds them.
pub open spec fn context_texts_view(p: PostView) -> Seq<(Seq<char>, Seq<char>)> {
    let base = seq![("title"@, p.front_matter.title), ("body"@, p.body)];
    let with_dt = match p.front_matter.datetime {
        Some(dt) => base.push(("datetime"@, dt)),
        None => base,
    };
    match p.front_matter.template {
        Some(t) => with_dt.push(("template"@, t)),
        None => with_dt,
    }
}

/// The list fields a document exposes to a template: its `tags`.
pub open spec fn context_lists_view(p: PostView) -> Seq<(Seq<char>, Seq<Seq<char>>)> {
    seq![("tags"@, p.front_matter.tags)]
}

/// Copies a vector of strings element by element.
fn clone_strings(v: &Vec<String>) -> (r: Vec<String>)
    ensures
        r@ == v@,
{
    let mut out: Vec<String> = Vec::new();
    let mut j: usize = 0;
    proof {
        assert(out@ =~= v@.take(0));
    }
    while j < v.len()
        invariant
            0 <= j <= v.len(),
            out@ == v@.take(j as int),
        decreases v.len() - j,
    {
        out.push(v[j].clone());
        proof {
            assert(out@ =~= v@.take(j as int + 1));
        }
        j = j + 1;
    }
    proof {
        assert(v@.take(v@.len() as int) =~= v@);
    }
    out
}

/// Collects the text fields of a document for rendering.
fn context_texts(post: &Post) -> (r: Vec<(String, String)>)
    ensures
        pair_views(r@) == context_texts_view(post@),
{
    let mut v: Vec<(String, String)> = Vec::new();
    v.push((String::from_str("title"), post.front_matter.title.clone()));
    v.push((String::from_str("body"), post.body.clone()));
    match &post.front_matter.datetime {
        Some(dt) => v.push((String::from_str("datetime"), dt.clone())),
        None => {},
    }
    match &post.front_matter.template {
        Some(t) => v.push((String::from_str("template"), t.clone())),
        None => {},
    }
    proof {
        assert(pair_views(v@) =~~= context_texts_view(post@));
    }
    v
}

/// Collects the list fields of a document for rendering.
fn context_lists(post: &Post) -> (r: Vec<(String, Vec<String>)>)
    ensures
        lists_view(r@) == context_lists_view(post@),
{
    let mut v: Vec<(String, Vec<String>)> = Vec::new();
    let tags = clone_strings(&post.front_matter.tags);
    v.push((String::from_str("tags"), tags));
    proof {
        assert(lists_view(v@) =~~= context_lists_view(post@));
    }
    v
}

/// What rendering a document through the `post` template of a registry
/// produces: `None` when the template is absent or when rendering fails
/// under strict mode.
pub open spec fn spec_render_document(m: Map<Seq<char>, Seq<char>>, p: PostView) -> Option<
    Seq<char>,
> {
    if m.contains_key("post"@) {
        hb_render_of(m, "post"@, context_texts_view(p), context_lists_view(p))
    } else {
        None
    }
}

/// Renders a document through the `post` template of the registry.
///
/// Fails exactly when the registry holds no `post` template or the
/// template references a field the document does not expose.
pub fn render_document(reg: &Registry, post: &Post) -> (r: Result<String, BuildError>)
    ensures
        r is Ok <==> spec_render_document(reg_templates(*reg), post@) is Some,
        r is Ok ==> Some(r->Ok_0@) == spec_render_document(reg_templates(*reg), post@),
        r is Err ==> r->Err_0 is Render,
{
    let texts = context_texts(post);
    let lists = context_lists(post);
    match render_template(reg, "post", &texts, &lists) {
        Ok(s) => Ok(s),
        Err(m) => {
            let mut msg = String::from_str("rendering failed: ");
            msg.append(m.as_str());
            Err(BuildError::Render(msg))
        },
    }
}

/// Rendering is deterministic: what a registry and a document render to
/// is a function of the registry's contents and the document alone, so
/// rendering twice yields the same output.
pub proof fn lemma_render_deterministic(
    m: Map<Seq<char>, Seq<char>>,
    p: PostView,
    r1: Option<Seq<char>>,
    r2: Option<Seq<char>>,
)
    requires
        r1 == spec_render_document(m, p),
        r2 == spec_render_document(m, p),
    ensures
        r1 == r2,
{
}

/// The named outputs rendering every document produces: for each document
/// in order, the file name its title derives and the rendered text;
/// `None` as soon as one document fails to render.
pub open spec fn spec_render_all(m: Map<Seq<char>, Seq<char>>, ps: Seq<PostView>) -> Option<
    Seq<(Seq<char>, Seq<char>)>,
>
    decreases ps.len(),
{
    if ps.len() == 0 {
        Some(Seq::empty())
    } else {
        match spec_render_document(m, ps[0]) {
            None => None,
            Some(out) => match spec_render_all(m, ps.drop_first()) {
                None => None,
                Some(rest) => Some(
                    seq![(spec_output_file_name(ps[0].front_matter.title), out)] + rest,
                ),
            },
        }
    }
}

/// Renders every document in order through the `post` template, pairing
/// each output with the file name its title derives; the first document
/// that fails to render aborts the pass.
pub fn render_all(reg: &Registry, posts: &Vec<Post>) -> (r: Result<
    Vec<(String, String)>,
    BuildError,
>)
    ensures
        r is Ok <==> spec_render_all(reg_templates(*reg), post_views(posts@)) is Some,
        r is Ok ==> Some(pair_views(r->Ok_0@)) == spec_render_all(
            reg_templates(*reg),
            post_views(posts@),
        ),
        r is Err ==> r->Err_0 is Render,
{
    let ghost all = post_views(posts@);
    let ghost m = reg_templates(*reg);
    let mut out: Vec<(String, String)> = Vec::new();
    let ghost mut done: Seq<(Seq<char>, Seq<char>)> = Seq::empty();
    let mut i: usize = 0;
    proof {
        assert(all.skip(0) =~= all);
        assert(pair_views(out@) =~= done);
    }
    while i < posts.len()
        invariant
            all == post_views(posts@),
            m == reg_templates(*reg),
            0 <= i <= posts.len(),
            pair_views(out@) == done,
            spec_render_all(m, all) == (match spec_render_all(m, all.skip(i as int)) {
                None => None::<Seq<(Seq<char>, Seq<char>)>>,
                Some(rest) => Some(done + rest),
            }),
        decreases posts.len() - i,
    {
        proof {
            assert(all.skip(i as int).len() > 0);
            assert(all.skip(i as int)[0] == all[i as int]);
            assert(all.skip(i as int).drop_first() =~= all.skip(i as int + 1));
        }
        let rendered = match render_document(reg, &posts[i]) {
            Ok(s) => s,
            Err(e) => {
                proof {
                    assert(spec_render_all(m, all.skip(i as int)) is None);
                }
                return Err(e);
            },
        };
        let name = output_file_name(posts[i].front_matter.title.as_str());
        let ghost out0 = out@;
        let ghost entry = (name@, rendered@);
        out.push((name, rendered));
        proof {
            assert(pair_views(out@) =~= pair_views(out0).push(entry));
            match spec_render_all(m, all.skip(i as int + 1)) {
                None => {
                    assert(spec_render_all(m, all.skip(i as int)) is None);
                },
                Some(rest) => {
                    assert(spec_render_all(m, all.skip(i as int)) == Some(seq![entry] + rest));
                    assert(done + (seq![entry] + rest) =~= done.push(entry) + rest);
                },
            }
            done = done.push(entry);
        }
        i = i + 1;
    }
    proof {
        assert(all.skip(posts@.len() as int) =~= Seq::<PostView>::empty());
        assert(done + Seq::<(Seq<char>, Seq<char>)>::empty() =~= done);
    }
    Ok(out)
}

} // verus!
