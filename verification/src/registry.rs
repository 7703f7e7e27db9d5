//! The template registry: a handlebars registry in strict mode, modelled
//! as a map from template name to template source text.
//!
//! The registry type itself belongs to the handlebars crate; the library
//! reaches it through a small set of trusted wrappers, and everything
//! above them — name derivation, the loading loop, the last-write-wins
//! policy — is verified against the map model.
use crate::errors::BuildError;
use crate::naming::{derive_template_name, spec_template_name};
use vstd::prelude::*;

verus! {

/// A template registry: a handlebars registry in strict mode, holding the
/// compiled templates. Values exist only through `load_registry` (or
/// `load_templates` on one), so every registry carries strict mode and
/// the default built-ins, and its observable state is the map of
/// registered template sources.
#[verifier::external_body]
pub struct Registry {
    inner: handlebars::Handlebars<'static>,
}

/// The contents of a registry: the source text of each registered
/// template, keyed by template name.
pub uninterp spec fn reg_templates(reg: Registry) -> Map<Seq<char>, Seq<char>>;

/// The contents of a registry with nothing registered.
pub open spec fn empty_templates() -> Map<Seq<char>, Seq<char>> {
    Map::empty()
}

/// Whether a template source compiles: a function of the source alone.
pub uninterp spec fn template_compiles(source: Seq<char>) -> bool;

/// What rendering a registry's template over the given text and list
/// fields produces: `None` when rendering fails (a referenced field is
/// undefined, under strict mode), else the output text. A function of the
/// registered sources, the name and the fields alone.
pub uninterp spec fn hb_render_of(
    templates: Map<Seq<char>, Seq<char>>,
    name: Seq<char>,
    texts: Seq<(Seq<char>, Seq<char>)>,
    lists: Seq<(Seq<char>, Seq<Seq<char>>)>,
) -> Option<Seq<char>>;

/// The views of a vector of string pairs: named text fields, or template
/// files as a file name and the file's contents.
pub open spec fn pair_views(v: Seq<(String, String)>) -> Seq<(Seq<char>, Seq<char>)> {
    v.map_values(|p: (String, String)| (p.0@, p.1@))
}

/// The views of a vector of named list fields.
pub open spec fn lists_view(v: Seq<(String, Vec<String>)>) -> Seq<(Seq<char>, Seq<Seq<char>>)> {
    v.map_values(|p: (String, Vec<String>)| (p.0@, p.1@.map_values(|s: String| s@)))
}

/// Relies on handlebars' `Registry::new` and `set_strict_mode`: a fresh
/// registry holds no templates, and strict mode makes a reference to an
/// undefined field a render error rather than blank output.
#[verifier::external_body]
fn new_registry() -> (r: Registry)
    ensures
        reg_templates(r) == empty_templates(),
{
    let mut inner = handlebars::Handlebars::new();
    inner.set_strict_mode(true);
    Registry { inner }
}

/// Relies on handlebars' `register_template_string`: a source that
/// compiles is inserted under the given name, overwriting any previous
/// entry; one that does not compile returns the template error and leaves
/// the registry unchanged.
#[verifier::external_body]
fn register_template(
    reg: &mut Registry,
    name: &str,
    source: &str,
) -> (r: Result<(), String>)
    ensures
        r is Ok <==> template_compiles(source@),
        r is Ok ==> reg_templates(*final(reg)) == reg_templates(*old(reg)).insert(name@, source@),
        r is Err ==> reg_templates(*final(reg)) == reg_templates(*old(reg)),
{
    reg.inner.register_template_string(name, source).map_err(|e| e.to_string())
}

/// Relies on handlebars' `render`: the template is looked up by name (a
/// missing name is an error), and expansion over the given fields is a
/// function of the registered sources, the name and the fields alone.
#[verifier::external_body]
pub(crate) fn render_template(
    reg: &Registry,
    name: &str,
    texts: &Vec<(String, String)>,
    lists: &Vec<(String, Vec<String>)>,
) -> (r: Result<String, String>)
    ensures
        !reg_templates(*reg).contains_key(name@) ==> r is Err,
        reg_templates(*reg).contains_key(name@) ==> (r is Ok <==> hb_render_of(
            reg_templates(*reg),
            name@,
            pair_views(texts@),
            lists_view(lists@),
        ) is Some),
        r is Ok ==> Some(r->Ok_0@) == hb_render_of(
            reg_templates(*reg),
            name@,
            pair_views(texts@),
            lists_view(lists@),
        ),
{
    let mut data = serde_json::Map::new();
    for (k, v) in texts.iter() {
        data.insert(k.clone(), serde_json::Value::String(v.clone()));
    }
    for (k, vs) in lists.iter() {
        let items = vs.iter().map(|s| serde_json::Value::String(s.clone())).collect();
        data.insert(k.clone(), serde_json::Value::Array(items));
    }
    reg.inner.render(name, &data).map_err(|e| e.to_string())
}

/// The registry contents after registering every template file in order
/// over the starting contents `m`: each file registers its contents under
/// the name its file name derives, a later file with a colliding name
/// overwriting the earlier one. `None` as soon as a file name yields no
/// name or a source does not compile.
pub open spec fn spec_load_templates(
    files: Seq<(Seq<char>, Seq<char>)>,
    m: Map<Seq<char>, Seq<char>>,
) -> Option<Map<Seq<char>, Seq<char>>>
    decreases files.len(),
{
    if files.len() == 0 {
        Some(m)
    } else {
        let name = spec_template_name(files[0].0);
        if name.len() == 0 {
            None
        } else if !template_compiles(files[0].1) {
            None
        } else {
            spec_load_templates(files.drop_first(), m.insert(name, files[0].1))
        }
    }
}

/// Registers every template file in order: each file's contents under the
/// name its file name derives, a later colliding name overwriting the
/// earlier entry. The first file whose name derives empty or whose source
/// does not compile aborts the load.
pub fn load_templates(
    files: &Vec<(String, String)>,
    reg: &mut Registry,
) -> (r: Result<(), BuildError>)
    ensures
        r is Ok <==> spec_load_templates(pair_views(files@), reg_templates(*old(reg))) is Some,
        r is Ok ==> Some(reg_templates(*final(reg))) == spec_load_templates(
            pair_views(files@),
            reg_templates(*old(reg)),
        ),
        r is Err ==> r->Err_0 is Template,
{
    let ghost all = pair_views(files@);
    let mut i: usize = 0;
    proof {
        assert(all.skip(0) =~= all);
    }
    while i < files.len()
        invariant
            all == pair_views(files@),
            0 <= i <= files.len(),
            spec_load_templates(all, reg_templates(*old(reg))) == spec_load_templates(
                all.skip(i as int),
                reg_templates(*reg),
            ),
        decreases files.len() - i,
    {
        proof {
            assert(all.skip(i as int).len() > 0);
            assert(all.skip(i as int)[0] == all[i as int]);
            assert(all.skip(i as int).drop_first() =~= all.skip(i as int + 1));
        }
        let name = match derive_template_name(files[i].0.as_str()) {
            Ok(name) => name,
            Err(e) => {
                proof {
                    assert(spec_load_templates(all.skip(i as int), reg_templates(*reg)) is None);
                }
                return Err(e);
            },
        };
        match register_template(reg, name.as_str(), files[i].1.as_str()) {
            Ok(_) => {},
            Err(m) => {
                proof {
                    assert(spec_load_templates(all.skip(i as int), reg_templates(*reg)) is None);
                }
                let mut msg = String::from_str("template does not compile: ");
                msg.append(m.as_str());
                return Err(BuildError::Template(msg));
            },
        }
        i = i + 1;
    }
    proof {
        assert(all.skip(files@.len() as int) =~= Seq::<(Seq<char>, Seq<char>)>::empty());
    }
    Ok(())
}

/// Loads every template file into a fresh strict-mode registry.
pub fn load_registry(files: &Vec<(String, String)>) -> (r: Result<Registry, BuildError>)
    ensures
        r is Ok <==> spec_load_templates(pair_views(files@), empty_templates()) is Some,
        r is Ok ==> Some(reg_templates(r->Ok_0)) == spec_load_templates(
            pair_views(files@),
            empty_templates(),
        ),
        r is Err ==> r->Err_0 is Template,
{
    let mut reg = new_registry();
    match load_templates(files, &mut reg) {
        Ok(_) => Ok(reg),
        Err(e) => Err(e),
    }
}

} // verus!
