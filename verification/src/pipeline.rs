//! The pipeline driver: templates in, documents in, rendered outputs out.
//!
//! The driver takes the template files and the content files as read from
//! the input root's `templates/` and `posts/` subdirectories — `None`
//! standing for a subdirectory that does not exist — and produces the
//! output files as name/contents pairs, in document order. The caller
//! walks the directories and writes the outputs; every decision in
//! between is made and verified here.
use crate::document::{post_views, spec_load_posts, load_posts, Post};
use crate::errors::BuildError;
use crate::registry::{empty_templates, pair_views, spec_load_templates, load_registry,
    reg_templates};
use crate::render::{render_all, spec_render_all};
use crate::text::str_views;
use vstd::prelude::*;

verus! {

/// Builds the site: registers every template file, parses every content
/// file, and renders each document through the `post` template, pairing
/// each rendered text with the output file name its title derives.
///
/// A missing `templates/` or `posts/` subdirectory fails before any work
/// on the missing side; template, format and render failures propagate as
/// their own error classes, and the first failure aborts the build.
pub fn build(
    templates: Option<&Vec<(String, String)>>,
    posts: Option<&Vec<String>>,
) -> (r: Result<Vec<(String, String)>, BuildError>)
    ensures
        templates is None ==> r is Err && r->Err_0 is Path,
        templates is Some ==> {
            let tm = spec_load_templates(pair_views(templates->0@), empty_templates());
            &&& tm is None ==> r is Err && r->Err_0 is Template
            &&& tm is Some ==> {
                &&& posts is None ==> r is Err && r->Err_0 is Path
                &&& posts is Some ==> {
                    let ds = spec_load_posts(str_views(posts->0@));
                    &&& ds is None ==> r is Err && r->Err_0 is Format
                    &&& ds is Some ==> {
                        &&& r is Ok <==> spec_render_all(tm->0, ds->0) is Some
                        &&& r is Ok ==> Some(pair_views(r->Ok_0@)) == spec_render_all(
                            tm->0,
                            ds->0,
                        )
                        &&& r is Err ==> r->Err_0 is Render
                    }
                }
            }
        },
{
    let tfiles = match templates {
        Some(t) => t,
        None => {
            return Err(BuildError::Path(String::from_str("posts path must exist")));
        },
    };
    let reg = match load_registry(tfiles) {
        Ok(reg) => reg,
        Err(e) => {
            return Err(e);
        },
    };
    let pfiles = match posts {
        Some(p) => p,
        None => {
            return Err(BuildError::Path(String::from_str("posts path must exist")));
        },
    };
    let mut docs: Vec<Post> = Vec::new();
    let ghost docs0 = docs@;
    match load_posts(pfiles, &mut docs) {
        Ok(_) => {},
        Err(e) => {
            return Err(e);
        },
    }
    proof {
        assert(post_views(docs0) =~= Seq::<crate::document::PostView>::empty());
        assert(post_views(docs0) + spec_load_posts(str_views(pfiles@))->0 =~= spec_load_posts(
            str_views(pfiles@),
        )->0);
    }
    render_all(&reg, &docs)
}

} // verus!
