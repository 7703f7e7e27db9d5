//! Name derivation: template names from file names, output file names from
//! document titles.
//!
//! A template file registers under the part of its file name before the
//! first `.`, so `post.html.hbs` and `post.html` both yield `post`. An
//! output file is named after the document's title converted to snake case,
//! with the `.html` extension appended.
use crate::errors::BuildError;
use crate::text::{find_char, find_char_str, lemma_find_char};
use vstd::prelude::*;

verus! {

/// The template name a file name yields: the part before the first `.`,
/// or the whole name when it holds no `.`.
pub open spec fn spec_template_name(file_name: Seq<char>) -> Seq<char> {
    match find_char(file_name, '.') {
        None => file_name,
        Some(i) => file_name.subrange(0, i),
    }
}

/// Derives the template name of a file name. Fails when the derived name
/// is empty (a file name starting with `.`, or an empty file name): such a
/// file yields no valid name to register under.
pub fn derive_template_name(file_name: &str) -> (r: Result<String, BuildError>)
    ensures
        r is Ok <==> spec_template_name(file_name@).len() > 0,
        r is Ok ==> r->Ok_0@ == spec_template_name(file_name@),
        r is Err ==> r->Err_0 is Template,
{
    let n = file_name.unicode_len();
    let found = find_char_str(file_name, '.');
    let name = match found {
        Some(i) => file_name.substring_char(0, i).to_owned(),
        None => file_name.to_owned(),
    };
    if name.as_str().unicode_len() == 0 {
        Err(BuildError::Template(String::from_str("file name yields no template name")))
    } else {
        Ok(name)
    }
}

/// Deriving a template name is idempotent: the derived name holds no `.`,
/// so deriving again returns it unchanged.
pub proof fn lemma_template_name_idempotent(file_name: Seq<char>)
    ensures
        spec_template_name(spec_template_name(file_name)) == spec_template_name(file_name),
{
    lemma_find_char(file_name, '.');
    let m = spec_template_name(file_name);
    assert(forall|j: int| 0 <= j < m.len() ==> m[j] != '.');
    lemma_find_char(m, '.');
    match find_char(m, '.') {
        None => {},
        Some(i) => {
            assert(m[i] == '.');
        },
    }
}

/// The snake-case form of `s`, as convert_case's `Snake` conversion
/// computes it: a pure function of the characters of `s`.
pub uninterp spec fn snake_of(s: Seq<char>) -> Seq<char>;

/// Relies on convert_case's `Casing::to_case` with `Case::Snake`: the
/// conversion splits on word boundaries, lowercases, and joins with `_`,
/// and depends on the characters of its input alone.
#[verifier::external_body]
fn to_snake_case(s: &str) -> (r: String)
    ensures
        r@ == snake_of(s@),
{
    convert_case::Casing::to_case(&s, convert_case::Case::Snake)
}

/// The output file name of a document title: its snake-case form with the
/// `.html` extension appended.
pub open spec fn spec_output_file_name(title: Seq<char>) -> Seq<char> {
    snake_of(title) + ".html"@
}

/// Derives the output file name of a document with the given title.
pub fn output_file_name(title: &str) -> (r: String)
    ensures
        r@ == spec_output_file_name(title@),
{
    let mut name = to_snake_case(title);
    name.append(".html");
    name
}

} // verus!
