//! Documents: the parser that turns one content file's text into a
//! structured record with an HTML body, and the loader over many files.
//!
//! A content file splits on the separator line `---\n` into exactly two
//! nonempty segments: the metadata block, parsed into a front matter
//! record, and the markdown body, converted to HTML.
use crate::errors::BuildError;
use crate::front_matter::{fm_parse, parse_front_matter, FrontMatter, FrontMatterView};
use crate::text::{segments_of, sep_at, sep_seq, spec_trim, split_sep, split_sep_parts, str_views,
    find_sep, lemma_find_sep, lemma_trim_len};
use vstd::prelude::*;

verus! {

/// The mathematical view of a document.
pub ghost struct PostView {
    /// The metadata record of the document.
    pub front_matter: FrontMatterView,
    /// The HTML text the markdown body converts to.
    pub body: Seq<char>,
}

/// A parsed content document: its front matter and its HTML body.
pub struct Post {
    /// The metadata record of the document.
    pub front_matter: FrontMatter,
    /// The HTML text the markdown body converted to.
    pub body: String,
}

impl View for Post {
    type V = PostView;

    open spec fn view(&self) -> PostView {
        PostView { front_matter: self.front_matter@, body: self.body@ }
    }
}

/// The views of a vector of documents.
pub open spec fn post_views(v: Seq<Post>) -> Seq<PostView> {
    v.map_values(|p: Post| p@)
}

/// The HTML that the markdown conversion produces for a text, with every
/// extension of the engine enabled: a function of the characters alone.
pub uninterp spec fn html_of(markdown: Seq<char>) -> Seq<char>;

/// Relies on pulldown-cmark's `Parser::new_ext` with `Options::all()` and
/// `html::push_html`: the conversion is pure, and depends on the input
/// text alone.
#[verifier::external_body]
fn markdown_to_html(markdown: &str) -> (r: String)
    ensures
        r@ == html_of(markdown@),
{
    let parser = pulldown_cmark::Parser::new_ext(markdown, pulldown_cmark::Options::all());
    let mut out = String::new();
    pulldown_cmark::html::push_html(&mut out, parser);
    out
}

/// The document a content text parses to: `None` unless the text splits
/// into exactly two nonempty trimmed segments whose first parses as front
/// matter; the body is the HTML conversion of the second.
pub open spec fn spec_parse_document(s: Seq<char>) -> Option<PostView> {
    let segs = segments_of(s);
    if segs.len() == 2 {
        match fm_parse(segs[0]) {
            None => None,
            Some(fm) => Some(PostView { front_matter: fm, body: html_of(segs[1]) }),
        }
    } else {
        None
    }
}

/// Parses the raw text of one content file into a document.
///
/// Succeeds exactly when the text splits on `---\n` into two nonempty
/// segments and the first segment parses as front matter.
pub fn parse_document(contents: &str) -> (r: Result<Post, BuildError>)
    ensures
        r is Ok <==> spec_parse_document(contents@) is Some,
        r is Ok ==> Some(r->Ok_0@) == spec_parse_document(contents@),
        r is Err ==> r->Err_0 is Format,
{
    let parts = split_sep_parts(contents);
    if parts.len() != 2 {
        return Err(
            BuildError::Format(
                String::from_str("content does not split into one metadata block and one body"),
            ),
        );
    }
    proof {
        assert(parts@[0]@ == segments_of(contents@)[0]);
        assert(parts@[1]@ == segments_of(contents@)[1]);
    }
    let fm = match parse_front_matter(parts[0].as_str()) {
        Ok(fm) => fm,
        Err(e) => {
            return Err(e);
        },
    };
    let body = markdown_to_html(parts[1].as_str());
    Ok(Post { front_matter: fm, body })
}

/// The documents a list of content texts loads to: `None` as soon as one
/// text fails to parse, else all documents in order.
pub open spec fn spec_load_posts(files: Seq<Seq<char>>) -> Option<Seq<PostView>>
    decreases files.len(),
{
    if files.len() == 0 {
        Some(Seq::empty())
    } else {
        match spec_parse_document(files[0]) {
            None => None,
            Some(p) => match spec_load_posts(files.drop_first()) {
                None => None,
                Some(ps) => Some(seq![p] + ps),
            },
        }
    }
}

/// Parses every content text in order, appending each document to
/// `posts`; the first text that fails to parse aborts the load.
pub fn load_posts(files: &Vec<String>, posts: &mut Vec<Post>) -> (r: Result<(), BuildError>)
    ensures
        r is Ok <==> spec_load_posts(str_views(files@)) is Some,
        r is Ok ==> post_views(final(posts)@) == post_views(old(posts)@) + spec_load_posts(
            str_views(files@),
        )->0,
        r is Err ==> r->Err_0 is Format,
{
    let ghost all = str_views(files@);
    let ghost base = post_views(old(posts)@);
    let ghost mut done: Seq<PostView> = Seq::empty();
    let mut i: usize = 0;
    proof {
        assert(all.skip(0) =~= all);
        assert(base + done =~= base);
    }
    while i < files.len()
        invariant
            all == str_views(files@),
            0 <= i <= files.len(),
            post_views(posts@) == base + done,
            spec_load_posts(all) == (match spec_load_posts(all.skip(i as int)) {
                None => None::<Seq<PostView>>,
                Some(ps) => Some(done + ps),
            }),
        decreases files.len() - i,
    {
        proof {
            assert(all.skip(i as int).len() > 0);
            assert(all.skip(i as int)[0] == all[i as int]);
            assert(all.skip(i as int).drop_first() =~= all.skip(i as int + 1));
        }
        let p = match parse_document(files[i].as_str()) {
            Ok(p) => p,
            Err(e) => {
                proof {
                    assert(spec_load_posts(all.skip(i as int)) is None);
                }
                return Err(e);
            },
        };
        let ghost posts0 = posts@;
        let ghost pv = p@;
        posts.push(p);
        proof {
            assert(post_views(posts@) =~= post_views(posts0).push(pv));
            assert(base + done.push(pv) =~= (base + done).push(pv));
            match spec_load_posts(all.skip(i as int + 1)) {
                None => {
                    assert(spec_load_posts(all.skip(i as int)) is None);
                },
                Some(ps) => {
                    assert(spec_load_posts(all.skip(i as int)) == Some(seq![pv] + ps));
                    assert(done + (seq![pv] + ps) =~= done.push(pv) + ps);
                },
            }
            done = done.push(pv);
        }
        i = i + 1;
    }
    proof {
        assert(all.skip(files@.len() as int) =~= Seq::<Seq<char>>::empty());
        assert(done + Seq::<PostView>::empty() =~= done);
    }
    Ok(())
}

/// Content that does not split into exactly two nonempty trimmed segments
/// on the separator yields no document.
pub proof fn lemma_split_failure(s: Seq<char>)
    requires
        segments_of(s).len() != 2,
    ensures
        spec_parse_document(s) is None,
{
}

/// Splitting is correct on well-formed content: two segments that hold no
/// separator occurrence and are nonempty once trimmed, joined by the
/// separator, split back into exactly their trimmed texts.
pub proof fn lemma_split_two_segments(a: Seq<char>, b: Seq<char>)
    requires
        forall|i: int| !sep_at(a, i),
        forall|i: int| !sep_at(b, i),
        spec_trim(a).len() > 0,
        spec_trim(b).len() > 0,
    ensures
        segments_of(a + sep_seq() + b) == seq![spec_trim(a), spec_trim(b)],
{
    let s = a + sep_seq() + b;
    let al = a.len() as int;
    assert(s.len() == al + 4 + b.len());
    assert forall|k: int| 0 <= k < a.len() implies s[k] == a[k] by {}
    assert(s[al] == '-');
    assert(s[al + 1] == '-');
    assert(s[al + 2] == '-');
    assert(s[al + 3] == '\n');
    assert forall|k: int| 0 <= k < b.len() implies s[al + 4 + k] == b[k] by {}
    assert(sep_at(s, al));
    assert forall|j: int| 0 <= j < al implies !sep_at(s, j) by {
        if j + 4 <= al {
            assert(!sep_at(a, j));
            assert(s[j] == a[j]);
            assert(s[j + 1] == a[j + 1]);
            assert(s[j + 2] == a[j + 2]);
            assert(s[j + 3] == a[j + 3]);
        } else {
            assert(al <= j + 3 < al + 3);
            assert(s[j + 3] == sep_seq()[j + 3 - al]);
            assert(s[j + 3] == '-');
        }
    }
    lemma_find_sep(s);
    match find_sep(s) {
        None => {
            assert(sep_at(s, al));
            assert(false);
        },
        Some(k) => {
            assert(k == al);
        },
    }
    assert(split_sep(s) == seq![s.subrange(0, al)] + split_sep(s.skip(al + 4)));
    assert(s.subrange(0, al) =~= a);
    assert(s.skip(al + 4) =~= b);
    lemma_find_sep(b);
    match find_sep(b) {
        None => {},
        Some(k) => {
            assert(sep_at(b, k));
            assert(false);
        },
    }
    assert(split_sep(b) == seq![b]);
    assert(split_sep(s) =~= seq![a, b]);
    lemma_trim_len(a);
    lemma_trim_len(b);
    let pred = |q: Seq<char>| q.len() > 0;
    let f = |q: Seq<char>| spec_trim(q);
    reveal_with_fuel(Seq::<Seq<char>>::filter, 3);
    assert(seq![a, b].drop_last() =~= seq![a]);
    assert(seq![a].drop_last() =~= Seq::<Seq<char>>::empty());
    assert(Seq::<Seq<char>>::empty().filter(pred) =~= Seq::<Seq<char>>::empty());
    assert(seq![a].filter(pred) =~= seq![a]);
    assert(seq![a, b].filter(pred) =~= seq![a, b]);
    assert(seq![a, b].map_values(f) =~= seq![spec_trim(a), spec_trim(b)]);
}

/// Splitting and parsing are correct on well-formed content: when the
/// metadata segment also parses as front matter, the whole content parses,
/// and the document's body is the HTML conversion of the trimmed second
/// segment.
pub proof fn lemma_parse_two_segments(a: Seq<char>, b: Seq<char>)
    requires
        forall|i: int| !sep_at(a, i),
        forall|i: int| !sep_at(b, i),
        spec_trim(a).len() > 0,
        spec_trim(b).len() > 0,
        fm_parse(spec_trim(a)) is Some,
    ensures
        spec_parse_document(a + sep_seq() + b) == Some(
            PostView {
                front_matter: fm_parse(spec_trim(a))->0,
                body: html_of(spec_trim(b)),
            },
        ),
{
    lemma_split_two_segments(a, b);
}

} // verus!
