//! The front matter record of a document and its metadata parser.
//!
//! The metadata block is a sequence of lines in a key/value syntax:
//!
//! - `title: <text>` — required; the text must be nonempty.
//! - `tags:` — optional; followed by one `- <text>` line per tag.
//! - `datetime: <text>` — optional; the text must be an RFC 3339 timestamp
//!   with a fixed offset.
//! - `template: <text>` — optional; recorded but not used for template
//!   selection.
//!
//! Blank lines are skipped; a line with an unknown key is ignored, together
//! with any `- ` item lines that follow it; a duplicate key, an item line
//! under no key, or a line with no `:` is an error.
use crate::errors::BuildError;
use crate::text::{find_char, find_char_str, is_space_char, spec_trim, split_char, split_char_str,
    str_views, trim_str, trim_front, lemma_find_char, lemma_trim_already_trimmed,
    lemma_trim_front_idx, lemma_trim_back_idx};
use vstd::prelude::*;

verus! {

/// The mathematical view of a front matter record.
pub ghost struct FrontMatterView {
    /// The document title; always nonempty.
    pub title: Seq<char>,
    /// The tag labels, in order; empty when the metadata has no `tags` key.
    pub tags: Seq<Seq<char>>,
    /// The timestamp text, when present.
    pub datetime: Option<Seq<char>>,
    /// The per-document template name, when present; not used for selection.
    pub template: Option<Seq<char>>,
}

/// Structured metadata attached to a document.
pub struct FrontMatter {
    /// The document title; always nonempty.
    pub title: String,
    /// The tag labels, in order; empty when the metadata has no `tags` key.
    pub tags: Vec<String>,
    /// The validated timestamp text, when present.
    pub datetime: Option<String>,
    /// The per-document template name, when present.
    pub template: Option<String>,
}

impl View for FrontMatter {
    type V = FrontMatterView;

    open spec fn view(&self) -> FrontMatterView {
        FrontMatterView {
            title: self.title@,
            tags: str_views(self.tags@),
            datetime: match self.datetime {
                Some(s) => Some(s@),
                None => None,
            },
            template: match self.template {
                Some(s) => Some(s@),
                None => None,
            },
        }
    }
}

/// Whether a text is an RFC 3339 timestamp with a fixed offset, as
/// chrono's parser accepts it: a function of the characters alone.
pub uninterp spec fn is_rfc3339(s: Seq<char>) -> bool;

/// Relies on chrono's `DateTime::parse_from_rfc3339`: whether a text
/// parses as a fixed-offset RFC 3339 timestamp depends on the text alone.
#[verifier::external_body]
fn datetime_valid(s: &str) -> (r: bool)
    ensures
        r == is_rfc3339(s@),
{
    chrono::DateTime::parse_from_rfc3339(s).is_ok()
}

/// Which block the parser stands in after a key line: no block, the items
/// of the `tags` key, or the items of an ignored unknown key.
#[derive(Clone, Copy)]
pub enum Block {
    /// Not inside a block: an item line here is an error.
    Plain,
    /// Inside the `tags` block: item lines are tag labels.
    Tags,
    /// Inside an unknown key's block: item lines are ignored.
    Ignored,
}

/// The parser state after some prefix of the metadata lines.
pub ghost struct LineState {
    /// The title seen so far, if any.
    pub title: Option<Seq<char>>,
    /// The tag list, present once a `tags:` line was seen.
    pub tags: Option<Seq<Seq<char>>>,
    /// The timestamp text seen so far, if any.
    pub datetime: Option<Seq<char>>,
    /// The template name seen so far, if any.
    pub template: Option<Seq<char>>,
    /// The block the parser stands in.
    pub mode: Block,
}

/// The state before any line: nothing seen, no block.
pub open spec fn init_state() -> LineState {
    LineState { title: None, tags: None, datetime: None, template: None, mode: Block::Plain }
}

/// One step of the metadata parser: the state after reading `line` in
/// state `st`, or `None` when the line is invalid there.
pub open spec fn step_line(st: LineState, line: Seq<char>) -> Option<LineState> {
    let t = spec_trim(line);
    if t.len() == 0 {
        Some(st)
    } else if t[0] == '-' {
        match st.mode {
            Block::Tags => {
                let item = spec_trim(t.drop_first());
                if item.len() == 0 {
                    None
                } else {
                    match st.tags {
                        Some(items) => Some(
                            LineState {
                                title: st.title,
                                tags: Some(items.push(item)),
                                datetime: st.datetime,
                                template: st.template,
                                mode: Block::Tags,
                            },
                        ),
                        None => None,
                    }
                }
            },
            Block::Ignored => Some(st),
            Block::Plain => None,
        }
    } else {
        match find_char(t, ':') {
            None => None,
            Some(i) => {
                let key = spec_trim(t.subrange(0, i));
                let value = spec_trim(t.skip(i + 1));
                if key == "title"@ {
                    if st.title is Some || value.len() == 0 {
                        None
                    } else {
                        Some(
                            LineState {
                                title: Some(value),
                                tags: st.tags,
                                datetime: st.datetime,
                                template: st.template,
                                mode: Block::Plain,
                            },
                        )
                    }
                } else if key == "tags"@ {
                    if st.tags is Some || value.len() > 0 {
                        None
                    } else {
                        Some(
                            LineState {
                                title: st.title,
                                tags: Some(Seq::empty()),
                                datetime: st.datetime,
                                template: st.template,
                                mode: Block::Tags,
                            },
                        )
                    }
                } else if key == "datetime"@ {
                    if st.datetime is Some || value.len() == 0 || !is_rfc3339(value) {
                        None
                    } else {
                        Some(
                            LineState {
                                title: st.title,
                                tags: st.tags,
                                datetime: Some(value),
                                template: st.template,
                                mode: Block::Plain,
                            },
                        )
                    }
                } else if key == "template"@ {
                    if st.template is Some || value.len() == 0 {
                        None
                    } else {
                        Some(
                            LineState {
                                title: st.title,
                                tags: st.tags,
                                datetime: st.datetime,
                                template: Some(value),
                                mode: Block::Plain,
                            },
                        )
                    }
                } else {
                    Some(
                        LineState {
                            title: st.title,
                            tags: st.tags,
                            datetime: st.datetime,
                            template: st.template,
                            mode: Block::Ignored,
                        },
                    )
                }
            },
        }
    }
}

/// The state after reading all of `lines` starting from `st`, or `None`
/// when some line is invalid.
pub open spec fn parse_lines(lines: Seq<Seq<char>>, st: LineState) -> Option<LineState>
    decreases lines.len(),
{
    if lines.len() == 0 {
        Some(st)
    } else {
        match step_line(st, lines[0]) {
            None => None,
            Some(st2) => parse_lines(lines.drop_first(), st2),
        }
    }
}

/// The front matter record a metadata block parses to, or `None` when it
/// is malformed or lacks a nonempty `title`.
pub open spec fn fm_parse(meta: Seq<char>) -> Option<FrontMatterView> {
    match parse_lines(split_char(meta, '\n'), init_state()) {
        None => None,
        Some(st) => match st.title {
            None => None,
            Some(ttl) => Some(
                FrontMatterView {
                    title: ttl,
                    tags: match st.tags {
                        Some(items) => items,
                        None => Seq::empty(),
                    },
                    datetime: st.datetime,
                    template: st.template,
                },
            ),
        },
    }
}

/// Parses a metadata block into a front matter record.
///
/// Succeeds exactly on the blocks the metadata grammar accepts with a
/// nonempty `title`; a missing `tags` key yields the empty tag list, and a
/// missing `datetime` or `template` key is reported absent.
pub fn parse_front_matter(meta: &str) -> (r: Result<FrontMatter, BuildError>)
    ensures
        r is Ok <==> fm_parse(meta@) is Some,
        r is Ok ==> Some(r->Ok_0@) == fm_parse(meta@),
        r is Err ==> r->Err_0 is Format,
{
    let lines = split_char_str(meta, '\n');
    let mut title: Option<String> = None;
    let mut tags_vec: Vec<String> = Vec::new();
    let mut tags_set: bool = false;
    let mut datetime: Option<String> = None;
    let mut template: Option<String> = None;
    let mut mode = Block::Plain;
    let mut i: usize = 0;
    let ghost all = str_views(lines@);
    proof {
        assert(all.skip(0) =~= all);
    }
    while i < lines.len()
        invariant
            all == str_views(lines@),
            all == split_char(meta@, '\n'),
            0 <= i <= lines.len(),
            !tags_set ==> tags_vec@.len() == 0,
            mode is Tags ==> tags_set,
            parse_lines(all, init_state()) == parse_lines(
                all.skip(i as int),
                LineState {
                    title: opt_str_view(title),
                    tags: if tags_set {
                        Some(str_views(tags_vec@))
                    } else {
                        None
                    },
                    datetime: opt_str_view(datetime),
                    template: opt_str_view(template),
                    mode: mode,
                },
            ),
        decreases lines.len() - i,
    {
        let ghost st0 = LineState {
            title: opt_str_view(title),
            tags: if tags_set {
                Some(str_views(tags_vec@))
            } else {
                None
            },
            datetime: opt_str_view(datetime),
            template: opt_str_view(template),
            mode: mode,
        };
        let ghost line = all[i as int];
        proof {
            assert(all.skip(i as int).len() > 0);
            assert(all.skip(i as int)[0] == line);
            assert(all.skip(i as int).drop_first() =~= all.skip(i as int + 1));
        }
        let t = trim_str(lines[i].as_str());
        let tlen = t.as_str().unicode_len();
        if tlen == 0 {
            proof {
                assert(step_line(st0, line) == Some(st0));
            }
        } else if t.as_str().get_char(0) == '-' {
            match mode {
                Block::Tags => {
                    let item = trim_str(t.as_str().substring_char(1, tlen));
                    proof {
                        assert(t@.subrange(1, tlen as int) =~= t@.drop_first());
                    }
                    if item.as_str().unicode_len() == 0 {
                        proof {
                            assert(step_line(st0, line) is None);
                        }
                        return Err(
                            BuildError::Format(
                                String::from_str("front matter holds an empty list item"),
                            ),
                        );
                    }
                    let ghost tags0 = tags_vec@;
                    tags_vec.push(item);
                    proof {
                        assert(str_views(tags_vec@) =~= str_views(tags0).push(
                            spec_trim(t@.drop_first()),
                        ));
                    }
                },
                Block::Ignored => {
                    proof {
                        assert(step_line(st0, line) == Some(st0));
                    }
                },
                Block::Plain => {
                    proof {
                        assert(step_line(st0, line) is None);
                    }
                    return Err(
                        BuildError::Format(
                            String::from_str("front matter holds a list item under no key"),
                        ),
                    );
                },
            }
        } else {
            let found = find_char_str(t.as_str(), ':');
            match found {
                None => {
                    proof {
                        assert(step_line(st0, line) is None);
                    }
                    return Err(
                        BuildError::Format(String::from_str("front matter line holds no `:`")),
                    );
                },
                Some(ci) => {
                    let key = trim_str(t.as_str().substring_char(0, ci));
                    let value = trim_str(t.as_str().substring_char(ci + 1, tlen));
                    proof {
                        assert(t@.subrange(ci + 1, tlen as int) =~= t@.skip(ci + 1));
                    }
                    let vlen = value.as_str().unicode_len();
                    if str_eq(&key, "title") {
                        if title.is_some() || vlen == 0 {
                            proof {
                                assert(step_line(st0, line) is None);
                            }
                            return Err(
                                BuildError::Format(
                                    String::from_str("front matter title is duplicate or empty"),
                                ),
                            );
                        }
                        title = Some(value);
                        mode = Block::Plain;
                    } else if str_eq(&key, "tags") {
                        if tags_set || vlen > 0 {
                            proof {
                                assert(step_line(st0, line) is None);
                            }
                            return Err(
                                BuildError::Format(
                                    String::from_str(
                                        "front matter tags are duplicate or not a list",
                                    ),
                                ),
                            );
                        }
                        tags_set = true;
                        mode = Block::Tags;
                        proof {
                            assert(str_views(tags_vec@) =~= Seq::<Seq<char>>::empty());
                        }
                    } else if str_eq(&key, "datetime") {
                        let ok = if vlen == 0 {
                            false
                        } else {
                            datetime_valid(value.as_str())
                        };
                        if datetime.is_some() || !ok {
                            proof {
                                assert(step_line(st0, line) is None);
                            }
                            return Err(
                                BuildError::Format(
                                    String::from_str(
                                        "front matter datetime is duplicate, empty or invalid",
                                    ),
                                ),
                            );
                        }
                        datetime = Some(value);
                        mode = Block::Plain;
                    } else if str_eq(&key, "template") {
                        if template.is_some() || vlen == 0 {
                            proof {
                                assert(step_line(st0, line) is None);
                            }
                            return Err(
                                BuildError::Format(
                                    String::from_str(
                                        "front matter template is duplicate or empty",
                                    ),
                                ),
                            );
                        }
                        template = Some(value);
                        mode = Block::Plain;
                    } else {
                        mode = Block::Ignored;
                    }
                },
            }
        }
        i = i + 1;
    }
    proof {
        assert(all.skip(lines@.len() as int) =~= Seq::<Seq<char>>::empty());
    }
    match title {
        None => Err(BuildError::Format(String::from_str("front matter lacks a title"))),
        Some(ttl) => {
            let tags_final = if tags_set {
                tags_vec
            } else {
                Vec::new()
            };
            proof {
                if !tags_set {
                    assert(str_views(tags_final@) =~= Seq::<Seq<char>>::empty());
                }
            }
            Ok(FrontMatter { title: ttl, tags: tags_final, datetime, template })
        },
    }
}

/// Whether a metadata line carries the `title` key: once trimmed it is
/// nonempty, is no list item, and the text before its first `:` trims to
/// `title`.
pub open spec fn is_title_line(line: Seq<char>) -> bool {
    let t = spec_trim(line);
    t.len() > 0 && t[0] != '-' && match find_char(t, ':') {
        None => false,
        Some(i) => spec_trim(t.subrange(0, i)) == "title"@,
    }
}

/// The title is required: metadata whose lines never carry the `title`
/// key cannot parse into a front matter record.
pub proof fn lemma_missing_title(meta: Seq<char>)
    requires
        forall|k: int|
            0 <= k < split_char(meta, '\n').len() ==> !is_title_line(
                #[trigger] split_char(meta, '\n')[k],
            ),
    ensures
        fm_parse(meta) is None,
{
    lemma_missing_title_lines(split_char(meta, '\n'), init_state());
}

proof fn lemma_missing_title_lines(lines: Seq<Seq<char>>, st: LineState)
    requires
        st.title is None,
        forall|k: int| 0 <= k < lines.len() ==> !is_title_line(#[trigger] lines[k]),
    ensures
        match parse_lines(lines, st) {
            None => true,
            Some(st2) => st2.title is None,
        },
    decreases lines.len(),
{
    if lines.len() > 0 {
        match step_line(st, lines[0]) {
            None => {},
            Some(st2) => {
                assert(!is_title_line(lines[0]));
                assert(st2.title is None);
                let d = lines.drop_first();
                assert forall|k: int| 0 <= k < d.len() implies !is_title_line(#[trigger] d[k]) by {
                    assert(d[k] == lines[k + 1]);
                }
                lemma_missing_title_lines(d, st2);
            },
        }
    }
}

/// Only the title is required: metadata consisting of one `title:` line
/// with a trimmed nonempty value parses, with empty tags and neither a
/// datetime nor a template.
pub proof fn lemma_title_only(v: Seq<char>)
    requires
        v.len() > 0,
        !is_space_char(v[0]),
        !is_space_char(v[v.len() - 1]),
        forall|j: int| 0 <= j < v.len() ==> v[j] != '\n',
    ensures
        fm_parse("title: "@ + v) == Some(
            FrontMatterView { title: v, tags: Seq::empty(), datetime: None, template: None },
        ),
{
    reveal_strlit("title: ");
    reveal_strlit("title");
    let meta = "title: "@ + v;
    assert(meta.len() == 7 + v.len());
    assert(meta[0] == 't');
    assert(meta[1] == 'i');
    assert(meta[2] == 't');
    assert(meta[3] == 'l');
    assert(meta[4] == 'e');
    assert(meta[5] == ':');
    assert(meta[6] == ' ');
    assert forall|j: int| 0 <= j < v.len() implies #[trigger] meta[7 + j] == v[j] by {}
    lemma_find_char(meta, '\n');
    match find_char(meta, '\n') {
        None => {},
        Some(i) => {
            assert(meta[i] == '\n');
            if i >= 7 {
                assert(meta[i] == v[i - 7]);
            }
            assert(false);
        },
    }
    assert(split_char(meta, '\n') == seq![meta]);
    assert(meta[meta.len() - 1] == v[v.len() - 1]);
    lemma_trim_already_trimmed(meta);
    lemma_find_char(meta, ':');
    match find_char(meta, ':') {
        None => {
            assert(false);
        },
        Some(i) => {
            assert(meta[i] == ':');
            assert(i <= 5);
            assert(i == 5);
        },
    }
    assert(meta.subrange(0, 5) =~= "title"@);
    lemma_trim_already_trimmed("title"@);
    let rest = meta.skip(6);
    assert(rest.len() == 1 + v.len());
    assert(rest[0] == ' ');
    assert(rest.drop_first() =~= v);
    assert(trim_front(rest) == trim_front(v));
    lemma_trim_front_idx(v, 0);
    assert(v.skip(0) =~= v);
    lemma_trim_back_idx(v, v.len() as int);
    assert(v.take(v.len() as int) =~= v);
    assert(spec_trim(rest) == v);
    let st2 = LineState {
        title: Some(v),
        tags: None,
        datetime: None,
        template: None,
        mode: Block::Plain,
    };
    assert(step_line(init_state(), meta) == Some(st2));
    assert(seq![meta].drop_first() =~= Seq::<Seq<char>>::empty());
    assert(parse_lines(seq![meta].drop_first(), st2) == Some(st2));
    assert(parse_lines(seq![meta], init_state()) == Some(st2));
}

/// Whether the string `a` holds the same characters as `b`.
fn str_eq(a: &String, b: &str) -> (r: bool)
    ensures
        r == (a@ == b@),
{
    let owned = b.to_owned();
    *a == owned
}

/// The view of an optional string.
pub open spec fn opt_str_view(o: Option<String>) -> Option<Seq<char>> {
    match o {
        Some(s) => Some(s@),
        None => None,
    }
}

} // verus!
