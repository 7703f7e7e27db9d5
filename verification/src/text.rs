//! Verified text utilities: whitespace trimming, character search, and
//! splitting on the document separator line `---\n` or on a single character.
//!
//! All executable functions here are specified against recursive spec
//! functions over `Seq<char>`; nothing in this module is trusted.
use vstd::prelude::*;

verus! {

/// The characters treated as whitespace by trimming: the ASCII space and
/// control whitespace characters.
pub open spec fn is_space_char(c: char) -> bool {
    c == ' ' || c == '\t' || c == '\n' || c == '\r' || c == '\u{b}' || c == '\u{c}'
}

/// Whether `c` counts as whitespace for trimming.
pub fn is_space(c: char) -> (r: bool)
    ensures
        r == is_space_char(c),
{
    c == ' ' || c == '\t' || c == '\n' || c == '\r' || c == '\u{b}' || c == '\u{c}'
}

/// `s` without its leading whitespace characters.
pub open spec fn trim_front(s: Seq<char>) -> Seq<char>
    decreases s.len(),
{
    if s.len() > 0 && is_space_char(s[0]) {
        trim_front(s.drop_first())
    } else {
        s
    }
}

/// `s` without its trailing whitespace characters.
pub open spec fn trim_back(s: Seq<char>) -> Seq<char>
    decreases s.len(),
{
    if s.len() > 0 && is_space_char(s[s.len() - 1]) {
        trim_back(s.drop_last())
    } else {
        s
    }
}

/// `s` without leading and trailing whitespace.
pub open spec fn spec_trim(s: Seq<char>) -> Seq<char> {
    trim_back(trim_front(s))
}

/// If the first `a` characters of `s` are whitespace and the character at
/// `a` (if any) is not, then trimming the front of `s` drops exactly those
/// `a` characters.
pub proof fn lemma_trim_front_idx(s: Seq<char>, a: int)
    requires
        0 <= a <= s.len(),
        forall|k: int| 0 <= k < a ==> is_space_char(s[k]),
        a == s.len() || !is_space_char(s[a]),
    ensures
        trim_front(s) == s.skip(a),
    decreases a,
{
    if a == 0 {
        assert(s.skip(0) =~= s);
    } else {
        assert(is_space_char(s[0]));
        let d = s.drop_first();
        assert forall|k: int| 0 <= k < a - 1 implies is_space_char(#[trigger] d[k]) by {
            assert(d[k] == s[k + 1]);
        }
        if a < s.len() {
            assert(d[a - 1] == s[a]);
        }
        lemma_trim_front_idx(d, a - 1);
        assert(d.skip(a - 1) =~= s.skip(a));
    }
}

/// If all characters of `s` from `b` on are whitespace and the character at
/// `b - 1` (if any) is not, then trimming the back of `s` keeps exactly the
/// first `b` characters.
pub proof fn lemma_trim_back_idx(s: Seq<char>, b: int)
    requires
        0 <= b <= s.len(),
        forall|k: int| b <= k < s.len() ==> is_space_char(s[k]),
        b == 0 || !is_space_char(s[b - 1]),
    ensures
        trim_back(s) == s.take(b),
    decreases s.len(),
{
    if b == s.len() {
        assert(s.take(b) =~= s);
    } else {
        assert(is_space_char(s[s.len() - 1]));
        let d = s.drop_last();
        assert forall|k: int| b <= k < d.len() implies is_space_char(#[trigger] d[k]) by {
            assert(d[k] == s[k]);
        }
        lemma_trim_back_idx(d, b);
        assert(d.take(b) =~= s.take(b));
    }
}

/// Trimming never lengthens a sequence.
pub proof fn lemma_trim_len(s: Seq<char>)
    ensures
        spec_trim(s).len() <= s.len(),
{
    lemma_trim_front_len(s);
    lemma_trim_back_len(trim_front(s));
}

proof fn lemma_trim_front_len(s: Seq<char>)
    ensures
        trim_front(s).len() <= s.len(),
    decreases s.len(),
{
    if s.len() > 0 && is_space_char(s[0]) {
        lemma_trim_front_len(s.drop_first());
    }
}

proof fn lemma_trim_back_len(s: Seq<char>)
    ensures
        trim_back(s).len() <= s.len(),
    decreases s.len(),
{
    if s.len() > 0 && is_space_char(s[s.len() - 1]) {
        lemma_trim_back_len(s.drop_last());
    }
}

/// A sequence with no leading and no trailing whitespace is unchanged by
/// trimming.
pub proof fn lemma_trim_already_trimmed(s: Seq<char>)
    requires
        s.len() == 0 || (!is_space_char(s[0]) && !is_space_char(s[s.len() - 1])),
    ensures
        spec_trim(s) == s,
{
    lemma_trim_front_idx(s, 0);
    assert(s.skip(0) =~= s);
    lemma_trim_back_idx(s, s.len() as int);
    assert(s.take(s.len() as int) =~= s);
}

/// `s` with leading and trailing whitespace removed, computed over the
/// characters of the string.
pub fn trim_str(s: &str) -> (r: String)
    ensures
        r@ == spec_trim(s@),
{
    let n = s.unicode_len();
    let mut a: usize = 0;
    while a < n && is_space(s.get_char(a))
        invariant
            n == s@.len(),
            0 <= a <= n,
            forall|k: int| 0 <= k < a ==> is_space_char(s@[k]),
        decreases n - a,
    {
        a = a + 1;
    }
    if a == n {
        proof {
            lemma_trim_front_idx(s@, a as int);
            assert(s@.skip(n as int) =~= Seq::<char>::empty());
        }
        return String::new();
    }
    let mut b: usize = n;
    while b > a && is_space(s.get_char(b - 1))
        invariant
            n == s@.len(),
            0 <= a < n,
            a <= b <= n,
            !is_space_char(s@[a as int]),
            forall|k: int| b <= k < n ==> is_space_char(s@[k]),
        decreases b,
    {
        b = b - 1;
    }
    proof {
        if b == a {
            assert(is_space_char(s@[a as int]));
        }
    }
    let piece = s.substring_char(a, b);
    proof {
        lemma_trim_front_idx(s@, a as int);
        let f = s@.skip(a as int);
        assert forall|k: int| b - a <= k < f.len() implies is_space_char(#[trigger] f[k]) by {
            assert(f[k] == s@[k + a]);
        }
        assert(f[b - a - 1] == s@[b - 1]);
        lemma_trim_back_idx(f, b - a);
        assert(f.take(b - a) =~= s@.subrange(a as int, b as int));
    }
    piece.to_owned()
}

/// The index of the first occurrence of `c` in `s`, if any.
pub open spec fn find_char(s: Seq<char>, c: char) -> Option<int>
    decreases s.len(),
{
    if s.len() == 0 {
        None
    } else if s[0] == c {
        Some(0)
    } else {
        match find_char(s.drop_first(), c) {
            None => None,
            Some(i) => Some(i + 1),
        }
    }
}

/// `find_char` returns the first index holding `c`, or reports that no
/// index does.
pub proof fn lemma_find_char(s: Seq<char>, c: char)
    ensures
        match find_char(s, c) {
            None => forall|j: int| 0 <= j < s.len() ==> s[j] != c,
            Some(i) => 0 <= i < s.len() && s[i] == c && (forall|j: int| 0 <= j < i ==> s[j] != c),
        },
    decreases s.len(),
{
    if s.len() == 0 {
    } else if s[0] == c {
    } else {
        let d = s.drop_first();
        lemma_find_char(d, c);
        match find_char(d, c) {
            None => {
                assert forall|j: int| 0 <= j < s.len() implies s[j] != c by {
                    if j > 0 {
                        assert(d[j - 1] == s[j]);
                    }
                }
            },
            Some(i) => {
                assert(d[i] == s[i + 1]);
                assert forall|j: int| 0 <= j < i + 1 implies s[j] != c by {
                    if j > 0 {
                        assert(d[j - 1] == s[j]);
                    }
                }
            },
        }
    }
}

/// The index of the first occurrence of `c` in `s`, if any, as an exec
/// scan over the characters.
pub fn find_char_str(s: &str, c: char) -> (r: Option<usize>)
    ensures
        match r {
            None => find_char(s@, c) is None,
            Some(i) => find_char(s@, c) == Some(i as int) && i < s@.len(),
        },
{
    let n = s.unicode_len();
    let mut i: usize = 0;
    while i < n
        invariant
            n == s@.len(),
            0 <= i <= n,
            forall|j: int| 0 <= j < i ==> s@[j] != c,
        decreases n - i,
    {
        if s.get_char(i) == c {
            proof {
                lemma_find_char(s@, c);
            }
            return Some(i);
        }
        i = i + 1;
    }
    proof {
        lemma_find_char(s@, c);
    }
    None
}

/// The document separator: the line `---` followed by a newline.
pub open spec fn sep_seq() -> Seq<char> {
    seq!['-', '-', '-', '\n']
}

/// Whether the four-character separator `---` followed by a newline stands
/// at index `i` of `s`.
pub open spec fn sep_at(s: Seq<char>, i: int) -> bool {
    &&& 0 <= i
    &&& i + 4 <= s.len()
    &&& s[i] == '-'
    &&& s[i + 1] == '-'
    &&& s[i + 2] == '-'
    &&& s[i + 3] == '\n'
}

/// The index of the first separator occurrence in `s`, if any.
pub open spec fn find_sep(s: Seq<char>) -> Option<int>
    decreases s.len(),
{
    if s.len() < 4 {
        None
    } else if sep_at(s, 0) {
        Some(0)
    } else {
        match find_sep(s.drop_first()) {
            None => None,
            Some(i) => Some(i + 1),
        }
    }
}

/// `find_sep` returns the first index where the separator stands, or
/// reports that it stands nowhere.
pub proof fn lemma_find_sep(s: Seq<char>)
    ensures
        match find_sep(s) {
            None => forall|j: int| !sep_at(s, j),
            Some(i) => sep_at(s, i) && (forall|j: int| 0 <= j < i ==> !sep_at(s, j)),
        },
    decreases s.len(),
{
    if s.len() < 4 {
        assert forall|j: int| !sep_at(s, j) by {};
    } else if sep_at(s, 0) {
    } else {
        let d = s.drop_first();
        lemma_find_sep(d);
        assert forall|j: int| 0 <= j < d.len() implies #[trigger] d[j] == s[j + 1] by {}
        match find_sep(d) {
            None => {
                assert forall|j: int| !sep_at(s, j) by {
                    if j > 0 && j + 4 <= s.len() {
                        assert(!sep_at(d, j - 1));
                        assert(d[j - 1] == s[j]);
                        assert(d[j] == s[j + 1]);
                        assert(d[j + 1] == s[j + 2]);
                        assert(d[j + 2] == s[j + 3]);
                    }
                }
            },
            Some(i) => {
                assert(sep_at(d, i));
                assert(sep_at(s, i + 1));
                assert forall|j: int| 0 <= j < i + 1 implies !sep_at(s, j) by {
                    if j > 0 {
                        assert(!sep_at(d, j - 1));
                        assert(d[j - 1] == s[j]);
                        assert(d[j] == s[j + 1]);
                        assert(d[j + 1] == s[j + 2]);
                        assert(d[j + 2] == s[j + 3]);
                    }
                }
            },
        }
    }
}

/// The index of the first separator occurrence, as an exec scan.
pub fn find_sep_str(s: &str) -> (r: Option<usize>)
    ensures
        match r {
            None => find_sep(s@) is None,
            Some(i) => find_sep(s@) == Some(i as int) && i + 4 <= s@.len(),
        },
{
    let n = s.unicode_len();
    if n < 4 {
        proof {
            lemma_find_sep(s@);
        }
        return None;
    }
    let mut i: usize = 0;
    while i <= n - 4
        invariant
            n == s@.len(),
            4 <= n,
            0 <= i <= n - 3,
            forall|j: int| 0 <= j < i ==> !sep_at(s@, j),
        decreases n - i,
    {
        if s.get_char(i) == '-' && s.get_char(i + 1) == '-' && s.get_char(i + 2) == '-'
            && s.get_char(i + 3) == '\n' {
            proof {
                assert(sep_at(s@, i as int));
                lemma_find_sep(s@);
            }
            return Some(i);
        }
        proof {
            assert(!sep_at(s@, i as int));
        }
        i = i + 1;
    }
    proof {
        assert forall|j: int| !sep_at(s@, j) by {
            if 0 <= j && j + 4 <= s@.len() {
                assert(j < i);
            }
        }
        lemma_find_sep(s@);
    }
    None
}

/// The pieces of `s` between separator occurrences, in order, split at
/// each first occurrence from the left.
pub open spec fn split_sep(s: Seq<char>) -> Seq<Seq<char>>
    decreases s.len(),
    via split_sep_decreases
{
    match find_sep(s) {
        None => seq![s],
        Some(i) => seq![s.subrange(0, i)] + split_sep(s.skip(i + 4)),
    }
}

#[via_fn]
proof fn split_sep_decreases(s: Seq<char>) {
    lemma_find_sep(s);
}

/// The pieces of `s` between occurrences of the character `c`, in order.
pub open spec fn split_char(s: Seq<char>, c: char) -> Seq<Seq<char>>
    decreases s.len(),
    via split_char_decreases
{
    match find_char(s, c) {
        None => seq![s],
        Some(i) => seq![s.subrange(0, i)] + split_char(s.skip(i + 1), c),
    }
}

#[via_fn]
proof fn split_char_decreases(s: Seq<char>, c: char) {
    lemma_find_char(s, c);
}

/// The views of a vector of strings.
pub open spec fn str_views(v: Seq<String>) -> Seq<Seq<char>> {
    v.map_values(|p: String| p@)
}

/// The document segments of `s`: the pieces of the separator split that
/// are nonempty, each trimmed of leading and trailing whitespace, in order.
pub open spec fn segments_of(s: Seq<char>) -> Seq<Seq<char>> {
    split_sep(s).filter(|p: Seq<char>| p.len() > 0).map_values(|p: Seq<char>| spec_trim(p))
}

/// Splits `s` on each separator occurrence, drops the empty pieces, and
/// trims the rest, in order.
pub fn split_sep_parts(s: &str) -> (r: Vec<String>)
    ensures
        str_views(r@) == segments_of(s@),
{
    let mut rest: String = s.to_owned();
    let mut parts: Vec<String> = Vec::new();
    let ghost mut raw: Seq<Seq<char>> = Seq::empty();
    proof {
        assert(raw + split_sep(rest@) =~= split_sep(s@));
        assert(str_views(parts@) =~= raw.filter(|p: Seq<char>| p.len() > 0).map_values(
            |p: Seq<char>| spec_trim(p),
        ));
    }
    loop
        invariant
            split_sep(s@) == raw + split_sep(rest@),
            str_views(parts@) == raw.filter(|p: Seq<char>| p.len() > 0).map_values(
                |p: Seq<char>| spec_trim(p),
            ),
        decreases rest@.len(),
    {
        let n = rest.as_str().unicode_len();
        let found = find_sep_str(rest.as_str());
        match found {
            Some(i) => {
                let piece = rest.as_str().substring_char(0, i);
                let t = trim_str(piece);
                let ghost p = rest@.subrange(0, i as int);
                let ghost parts0 = parts@;
                proof {
                    lemma_push_part(raw, p, parts0, t@);
                }
                if i > 0 {
                    parts.push(t);
                    proof {
                        assert(str_views(parts@) =~= str_views(parts0).push(t@));
                    }
                }
                proof {
                    raw = raw + seq![p];
                    assert(split_sep(rest@) == seq![p] + split_sep(rest@.skip(i + 4)));
                    assert(raw + split_sep(rest@.skip(i + 4)) =~= split_sep(s@));
                }
                let tail = rest.as_str().substring_char(i + 4, n).to_owned();
                proof {
                    assert(tail@ =~= rest@.skip(i + 4));
                }
                rest = tail;
            },
            None => {
                let t = trim_str(rest.as_str());
                let ghost p = rest@;
                let ghost parts0 = parts@;
                proof {
                    lemma_push_part(raw, p, parts0, t@);
                }
                if n > 0 {
                    parts.push(t);
                    proof {
                        assert(str_views(parts@) =~= str_views(parts0).push(t@));
                    }
                }
                proof {
                    raw = raw + seq![p];
                    assert(split_sep(rest@) == seq![p]);
                    assert(raw =~= split_sep(s@));
                }
                return parts;
            },
        }
    }
}

/// Appending one raw piece to the processed prefix extends the filtered,
/// trimmed view by that piece's contribution.
proof fn lemma_push_part(raw: Seq<Seq<char>>, p: Seq<char>, parts: Seq<String>, t: Seq<char>)
    requires
        str_views(parts) == raw.filter(|q: Seq<char>| q.len() > 0).map_values(
            |q: Seq<char>| spec_trim(q),
        ),
        t == spec_trim(p),
    ensures
        p.len() > 0 ==> (raw + seq![p]).filter(|q: Seq<char>| q.len() > 0).map_values(
            |q: Seq<char>| spec_trim(q),
        ) == str_views(parts).push(t),
        p.len() == 0 ==> (raw + seq![p]).filter(|q: Seq<char>| q.len() > 0).map_values(
            |q: Seq<char>| spec_trim(q),
        ) == str_views(parts),
{
    let pred = |q: Seq<char>| q.len() > 0;
    let f = |q: Seq<char>| spec_trim(q);
    reveal_with_fuel(Seq::<Seq<char>>::filter, 2);
    Seq::<Seq<char>>::filter_distributes_over_add(raw, seq![p], pred);
    assert(seq![p].drop_last() =~= Seq::<Seq<char>>::empty());
    assert(Seq::<Seq<char>>::empty().filter(pred) =~= Seq::<Seq<char>>::empty());
    if p.len() > 0 {
        assert(seq![p].filter(pred) =~= seq![p]);
        assert((raw + seq![p]).filter(pred) =~= raw.filter(pred) + seq![p]);
        assert((raw.filter(pred) + seq![p]).map_values(f) =~= raw.filter(pred).map_values(f).push(
            t,
        ));
    } else {
        assert(seq![p].filter(pred) =~= Seq::<Seq<char>>::empty());
        assert((raw + seq![p]).filter(pred) =~= raw.filter(pred));
    }
}

/// Splits `s` on each occurrence of `c`, keeping every piece, in order.
pub fn split_char_str(s: &str, c: char) -> (r: Vec<String>)
    ensures
        str_views(r@) == split_char(s@, c),
{
    let mut rest: String = s.to_owned();
    let mut parts: Vec<String> = Vec::new();
    proof {
        assert(str_views(parts@) + split_char(rest@, c) =~= split_char(s@, c));
    }
    loop
        invariant
            split_char(s@, c) == str_views(parts@) + split_char(rest@, c),
        decreases rest@.len(),
    {
        let n = rest.as_str().unicode_len();
        let found = find_char_str(rest.as_str(), c);
        match found {
            Some(i) => {
                let piece = rest.as_str().substring_char(0, i).to_owned();
                let ghost p = rest@.subrange(0, i as int);
                let ghost parts0 = parts@;
                parts.push(piece);
                proof {
                    assert(str_views(parts@) =~= str_views(parts0).push(p));
                    assert(split_char(rest@, c) == seq![p] + split_char(rest@.skip(i + 1), c));
                    assert(str_views(parts@) + split_char(rest@.skip(i + 1), c) =~= split_char(
                        s@,
                        c,
                    ));
                }
                let tail = rest.as_str().substring_char(i + 1, n).to_owned();
                proof {
                    assert(tail@ =~= rest@.skip(i + 1));
                }
                rest = tail;
            },
            None => {
                let ghost p = rest@;
                let ghost parts0 = parts@;
                parts.push(rest);
                proof {
                    assert(str_views(parts@) =~= str_views(parts0).push(p));
                    assert(split_char(p, c) == seq![p]);
                    assert(str_views(parts@) =~= split_char(s@, c));
                }
                return parts;
            },
        }
    }
}

} // verus!
