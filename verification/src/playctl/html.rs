//! Best-effort reading of a playground page's `<title>` and
//! `<meta name="description" content="...">`, used when the index is rebuilt
//! from the pages on disk.
//!
//! Tags and attribute names are matched without regard to ASCII case; values
//! keep their case.  Matching is done on an ASCII-lowercased copy of the page,
//! which has the same length, so positions found there apply to the page.
use crate::text::{
    chars_eq, chars_of, find, find_char, find_char_from, find_from, is_ascii_whitespace, is_ascii_ws,
    is_whitespace, is_ws, lemma_find_from, lower, lower_chars, slice_chars, string_of, string_range,
    trim, trim_bounds, lemma_find_from_is, occurs_at,
};
use vstd::prelude::*;

verus! {

broadcast use vstd::string::group_string_axioms;

// ---------------------------------------------------------------------------
// <title>
// ---------------------------------------------------------------------------
/// The trimmed text between the first `<title>` and the first `</title>` after
/// it, case-insensitively; `None` when either is missing.
pub open spec fn title_of(h: Seq<char>) -> Option<Seq<char>> {
    let l = lower(h);
    match find_from(l, "<title>"@, 0) {
        None => None,
        Some(i) => match find_from(l, "</title>"@, i + "<title>"@.len()) {
            None => None,
            Some(j) => Some(trim(h.subrange(i + "<title>"@.len(), j))),
        },
    }
}

/// The text of the page's `<title>` element, trimmed; `None` when the page has
/// no `<title>` or it is not closed.
pub fn extract_title(html: &str) -> (r: Option<String>)
    ensures
        match r {
            Some(t) => title_of(html@) == Some(t@),
            None => title_of(html@) is None,
        },
{
    let h = chars_of(html);
    let l = lower_chars(&h);
    let open = chars_of("<title>");
    let close = chars_of("</title>");
    match find(&l, &open, 0) {
        None => None,
        Some(i) => {
            proof {
                lemma_find_from(l@, open@, 0);
                assert(i + open@.len() <= l@.len());
                assert(i + open.len() <= l.len());
            }
            let start = i + open.len();
            match find(&l, &close, start) {
                None => None,
                Some(j) => {
                    proof {
                        lemma_find_from(l@, close@, start as int);
                    }
                    let (a, b) = trim_bounds(&h, start, j);
                    Some(string_range(&h, a, b))
                },
            }
        },
    }
}

// ---------------------------------------------------------------------------
// Attributes inside one tag
// ---------------------------------------------------------------------------
/// Characters that end an unquoted attribute value.
pub open spec fn ends_unquoted(c: char) -> bool {
    is_ws(c) || c == '>'
}

/// The attribute value that starts at `vs` in `to`: up to the matching quote
/// when it starts with `"` or `'` (`None` if that quote never comes), else up
/// to the first whitespace or `>`, or the end.
pub open spec fn value_at(to: Seq<char>, vs: int) -> Option<Seq<char>> {
    if vs < 0 || vs >= to.len() {
        None
    } else if to[vs] == '"' || to[vs] == '\'' {
        match find_from(to, seq![to[vs]], vs + 1) {
            None => None,
            Some(e) => Some(to.subrange(vs + 1, e)),
        }
    } else {
        match find_char_from(to, |c: char| ends_unquoted(c), vs) {
            Some(e) => Some(to.subrange(vs, e)),
            None => Some(to.subrange(vs, to.len() as int)),
        }
    }
}

/// An attribute name found at `idx` counts only after whitespace or `/`, or at
/// the start of the tag, or right after `<meta` (position 5).
pub open spec fn attr_boundary(tl: Seq<char>, idx: int) -> bool {
    idx == 0 || idx == 5 || is_ascii_ws(tl[idx - 1]) || tl[idx - 1] == '/'
}

/// Scanning `tl` from `pos` for `needle` (`name=`): the value of the first
/// occurrence at an attribute boundary.
pub open spec fn attr_from(tl: Seq<char>, to: Seq<char>, needle: Seq<char>, pos: int) -> Option<
    Seq<char>,
>
    decreases tl.len() + 1 - pos,
{
    if pos < 0 || pos > tl.len() || needle.len() == 0 {
        None
    } else {
        match find_from(tl, needle, pos) {
            None => None,
            Some(idx) => {
                if idx < pos || idx + needle.len() > tl.len() {
                    None
                } else if !attr_boundary(tl, idx) {
                    attr_from(tl, to, needle, idx + needle.len())
                } else {
                    value_at(to, idx + needle.len())
                }
            },
        }
    }
}

/// The value of attribute `attr` in a tag: `tl` is the tag lowercased, `to` the
/// tag as written.
pub open spec fn attr_of(tl: Seq<char>, to: Seq<char>, attr: Seq<char>) -> Option<Seq<char>> {
    attr_from(tl, to, attr.push('='), 0)
}

fn value_at_exec(to: &Vec<char>, vs: usize) -> (r: Option<Vec<char>>)
    ensures
        match r {
            Some(v) => value_at(to@, vs as int) == Some(v@),
            None => value_at(to@, vs as int) is None,
        },
{
    if vs >= to.len() {
        return None;
    }
    let first = to[vs];
    if first == '"' || first == '\'' {
        match find_char(to, first, vs + 1) {
            None => None,
            Some(e) => {
                proof {
                    lemma_find_from(to@, seq![first], vs + 1);
                }
                Some(slice_chars(to, vs + 1, e))
            },
        }
    } else {
        let mut k = vs;
        while k < to.len() && !(is_whitespace(to[k]) || to[k] == '>')
            invariant
                vs <= k <= to@.len(),
                find_char_from(to@, |c: char| ends_unquoted(c), vs as int) == find_char_from(
                    to@,
                    |c: char| ends_unquoted(c),
                    k as int,
                ),
            decreases to.len() - k,
        {
            k = k + 1;
        }
        if k < to.len() {
            assert(find_char_from(to@, |c: char| ends_unquoted(c), k as int) == Some(k as int));
        } else {
            assert(find_char_from(to@, |c: char| ends_unquoted(c), k as int) is None);
        }
        Some(slice_chars(to, vs, k))
    }
}

fn attr_value_chars(tl: &Vec<char>, to: &Vec<char>, needle: &Vec<char>) -> (r: Option<Vec<char>>)
    requires
        tl@.len() == to@.len(),
    ensures
        match r {
            Some(v) => attr_from(tl@, to@, needle@, 0) == Some(v@),
            None => attr_from(tl@, to@, needle@, 0) is None,
        },
{
    if needle.len() == 0 {
        return None;
    }
    let mut pos: usize = 0;
    while pos <= tl.len()
        invariant
            tl@.len() == to@.len(),
            needle@.len() > 0,
            pos <= tl@.len() + 1,
            attr_from(tl@, to@, needle@, 0) == attr_from(tl@, to@, needle@, pos as int),
        decreases tl.len() + 1 - pos,
    {
        match find(tl, needle, pos) {
            None => {
                return None;
            },
            Some(idx) => {
                proof {
                    lemma_find_from(tl@, needle@, pos as int);
                }
                let prev_ok = idx == 0 || idx == 5 || is_ascii_whitespace(tl[idx - 1]) || tl[idx
                    - 1] == '/';
                if !prev_ok {
                    pos = idx + needle.len();
                } else {
                    return value_at_exec(to, idx + needle.len());
                }
            },
        }
    }
    None
}

/// The value of attribute `attr` in a tag, given lowercased (`tag_lower`, used to
/// find the attribute) and as written (`tag_orig`, from which the value is
/// taken).  Only the first occurrence of `attr=` at an attribute boundary
/// counts.
pub fn attr_value(tag_lower: &str, tag_orig: &str, attr: &str) -> (r: Option<String>)
    requires
        tag_lower@.len() == tag_orig@.len(),
    ensures
        match r {
            Some(v) => attr_of(tag_lower@, tag_orig@, attr@) == Some(v@),
            None => attr_of(tag_lower@, tag_orig@, attr@) is None,
        },
{
    let tl = chars_of(tag_lower);
    let to = chars_of(tag_orig);
    let mut needle = chars_of(attr);
    needle.push('=');
    match attr_value_chars(&tl, &to, &needle) {
        Some(v) => Some(string_of(&v)),
        None => None,
    }
}

// ---------------------------------------------------------------------------
// <meta name="description" content="...">
// ---------------------------------------------------------------------------
/// What may follow `<meta` for it to open a meta tag (rather than, say,
/// `<metafoo>`).
pub open spec fn opens_meta(l: Seq<char>, k: int) -> bool {
    0 <= k < l.len() && (l[k] == ' ' || l[k] == '\t' || l[k] == '\n' || l[k] == '\r' || l[k]
        == '>' || l[k] == '/')
}

/// The `content` of a tag whose `name` is `description` (ASCII case ignored).
pub open spec fn description_in_tag(tl: Seq<char>, to: Seq<char>) -> Option<Seq<char>> {
    match attr_of(tl, to, "name"@) {
        Some(n) => if lower(n) == "description"@ {
            attr_of(tl, to, "content"@)
        } else {
            None
        },
        None => None,
    }
}

/// Scanning the page (`h`, lowercased `l`) from `cursor`: the trimmed content of
/// the first meta description tag.  A tag without `>` ends the search.
pub open spec fn description_from(h: Seq<char>, l: Seq<char>, cursor: int) -> Option<Seq<char>>
    decreases l.len() + 1 - cursor,
{
    if cursor < 0 || cursor > l.len() {
        None
    } else {
        match find_from(l, "<meta"@, cursor) {
            None => None,
            Some(t) => {
                if t < cursor || t + 5 > l.len() {
                    None
                } else if !opens_meta(l, t + 5) {
                    description_from(h, l, t + 5)
                } else {
                    match find_from(l, ">"@, t) {
                        None => None,
                        Some(e) => {
                            if e < t || e >= l.len() {
                                None
                            } else {
                                match description_in_tag(l.subrange(t, e), h.subrange(t, e)) {
                                    Some(c) => Some(trim(c)),
                                    None => description_from(h, l, e + 1),
                                }
                            }
                        },
                    }
                }
            },
        }
    }
}

pub open spec fn description_of(h: Seq<char>) -> Option<Seq<char>> {
    description_from(h, lower(h), 0)
}

fn description_in_tag_exec(tl: &Vec<char>, to: &Vec<char>) -> (r: Option<Vec<char>>)
    requires
        tl@.len() == to@.len(),
    ensures
        match r {
            Some(v) => description_in_tag(tl@, to@) == Some(v@),
            None => description_in_tag(tl@, to@) is None,
        },
{
    let mut name_eq = chars_of("name");
    name_eq.push('=');
    assert(name_eq@ == "name"@.push('='));
    match attr_value_chars(tl, to, &name_eq) {
        None => None,
        Some(n) => {
            let ln = lower_chars(&n);
            if chars_eq(&ln, &chars_of("description")) {
                let mut content_eq = chars_of("content");
                content_eq.push('=');
                assert(content_eq@ == "content"@.push('='));
                attr_value_chars(tl, to, &content_eq)
            } else {
                None
            }
        },
    }
}

/// The content of the first `<meta name="description" content="...">` tag,
/// trimmed.  Attribute order, single or double quotes and the ASCII case of
/// tag and attribute names do not matter.  `None` when there is no such tag or
/// when an opened tag is never closed.
pub fn extract_description(html: &str) -> (r: Option<String>)
    ensures
        match r {
            Some(d) => description_of(html@) == Some(d@),
            None => description_of(html@) is None,
        },
{
    proof {
        reveal_strlit("<meta");
    }
    let h = chars_of(html);
    let l = lower_chars(&h);
    let meta = chars_of("<meta");
    let gt = chars_of(">");
    assert(meta@.len() == 5);
    assert(gt@.len() == 1) by {
        reveal_strlit(">");
    }
    let mut cursor: usize = 0;
    while cursor <= l.len()
        invariant
            h@ == html@,
            l@ == lower(h@),
            l@.len() == h@.len(),
            meta@ == "<meta"@,
            meta@.len() == 5,
            gt@ == ">"@,
            gt@.len() == 1,
            cursor <= l@.len() + 1,
            description_of(html@) == description_from(h@, l@, cursor as int),
        decreases l.len() + 1 - cursor,
    {
        let t = match find(&l, &meta, cursor) {
            None => {
                return None;
            },
            Some(t) => t,
        };
        proof {
            lemma_find_from(l@, meta@, cursor as int);
            assert(t + 5 <= l@.len());
        }
        let follows = if t + 5 < l.len() {
            let c = l[t + 5];
            c == ' ' || c == '\t' || c == '\n' || c == '\r' || c == '>' || c == '/'
        } else {
            false
        };
        assert(follows == opens_meta(l@, t + 5));
        if !follows {
            cursor = t + 5;
        } else {
            let e = match find(&l, &gt, t) {
                None => {
                    return None;
                },
                Some(e) => e,
            };
            proof {
                lemma_find_from(l@, gt@, t as int);
                assert(t <= e < l@.len());
            }
            let tl = slice_chars(&l, t, e);
            let to = slice_chars(&h, t, e);
            assert(find_from(l@, ">"@, t as int) == Some(e as int));
            match description_in_tag_exec(&tl, &to) {
                Some(c) => {
                    assert(description_from(h@, l@, cursor as int) == Some(trim(c@)));
                    let (a, b) = trim_bounds(&c, 0, c.len());
                    assert(c@.subrange(0, c@.len() as int) =~= c@);
                    return Some(string_range(&c, a, b));
                },
                None => {
                    cursor = e + 1;
                },
            }
        }
    }
    None
}

/// A quoted attribute value runs from just after its opening quote to the
/// next occurrence of that same quote; the other kind of quote may appear
/// inside it.
pub proof fn law_quoted_value_ends_at_its_own_quote(to: Seq<char>, vs: int, e: int)
    requires
        0 <= vs < e < to.len(),
        to[vs] == '"' || to[vs] == '\'',
        to[e] == to[vs],
        forall|k: int| vs < k < e ==> #[trigger] to[k] != to[vs],
    ensures
        value_at(to, vs) == Some(to.subrange(vs + 1, e)),
{
    let q = seq![to[vs]];
    assert(to.subrange(e, e + 1) =~= q);
    assert forall|k: int| vs + 1 <= k < e implies !occurs_at(to, k, q) by {
        if occurs_at(to, k, q) {
            assert(to.subrange(k, k + 1)[0] == to[k]);
        }
    }
    lemma_find_from_is(to, q, vs + 1, e);
}

/// The title is the whole text between the first `<title>` and the first
/// `</title>` after it (both found without regard to case), trimmed,
/// whatever its length.
pub proof fn law_title_is_whole_element_text(h: Seq<char>, i: int, j: int)
    requires
        0 <= i,
        i + 7 <= j,
        occurs_at(lower(h), i, "<title>"@),
        forall|k: int| 0 <= k < i ==> !occurs_at(lower(h), k, "<title>"@),
        occurs_at(lower(h), j, "</title>"@),
        forall|k: int| i + 7 <= k < j ==> !occurs_at(lower(h), k, "</title>"@),
    ensures
        title_of(h) == Some(trim(h.subrange(i + 7, j))),
{
    reveal_strlit("<title>");
    lemma_find_from_is(lower(h), "<title>"@, 0, i);
    lemma_find_from_is(lower(h), "</title>"@, i + 7, j);
}

} // verus!
