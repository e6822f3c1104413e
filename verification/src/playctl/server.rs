//! The pure parts of the playground HTTP server: the index page template, the
//! slug routes, and the state handed to handlers.
use crate::playctl::slug::{is_valid_slug, slug_char, valid_slug};
use crate::playctl::templates::{escape, push_escaped};
use crate::text::{
    chars_eq, chars_of, components, components_of, decimal, decimal_string, file_name, file_name_of,
    find, find_char, find_from, join, occurs_at, lemma_find_from, lemma_find_suffix, path_join, push_range,
    push_str, slice_chars, string_of, string_range,
};
use vstd::prelude::*;

verus! {

broadcast use vstd::string::group_string_axioms;

/// What the handlers share: the project served and the port it listens on.
#[derive(Debug, Clone, PartialEq, Eq)]
pub struct AppState {
    pub project_root: String,
    pub port: u16,
}

/// The replacement for one `{{token}}`: the escaped project name, the port,
/// the version, or the placeholder itself when the token is unknown.
pub open spec fn token_value(
    token: Seq<char>,
    project_name: Seq<char>,
    port: Seq<char>,
    version: Seq<char>,
) -> Seq<char> {
    if token == "project_name"@ {
        escape(project_name)
    } else if token == "port"@ {
        port
    } else if token == "version"@ {
        version
    } else {
        "{{"@ + token + "}}"@
    }
}

/// One left-to-right pass over the template: each `{{token}}` is replaced by
/// its value and the scan resumes after the `}}`, so inserted values are never
/// scanned again.  An unclosed `{{` and everything after it is kept as is.
pub open spec fn render(
    t: Seq<char>,
    project_name: Seq<char>,
    port: Seq<char>,
    version: Seq<char>,
) -> Seq<char>
    decreases t.len(),
{
    match find_from(t, "{{"@, 0) {
        None => t,
        Some(i) => {
            if i < 0 || i + 2 > t.len() {
                t
            } else {
                let after = t.subrange(i + 2, t.len() as int);
                match find_from(after, "}}"@, 0) {
                    None => t,
                    Some(e) => {
                        if e < 0 || e + 2 > after.len() {
                            t
                        } else {
                            t.subrange(0, i) + token_value(
                                after.subrange(0, e),
                                project_name,
                                port,
                                version,
                            ) + render(
                                after.subrange(e + 2, after.len() as int),
                                project_name,
                                port,
                                version,
                            )
                        }
                    },
                }
            }
        },
    }
}

/// Fills the index page template: `{{project_name}}` (HTML-escaped), `{{port}}`
/// and `{{version}}` are replaced in a single pass; unknown `{{...}}` tokens and
/// an unclosed `{{` are kept verbatim.
pub fn render_index_template(template: &str, project_name: &str, port: &str, version: &str) -> (r:
    String)
    ensures
        r@ == render(template@, project_name@, port@, version@),
{
    proof {
        reveal_strlit("{{");
        reveal_strlit("}}");
    }
    let t = chars_of(template);
    let open = chars_of("{{");
    let close = chars_of("}}");
    let name_tok = chars_of("project_name");
    let port_tok = chars_of("port");
    let version_tok = chars_of("version");
    let mut out: Vec<char> = Vec::new();
    let mut pos: usize = 0;
    assert(t@.subrange(0, t@.len() as int) =~= t@);
    loop
        invariant
            t@ == template@,
            open@ == "{{"@,
            close@ == "}}"@,
            open@.len() == 2,
            close@.len() == 2,
            name_tok@ == "project_name"@,
            port_tok@ == "port"@,
            version_tok@ == "version"@,
            pos <= t@.len(),
            render(template@, project_name@, port@, version@) == out@ + render(
                t@.subrange(pos as int, t@.len() as int),
                project_name@,
                port@,
                version@,
            ),
        decreases t.len() - pos,
    {
        let ghost rest = t@.subrange(pos as int, t@.len() as int);
        let i = match find(&t, &open, pos) {
            None => {
                proof {
                    lemma_find_suffix(t@, open@, pos as int, 0);
                }
                push_range(&mut out, &t, pos, t.len());
                return string_of(&out);
            },
            Some(i) => i,
        };
        proof {
            lemma_find_from(t@, open@, pos as int);
            lemma_find_suffix(t@, open@, pos as int, 0);
        }
        let after = i + 2;
        match find(&t, &close, after) {
            None => {
                proof {
                    let ri = i - pos;
                    let a = rest.subrange(ri + 2, rest.len() as int);
                    assert(a =~= t@.subrange(after as int, t@.len() as int));
                    lemma_find_suffix(t@, close@, after as int, 0);
                }
                push_range(&mut out, &t, pos, t.len());
                return string_of(&out);
            },
            Some(e) => {
                proof {
                    lemma_find_from(t@, close@, after as int);
                }
                let ghost ri = i - pos;
                let ghost a = rest.subrange(ri + 2, rest.len() as int);
                let ghost ea = e - after;
                proof {
                    assert(a =~= t@.subrange(after as int, t@.len() as int));
                    lemma_find_suffix(t@, close@, after as int, 0);
                }
                let ghost before = out@;
                push_range(&mut out, &t, pos, i);
                let token = slice_chars(&t, after, e);
                if chars_eq(&token, &name_tok) {
                    push_escaped(&mut out, project_name);
                } else if chars_eq(&token, &port_tok) {
                    push_str(&mut out, port);
                } else if chars_eq(&token, &version_tok) {
                    push_str(&mut out, version);
                } else {
                    push_str(&mut out, "{{");
                    push_range(&mut out, &t, after, e);
                    push_str(&mut out, "}}");
                }
                proof {
                    assert(rest.subrange(0, ri) =~= t@.subrange(pos as int, i as int));
                    assert(a.subrange(0, ea) =~= token@);
                    assert(a.subrange(ea + 2, a.len() as int) =~= t@.subrange(e + 2, t@.len() as int));
                    assert(out@ =~= before + rest.subrange(0, ri) + token_value(
                        token@,
                        project_name@,
                        port@,
                        version@,
                    ));
                }
                pos = e + 2;
            },
        }
    }
}

/// Where `GET /<slug>` redirects: `/<slug>/` for a valid slug, nowhere (404)
/// otherwise.
pub open spec fn redirect_of(slug: Seq<char>) -> Option<Seq<char>> {
    if valid_slug(slug) {
        Some("/"@ + slug + "/"@)
    } else {
        None
    }
}

/// The permanent redirect target for `GET /<slug>`, or `None` for a 404.
pub fn slug_redirect(slug: &str) -> (r: Option<String>)
    ensures
        match r {
            Some(u) => redirect_of(slug@) == Some(u@),
            None => redirect_of(slug@) is None,
        },
{
    if !is_valid_slug(slug) {
        return None;
    }
    let mut v: Vec<char> = Vec::new();
    push_str(&mut v, "/");
    push_str(&mut v, slug);
    push_str(&mut v, "/");
    Some(string_of(&v))
}

/// The version shown on the index page.
pub const VERSION: &'static str = "0.1.0";

/// The name shown for a project: the last component of its root, or
/// `project` when the root has none.
pub open spec fn project_label(root: Seq<char>) -> Seq<char> {
    match file_name(root) {
        Some(n) => n,
        None => "project"@,
    }
}

/// The index page: the template filled with the project's name, the port
/// and the version.
pub fn index_page_html(template: &str, state: &AppState) -> (r: String)
    ensures
        r@ == render(
            template@,
            project_label(state.project_root@),
            decimal(state.port as nat),
            VERSION@,
        ),
{
    let name = match file_name_of(state.project_root.as_str()) {
        Some(n) => n,
        None => "project".to_owned(),
    };
    let port = decimal_string(state.port as u64);
    render_index_template(template, name.as_str(), port.as_str(), VERSION)
}

/// `s` without its leading `/` characters.
pub open spec fn strip_leading_slashes(s: Seq<char>) -> Seq<char>
    decreases s.len(),
{
    if s.len() > 0 && s[0] == '/' {
        strip_leading_slashes(s.drop_first())
    } else {
        s
    }
}

/// A request path split at its first `/` after the leading ones: the slug
/// and the rest (empty when there is no further `/`).
pub open spec fn route_parts(path: Seq<char>) -> (Seq<char>, Seq<char>) {
    let p = strip_leading_slashes(path);
    match find_from(p, seq!['/'], 0) {
        Some(k) => (p.subrange(0, k), p.subrange(k + 1, p.len() as int)),
        None => (p, Seq::empty()),
    }
}

/// Where a request under `/<slug>/...` is served from.
#[derive(Debug, Clone, PartialEq, Eq)]
pub struct StaticRoute {
    /// The playground.
    pub slug: String,
    /// The path inside the playground, without a leading `/`.
    pub rest: String,
    /// `<project_root>/.playgrounds/<slug>`.
    pub serve_root: String,
    /// The path asked of the file server: `/` and the rest.
    pub request_path: String,
}

/// The route of a request path: its slug must be valid; files are served
/// from the playground's directory.
pub open spec fn route_of(root: Seq<char>, path: Seq<char>) -> Option<
    (Seq<char>, Seq<char>, Seq<char>, Seq<char>),
> {
    let (slug, rest) = route_parts(path);
    if valid_slug(slug) {
        Some((slug, rest, join(join(root, ".playgrounds"@), slug), "/"@ + rest))
    } else {
        None
    }
}

/// Splits a request path into the playground it names and the file asked
/// for; `None` (a 404) when the slug is not valid.
pub fn static_route(project_root: &str, path: &str) -> (r: Option<StaticRoute>)
    ensures
        match route_of(project_root@, path@) {
            None => r is None,
            Some((slug, rest, serve_root, request_path)) => r matches Some(x) && x.slug@ == slug
                && x.rest@ == rest && x.serve_root@ == serve_root && x.request_path@ == request_path,
        },
{
    let v = chars_of(path);
    let mut start: usize = 0;
    assert(v@.subrange(0, v@.len() as int) =~= v@);
    while start < v.len() && v[start] == '/'
        invariant
            start <= v@.len(),
            strip_leading_slashes(v@) == strip_leading_slashes(
                v@.subrange(start as int, v@.len() as int),
            ),
        decreases v@.len() - start,
    {
        assert(v@.subrange(start + 1, v@.len() as int) =~= v@.subrange(
            start as int,
            v@.len() as int,
        ).drop_first());
        start = start + 1;
    }
    let ghost p = v@.subrange(start as int, v@.len() as int);
    assert(strip_leading_slashes(v@) == p);
    let p_vec = slice_chars(&v, start, v.len());
    let (slug, rest) = match find_char(&p_vec, '/', 0) {
        Some(k) => {
            proof {
                lemma_find_from(p_vec@, seq!['/'], 0);
            }
            (string_range(&p_vec, 0, k), string_range(&p_vec, k + 1, p_vec.len()))
        },
        None => {
            assert(p_vec@.subrange(0, p_vec@.len() as int) =~= p_vec@);
            (string_range(&p_vec, 0, p_vec.len()), String::new())
        },
    };
    assert(slug@ == route_parts(path@).0 && rest@ == route_parts(path@).1);
    if !is_valid_slug(slug.as_str()) {
        return None;
    }
    let dir = path_join(project_root, ".playgrounds");
    let serve_root = path_join(dir.as_str(), slug.as_str());
    let mut req: Vec<char> = Vec::new();
    push_str(&mut req, "/");
    push_str(&mut req, rest.as_str());
    let request_path = string_of(&req);
    Some(StaticRoute { slug, rest, serve_root, request_path })
}

/// Whether `p` is absolute.
pub open spec fn absolute(p: Seq<char>) -> bool {
    p.len() > 0 && p[0] == '/'
}

/// `a` starts with `b` as paths do: both absolute or both relative, and the
/// components of `b` are the first components of `a`.
pub open spec fn path_starts_with(a: Seq<char>, b: Seq<char>) -> bool {
    &&& absolute(a) == absolute(b)
    &&& components(b).len() <= components(a).len()
    &&& components(a).subrange(0, components(b).len() as int) == components(b)
}

/// Whether a file may be served, given the canonical form of its path and
/// of the playground directory (`None` where the path could not be made
/// canonical): a file that does not resolve is left to the file server,
/// which answers 404; otherwise it must lie inside the directory, which
/// must itself resolve.
pub open spec fn inside_root(target: Option<Seq<char>>, root: Option<Seq<char>>) -> bool {
    match target {
        None => true,
        Some(t) => match root {
            None => false,
            Some(r) => path_starts_with(t, r),
        },
    }
}

fn starts_with_path(a: &String, b: &String) -> (r: bool)
    ensures
        r == path_starts_with(a@, b@),
{
    let av = chars_of(a.as_str());
    let bv = chars_of(b.as_str());
    let a_abs = av.len() > 0 && av[0] == '/';
    let b_abs = bv.len() > 0 && bv[0] == '/';
    if a_abs != b_abs {
        return false;
    }
    let ac = components_of(&av);
    let bc = components_of(&bv);
    if bc.len() > ac.len() {
        return false;
    }
    let mut i: usize = 0;
    while i < bc.len()
        invariant
            av@ == a@,
            bv@ == b@,
            a_abs == b_abs,
            a_abs == absolute(a@),
            b_abs == absolute(b@),
            bc@.len() <= ac@.len(),
            ac@.len() == components(av@).len(),
            bc@.len() == components(bv@).len(),
            forall|j: int|
                0 <= j < ac@.len() ==> {
                    &&& (#[trigger] ac@[j]).0 <= ac@[j].1 <= av@.len()
                    &&& av@.subrange(ac@[j].0 as int, ac@[j].1 as int) == components(av@)[j]
                },
            forall|j: int|
                0 <= j < bc@.len() ==> {
                    &&& (#[trigger] bc@[j]).0 <= bc@[j].1 <= bv@.len()
                    &&& bv@.subrange(bc@[j].0 as int, bc@[j].1 as int) == components(bv@)[j]
                },
            i <= bc@.len(),
            forall|j: int| 0 <= j < i ==> components(av@)[j] == components(bv@)[j],
        decreases bc@.len() - i,
    {
        let (a0, a1) = ac[i];
        let (b0, b1) = bc[i];
        let x = slice_chars(&av, a0, a1);
        let y = slice_chars(&bv, b0, b1);
        assert(ac@[i as int].0 <= ac@[i as int].1);
        assert(x@ == components(av@)[i as int]);
        assert(bc@[i as int].0 <= bc@[i as int].1);
        assert(y@ == components(bv@)[i as int]);
        if !chars_eq(&x, &y) {
            assert(components(av@).subrange(0, components(bv@).len() as int)[i as int]
                != components(bv@)[i as int]);
            return false;
        }
        i = i + 1;
    }
    assert(components(av@).subrange(0, components(bv@).len() as int) =~= components(bv@));
    true
}

/// Decides `inside_root` for the canonical paths found.
pub fn is_inside_serve_root(target: &Option<String>, root: &Option<String>) -> (r: bool)
    ensures
        r == inside_root(
            match *target {
                Some(t) => Some(t@),
                None => None,
            },
            match *root {
                Some(t) => Some(t@),
                None => None,
            },
        ),
{
    match target {
        None => true,
        Some(t) => match root {
            None => false,
            Some(rt) => starts_with_path(t, rt),
        },
    }
}

/// A template without `{{` comes out unchanged.
pub proof fn law_render_without_tokens_is_identity(
    t: Seq<char>,
    project_name: Seq<char>,
    port: Seq<char>,
    version: Seq<char>,
)
    requires
        forall|j: int| !occurs_at(t, j, "{{"@),
    ensures
        render(t, project_name, port, version) == t,
{
    lemma_find_from(t, "{{"@, 0);
}

/// The project name is always inserted HTML-escaped.
pub proof fn law_render_escapes_project_name(project_name: Seq<char>, port: Seq<char>, version: Seq<char>)
    ensures
        render("{{project_name}}"@, project_name, port, version) == escape(project_name),
{
    let t = "{{project_name}}"@;
    reveal_strlit("{{project_name}}");
    reveal_strlit("{{");
    reveal_strlit("}}");
    reveal_strlit("project_name");
    assert(t.subrange(0, 2) =~= "{{"@);
    assert(occurs_at(t, 0, "{{"@));
    lemma_find_from(t, "{{"@, 0);
    let after = t.subrange(2, t.len() as int);
    assert(after.subrange(12, 14) =~= "}}"@);
    assert(occurs_at(after, 12, "}}"@));
    assert(after[0] == t[2]);
    assert(t[2] == 'p');
    assert(after.subrange(0, 2)[0] == after[0]);
    assert("}}"@[0] == '}');
    assert(!occurs_at(after, 0, "}}"@));
    assert(after[1] == t[3]);
    assert(t[3] == 'r');
    assert(after.subrange(1, 3)[0] == after[1]);
    assert("}}"@[0] == '}');
    assert(!occurs_at(after, 1, "}}"@));
    assert(after[2] == t[4]);
    assert(t[4] == 'o');
    assert(after.subrange(2, 4)[0] == after[2]);
    assert("}}"@[0] == '}');
    assert(!occurs_at(after, 2, "}}"@));
    assert(after[3] == t[5]);
    assert(t[5] == 'j');
    assert(after.subrange(3, 5)[0] == after[3]);
    assert("}}"@[0] == '}');
    assert(!occurs_at(after, 3, "}}"@));
    assert(after[4] == t[6]);
    assert(t[6] == 'e');
    assert(after.subrange(4, 6)[0] == after[4]);
    assert("}}"@[0] == '}');
    assert(!occurs_at(after, 4, "}}"@));
    assert(after[5] == t[7]);
    assert(t[7] == 'c');
    assert(after.subrange(5, 7)[0] == after[5]);
    assert("}}"@[0] == '}');
    assert(!occurs_at(after, 5, "}}"@));
    assert(after[6] == t[8]);
    assert(t[8] == 't');
    assert(after.subrange(6, 8)[0] == after[6]);
    assert("}}"@[0] == '}');
    assert(!occurs_at(after, 6, "}}"@));
    assert(after[7] == t[9]);
    assert(t[9] == '_');
    assert(after.subrange(7, 9)[0] == after[7]);
    assert("}}"@[0] == '}');
    assert(!occurs_at(after, 7, "}}"@));
    assert(after[8] == t[10]);
    assert(t[10] == 'n');
    assert(after.subrange(8, 10)[0] == after[8]);
    assert("}}"@[0] == '}');
    assert(!occurs_at(after, 8, "}}"@));
    assert(after[9] == t[11]);
    assert(t[11] == 'a');
    assert(after.subrange(9, 11)[0] == after[9]);
    assert("}}"@[0] == '}');
    assert(!occurs_at(after, 9, "}}"@));
    assert(after[10] == t[12]);
    assert(t[12] == 'm');
    assert(after.subrange(10, 12)[0] == after[10]);
    assert("}}"@[0] == '}');
    assert(!occurs_at(after, 10, "}}"@));
    assert(after[11] == t[13]);
    assert(t[13] == 'e');
    assert(after.subrange(11, 13)[0] == after[11]);
    assert("}}"@[0] == '}');
    assert(!occurs_at(after, 11, "}}"@));
    assert forall|j: int| 0 <= j < 12 implies !occurs_at(after, j, "}}"@) by {
        if j == 0 {
        } else if j == 1 {
        } else if j == 2 {
        } else if j == 3 {
        } else if j == 4 {
        } else if j == 5 {
        } else if j == 6 {
        } else if j == 7 {
        } else if j == 8 {
        } else if j == 9 {
        } else if j == 10 {
        } else if j == 11 {
        }
    }
    lemma_find_from(after, "}}"@, 0);
    assert(find_from(t, "{{"@, 0) == Some(0int));
    assert(find_from(after, "}}"@, 0) == Some(12int));
    assert(after.subrange(0, 12) =~= "project_name"@);
    assert(token_value(after.subrange(0, 12), project_name, port, version) == escape(project_name));
    assert(after.subrange(14, after.len() as int) =~= Seq::<char>::empty());
    assert forall|j: int| !occurs_at(Seq::<char>::empty(), j, "{{"@) by {}
    lemma_find_from(Seq::<char>::empty(), "{{"@, 0);
    assert(render(after.subrange(14, after.len() as int), project_name, port, version) =~= Seq::<char>::empty());
    assert(t.subrange(0, 0) =~= Seq::<char>::empty());
    assert(Seq::<char>::empty() + escape(project_name) + Seq::<char>::empty() =~= escape(project_name));
}

/// A static route never leaves `<root>/.playgrounds/`: its slug is valid, so
/// it holds no `/` and is neither `.` nor `..`, and the directory served is
/// the slug's own directory there.
pub proof fn law_static_route_confined(root: Seq<char>, path: Seq<char>)
    ensures
        route_of(root, path) matches Some((slug, rest, serve_root, request_path)) ==> {
            &&& valid_slug(slug)
            &&& forall|i: int| 0 <= i < slug.len() ==> #[trigger] slug[i] != '/'
            &&& slug != "."@
            &&& slug != ".."@
            &&& serve_root == join(join(root, ".playgrounds"@), slug)
        },
{
    if let Some((slug, rest, serve_root, request_path)) = route_of(root, path) {
        reveal_strlit(".");
        reveal_strlit("..");
        assert forall|i: int| 0 <= i < slug.len() implies #[trigger] slug[i] != '/' by {
            if i > 0 {
                assert(slug_char(slug[i]));
            }
        }
        assert(slug[0] != '.');
    }
}

} // verus!
