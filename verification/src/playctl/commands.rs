//! The rules of `new`, `list` and `open`: which slugs are accepted, what a
//! new playground adds to the index, and what is printed.
use crate::playctl::error::ExitError;
use crate::playctl::index::{pg_view, pg_views, Index, Playground, PlaygroundView};
use crate::playctl::slug::{is_valid_slug, valid_slug};
use crate::playctl::templates::{
    guide_named, html_scaffold, read_template, scaffold, unknown_template_text,
};
use crate::text::{chars_eq, chars_of, decimal, push_decimal, push_str, string_of};
use vstd::prelude::*;

verus! {

broadcast use vstd::string::group_string_axioms;

/// The URL of a playground on the server at `port`.
pub open spec fn slug_url_of(port: u16, slug: Seq<char>) -> Seq<char> {
    "http://127.0.0.1:"@ + decimal(port as nat) + "/"@ + slug + "/"@
}

fn push_slug_url(v: &mut Vec<char>, port: u16, slug: &str)
    ensures
        final(v)@ == old(v)@ + slug_url_of(port, slug@),
{
    push_str(v, "http://127.0.0.1:");
    push_decimal(v, port as u64);
    push_str(v, "/");
    push_str(v, slug);
    push_str(v, "/");
    assert(final(v)@ =~= old(v)@ + slug_url_of(port, slug@));
}

/// `http://127.0.0.1:<port>/<slug>/`.
pub fn slug_url(port: u16, slug: &str) -> (r: String)
    ensures
        r@ == slug_url_of(port, slug@),
{
    let mut v: Vec<char> = Vec::new();
    push_slug_url(&mut v, port, slug);
    assert(v@ =~= slug_url_of(port, slug@));
    string_of(&v)
}

/// The message for a slug that does not match `[a-z0-9][a-z0-9-]{0,63}`.
pub open spec fn invalid_slug_text(slug: Seq<char>) -> Seq<char> {
    "invalid slug '"@ + slug + "'; expected [a-z0-9][a-z0-9-]{0,63}"@
}

/// Accepts a valid slug; anything else is a user error, raised before the
/// slug is used in a path or a URL.
pub fn check_slug(slug: &str) -> (r: Result<(), ExitError>)
    ensures
        valid_slug(slug@) ==> r is Ok,
        !valid_slug(slug@) ==> (r matches Err(ExitError::User(m)) && m@ == invalid_slug_text(
            slug@,
        )),
{
    if is_valid_slug(slug) {
        return Ok(());
    }
    let mut v: Vec<char> = Vec::new();
    push_str(&mut v, "invalid slug '");
    push_str(&mut v, slug);
    push_str(&mut v, "'; expected [a-z0-9][a-z0-9-]{0,63}");
    Err(ExitError::User(string_of(&v)))
}

/// What `open` opens: the server's home page, or a playground's page when a
/// slug is given; an invalid slug is refused.
pub fn open_url(port: u16, slug: Option<&str>) -> (r: Result<String, ExitError>)
    ensures
        match slug {
            None => r matches Ok(u) && u@ == "http://127.0.0.1:"@ + decimal(port as nat) + "/"@,
            Some(s) => if valid_slug(s@) {
                r matches Ok(u) && u@ == slug_url_of(port, s@)
            } else {
                r matches Err(ExitError::User(m)) && m@ == invalid_slug_text(s@)
            },
        },
{
    match slug {
        None => {
            let mut v: Vec<char> = Vec::new();
            push_str(&mut v, "http://127.0.0.1:");
            push_decimal(&mut v, port as u64);
            push_str(&mut v, "/");
            Ok(string_of(&v))
        },
        Some(s) => {
            match check_slug(s) {
                Err(e) => Err(e),
                Ok(()) => Ok(slug_url(port, s)),
            }
        },
    }
}

/// Whether the index lists a playground called `slug`.
pub open spec fn lists_slug(ps: Seq<PlaygroundView>, slug: Seq<char>) -> bool {
    exists|i: int| 0 <= i < ps.len() && (#[trigger] ps[i]).0 == slug
}

fn index_has(index: &Index, slug: &str) -> (r: bool)
    ensures
        r == lists_slug(pg_views(index.playgrounds@), slug@),
{
    let target = chars_of(slug);
    let mut i: usize = 0;
    while i < index.playgrounds.len()
        invariant
            i <= index.playgrounds@.len(),
            target@ == slug@,
            forall|j: int| 0 <= j < i ==> (#[trigger] index.playgrounds@[j]).slug@ != slug@,
        decreases index.playgrounds@.len() - i,
    {
        let s = chars_of(index.playgrounds[i].slug.as_str());
        if chars_eq(&s, &target) {
            assert(pg_views(index.playgrounds@)[i as int].0 == slug@);
            return true;
        }
        i = i + 1;
    }
    assert forall|j: int| 0 <= j < pg_views(index.playgrounds@).len() implies (
    #[trigger] pg_views(index.playgrounds@)[j]).0 != slug@ by {
        assert(index.playgrounds@[j].slug@ != slug@);
    }
    false
}

/// The message for a slug that is already taken.
pub open spec fn slug_exists_text(slug: Seq<char>) -> Seq<char> {
    "slug '"@ + slug + "' already exists"@
}

/// The playground `new` records: its slug, its title (the slug when none is
/// given), its description (empty when none is given), its template, and
/// its creation time.
pub open spec fn new_entry(
    slug: Seq<char>,
    template: Seq<char>,
    title: Option<Seq<char>>,
    description: Option<Seq<char>>,
    now: Seq<char>,
) -> PlaygroundView {
    (
        slug,
        match title {
            Some(t) => t,
            None => slug,
        },
        match description {
            Some(d) => d,
            None => Seq::empty(),
        },
        template,
        now,
    )
}

/// An optional text by its view.
pub open spec fn text_of(o: Option<&str>) -> Option<Seq<char>> {
    match o {
        Some(s) => Some(s@),
        None => None,
    }
}

/// What `new` produces: the index with the playground added, and the page
/// to write to `.playgrounds/<slug>/index.html`.
#[derive(Debug, Clone, PartialEq, Eq)]
pub struct NewPlayground {
    pub index: Index,
    pub page: String,
}

/// Registers a new playground.  The slug must be valid, the template known,
/// and the slug new: neither listed in the index nor present as a directory
/// (`dir_exists`).  Each refusal is a user error.  The entry is appended to
/// the index; the page is the scaffold with the entry's title and
/// description.
pub fn new_playground(
    index: Index,
    slug: &str,
    template: &str,
    title: Option<&str>,
    description: Option<&str>,
    dir_exists: bool,
    now: &str,
) -> (r: Result<NewPlayground, ExitError>)
    ensures
        !valid_slug(slug@) ==> (r matches Err(ExitError::User(m)) && m@ == invalid_slug_text(
            slug@,
        )),
        valid_slug(slug@) && guide_named(template@) is None ==> (r matches Err(ExitError::User(m))
            && m@ == unknown_template_text(template@)),
        valid_slug(slug@) && guide_named(template@) is Some && (dir_exists || lists_slug(
            pg_views(index.playgrounds@),
            slug@,
        )) ==> (r matches Err(ExitError::User(m)) && m@ == slug_exists_text(slug@)),
        valid_slug(slug@) && guide_named(template@) is Some && !dir_exists && !lists_slug(
            pg_views(index.playgrounds@),
            slug@,
        ) ==> (r matches Ok(n) && n.index.version == index.version && n.index.project_name@
            == index.project_name@ && pg_views(n.index.playgrounds@) == pg_views(
            index.playgrounds@,
        ).push(new_entry(slug@, template@, text_of(title), text_of(description), now@))
            && n.page@ == scaffold(
            new_entry(slug@, template@, text_of(title), text_of(description), now@).1,
            new_entry(slug@, template@, text_of(title), text_of(description), now@).2,
        )),
{
    if let Err(e) = check_slug(slug) {
        return Err(e);
    }
    if let Err(e) = read_template(template) {
        return Err(e);
    }
    if dir_exists || index_has(&index, slug) {
        let mut v: Vec<char> = Vec::new();
        push_str(&mut v, "slug '");
        push_str(&mut v, slug);
        push_str(&mut v, "' already exists");
        return Err(ExitError::User(string_of(&v)));
    }
    let title_text: &str = match title {
        Some(t) => t,
        None => slug,
    };
    let description_text: &str = match description {
        Some(d) => d,
        None => "",
    };
    let entry = Playground {
        slug: slug.to_owned(),
        title: title_text.to_owned(),
        description: description_text.to_owned(),
        template: template.to_owned(),
        created_at: now.to_owned(),
    };
    proof {
        reveal_strlit("");
    }
    assert(pg_view(entry) == new_entry(
        slug@,
        template@,
        text_of(title),
        text_of(description),
        now@,
    ));
    let page = html_scaffold(title_text, description_text);
    let Index { version, project_name, playgrounds } = index;
    let mut playgrounds = playgrounds;
    let ghost before = playgrounds@;
    playgrounds.push(entry);
    assert(pg_views(playgrounds@) =~= pg_views(before).push(pg_view(entry)));
    Ok(NewPlayground { index: Index { version, project_name, playgrounds }, page })
}

/// One row of `list`: slug, title, URL and creation time, two spaces apart.
pub open spec fn list_row(p: PlaygroundView, port: u16) -> Seq<char> {
    p.0 + "  "@ + p.1 + "  "@ + slug_url_of(port, p.0) + "  "@ + p.4
}

/// The lines `list` prints: `no playgrounds` for an empty index, else one
/// row per playground in index order.
pub open spec fn list_text(ps: Seq<PlaygroundView>, port: u16) -> Seq<Seq<char>> {
    if ps.len() == 0 {
        seq!["no playgrounds"@]
    } else {
        Seq::new(ps.len(), |i: int| list_row(ps[i], port))
    }
}

/// The lines of `list` for the server at `port`.
pub fn list_lines(index: &Index, port: u16) -> (r: Vec<String>)
    ensures
        r@.map_values(|l: String| l@) == list_text(pg_views(index.playgrounds@), port),
{
    let mut out: Vec<String> = Vec::new();
    if index.playgrounds.len() == 0 {
        out.push("no playgrounds".to_owned());
        assert(out@.map_values(|l: String| l@) =~= list_text(pg_views(index.playgrounds@), port));
        return out;
    }
    let mut i: usize = 0;
    while i < index.playgrounds.len()
        invariant
            i <= index.playgrounds@.len(),
            index.playgrounds@.len() > 0,
            out@.len() == i,
            forall|j: int|
                0 <= j < i ==> (#[trigger] out@[j])@ == list_row(
                    pg_view(index.playgrounds@[j]),
                    port,
                ),
        decreases index.playgrounds@.len() - i,
    {
        let p = &index.playgrounds[i];
        let mut v: Vec<char> = Vec::new();
        push_str(&mut v, p.slug.as_str());
        push_str(&mut v, "  ");
        push_str(&mut v, p.title.as_str());
        push_str(&mut v, "  ");
        push_slug_url(&mut v, port, p.slug.as_str());
        push_str(&mut v, "  ");
        push_str(&mut v, p.created_at.as_str());
        assert(v@ =~= list_row(pg_view(*p), port));
        out.push(string_of(&v));
        i = i + 1;
    }
    assert(out@.map_values(|l: String| l@) =~= list_text(pg_views(index.playgrounds@), port));
    out
}

/// Once `new` has registered a slug, the index lists it, so a second `new`
/// with the same slug is refused.
pub proof fn law_new_registers_once(
    ps: Seq<PlaygroundView>,
    slug: Seq<char>,
    template: Seq<char>,
    title: Option<Seq<char>>,
    description: Option<Seq<char>>,
    now: Seq<char>,
)
    ensures
        lists_slug(ps.push(new_entry(slug, template, title, description, now)), slug),
{
    let qs = ps.push(new_entry(slug, template, title, description, now));
    assert(qs[ps.len() as int].0 == slug);
}

} // verus!
