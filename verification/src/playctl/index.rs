//! The playground index (`.playgrounds/index.json`): its records, what reading
//! it yields, and rebuilding it from the pages on disk.
use crate::playctl::error::ExitError;
use crate::playctl::html::{description_of, extract_description, extract_title, title_of};
use crate::text::{
    chars_less, chars_of, decimal, file_name, file_name_of, join, lemma_lt_asymmetric,
    lemma_lt_irreflexive, lemma_lt_total, lemma_lt_transitive, path_join, push_decimal, push_str,
    seq_lt, string_of,
};
use vstd::prelude::*;

verus! {

broadcast use vstd::string::group_string_axioms;

/// One playground.
#[derive(Debug, Clone, PartialEq, Eq)]
pub struct Playground {
    pub slug: String,
    pub title: String,
    pub description: String,
    pub template: String,
    /// RFC3339 / ISO8601 with Z suffix.
    pub created_at: String,
}

/// The index of a project's playgrounds.
#[derive(Debug, Clone, PartialEq, Eq)]
pub struct Index {
    pub version: u32,
    pub project_name: String,
    pub playgrounds: Vec<Playground>,
}

/// A playground's fields: slug, title, description, template, creation time.
pub type PlaygroundView = (Seq<char>, Seq<char>, Seq<char>, Seq<char>, Seq<char>);

pub open spec fn pg_view(p: Playground) -> PlaygroundView {
    (p.slug@, p.title@, p.description@, p.template@, p.created_at@)
}

pub open spec fn pg_views(ps: Seq<Playground>) -> Seq<PlaygroundView> {
    ps.map_values(|p: Playground| pg_view(p))
}

impl Index {
    /// An index of version 1 with no playgrounds.
    pub fn empty(project_name: &str) -> (r: Index)
        ensures
            r.version == 1,
            r.project_name@ == project_name@,
            r.playgrounds@.len() == 0,
    {
        Index { version: 1, project_name: project_name.to_string(), playgrounds: Vec::new() }
    }
}

pub open spec fn playgrounds_dir_of(root: Seq<char>) -> Seq<char> {
    join(root, ".playgrounds"@)
}

pub open spec fn index_path_of(root: Seq<char>) -> Seq<char> {
    join(playgrounds_dir_of(root), "index.json"@)
}

/// `<root>/.playgrounds/index.json`.
pub fn index_path(project_root: &str) -> (r: String)
    ensures
        r@ == index_path_of(project_root@),
{
    let d = path_join(project_root, ".playgrounds");
    path_join(d.as_str(), "index.json")
}

/// The project's name: the last component of its root, or `project`.
pub open spec fn project_name_of(root: Seq<char>) -> Seq<char> {
    match file_name(root) {
        Some(n) => n,
        None => "project"@,
    }
}

pub fn project_name(project_root: &str) -> (r: String)
    ensures
        r@ == project_name_of(project_root@),
{
    match file_name_of(project_root) {
        Some(n) => n,
        None => "project".to_string(),
    }
}

/// What reading `index.json` gave.
#[derive(Debug, Clone, PartialEq, Eq)]
pub enum IndexFile {
    /// There is no index file.
    Missing,
    /// It exists but could not be read.
    Unreadable,
    /// It was read but is not an index.
    Malformed,
    /// It was read and decoded.
    Parsed(Index),
}

/// The index of the project at `project_root`, from what reading its index file
/// gave: an empty index named after the project when there is none; an
/// environment error naming the file when it cannot be read or decoded, or when
/// its version is not 1.
pub fn read_index(project_root: &str, file: IndexFile) -> (r: Result<Index, ExitError>)
    ensures
        match file {
            IndexFile::Missing => r matches Ok(i) && i.version == 1 && i.project_name@
                == project_name_of(project_root@) && i.playgrounds@.len() == 0,
            IndexFile::Unreadable => r matches Err(ExitError::Env(m)) && m@ == "read "@
                + index_path_of(project_root@),
            IndexFile::Malformed => r matches Err(ExitError::Env(m)) && m@ == "parse "@
                + index_path_of(project_root@),
            IndexFile::Parsed(i) => if i.version == 1 {
                r == Ok::<Index, ExitError>(i)
            } else {
                r matches Err(ExitError::Env(m)) && m@ == index_path_of(project_root@)
                    + " has unsupported version "@ + decimal(i.version as nat)
            },
        },
{
    match file {
        IndexFile::Missing => {
            let name = project_name(project_root);
            Ok(Index::empty(name.as_str()))
        },
        IndexFile::Unreadable => {
            let p = index_path(project_root);
            let mut m: Vec<char> = Vec::new();
            push_str(&mut m, "read ");
            push_str(&mut m, p.as_str());
            Err(ExitError::Env(string_of(&m)))
        },
        IndexFile::Malformed => {
            let p = index_path(project_root);
            let mut m: Vec<char> = Vec::new();
            push_str(&mut m, "parse ");
            push_str(&mut m, p.as_str());
            Err(ExitError::Env(string_of(&m)))
        },
        IndexFile::Parsed(i) => {
            if i.version != 1 {
                let p = index_path(project_root);
                let mut m: Vec<char> = Vec::new();
                push_str(&mut m, p.as_str());
                push_str(&mut m, " has unsupported version ");
                push_decimal(&mut m, i.version as u64);
                Err(ExitError::Env(string_of(&m)))
            } else {
                Ok(i)
            }
        },
    }
}

// ---------------------------------------------------------------------------
// Rebuilding the index from the pages on disk
// ---------------------------------------------------------------------------
/// What reading a playground directory's `index.html` gave.
#[derive(Debug, Clone, PartialEq, Eq)]
pub enum PageFile {
    Missing,
    Unreadable,
    Read(String),
}

/// A directory found under `.playgrounds/`: its name, its page, and the page's
/// modification time (RFC3339) when it could be had.
#[derive(Debug, Clone, PartialEq, Eq)]
pub struct ScannedDir {
    pub name: String,
    pub page: PageFile,
    pub modified: Option<String>,
}

/// What listing `.playgrounds/` gave: no such directory, a failure, or its
/// subdirectories in any order.
#[derive(Debug, Clone, PartialEq, Eq)]
pub enum DirListing {
    Absent,
    Unreadable,
    Listed(Vec<ScannedDir>),
}

/// Directories whose name starts with `.` (such as `.runtime`) are not
/// playgrounds.
pub open spec fn visible(e: ScannedDir) -> bool {
    !(e.name@.len() > 0 && e.name@[0] == '.')
}

pub open spec fn names_distinct(es: Seq<ScannedDir>) -> bool {
    forall|i: int, j: int| 0 <= i < j < es.len() ==> es[i].name@ != es[j].name@
}

pub open spec fn sorted_by_name(es: Seq<ScannedDir>) -> bool {
    forall|i: int, j: int| 0 <= i < j < es.len() ==> seq_lt(es[i].name@, es[j].name@)
}

/// `e` placed into `s` in front of the first entry whose name is not less
/// than `e`'s, so after every entry whose name is less and before the
/// entries of the same name.
pub open spec fn insert_by_name(s: Seq<ScannedDir>, e: ScannedDir) -> Seq<ScannedDir>
    decreases s.len(),
{
    if s.len() == 0 {
        seq![e]
    } else if !seq_lt(s[0].name@, e.name@) {
        seq![e] + s
    } else {
        seq![s[0]] + insert_by_name(s.drop_first(), e)
    }
}

/// The visible directories of `es` in name order; entries with equal names
/// keep the order in which they were listed.
pub open spec fn arrange_of(es: Seq<ScannedDir>) -> Seq<ScannedDir>
    decreases es.len(),
{
    if es.len() == 0 {
        Seq::empty()
    } else if visible(es[0]) {
        insert_by_name(arrange_of(es.drop_first()), es[0])
    } else {
        arrange_of(es.drop_first())
    }
}

pub open spec fn page_path_of(root: Seq<char>, name: Seq<char>) -> Seq<char> {
    join(join(playgrounds_dir_of(root), name), "index.html"@)
}

/// The playground read from a page: the slug is the directory name; the title
/// is the page's `<title>`, else the slug; the description is its meta
/// description, else empty; no template; created at the page's modification
/// time, else `now`.
pub open spec fn playground_of(e: ScannedDir, body: Seq<char>, now: Seq<char>) -> PlaygroundView {
    (
        e.name@,
        match title_of(body) {
            Some(t) => t,
            None => e.name@,
        },
        match description_of(body) {
            Some(d) => d,
            None => Seq::empty(),
        },
        Seq::empty(),
        match e.modified {
            Some(m) => m@,
            None => now,
        },
    )
}

/// The playgrounds of the directories `es`, in order, skipping those without a
/// page; or the path of the first page that could not be read.
pub open spec fn collect_pages(root: Seq<char>, es: Seq<ScannedDir>, now: Seq<char>) -> Result<
    Seq<PlaygroundView>,
    Seq<char>,
>
    decreases es.len(),
{
    if es.len() == 0 {
        Ok(Seq::empty())
    } else {
        let e = es[0];
        match e.page {
            PageFile::Missing => collect_pages(root, es.drop_first(), now),
            PageFile::Unreadable => Err(page_path_of(root, e.name@)),
            PageFile::Read(b) => match collect_pages(root, es.drop_first(), now) {
                Ok(ps) => Ok(seq![playground_of(e, b@, now)] + ps),
                Err(p) => Err(p),
            },
        }
    }
}

pub open spec fn with_prefix(acc: Seq<PlaygroundView>, r: Result<Seq<PlaygroundView>, Seq<char>>) -> Result<
    Seq<PlaygroundView>,
    Seq<char>,
> {
    match r {
        Ok(ps) => Ok(acc + ps),
        Err(p) => Err(p),
    }
}

fn name_less(a: &ScannedDir, b: &ScannedDir) -> (r: bool)
    ensures
        r == seq_lt(a.name@, b.name@),
{
    chars_less(&chars_of(a.name.as_str()), &chars_of(b.name.as_str()))
}

/// Inserting at the first position whose name is not less than `e`'s is
/// `insert_by_name`.
proof fn lemma_insert_at(s: Seq<ScannedDir>, e: ScannedDir, p: int)
    requires
        0 <= p <= s.len(),
        forall|j: int| 0 <= j < p ==> seq_lt(#[trigger] s[j].name@, e.name@),
        p < s.len() ==> !seq_lt(s[p].name@, e.name@),
    ensures
        s.insert(p, e) == insert_by_name(s, e),
    decreases s.len(),
{
    if s.len() == 0 {
        assert(s.insert(p, e) =~= seq![e]);
    } else if p == 0 {
        assert(s.insert(p, e) =~= seq![e] + s);
    } else {
        let t = s.drop_first();
        assert forall|j: int| 0 <= j < p - 1 implies seq_lt(#[trigger] t[j].name@, e.name@) by {
            assert(t[j] == s[j + 1]);
        }
        lemma_insert_at(t, e, p - 1);
        assert(s.insert(p, e) =~= seq![s[0]] + t.insert(p - 1, e));
    }
}

/// The visible directories of `es`, sorted by name, equal names in listing
/// order.
fn arrange(es: Vec<ScannedDir>) -> (r: Vec<ScannedDir>)
    ensures
        r@ == arrange_of(es@),
{
    let ghost orig = es@;
    let mut rest = es;
    let mut sorted: Vec<ScannedDir> = Vec::new();
    assert(orig.skip(orig.len() as int) =~= Seq::<ScannedDir>::empty());
    while rest.len() > 0
        invariant
            rest@ == orig.take(rest@.len() as int),
            rest@.len() <= orig.len(),
            sorted@ == arrange_of(orig.skip(rest@.len() as int)),
        decreases rest.len(),
    {
        let ghost k = (rest@.len() - 1) as int;
        let ghost old_sorted = sorted@;
        let e = rest.pop().unwrap();
        assert(e == orig[k]);
        assert(rest@ =~= orig.take(k));
        assert(orig.skip(k).drop_first() =~= orig.skip(k + 1));
        assert(orig.skip(k)[0] == e);
        let name_chars = chars_of(e.name.as_str());
        let is_visible = !(name_chars.len() > 0 && name_chars[0] == '.');
        if is_visible {
            let mut p: usize = 0;
            while p < sorted.len() && name_less(&sorted[p], &e)
                invariant
                    sorted@ == old_sorted,
                    p <= old_sorted.len(),
                    forall|j: int| 0 <= j < p ==> seq_lt(#[trigger] old_sorted[j].name@, e.name@),
                decreases sorted.len() - p,
            {
                p = p + 1;
            }
            proof {
                lemma_insert_at(old_sorted, e, p as int);
            }
            sorted.insert(p, e);
        }
    }
    assert(orig.skip(0) =~= orig);
    sorted
}

fn page_path(project_root: &str, name: &str) -> (r: String)
    ensures
        r@ == page_path_of(project_root@, name@),
{
    let d = path_join(project_root, ".playgrounds");
    let e = path_join(d.as_str(), name);
    path_join(e.as_str(), "index.html")
}

/// The playgrounds of the sorted directories `s`, as `collect_pages` says.
fn collect(project_root: &str, s: &Vec<ScannedDir>, now: &str) -> (r: Result<Vec<Playground>, String>)
    ensures
        match collect_pages(project_root@, s@, now@) {
            Ok(ps) => r matches Ok(v) && pg_views(v@) == ps,
            Err(p) => r matches Err(m) && m@ == p,
        },
{
    let mut out: Vec<Playground> = Vec::new();
    let mut i: usize = 0;
    assert(s@.skip(0) =~= s@);
    assert(pg_views(out@) =~= Seq::<PlaygroundView>::empty());
    while i < s.len()
        invariant
            i <= s@.len(),
            collect_pages(project_root@, s@, now@) == with_prefix(
                pg_views(out@),
                collect_pages(project_root@, s@.skip(i as int), now@),
            ),
        decreases s.len() - i,
    {
        let e = &s[i];
        let ghost rest = s@.skip(i as int);
        assert(rest[0] == *e);
        assert(rest.drop_first() =~= s@.skip(i + 1));
        match &e.page {
            PageFile::Missing => {},
            PageFile::Unreadable => {
                return Err(page_path(project_root, e.name.as_str()));
            },
            PageFile::Read(body) => {
                let slug = e.name.clone();
                let title = match extract_title(body.as_str()) {
                    Some(t) => t,
                    None => e.name.clone(),
                };
                let description = match extract_description(body.as_str()) {
                    Some(d) => d,
                    None => String::new(),
                };
                let created_at = match &e.modified {
                    Some(m) => m.clone(),
                    None => now.to_string(),
                };
                let ghost before = pg_views(out@);
                out.push(
                    Playground { slug, title, description, template: String::new(), created_at },
                );
                assert(pg_views(out@) =~= before + seq![playground_of(*e, body@, now@)]);
                proof {
                    match collect_pages(project_root@, s@.skip(i + 1), now@) {
                        Ok(ps) => {
                            assert(before + (seq![playground_of(*e, body@, now@)] + ps) =~= (before
                                + seq![playground_of(*e, body@, now@)]) + ps);
                        },
                        Err(_) => {},
                    }
                }
            },
        }
        i = i + 1;
    }
    assert(s@.skip(i as int) =~= Seq::<ScannedDir>::empty());
    assert(pg_views(out@) + Seq::<PlaygroundView>::empty() =~= pg_views(out@));
    Ok(out)
}

/// Rebuilds the index from the directories under `<root>/.playgrounds/`.
///
/// Without that directory the index is empty.  Otherwise the directories whose
/// name does not start with `.` are taken in name order (equal names in the
/// order listed); those with an
/// `index.html` become playgrounds (see `playground_of`), those without are
/// skipped.  A listing or a page that cannot be read is an environment error
/// naming it.  `now` is the creation time of pages whose modification time is
/// unknown.
pub fn reindex(project_root: &str, listing: DirListing, now: &str) -> (r: Result<Index, ExitError>)
    ensures
        match listing {
            DirListing::Absent => r matches Ok(i) && i.version == 1 && i.project_name@
                == project_name_of(project_root@) && i.playgrounds@.len() == 0,
            DirListing::Unreadable => r matches Err(ExitError::Env(m)) && m@ == "read_dir "@
                + playgrounds_dir_of(project_root@),
            DirListing::Listed(es) => match collect_pages(project_root@, arrange_of(es@), now@) {
                    Ok(ps) => r matches Ok(i) && i.version == 1 && i.project_name@
                        == project_name_of(project_root@) && pg_views(i.playgrounds@) == ps,
                    Err(p) => r matches Err(ExitError::Env(m)) && m@ == "read "@ + p,
                },
        },
{
    let name = project_name(project_root);
    match listing {
        DirListing::Absent => Ok(Index::empty(name.as_str())),
        DirListing::Unreadable => {
            let d = path_join(project_root, ".playgrounds");
            let mut m: Vec<char> = Vec::new();
            push_str(&mut m, "read_dir ");
            push_str(&mut m, d.as_str());
            Err(ExitError::Env(string_of(&m)))
        },
        DirListing::Listed(es) => {
            let ghost given = es@;
            let sorted = arrange(es);
            let r = match collect(project_root, &sorted, now) {
                Ok(playgrounds) => Ok(Index { version: 1, project_name: name, playgrounds }),
                Err(p) => {
                    let mut m: Vec<char> = Vec::new();
                    push_str(&mut m, "read ");
                    push_str(&mut m, p.as_str());
                    Err(ExitError::Env(string_of(&m)))
                },
            };
            r
        },
    }
}

/// Entries in an order where no later name is less than an earlier one.
pub open spec fn ordered_by_name(s: Seq<ScannedDir>) -> bool {
    forall|i: int, j: int| 0 <= i < j < s.len() ==> !seq_lt(s[j].name@, s[i].name@)
}

proof fn lemma_insert_by_name(s: Seq<ScannedDir>, e: ScannedDir)
    ensures
        forall|x: ScannedDir| #[trigger] insert_by_name(s, e).contains(x) <==> (x == e || s.contains(x)),
        insert_by_name(s, e).len() == s.len() + 1,
        ordered_by_name(s) ==> ordered_by_name(insert_by_name(s, e)),
        names_distinct(s) && (forall|j: int| 0 <= j < s.len() ==> #[trigger] s[j].name@ != e.name@)
            ==> names_distinct(insert_by_name(s, e)),
    decreases s.len(),
{
    let r = insert_by_name(s, e);
    if s.len() == 0 {
        assert(r =~= seq![e]);
        assert forall|x: ScannedDir| #[trigger] r.contains(x) <==> (x == e || s.contains(x)) by {
            if r.contains(x) {
                assert(r[0] == x);
            }
            if x == e {
                assert(r[0] == e);
            }
        }
    } else if !seq_lt(s[0].name@, e.name@) {
        assert(r =~= seq![e] + s);
        assert forall|x: ScannedDir| #[trigger] r.contains(x) <==> (x == e || s.contains(x)) by {
            if r.contains(x) {
                let m = choose|m: int| 0 <= m < r.len() && #[trigger] r[m] == x;
                if m > 0 {
                    assert(s[m - 1] == x);
                }
            }
            if x == e {
                assert(r[0] == e);
            }
            if s.contains(x) {
                let m = choose|m: int| 0 <= m < s.len() && #[trigger] s[m] == x;
                assert(r[m + 1] == x);
            }
        }
        if ordered_by_name(s) {
            assert forall|i: int, j: int| 0 <= i < j < r.len() implies !seq_lt(
                r[j].name@,
                r[i].name@,
            ) by {
                if i == 0 {
                    let k = j - 1;
                    assert(r[j] == s[k]);
                    if seq_lt(s[k].name@, e.name@) && k > 0 {
                        assert(!seq_lt(s[k].name@, s[0].name@));
                        if s[k].name@ != s[0].name@ {
                            lemma_lt_total(s[k].name@, s[0].name@);
                            lemma_lt_transitive(s[0].name@, s[k].name@, e.name@);
                        }
                    }
                } else {
                    assert(r[i] == s[i - 1] && r[j] == s[j - 1]);
                }
            }
        }
        if names_distinct(s) && (forall|j: int| 0 <= j < s.len() ==> #[trigger] s[j].name@ != e.name@) {
            assert forall|i: int, j: int| 0 <= i < j < r.len() implies r[i].name@ != r[j].name@ by {
                if i == 0 {
                    assert(r[j] == s[j - 1]);
                } else {
                    assert(r[i] == s[i - 1] && r[j] == s[j - 1]);
                }
            }
        }
    } else {
        let t = s.drop_first();
        let u = insert_by_name(t, e);
        lemma_insert_by_name(t, e);
        assert(r =~= seq![s[0]] + u);
        assert forall|x: ScannedDir| #[trigger] s.contains(x) <==> (x == s[0] || t.contains(x)) by {
            if s.contains(x) {
                let m = choose|m: int| 0 <= m < s.len() && #[trigger] s[m] == x;
                if m > 0 {
                    assert(t[m - 1] == x);
                }
            }
            if t.contains(x) {
                let m = choose|m: int| 0 <= m < t.len() && #[trigger] t[m] == x;
                assert(s[m + 1] == x);
            }
            if x == s[0] {
                assert(s[0] == x);
            }
        }
        assert forall|x: ScannedDir| #[trigger] r.contains(x) <==> (x == e || s.contains(x)) by {
            if r.contains(x) {
                let m = choose|m: int| 0 <= m < r.len() && #[trigger] r[m] == x;
                if m > 0 {
                    assert(u[m - 1] == x);
                    assert(u.contains(x));
                }
            }
            if x == e {
                assert(u.contains(e));
                let m = choose|m: int| 0 <= m < u.len() && #[trigger] u[m] == e;
                assert(r[m + 1] == e);
            }
            if s.contains(x) && x != s[0] {
                assert(t.contains(x));
                assert(u.contains(x));
                let m = choose|m: int| 0 <= m < u.len() && #[trigger] u[m] == x;
                assert(r[m + 1] == x);
            }
            if x == s[0] {
                assert(r[0] == x);
            }
        }
        if ordered_by_name(s) {
            assert forall|i: int, j: int| 0 <= i < j < t.len() implies !seq_lt(
                t[j].name@,
                t[i].name@,
            ) by {
                assert(t[i] == s[i + 1] && t[j] == s[j + 1]);
            }
            assert forall|i: int, j: int| 0 <= i < j < r.len() implies !seq_lt(
                r[j].name@,
                r[i].name@,
            ) by {
                if i == 0 {
                    let y = r[j];
                    assert(y == u[j - 1]);
                    assert(u.contains(y));
                    if y != e {
                        assert(t.contains(y));
                        let m = choose|m: int| 0 <= m < t.len() && #[trigger] t[m] == y;
                        assert(s[m + 1] == y);
                    } else {
                        lemma_lt_asymmetric(s[0].name@, e.name@);
                    }
                } else {
                    assert(r[i] == u[i - 1] && r[j] == u[j - 1]);
                }
            }
        }
        if names_distinct(s) && (forall|j: int| 0 <= j < s.len() ==> #[trigger] s[j].name@ != e.name@) {
            assert forall|i: int, j: int| 0 <= i < j < t.len() implies t[i].name@ != t[j].name@ by {
                assert(t[i] == s[i + 1] && t[j] == s[j + 1]);
            }
            assert forall|j: int| 0 <= j < t.len() implies #[trigger] t[j].name@ != e.name@ by {
                assert(t[j] == s[j + 1]);
            }
            assert(s[0].name@ != e.name@);
            assert forall|i: int, j: int| 0 <= i < j < r.len() implies r[i].name@ != r[j].name@ by {
                if i == 0 {
                    let y = r[j];
                    assert(y == u[j - 1]);
                    assert(u.contains(y));
                    if y != e {
                        assert(t.contains(y));
                        let m = choose|m: int| 0 <= m < t.len() && #[trigger] t[m] == y;
                        assert(s[m + 1] == y);
                    }
                } else {
                    assert(r[i] == u[i - 1] && r[j] == u[j - 1]);
                }
            }
        }
    }
}

/// What arranging gives: the visible entries, in name order, each name once
/// when the listing names each directory once.
proof fn lemma_arrange(es: Seq<ScannedDir>)
    ensures
        forall|x: ScannedDir| #[trigger] arrange_of(es).contains(x) <==> (es.contains(x) && visible(x)),
        ordered_by_name(arrange_of(es)),
        names_distinct(es) ==> names_distinct(arrange_of(es)),
    decreases es.len(),
{
    if es.len() > 0 {
        let t = es.drop_first();
        let a = arrange_of(t);
        lemma_arrange(t);
        assert forall|x: ScannedDir| #[trigger] es.contains(x) <==> (x == es[0] || t.contains(x)) by {
            if es.contains(x) {
                let m = choose|m: int| 0 <= m < es.len() && #[trigger] es[m] == x;
                if m > 0 {
                    assert(t[m - 1] == x);
                }
            }
            if t.contains(x) {
                let m = choose|m: int| 0 <= m < t.len() && #[trigger] t[m] == x;
                assert(es[m + 1] == x);
            }
            if x == es[0] {
                assert(es[0] == x);
            }
        }
        if names_distinct(es) {
            assert forall|i: int, j: int| 0 <= i < j < t.len() implies t[i].name@ != t[j].name@ by {
                assert(t[i] == es[i + 1] && t[j] == es[j + 1]);
            }
        }
        if visible(es[0]) {
            lemma_insert_by_name(a, es[0]);
            if names_distinct(es) {
                assert forall|j: int| 0 <= j < a.len() implies #[trigger] a[j].name@ != es[0].name@ by {
                    let y = a[j];
                    assert(a.contains(y));
                    assert(t.contains(y));
                    let m = choose|m: int| 0 <= m < t.len() && #[trigger] t[m] == y;
                    assert(es[m + 1] == y);
                }
            }
        }
    } else {
        assert forall|x: ScannedDir| #[trigger] arrange_of(es).contains(x) <==> (es.contains(x) && visible(x)) by {
            if es.contains(x) {
                let m = choose|m: int| 0 <= m < es.len() && #[trigger] es[m] == x;
            }
        }
    }
}

/// Ordered entries with distinct names are strictly sorted.
proof fn lemma_ordered_distinct_sorted(s: Seq<ScannedDir>)
    requires
        ordered_by_name(s),
        names_distinct(s),
    ensures
        sorted_by_name(s),
{
    assert forall|i: int, j: int| 0 <= i < j < s.len() implies seq_lt(s[i].name@, s[j].name@) by {
        lemma_lt_total(s[i].name@, s[j].name@);
    }
}

proof fn lemma_sorted_tail_excludes_head(s: Seq<ScannedDir>, x: ScannedDir)
    requires
        sorted_by_name(s),
        s.len() > 0,
        s.drop_first().contains(x),
    ensures
        x != s[0],
{
    let m = choose|m: int| 0 <= m < s.drop_first().len() && #[trigger] s.drop_first()[m] == x;
    assert(s[m + 1] == x);
    assert(seq_lt(s[0].name@, s[m + 1].name@));
    lemma_lt_irreflexive(x.name@);
}

proof fn lemma_sorted_same_elements(s1: Seq<ScannedDir>, s2: Seq<ScannedDir>)
    requires
        sorted_by_name(s1),
        sorted_by_name(s2),
        forall|x: ScannedDir| s1.contains(x) <==> s2.contains(x),
    ensures
        s1 == s2,
    decreases s1.len(),
{
    if s1.len() == 0 {
        if s2.len() > 0 {
            assert(s2.contains(s2[0]));
        }
        assert(s1 =~= s2);
    } else {
        assert(s1.contains(s1[0]));
        let j = choose|j: int| 0 <= j < s2.len() && #[trigger] s2[j] == s1[0];
        assert(s2.contains(s2[0]));
        let k = choose|k: int| 0 <= k < s1.len() && #[trigger] s1[k] == s2[0];
        if j > 0 {
            assert(seq_lt(s2[0].name@, s2[j].name@));
            if k > 0 {
                assert(seq_lt(s1[0].name@, s1[k].name@));
                lemma_lt_asymmetric(s1[0].name@, s1[k].name@);
            } else {
                lemma_lt_irreflexive(s1[0].name@);
            }
        }
        assert(s1[0] == s2[0]);
        let t1 = s1.drop_first();
        let t2 = s2.drop_first();
        assert forall|x: ScannedDir| t1.contains(x) <==> t2.contains(x) by {
            if t1.contains(x) {
                lemma_sorted_tail_excludes_head(s1, x);
                let m = choose|m: int| 0 <= m < t1.len() && #[trigger] t1[m] == x;
                assert(s1[m + 1] == x);
                assert(s1.contains(x));
                let q = choose|q: int| 0 <= q < s2.len() && #[trigger] s2[q] == x;
                assert(q > 0);
                assert(t2[q - 1] == x);
            }
            if t2.contains(x) {
                lemma_sorted_tail_excludes_head(s2, x);
                let m = choose|m: int| 0 <= m < t2.len() && #[trigger] t2[m] == x;
                assert(s2[m + 1] == x);
                assert(s2.contains(x));
                let q = choose|q: int| 0 <= q < s1.len() && #[trigger] s1[q] == x;
                assert(q > 0);
                assert(t1[q - 1] == x);
            }
        }
        assert forall|a: int, b: int| 0 <= a < b < t1.len() implies seq_lt(t1[a].name@, t1[b].name@) by {
            assert(t1[a] == s1[a + 1] && t1[b] == s1[b + 1]);
        }
        assert forall|a: int, b: int| 0 <= a < b < t2.len() implies seq_lt(t2[a].name@, t2[b].name@) by {
            assert(t2[a] == s2[a + 1] && t2[b] == s2[b + 1]);
        }
        lemma_sorted_same_elements(t1, t2);
        assert(s1 =~= seq![s1[0]] + t1);
        assert(s2 =~= seq![s2[0]] + t2);
    }
}

/// Rebuilding does not depend on the order in which the directory was listed:
/// two listings of the same directories, each naming every directory once,
/// arrange into the same sequence, so `reindex` gives the same index (or the
/// same error) for both.
pub proof fn law_reindex_ignores_listing_order(es1: Seq<ScannedDir>, es2: Seq<ScannedDir>)
    requires
        names_distinct(es1),
        names_distinct(es2),
        forall|x: ScannedDir| es1.contains(x) <==> es2.contains(x),
    ensures
        arrange_of(es1) == arrange_of(es2),
{
    lemma_arrange(es1);
    lemma_arrange(es2);
    let s1 = arrange_of(es1);
    let s2 = arrange_of(es2);
    lemma_ordered_distinct_sorted(s1);
    lemma_ordered_distinct_sorted(s2);
    assert forall|x: ScannedDir| s1.contains(x) <==> s2.contains(x) by {
        assert(s1.contains(x) <==> (es1.contains(x) && visible(x)));
        assert(s2.contains(x) <==> (es2.contains(x) && visible(x)));
    }
    lemma_sorted_same_elements(s1, s2);
}

/// A rebuilt playground's description comes from its page alone: the page's
/// meta description when it has one, the empty string when it has none,
/// never the directory's name or its time.
pub proof fn law_reindexed_description(e1: ScannedDir, e2: ScannedDir, body: Seq<char>, now1: Seq<char>, now2: Seq<char>)
    ensures
        description_of(body) is None ==> playground_of(e1, body, now1).2 == Seq::<char>::empty(),
        description_of(body) matches Some(d) ==> playground_of(e1, body, now1).2 == d,
        playground_of(e1, body, now1).2 == playground_of(e2, body, now2).2,
{
}

} // verus!
