//! Finding the project root, and keeping `.playgrounds/` out of git.
use crate::text::{
    ancestors, ancestors_of, chars_eq, chars_of, find_char_from, join, lemma_find_char_from,
    path_join, push_str, slice_chars, string_of, trim_start,
};
use vstd::prelude::*;

verus! {

broadcast use vstd::string::group_string_axioms;

/// Files or directories whose presence marks a project root.
pub const ROOT_MARKERS: [&'static str; 6] = [
    ".git",
    "package.json",
    "Cargo.toml",
    "pnpm-workspace.yaml",
    "pyproject.toml",
    "go.mod",
];

pub open spec fn marker_names() -> Seq<Seq<char>> {
    seq![
        ".git"@,
        "package.json"@,
        "Cargo.toml"@,
        "pnpm-workspace.yaml"@,
        "pyproject.toml"@,
        "go.mod"@,
    ]
}

/// The paths whose existence marks `dir` as a project root, in the order they
/// are checked.
pub fn marker_paths(dir: &str) -> (r: Vec<String>)
    ensures
        r@.len() == marker_names().len(),
        forall|i: int| 0 <= i < r@.len() ==> (#[trigger] r@[i])@ == join(dir@, marker_names()[i]),
{
    let mut r: Vec<String> = Vec::new();
    r.push(path_join(dir, ".git"));
    r.push(path_join(dir, "package.json"));
    r.push(path_join(dir, "Cargo.toml"));
    r.push(path_join(dir, "pnpm-workspace.yaml"));
    r.push(path_join(dir, "pyproject.toml"));
    r.push(path_join(dir, "go.mod"));
    r
}

/// The directories that `detect_project_root` checks, nearest first: `start`,
/// then each directory above it up to the root.
pub fn root_candidates(start: &str) -> (r: Vec<String>)
    ensures
        r@.len() == ancestors(start@).len(),
        forall|i: int| 0 <= i < r@.len() ==> (#[trigger] r@[i])@ == ancestors(start@)[i],
{
    ancestors_of(start)
}

/// The first candidate marked as holding a root marker, if any.
pub open spec fn first_marked(marked: Seq<bool>) -> Option<int> {
    if exists|i: int| 0 <= i < marked.len() && marked[i] {
        Some(choose|i: int| 0 <= i < marked.len() && marked[i] && forall|j: int| 0 <= j < i ==> !marked[j])
    } else {
        None
    }
}

/// The project root for `start`: the nearest of `root_candidates(start)` that
/// holds a root marker (`marked[i]` says whether candidate `i` does), with
/// `true`; or `start` itself with `false` when none does, for the caller to warn
/// about.
pub fn detect_project_root(start: &str, marked: &Vec<bool>) -> (r: (String, bool))
    requires
        marked@.len() == ancestors(start@).len(),
    ensures
        match first_marked(marked@) {
            Some(i) => r.1 && r.0@ == ancestors(start@)[i],
            None => !r.1 && r.0@ == start@,
        },
{
    let candidates = root_candidates(start);
    let mut i: usize = 0;
    while i < marked.len()
        invariant
            marked@.len() == candidates@.len() == ancestors(start@).len(),
            forall|k: int| 0 <= k < candidates@.len() ==> (#[trigger] candidates@[k])@ == ancestors(start@)[k],
            i <= marked@.len(),
            forall|j: int| 0 <= j < i ==> !marked@[j],
        decreases marked.len() - i,
    {
        if marked[i] {
            proof {
                let w = choose|k: int| 0 <= k < marked@.len() && marked@[k] && forall|j: int| 0 <= j < k ==> !marked@[j];
                assert(0 <= i < marked@.len() && marked@[i as int] && forall|j: int| 0 <= j < i ==> !marked@[j]);
                if w < i {
                    assert(!marked@[w]);
                } else if w > i {
                    assert(!marked@[i as int]);
                }
            }
            return (candidates[i].clone(), true);
        }
        i = i + 1;
    }
    (start.to_string(), false)
}

// ---------------------------------------------------------------------------
// .gitignore
// ---------------------------------------------------------------------------
pub open spec fn strip_cr(l: Seq<char>) -> Seq<char> {
    if l.len() > 0 && l.last() == '\r' {
        l.drop_last()
    } else {
        l
    }
}

/// A line that ignores the playground directory: `.playgrounds/` or
/// `.playgrounds`, after leading whitespace.
pub open spec fn ignores_playgrounds(line: Seq<char>) -> bool {
    trim_start(line) == ".playgrounds/"@ || trim_start(line) == ".playgrounds"@
}

/// Some line of `s` (split as `str::lines` does: at `\n`, dropping a `\r`
/// before it) ignores the playground directory.
pub open spec fn mentions_playgrounds(s: Seq<char>) -> bool
    decreases s.len(),
{
    if s.len() == 0 {
        false
    } else {
        match find_char_from(s, |c: char| c == '\n', 0) {
            None => ignores_playgrounds(s),
            Some(k) => if 0 <= k < s.len() {
                ignores_playgrounds(strip_cr(s.subrange(0, k))) || mentions_playgrounds(
                    s.subrange(k + 1, s.len() as int),
                )
            } else {
                false
            },
        }
    }
}

/// The `.gitignore` written where there was none.
pub open spec fn created_gitignore() -> Seq<char> {
    ".playgrounds/\n"@
}

/// An existing `.gitignore` with the playground directory appended.
pub open spec fn appended_gitignore(content: Seq<char>) -> Seq<char> {
    let base = if content.len() > 0 && content.last() == '\n' {
        content
    } else {
        content.push('\n')
    };
    base + "\n# live-playground\n.playgrounds/\n"@
}

/// A change to the project's `.gitignore`: the new content and the note shown
/// to the user.
#[derive(Debug, Clone, PartialEq, Eq)]
pub struct GitignoreUpdate {
    pub content: String,
    pub note: String,
}

/// What to do to `.gitignore` given its content (`None`: no such file) and
/// whether the project has a `.git`: nothing without a file and without git;
/// create it under git; nothing when a line already ignores `.playgrounds/`;
/// else append.
pub open spec fn gitignore_plan(existing: Option<Seq<char>>, has_git: bool) -> Option<
    (Seq<char>, Seq<char>),
> {
    match existing {
        None => if has_git {
            Some((created_gitignore(), "created .gitignore with .playgrounds/"@))
        } else {
            None
        },
        Some(c) => if mentions_playgrounds(c) {
            None
        } else {
            Some((appended_gitignore(c), "appended .playgrounds/ to .gitignore"@))
        },
    }
}

fn line_ignores(v: &Vec<char>, lo: usize, hi: usize) -> (r: bool)
    requires
        lo <= hi <= v@.len(),
    ensures
        r == ignores_playgrounds(v@.subrange(lo as int, hi as int)),
{
    let mut s = lo;
    while s < hi && crate::text::is_whitespace(v[s])
        invariant
            lo <= s <= hi <= v@.len(),
            trim_start(v@.subrange(lo as int, hi as int)) == trim_start(v@.subrange(s as int, hi as int)),
        decreases hi - s,
    {
        assert(v@.subrange(s as int, hi as int).drop_first() =~= v@.subrange(s + 1, hi as int));
        s = s + 1;
    }
    assert(trim_start(v@.subrange(s as int, hi as int)) == v@.subrange(s as int, hi as int));
    let rest = slice_chars(v, s, hi);
    chars_eq(&rest, &chars_of(".playgrounds/")) || chars_eq(&rest, &chars_of(".playgrounds"))
}

fn mentions_exec(v: &Vec<char>) -> (r: bool)
    ensures
        r == mentions_playgrounds(v@),
{
    let mut lo: usize = 0;
    assert(v@.subrange(0, v@.len() as int) =~= v@);
    while lo < v.len()
        invariant
            lo <= v@.len(),
            mentions_playgrounds(v@) == mentions_playgrounds(v@.subrange(lo as int, v@.len() as int)),
        decreases v.len() - lo,
    {
        let ghost rest = v@.subrange(lo as int, v@.len() as int);
        let mut k = lo;
        while k < v.len() && v[k] != '\n'
            invariant
                lo <= k <= v@.len(),
                rest == v@.subrange(lo as int, v@.len() as int),
                find_char_from(rest, |c: char| c == '\n', 0) == find_char_from(
                    rest,
                    |c: char| c == '\n',
                    (k - lo) as int,
                ),
            decreases v.len() - k,
        {
            k = k + 1;
        }
        if k == v.len() {
            assert(find_char_from(rest, |c: char| c == '\n', (k - lo) as int) is None);
            assert(rest =~= v@.subrange(lo as int, k as int));
            return line_ignores(v, lo, k);
        }
        assert(find_char_from(rest, |c: char| c == '\n', (k - lo) as int) == Some((k - lo) as int));
        assert(rest.subrange(0, (k - lo) as int) =~= v@.subrange(lo as int, k as int));
        assert(rest.subrange((k - lo) + 1, rest.len() as int) =~= v@.subrange(k + 1, v@.len() as int));
        let hi = if k > lo && v[k - 1] == '\r' {
            k - 1
        } else {
            k
        };
        assert(strip_cr(v@.subrange(lo as int, k as int)) =~= v@.subrange(lo as int, hi as int));
        if line_ignores(v, lo, hi) {
            return true;
        }
        lo = k + 1;
    }
    false
}

/// Whether some line of `content` already ignores `.playgrounds/`.
pub fn gitignore_mentions_playgrounds(content: &str) -> (r: bool)
    ensures
        r == mentions_playgrounds(content@),
{
    let v = chars_of(content);
    mentions_exec(&v)
}

/// The change `ensure_gitignore` makes to the project's `.gitignore`, given its
/// current content (`None`: the file does not exist) and whether the project
/// has a `.git` entry.  `None` means nothing to do.
pub fn ensure_gitignore(existing: Option<&str>, has_git: bool) -> (r: Option<GitignoreUpdate>)
    ensures
        match gitignore_plan(
            match existing {
                Some(c) => Some(c@),
                None => None,
            },
            has_git,
        ) {
            Some((content, note)) => r matches Some(u) && u.content@ == content && u.note@ == note,
            None => r is None,
        },
{
    match existing {
        None => {
            if !has_git {
                return None;
            }
            Some(
                GitignoreUpdate {
                    content: ".playgrounds/\n".to_string(),
                    note: "created .gitignore with .playgrounds/".to_string(),
                },
            )
        },
        Some(c) => {
            let v = chars_of(c);
            if mentions_exec(&v) {
                return None;
            }
            let mut out: Vec<char> = Vec::new();
            push_str(&mut out, c);
            if !(v.len() > 0 && v[v.len() - 1] == '\n') {
                out.push('\n');
            }
            push_str(&mut out, "\n# live-playground\n.playgrounds/\n");
            assert(out@ =~= appended_gitignore(c@));
            Some(
                GitignoreUpdate {
                    content: string_of(&out),
                    note: "appended .playgrounds/ to .gitignore".to_string(),
                },
            )
        },
    }
}

proof fn lemma_find_char_from_is(s: Seq<char>, f: spec_fn(char) -> bool, from: int, i: int)
    requires
        0 <= from <= i < s.len(),
        f(s[i]),
        forall|j: int| from <= j < i ==> !f(s[j]),
    ensures
        find_char_from(s, f, from) == Some(i),
    decreases i - from,
{
    if from < i {
        lemma_find_char_from_is(s, f, from + 1, i);
    }
}

/// Text after a line that ends in `\n` is read as lines of its own.
proof fn lemma_mentions_concat(a: Seq<char>, b: Seq<char>)
    requires
        a.len() > 0,
        a.last() == '\n',
    ensures
        mentions_playgrounds(a + b) == (mentions_playgrounds(a) || mentions_playgrounds(b)),
    decreases a.len(),
{
    let nl = |c: char| c == '\n';
    lemma_find_char_from(a, nl, 0);
    let k = find_char_from(a, nl, 0)->0;
    assert(nl(a[a.len() - 1]));
    assert(forall|j: int| 0 <= j < k ==> (a + b)[j] == a[j]);
    lemma_find_char_from_is(a + b, nl, 0, k);
    assert((a + b).subrange(0, k) =~= a.subrange(0, k));
    let a2 = a.subrange(k + 1, a.len() as int);
    assert((a + b).subrange(k + 1, (a + b).len() as int) =~= a2 + b);
    assert(mentions_playgrounds(a) == (ignores_playgrounds(strip_cr(a.subrange(0, k)))
        || mentions_playgrounds(a2)));
    assert(mentions_playgrounds(a + b) == (ignores_playgrounds(strip_cr(a.subrange(0, k)))
        || mentions_playgrounds(a2 + b)));
    if a2.len() == 0 {
        assert(a2 + b =~= b);
    } else {
        assert(a2.last() == a.last());
        lemma_mentions_concat(a2, b);
    }
}

proof fn lemma_created_mentions()
    ensures
        mentions_playgrounds(".playgrounds/\n"@),
{
    reveal_strlit(".playgrounds/\n");
    reveal_strlit(".playgrounds/");
    let s = ".playgrounds/\n"@;
    let nl = |c: char| c == '\n';
    assert(forall|j: int| 0 <= j < 13 ==> !nl(#[trigger] s[j]));
    lemma_find_char_from_is(s, nl, 0, 13);
    assert(s.subrange(0, 13) =~= ".playgrounds/"@);
    assert(trim_start(".playgrounds/"@) == ".playgrounds/"@);
}

/// Once `ensure_gitignore` has written `.gitignore`, running it again on what
/// it wrote does nothing: both the created file and any appended file ignore
/// `.playgrounds/`.
pub proof fn law_gitignore_idempotent(existing: Option<Seq<char>>, has_git: bool)
    ensures
        match gitignore_plan(existing, has_git) {
            Some((content, _)) => gitignore_plan(Some(content), has_git) is None,
            None => true,
        },
{
    lemma_created_mentions();
    match existing {
        None => {},
        Some(c) => {
            if !mentions_playgrounds(c) {
                let base = if c.len() > 0 && c.last() == '\n' {
                    c
                } else {
                    c.push('\n')
                };
                reveal_strlit("\n# live-playground\n.playgrounds/\n");
                reveal_strlit("\n# live-playground\n");
                reveal_strlit(".playgrounds/\n");
                let mid = "\n# live-playground\n"@;
                assert("\n# live-playground\n.playgrounds/\n"@ =~= mid + ".playgrounds/\n"@);
                lemma_mentions_concat(mid, ".playgrounds/\n"@);
                assert(appended_gitignore(c) =~= base + (mid + ".playgrounds/\n"@));
                lemma_mentions_concat(base, mid + ".playgrounds/\n"@);
            }
        },
    }
}

/// The warning printed when no root marker was found and the starting
/// directory is used instead.
pub open spec fn no_marker_text(root: Seq<char>) -> Seq<char> {
    "warn: no project marker found; using "@ + root
}

/// What resolving the root warns about: nothing when `--root` was given
/// (no detection happens) or a marker was found or the run is quiet;
/// otherwise that the fallback `root` is used.  The run goes on either way.
pub fn root_warning(explicit: bool, root: &str, found: bool, quiet: bool) -> (r: Option<String>)
    ensures
        (explicit || found || quiet) ==> r is None,
        !(explicit || found || quiet) ==> (r matches Some(w) && w@ == no_marker_text(root@)),
{
    if explicit || found || quiet {
        return None;
    }
    let mut v: Vec<char> = Vec::new();
    push_str(&mut v, "warn: no project marker found; using ");
    push_str(&mut v, root);
    Some(string_of(&v))
}

/// A `.gitignore` that already has a line reading `.playgrounds` or
/// `.playgrounds/` (after any leading whitespace), wherever that line
/// stands, is left as it is.
pub proof fn law_listed_playgrounds_line_kept(
    before: Seq<char>,
    line: Seq<char>,
    after: Seq<char>,
    has_git: bool,
)
    requires
        before.len() == 0 || before.last() == '\n',
        forall|i: int| 0 <= i < line.len() ==> #[trigger] line[i] != '\n',
        trim_start(line) == ".playgrounds"@ || trim_start(line) == ".playgrounds/"@,
        after.len() == 0 || after[0] == '\n',
    ensures
        gitignore_plan(Some(before + line + after), has_git) is None,
{
    reveal_strlit(".playgrounds");
    reveal_strlit(".playgrounds/");
    let nl = |c: char| c == '\n';
    let rest = line + after;
    lemma_trim_start_suffix(line);
    assert(line.len() > 0);
    let t = trim_start(line);
    assert(line.last() == t.last());
    assert(line.last() != '\r');
    assert(strip_cr(line) == line);
    if after.len() == 0 {
        assert(rest =~= line);
        lemma_find_char_from(rest, nl, 0);
        assert(forall|j: int| 0 <= j < rest.len() ==> !nl(#[trigger] rest[j]));
        assert(find_char_from(rest, nl, 0) is None) by {
            if let Some(k) = find_char_from(rest, nl, 0) {
                assert(nl(rest[k]));
            }
        }
    } else {
        assert(forall|j: int| 0 <= j < line.len() ==> !nl(#[trigger] rest[j])) by {
            assert forall|j: int| 0 <= j < line.len() implies !nl(#[trigger] rest[j]) by {
                assert(rest[j] == line[j]);
            }
        }
        assert(rest[line.len() as int] == '\n');
        lemma_find_char_from_is(rest, nl, 0, line.len() as int);
        assert(rest.subrange(0, line.len() as int) =~= line);
    }
    assert(mentions_playgrounds(rest));
    if before.len() > 0 {
        lemma_mentions_concat(before, rest);
    }
    assert(before + line + after =~= before + rest);
}

/// `trim_start` keeps a suffix of its argument.
proof fn lemma_trim_start_suffix(s: Seq<char>)
    ensures
        trim_start(s).len() <= s.len(),
        trim_start(s) == s.subrange(s.len() - trim_start(s).len(), s.len() as int),
    decreases s.len(),
{
    if s.len() > 0 && crate::text::is_ws(s[0]) {
        lemma_trim_start_suffix(s.drop_first());
        assert(s.drop_first().subrange(
            s.drop_first().len() - trim_start(s).len(),
            s.drop_first().len() as int,
        ) =~= s.subrange(s.len() - trim_start(s).len(), s.len() as int));
    } else {
        assert(s.subrange(0, s.len() as int) =~= s);
    }
}

} // verus!
