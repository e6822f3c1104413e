//! Embedded template guides, embedded assets, and the HTML scaffold that
//! `playctl new` writes.
use crate::playctl::error::ExitError;
use crate::playctl::guides::{
    CODE_MAP, CONCEPT_MAP, DATA_EXPLORER, DESIGN_PLAYGROUND, DIFF_REVIEW, DOCUMENT_CRITIQUE,
};
use crate::text::{chars_eq, chars_of, push_str, string_of};
use vstd::prelude::*;

verus! {

broadcast use vstd::string::group_string_axioms;

/// The names `read_template` accepts, in the order error messages list them.
pub const VALID_TEMPLATE_NAMES: [&'static str; 6] = [
    "design-playground",
    "data-explorer",
    "concept-map",
    "document-critique",
    "diff-review",
    "code-map",
];

/// The guide text of the template called `name`, if there is one.
pub open spec fn guide_named(name: Seq<char>) -> Option<Seq<char>> {
    if name == "design-playground"@ {
        Some(DESIGN_PLAYGROUND@)
    } else if name == "data-explorer"@ {
        Some(DATA_EXPLORER@)
    } else if name == "concept-map"@ {
        Some(CONCEPT_MAP@)
    } else if name == "document-critique"@ {
        Some(DOCUMENT_CRITIQUE@)
    } else if name == "diff-review"@ {
        Some(DIFF_REVIEW@)
    } else if name == "code-map"@ {
        Some(CODE_MAP@)
    } else {
        None
    }
}

/// The message for an unknown template name.
pub open spec fn unknown_template_text(name: Seq<char>) -> Seq<char> {
    "unknown template '"@ + name
        + "'; valid: design-playground, data-explorer, concept-map, document-critique, diff-review, code-map"@
}

fn is_name(v: &Vec<char>, name: &str) -> (r: bool)
    ensures
        r == (v@ == name@),
{
    chars_eq(v, &chars_of(name))
}

/// The guide of template `name` (given without `.md`).  An unknown name is a
/// user error that lists the valid names.
pub fn read_template(name: &str) -> (r: Result<String, ExitError>)
    ensures
        match guide_named(name@) {
            Some(g) => r matches Ok(s) && s@ == g,
            None => r matches Err(ExitError::User(m)) && m@ == unknown_template_text(name@),
        },
{
    let v = chars_of(name);
    let guide: &str = if is_name(&v, "design-playground") {
        DESIGN_PLAYGROUND
    } else if is_name(&v, "data-explorer") {
        DATA_EXPLORER
    } else if is_name(&v, "concept-map") {
        CONCEPT_MAP
    } else if is_name(&v, "document-critique") {
        DOCUMENT_CRITIQUE
    } else if is_name(&v, "diff-review") {
        DIFF_REVIEW
    } else if is_name(&v, "code-map") {
        CODE_MAP
    } else {
        let mut m: Vec<char> = Vec::new();
        push_str(&mut m, "unknown template '");
        push_str(&mut m, name);
        push_str(
            &mut m,
            "'; valid: design-playground, data-explorer, concept-map, document-critique, diff-review, code-map",
        );
        return Err(ExitError::User(string_of(&m)));
    };
    Ok(guide.to_string())
}

/// An embedded asset of the index page.  This source tree ships no assets, so
/// every name is reported missing, as an internal error naming it.
pub fn read_asset(name: &str) -> (r: Result<Vec<u8>, ExitError>)
    ensures
        r matches Err(ExitError::Internal(m)) && m@ == "asset missing: "@ + name@,
{
    let mut m: Vec<char> = Vec::new();
    push_str(&mut m, "asset missing: ");
    push_str(&mut m, name);
    Err(ExitError::Internal(string_of(&m)))
}

// ---------------------------------------------------------------------------
// HTML escaping and the page scaffold
// ---------------------------------------------------------------------------
pub open spec fn escape_char(c: char) -> Seq<char> {
    if c == '&' {
        "&amp;"@
    } else if c == '<' {
        "&lt;"@
    } else if c == '>' {
        "&gt;"@
    } else if c == '"' {
        "&quot;"@
    } else {
        seq![c]
    }
}

/// `&`, `<`, `>` and `"` replaced by their entities; everything else kept.
pub open spec fn escape(s: Seq<char>) -> Seq<char>
    decreases s.len(),
{
    if s.len() == 0 {
        Seq::empty()
    } else {
        escape(s.drop_last()) + escape_char(s.last())
    }
}

/// No character that could open a tag or close an attribute survives
/// escaping: the result holds no `<`, `>` or `"`.
pub proof fn law_escape_is_inert(s: Seq<char>)
    ensures
        forall|i: int|
            0 <= i < escape(s).len() ==> {
                let c = #[trigger] escape(s)[i];
                c != '<' && c != '>' && c != '"'
            },
    decreases s.len(),
{
    if s.len() > 0 {
        law_escape_is_inert(s.drop_last());
        reveal_strlit("&amp;");
        reveal_strlit("&lt;");
        reveal_strlit("&gt;");
        reveal_strlit("&quot;");
        let a = escape(s.drop_last());
        let b = escape_char(s.last());
        assert forall|i: int| 0 <= i < escape(s).len() implies {
            let c = #[trigger] escape(s)[i];
            c != '<' && c != '>' && c != '"'
        } by {
            if i < a.len() {
                assert(escape(s)[i] == a[i]);
            } else {
                assert(escape(s)[i] == b[i - a.len()]);
            }
        }
    }
}

/// Appends `escape(s[..])` to `out`.
pub fn push_escaped(out: &mut Vec<char>, s: &str)
    ensures
        final(out)@ == old(out)@ + escape(s@),
{
    let v = chars_of(s);
    let mut i: usize = 0;
    while i < v.len()
        invariant
            v@ == s@,
            i <= v@.len(),
            out@ == old(out)@ + escape(v@.take(i as int)),
        decreases v.len() - i,
    {
        let c = v[i];
        if c == '&' {
            push_str(out, "&amp;");
        } else if c == '<' {
            push_str(out, "&lt;");
        } else if c == '>' {
            push_str(out, "&gt;");
        } else if c == '"' {
            push_str(out, "&quot;");
        } else {
            out.push(c);
        }
        assert(v@.take(i + 1).drop_last() =~= v@.take(i as int));
        assert(out@ =~= old(out)@ + escape(v@.take(i + 1)));
        i = i + 1;
    }
    assert(v@.take(v@.len() as int) =~= v@);
}

/// HTML-escapes `&`, `<`, `>` and `"`.
pub fn html_escape(s: &str) -> (r: String)
    ensures
        r@ == escape(s@),
{
    let mut out: Vec<char> = Vec::new();
    push_escaped(&mut out, s);
    assert(out@ =~= escape(s@));
    string_of(&out)
}

pub open spec fn scaffold_head() -> Seq<char> {
    "<!doctype html>\n<html lang=\"en\">\n<head>\n<meta charset=\"utf-8\">\n<meta name=\"viewport\" content=\"width=device-width,initial-scale=1\">\n<title>"@
}

pub open spec fn scaffold_after_title() -> Seq<char> {
    "</title>\n<meta name=\"description\" content=\""@
}

pub open spec fn scaffold_after_description() -> Seq<char> {
    "\">\n<style>\n:root { color-scheme: dark; }\nbody { font-family: system-ui,-apple-system,sans-serif; background:#0b0b0b; color:#eaeaea; margin:0; padding:24px; }\nmain { max-width: 960px; margin: 0 auto; }\n</style>\n</head>\n<body>\n<main>\n  <h1>"@
}

pub open spec fn scaffold_after_heading() -> Seq<char> {
    "</h1>\n  <p>"@
}

/// The end of the page.  Its two placeholder comments, both starting
/// `fill in:`, mark where the controls, preview and prompt block go and where
/// the script that wires them up goes.
pub open spec fn scaffold_tail() -> Seq<char> {
    "</p>\n  <!-- fill in: controls + preview + prompt block per template guidance -->\n</main>\n<script>\n// fill in: wire up controls \u{2192} preview \u{2192} prompt-with-copy\n</script>\n</body>\n</html>\n"@
}

/// The page `playctl new` writes, with `title` and `description` escaped.
pub open spec fn scaffold(title: Seq<char>, description: Seq<char>) -> Seq<char> {
    scaffold_head() + escape(title) + scaffold_after_title() + escape(description)
        + scaffold_after_description() + escape(title) + scaffold_after_heading() + escape(
        description,
    ) + scaffold_tail()
}

/// The minimal HTML page for a new playground: title and description go into
/// `<title>`, the description meta tag, the heading and the first paragraph,
/// each HTML-escaped.
pub fn html_scaffold(title: &str, description: &str) -> (r: String)
    ensures
        r@ == scaffold(title@, description@),
{
    let mut out: Vec<char> = Vec::new();
    push_str(
        &mut out,
        "<!doctype html>\n<html lang=\"en\">\n<head>\n<meta charset=\"utf-8\">\n<meta name=\"viewport\" content=\"width=device-width,initial-scale=1\">\n<title>",
    );
    push_escaped(&mut out, title);
    push_str(&mut out, "</title>\n<meta name=\"description\" content=\"");
    push_escaped(&mut out, description);
    push_str(
        &mut out,
        "\">\n<style>\n:root { color-scheme: dark; }\nbody { font-family: system-ui,-apple-system,sans-serif; background:#0b0b0b; color:#eaeaea; margin:0; padding:24px; }\nmain { max-width: 960px; margin: 0 auto; }\n</style>\n</head>\n<body>\n<main>\n  <h1>",
    );
    push_escaped(&mut out, title);
    push_str(&mut out, "</h1>\n  <p>");
    push_escaped(&mut out, description);
    push_str(
        &mut out,
        "</p>\n  <!-- fill in: controls + preview + prompt block per template guidance -->\n</main>\n<script>\n// fill in: wire up controls \u{2192} preview \u{2192} prompt-with-copy\n</script>\n</body>\n</html>\n",
    );
    assert(out@ =~= scaffold(title@, description@));
    string_of(&out)
}

} // verus!
