use all_cli::playctl::error::classify;
use all_cli::playctl::html::{extract_description, extract_title};
use all_cli::playctl::index::{
    index_path, read_index, reindex, DirListing, Index, IndexFile, PageFile, ScannedDir,
};
use all_cli::playctl::proc::{
    healthz_ok, healthz_request, is_alive, log_path, parse_handle, pid_path, pid_text, port_path,
    port_text, probe, runtime_dir, AliveStatus, ServerHandle,
};
use all_cli::playctl::project::{
    detect_project_root, ensure_gitignore, gitignore_mentions_playgrounds, marker_paths,
    root_candidates, root_warning,
};
use all_cli::playctl::slug::is_valid_slug;
use all_cli::playctl::templates::{html_escape, html_scaffold, read_template};

#[test]
fn accepts_valid_slugs() {
    assert!(is_valid_slug("foo"));
    assert!(is_valid_slug("foo-bar"));
    assert!(is_valid_slug("a1b2"));
    assert!(is_valid_slug("0"));
    assert!(is_valid_slug(&"a".repeat(64)));
}

#[test]
fn rejects_invalid_slugs() {
    assert!(!is_valid_slug(""));
    assert!(!is_valid_slug("Foo"));
    assert!(!is_valid_slug("-foo"));
    assert!(!is_valid_slug("foo_bar"));
    assert!(!is_valid_slug("foo.bar"));
    assert!(!is_valid_slug("foo/bar"));
    assert!(!is_valid_slug(".."));
    assert!(!is_valid_slug("../etc"));
    assert!(!is_valid_slug(&"a".repeat(65)));
}

#[test]
fn unknown_template_is_user_error() {
    let err = read_template("does-not-exist").unwrap_err();
    assert_eq!(classify(&vec![err.message()]), 1);
}

#[test]
fn unknown_template_lists_valid_names() {
    let err = read_template("nope").unwrap_err();
    assert_eq!(
        err.message(),
        "user error: unknown template 'nope'; valid: design-playground, data-explorer, concept-map, document-critique, diff-review, code-map"
    );
}

#[test]
fn print_template_known_succeeds() {
    for name in [
        "design-playground",
        "data-explorer",
        "concept-map",
        "document-critique",
        "diff-review",
        "code-map",
    ] {
        let guide = read_template(name).unwrap();
        assert!(!guide.is_empty(), "{name}");
    }
}

#[test]
fn print_template_unknown_fails_exit_1() {
    let err = read_template("nope").unwrap_err();
    assert_eq!(err.exit_code(), 1);
}

#[test]
fn html_escape_basics() {
    assert_eq!(html_escape("a<b&c\""), "a&lt;b&amp;c&quot;");
}

#[test]
fn html_escape_leaves_other_text() {
    assert_eq!(html_escape("{{port}} 'x'"), "{{port}} 'x'");
    assert_eq!(html_escape(""), "");
}

#[test]
fn scaffold_contains_title() {
    let s = html_scaffold("My Tool", "do stuff");
    assert!(s.contains("<title>My Tool</title>"));
    assert!(s.contains("do stuff"));
}

#[test]
fn scaffold_escapes_and_round_trips() {
    let s = html_scaffold("A & B", "x < y");
    assert!(s.contains("<title>A &amp; B</title>"));
    assert!(s.contains("<h1>A &amp; B</h1>"));
    assert_eq!(extract_title(&s), Some("A &amp; B".to_string()));
    assert_eq!(extract_description(&s), Some("x &lt; y".to_string()));
}

#[test]
fn extract_title_works() {
    assert_eq!(
        extract_title("<html><head><TITLE>Hello</TITLE></head>"),
        Some("Hello".into())
    );
    assert_eq!(extract_title("no title"), None);
}

#[test]
fn extract_title_trims() {
    assert_eq!(extract_title("<title>  spaced \n</title>"), Some("spaced".into()));
    assert_eq!(extract_title("<title>unclosed"), None);
}

#[test]
fn extract_description_works() {
    let s = r#"<meta name="description" content="my desc">"#;
    assert_eq!(extract_description(s), Some("my desc".into()));
}

#[test]
fn extract_description_handles_reversed_attribute_order() {
    let s = r#"<meta content="reverse order" name="description">"#;
    assert_eq!(extract_description(s), Some("reverse order".into()));
}

#[test]
fn extract_description_handles_single_quotes() {
    let s = r#"<meta name='description' content='sq desc'>"#;
    assert_eq!(extract_description(s), Some("sq desc".into()));
}

#[test]
fn extract_description_skips_unrelated_meta() {
    let s = r#"<meta charset="utf-8">
<meta name="viewport" content="width=device-width">
<meta content="found" name="description">"#;
    assert_eq!(extract_description(s), Some("found".into()));
}

#[test]
fn extract_description_no_match_returns_none() {
    let s = r#"<meta name="author" content="someone">"#;
    assert_eq!(extract_description(s), None);
}

#[test]
fn extract_description_case_insensitive_attribute() {
    let s = r#"<META NAME="DESCRIPTION" CONTENT="upper">"#;
    assert_eq!(extract_description(s), Some("upper".into()));
}

#[test]
fn empty_index_has_version_1() {
    let i = Index::empty("foo");
    assert_eq!(i.version, 1);
    assert_eq!(i.project_name, "foo");
    assert!(i.playgrounds.is_empty());
}

#[test]
fn read_returns_empty_when_missing() {
    let i = read_index("/tmp/proj", IndexFile::Missing).unwrap();
    assert_eq!(i.version, 1);
    assert!(i.playgrounds.is_empty());
    assert_eq!(i.project_name, "proj");
}

#[test]
fn unsupported_version_rejected() {
    let parsed = Index { version: 2, project_name: "p".into(), playgrounds: Vec::new() };
    let err = read_index("/tmp/p", IndexFile::Parsed(parsed)).unwrap_err();
    assert_eq!(classify(&vec![err.message()]), 2);
    assert_eq!(
        err.message(),
        "env error: /tmp/p/.playgrounds/index.json has unsupported version 2"
    );
}

#[test]
fn unreadable_and_malformed_index_are_env_errors() {
    let e1 = read_index("/r", IndexFile::Unreadable).unwrap_err();
    assert_eq!(e1.message(), "env error: read /r/.playgrounds/index.json");
    let e2 = read_index("/r", IndexFile::Malformed).unwrap_err();
    assert_eq!(e2.message(), "env error: parse /r/.playgrounds/index.json");
    assert_eq!(e2.exit_code(), 2);
}

#[test]
fn index_path_is_under_playgrounds() {
    assert_eq!(index_path("/a/b"), "/a/b/.playgrounds/index.json");
    assert_eq!(index_path("/a/b/"), "/a/b/.playgrounds/index.json");
}

fn dir(name: &str, page: PageFile, modified: Option<&str>) -> ScannedDir {
    ScannedDir { name: name.into(), page, modified: modified.map(|s| s.to_string()) }
}

#[test]
fn reindex_picks_up_html_files() {
    let page = r#"<html><head><title>Foo</title>
<meta name="description" content="desc"></head></html>"#;
    let listing = DirListing::Listed(vec![dir(
        "foo",
        PageFile::Read(page.into()),
        Some("2026-05-09T12:00:00Z"),
    )]);
    let i = reindex("/p", listing, "2026-01-01T00:00:00Z").unwrap();
    assert_eq!(i.playgrounds.len(), 1);
    assert_eq!(i.playgrounds[0].slug, "foo");
    assert_eq!(i.playgrounds[0].title, "Foo");
    assert_eq!(i.playgrounds[0].description, "desc");
    assert_eq!(i.playgrounds[0].created_at, "2026-05-09T12:00:00Z");
}

#[test]
fn reindex_skips_dotted_dirs() {
    let listing = DirListing::Listed(vec![dir(
        ".runtime",
        PageFile::Read("<title>X</title>".into()),
        None,
    )]);
    let i = reindex("/p", listing, "now").unwrap();
    assert!(i.playgrounds.is_empty());
}

#[test]
fn reindex_sorts_by_name_and_skips_pageless_dirs() {
    let listing = DirListing::Listed(vec![
        dir("zeta", PageFile::Read("<p>no title</p>".into()), None),
        dir("alpha", PageFile::Read("<title>A</title>".into()), Some("t1")),
        dir("empty", PageFile::Missing, None),
    ]);
    let i = reindex("/p", listing, "t0").unwrap();
    let slugs: Vec<&str> = i.playgrounds.iter().map(|p| p.slug.as_str()).collect();
    assert_eq!(slugs, vec!["alpha", "zeta"]);
    assert_eq!(i.playgrounds[1].title, "zeta");
    assert_eq!(i.playgrounds[1].created_at, "t0");
    assert_eq!(i.project_name, "p");
}

#[test]
fn reindex_without_playgrounds_dir_is_empty() {
    let i = reindex("/work/demo", DirListing::Absent, "t").unwrap();
    assert!(i.playgrounds.is_empty());
    assert_eq!(i.project_name, "demo");
}

#[test]
fn reindex_unreadable_page_is_env_error() {
    let listing = DirListing::Listed(vec![dir("foo", PageFile::Unreadable, None)]);
    let err = reindex("/p", listing, "t").unwrap_err();
    assert_eq!(err.exit_code(), 2);
    assert_eq!(err.message(), "env error: read /p/.playgrounds/foo/index.html");
    let err2 = reindex("/p", DirListing::Unreadable, "t").unwrap_err();
    assert_eq!(err2.message(), "env error: read_dir /p/.playgrounds");
}

#[test]
fn reindex_same_result_for_any_listing_order() {
    let a = vec![
        dir("b", PageFile::Read("<title>B</title>".into()), None),
        dir("a", PageFile::Read("<title>A</title>".into()), None),
    ];
    let mut b = a.clone();
    b.reverse();
    let i1 = reindex("/p", DirListing::Listed(a), "t").unwrap();
    let i2 = reindex("/p", DirListing::Listed(b), "t").unwrap();
    assert_eq!(i1, i2);
}

#[test]
fn runtime_paths() {
    assert_eq!(runtime_dir("/p"), "/p/.playgrounds/.runtime");
    assert_eq!(pid_path("/p"), "/p/.playgrounds/.runtime/server.pid");
    assert_eq!(port_path("/p"), "/p/.playgrounds/.runtime/server.port");
    assert_eq!(log_path("/p"), "/p/.playgrounds/.runtime/server.log");
}

#[test]
fn round_trip_handle() {
    let h = ServerHandle { pid: 12345, port: 4747 };
    let pid = pid_text(&h);
    let port = port_text(&h);
    assert_eq!(pid, "12345");
    assert_eq!(port, "4747");
    assert_eq!(parse_handle(&pid, &port), Some(h));
}

#[test]
fn parse_handle_trims_and_rejects_bad_values() {
    assert_eq!(
        parse_handle(" 42\n", "8080\n"),
        Some(ServerHandle { pid: 42, port: 8080 })
    );
    assert_eq!(parse_handle("42", "70000"), None);
    assert_eq!(parse_handle("x", "80"), None);
    assert_eq!(parse_handle("", "80"), None);
}

#[test]
fn dead_pid_is_not_alive() {
    assert!(!is_alive(1 << 30));
}

#[test]
fn probe_absent_when_no_files() {
    assert_eq!(probe(None, false, false), AliveStatus::Absent);
}

#[test]
fn probe_stale_when_pid_dead() {
    let h = ServerHandle { pid: u32::MAX, port: 1 };
    let alive = is_alive(h.pid);
    assert_eq!(probe(Some(h), alive, false), AliveStatus::Stale);
}

#[test]
fn probe_running_when_alive_and_healthy() {
    let h = ServerHandle { pid: 7, port: 4747 };
    assert_eq!(probe(Some(h.clone()), true, true), AliveStatus::Running(h.clone()));
    assert_eq!(probe(Some(h), true, false), AliveStatus::Stale);
}

#[test]
fn healthz_request_and_answers() {
    assert_eq!(
        healthz_request(),
        b"GET /healthz HTTP/1.0\r\nHost: 127.0.0.1\r\n\r\n".to_vec()
    );
    assert!(healthz_ok(b"HTTP/1.1 200 OK\r\n"));
    assert!(healthz_ok(b"HTTP/1.0 200 OK"));
    assert!(!healthz_ok(b"HTTP/1.1 404 Not Found"));
    assert!(!healthz_ok(b"HTTP/1.1 20"));
}

#[test]
fn detect_finds_git_dir() {
    let candidates = root_candidates("/tmp/x");
    let mut marked = vec![false; candidates.len()];
    marked[0] = true;
    let (root, found) = detect_project_root("/tmp/x", &marked);
    assert!(found);
    assert_eq!(root, "/tmp/x");
}

#[test]
fn detect_walks_upward() {
    let candidates = root_candidates("/tmp/x/a/b/c");
    assert_eq!(candidates, vec!["/tmp/x/a/b/c", "/tmp/x/a/b", "/tmp/x/a", "/tmp/x", "/tmp", "/"]);
    let marked: Vec<bool> = candidates.iter().map(|c| c == "/tmp/x").collect();
    let (root, found) = detect_project_root("/tmp/x/a/b/c", &marked);
    assert!(found);
    assert_eq!(root, "/tmp/x");
}

#[test]
fn detect_falls_back_to_cwd_with_flag() {
    let candidates = root_candidates("/tmp/y");
    let marked = vec![false; candidates.len()];
    let (root, found) = detect_project_root("/tmp/y", &marked);
    assert!(!found);
    assert_eq!(root, "/tmp/y");
}

#[test]
fn detect_finds_cargo_toml() {
    let paths = marker_paths("/tmp/z");
    assert_eq!(paths[2], "/tmp/z/Cargo.toml");
    let candidates = root_candidates("/tmp/z");
    let mut marked = vec![false; candidates.len()];
    marked[0] = true;
    let (_, found) = detect_project_root("/tmp/z", &marked);
    assert!(found);
}

#[test]
fn gitignore_skipped_without_git() {
    assert!(ensure_gitignore(None, false).is_none());
}

#[test]
fn gitignore_created_with_git_present() {
    let u = ensure_gitignore(None, true).unwrap();
    assert_eq!(u.note, "created .gitignore with .playgrounds/");
    assert!(u.content.contains(".playgrounds/"));
}

#[test]
fn gitignore_noop_when_already_present() {
    assert!(ensure_gitignore(Some("target/\n.playgrounds/\n"), true).is_none());
}

#[test]
fn gitignore_append_when_missing_line() {
    let u = ensure_gitignore(Some("target/\n"), true).unwrap();
    assert_eq!(u.note, "appended .playgrounds/ to .gitignore");
    assert!(u.content.contains(".playgrounds/"));
    assert!(u.content.contains("target/"));
}

#[test]
fn gitignore_update_is_idempotent() {
    for existing in [None, Some("target/"), Some("target/\n"), Some("")] {
        if let Some(u) = ensure_gitignore(existing, true) {
            assert!(gitignore_mentions_playgrounds(&u.content));
            assert!(ensure_gitignore(Some(&u.content), true).is_none());
        }
    }
}

#[test]
fn reindex_keeps_equal_names_in_listing_order() {
    let listing = DirListing::Listed(vec![
        dir("b", PageFile::Read("<title>B</title>".into()), None),
        dir("a", PageFile::Read("<title>first</title>".into()), None),
        dir("a", PageFile::Read("<title>second</title>".into()), None),
    ]);
    let i = reindex("/p", listing, "t").unwrap();
    let titles: Vec<&str> = i.playgrounds.iter().map(|p| p.title.as_str()).collect();
    assert_eq!(titles, vec!["first", "second", "B"]);
}

#[test]
fn root_warning_only_for_an_unmarked_fallback() {
    assert_eq!(
        root_warning(false, "/tmp/w", false, false),
        Some("warn: no project marker found; using /tmp/w".to_string())
    );
    assert_eq!(root_warning(false, "/tmp/w", true, false), None);
    assert_eq!(root_warning(false, "/tmp/w", false, true), None);
    assert_eq!(root_warning(true, "/tmp/w", false, false), None);
}
