use all_cli::playctl::error::ExitError;
use all_cli::playctl::lifecycle::{
    candidate_ports, launched_handle, poll_stop, ports_exhausted, start_plan, start_step, status_line,
    stop_step, url_line, StartPlan, StartStep, StopStep, PORT_ATTEMPTS,
};
use all_cli::playctl::proc::{AliveStatus, ServerHandle};
use all_cli::playctl::server::{
    index_page_html, is_inside_serve_root, render_index_template, slug_redirect, static_route,
    AppState,
};

#[test]
fn render_replaces_known_tokens() {
    let out = render_index_template(
        "<a>{{project_name}}</a> port {{port}} v{{version}}",
        "demo",
        "4747",
        "0.1.0",
    );
    assert_eq!(out, "<a>demo</a> port 4747 v0.1.0");
}

#[test]
fn render_html_escapes_project_name() {
    let out = render_index_template("{{project_name}}", "a<b>&c\"", "0", "0");
    assert_eq!(out, "a&lt;b&gt;&amp;c&quot;");
}

#[test]
fn render_does_not_re_substitute_user_value() {
    let out = render_index_template("{{project_name}}-{{port}}", "foo{{port}}", "4747", "0.1.0");
    assert_eq!(out, "foo{{port}}-4747");
}

#[test]
fn render_unknown_token_kept_verbatim() {
    let out = render_index_template("a{{nope}}b", "x", "0", "0");
    assert_eq!(out, "a{{nope}}b");
}

#[test]
fn render_unclosed_brace_kept() {
    let out = render_index_template("a{{port", "x", "0", "0");
    assert_eq!(out, "a{{port");
}

#[test]
fn render_without_tokens_is_identity() {
    assert_eq!(render_index_template("plain } { text", "x", "1", "2"), "plain } { text");
    assert_eq!(render_index_template("{{port}}{{port}}", "x", "9", "2"), "99");
}

#[test]
fn index_page_contains_project_name() {
    let state = AppState { project_root: "/work/my-proj".into(), port: 4747 };
    let html = index_page_html("<h1>{{project_name}}</h1> port {{port}} v{{version}}", &state);
    assert_eq!(html, "<h1>my-proj</h1> port 4747 v0.1.0");
    let root = AppState { project_root: "/".into(), port: 1 };
    assert_eq!(index_page_html("{{project_name}}", &root), "project");
}

#[test]
fn slug_redirects() {
    assert_eq!(slug_redirect("foo"), Some("/foo/".to_string()));
    assert_eq!(slug_redirect("Foo"), None);
    assert_eq!(slug_redirect(".."), None);
}

#[test]
fn static_routes() {
    let r = static_route("/p", "/foo/").unwrap();
    assert_eq!(r.slug, "foo");
    assert_eq!(r.rest, "");
    assert_eq!(r.serve_root, "/p/.playgrounds/foo");
    assert_eq!(r.request_path, "/");
    let r = static_route("/p", "//foo/css/a.css").unwrap();
    assert_eq!(r.slug, "foo");
    assert_eq!(r.rest, "css/a.css");
    assert_eq!(r.request_path, "/css/a.css");
    let r = static_route("/p", "/foo").unwrap();
    assert_eq!(r.rest, "");
}

#[test]
fn slug_path_with_dotdot_returns_404() {
    assert!(static_route("/p", "/../etc/passwd").is_none());
    assert!(static_route("/p", "/..%2f..%2fetc/passwd").is_none());
    assert!(static_route("/p", "/").is_none());
    assert!(static_route("/p", "/Foo/x").is_none());
}

#[test]
fn unknown_slug_returns_404() {
    assert!(static_route("/p", "/no_such").is_none());
}

#[test]
fn serve_root_containment() {
    let root = Some("/p/.playgrounds/foo".to_string());
    assert!(is_inside_serve_root(&Some("/p/.playgrounds/foo/index.html".into()), &root));
    assert!(is_inside_serve_root(&Some("/p/.playgrounds/foo".into()), &root));
    assert!(!is_inside_serve_root(&Some("/etc/passwd".into()), &root));
    assert!(!is_inside_serve_root(&Some("/p/.playgrounds/foobar/x".into()), &root));
    assert!(is_inside_serve_root(&None, &root));
    assert!(!is_inside_serve_root(&Some("/p/.playgrounds/foo/x".into()), &None));
}

#[test]
fn url_and_status_lines() {
    assert_eq!(url_line(4747, false), "http://127.0.0.1:4747/");
    assert_eq!(url_line(4747, true), "{\"url\":\"http://127.0.0.1:4747/\"}");
    let running = AliveStatus::Running(ServerHandle { pid: 1, port: 4747 });
    assert_eq!(status_line(&running, 3, false), "running   http://127.0.0.1:4747   3 playgrounds");
    assert_eq!(
        status_line(&running, 3, true),
        "{\"state\":\"running\",\"url\":\"http://127.0.0.1:4747\",\"count\":3}"
    );
    assert_eq!(status_line(&AliveStatus::Stale, 0, false), "stopped");
    assert_eq!(status_line(&AliveStatus::Absent, 0, true), "{\"state\":\"stopped\"}");
}

#[test]
fn status_when_no_state_is_stopped() {
    assert_eq!(status_line(&AliveStatus::Absent, 0, false), "stopped");
}

#[test]
fn start_is_idempotent() {
    let running = AliveStatus::Running(ServerHandle { pid: 1, port: 4800 });
    assert_eq!(start_plan(&running), StartPlan::Report { port: 4800 });
    assert_eq!(start_plan(&AliveStatus::Stale), StartPlan::Launch);
    assert_eq!(start_plan(&AliveStatus::Absent), StartPlan::Launch);
}

#[test]
fn start_and_stop_steps() {
    assert_eq!(start_step(0, true), StartStep::Ready);
    assert_eq!(start_step(4900, false), StartStep::Wait);
    assert_eq!(
        start_step(5000, true),
        StartStep::GiveUp(ExitError::ServerNotUp { timeout_ms: 5000 })
    );
    assert_eq!(stop_step(0, false), StopStep::Stopped);
    assert_eq!(stop_step(2999, true), StopStep::Wait);
    assert_eq!(stop_step(3000, true), StopStep::Kill);
    assert_eq!(launched_handle(9, 10), ServerHandle { pid: 9, port: 10 });
}

#[test]
fn candidate_port_ranges() {
    let ports = candidate_ports(4747);
    assert_eq!(ports.len(), PORT_ATTEMPTS as usize);
    assert_eq!(ports[0], 4747);
    assert_eq!(ports[15], 4762);
    assert_eq!(candidate_ports(65530), vec![65530, 65531, 65532, 65533, 65534, 65535]);
    assert_eq!(
        ports_exhausted(4747).message(),
        "port exhaustion: tried 16 ports starting at 4747"
    );
}

#[test]
fn poll_stop_kills_after_timeout_and_sees_dead_process() {
    assert_eq!(poll_stop(3000, 1), StopStep::Kill);
    assert_eq!(poll_stop(10, 1 << 30), StopStep::Stopped);
}
