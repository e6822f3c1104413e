use all_cli::sub2api_image::api::{
    decode_response, edit_form, edit_summary, edits_url, failure_message, generate_request,
    generate_summary, generations_url, is_success, request_url, truncate, ApiError, ApiErrorBody,
    ApiResponse, EffectiveCfg, ImageData, Usage,
};
use all_cli::sub2api_image::cli::Args;
use all_cli::sub2api_image::client::{user_agent, user_agent_for, REQUEST_TIMEOUT_SECS};
use all_cli::sub2api_image::config::{
    check_loaded, check_template_target, effective_config, home_dir, resolve_config_path,
    unreadable_config, validate_config, Config, Defaults, TEMPLATE,
};
use all_cli::sub2api_image::errors::{exit_code_from, report_lines, AppError, ErrorLink};
use all_cli::sub2api_image::logging::{human_bytes, Logger};
use all_cli::sub2api_image::output::{decoded_image, first_image_payload, image_bytes};
use base64::Engine;
use std::time::Duration;

const PNG_1X1: &[u8] = &[
    137, 80, 78, 71, 13, 10, 26, 10, 0, 0, 0, 13, 73, 72, 68, 82, 0, 0, 0, 1, 0, 0, 0, 1, 8, 6, 0,
    0, 0, 31, 21, 196, 137, 0, 0, 0, 13, 73, 68, 65, 84, 120, 156, 99, 0, 1, 0, 0, 5, 0, 1, 13, 10,
    45, 180, 0, 0, 0, 0, 73, 69, 78, 68, 174, 66, 96, 130,
];

fn app(e: AppError) -> Vec<ErrorLink> {
    vec![ErrorLink::App(e)]
}

#[test]
fn config_error_maps_to_2() {
    assert_eq!(exit_code_from(&app(AppError::Config("api_key missing".into()))), 2);
}

#[test]
fn input_error_maps_to_2() {
    assert_eq!(exit_code_from(&app(AppError::Input("--prompt required".into()))), 2);
}

#[test]
fn network_error_maps_to_3() {
    assert_eq!(exit_code_from(&app(AppError::Network("timed out".into()))), 3);
}

#[test]
fn api_error_maps_to_4() {
    assert_eq!(exit_code_from(&app(AppError::Api("401 Invalid API key".into()))), 4);
}

#[test]
fn parse_error_maps_to_5() {
    assert_eq!(exit_code_from(&app(AppError::Parse("data empty".into()))), 5);
}

#[test]
fn io_error_maps_to_6() {
    assert_eq!(exit_code_from(&app(AppError::Io("permission denied".into()))), 6);
}

#[test]
fn unclassified_maps_to_1() {
    let err = vec![ErrorLink::Other("some random thing".into())];
    assert_eq!(exit_code_from(&err), 1);
}

#[test]
fn chain_cause_also_matched() {
    let err = vec![
        ErrorLink::Other("while generating image".into()),
        ErrorLink::App(AppError::Api("unauthorized".into())),
    ];
    assert_eq!(exit_code_from(&err), 4);
}

#[test]
fn wrapping_preserves_classification() {
    let err = vec![
        ErrorLink::App(AppError::Network("send failed".into())),
        ErrorLink::Other("boom".into()),
    ];
    assert_eq!(exit_code_from(&err), 3);
    let s = report_lines(&err).join("\n");
    assert!(s.contains("network error: send failed"));
    assert!(s.contains("boom"));
}

#[test]
fn display_includes_prefix() {
    assert_eq!(AppError::Config("x".into()).message(), "config error: x");
    assert_eq!(AppError::Api("y".into()).message(), "api error: y");
}

#[test]
fn every_kind_has_its_prefix_and_code() {
    let cases = [
        (AppError::Config("d".into()), "config error: d", 2),
        (AppError::Input("d".into()), "input error: d", 2),
        (AppError::Network("d".into()), "network error: d", 3),
        (AppError::Api("d".into()), "api error: d", 4),
        (AppError::Parse("d".into()), "response parse error: d", 5),
        (AppError::Io("d".into()), "io error: d", 6),
    ];
    for (e, text, code) in cases {
        assert_eq!(e.message(), text);
        assert_eq!(e.exit_code(), code);
    }
}

#[test]
fn outermost_classified_link_decides() {
    let err = vec![
        ErrorLink::Other("ctx".into()),
        ErrorLink::App(AppError::Io("w".into())),
        ErrorLink::App(AppError::Api("a".into())),
    ];
    assert_eq!(exit_code_from(&err), 6);
    assert_eq!(exit_code_from(&Vec::new()), 1);
}

#[test]
fn report_lines_name_each_link() {
    let err = vec![
        ErrorLink::App(AppError::Config("base_url is required".into())),
        ErrorLink::Other("inner".into()),
    ];
    assert_eq!(
        report_lines(&err),
        vec!["Error: config error: base_url is required", "  caused by: inner"]
    );
}

#[test]
fn truncate_short_unchanged() {
    assert_eq!(truncate("hi", 10), "hi");
}

#[test]
fn truncate_long_is_cut() {
    let s = "a".repeat(100);
    let r = truncate(&s, 10);
    assert_eq!(r.len(), 10 + "...(truncated)".len());
    assert!(r.starts_with("aaaaaaaaaa"));
    assert!(r.ends_with("(truncated)"));
}

#[test]
fn truncate_does_not_panic_on_multibyte_boundary() {
    let s = "你好世界";
    let r = truncate(s, 4);
    assert!(r.ends_with("(truncated)"));
    assert!(r.starts_with("你"));
}

#[test]
fn truncate_exact_values() {
    assert_eq!(truncate("你好世界", 4), "你...(truncated)");
    assert_eq!(truncate("你好世界", 6), "你好...(truncated)");
    assert_eq!(truncate("你好世界", 12), "你好世界");
    assert_eq!(truncate("abc", 0), "...(truncated)");
    assert_eq!(truncate("", 0), "");
}

fn cfg(base: &str, image: Option<&str>, mask: Option<&str>) -> EffectiveCfg {
    EffectiveCfg {
        base_url: base.into(),
        api_key: "k".into(),
        model: "gpt-image-2".into(),
        size: "auto".into(),
        quality: "high".into(),
        prompt: "a red apple".into(),
        image: image.map(|s| s.to_string()),
        mask: mask.map(|s| s.to_string()),
    }
}

#[test]
fn endpoint_urls_drop_trailing_slashes() {
    assert_eq!(generations_url("http://h"), "http://h/v1/images/generations");
    assert_eq!(generations_url("http://h//"), "http://h/v1/images/generations");
    assert_eq!(edits_url("http://h/"), "http://h/v1/images/edits");
    assert_eq!(request_url(&cfg("http://h", None, None)), "http://h/v1/images/generations");
    assert_eq!(request_url(&cfg("http://h", Some("i.png"), None)), "http://h/v1/images/edits");
}

#[test]
fn generate_request_has_one_image() {
    let r = generate_request(&cfg("http://h", None, None));
    assert_eq!(r.prompt, "a red apple");
    assert_eq!(r.model, "gpt-image-2");
    assert_eq!(r.n, 1);
    assert_eq!(r.size, "auto");
    assert_eq!(r.quality, "high");
}

#[test]
fn edit_form_fields_in_order() {
    let f = edit_form(&cfg("http://h", Some("o.png"), Some("m.png"))).unwrap();
    let names: Vec<&str> = f.fields.iter().map(|(n, _)| n.as_str()).collect();
    assert_eq!(names, vec!["prompt", "model", "n", "quality", "size"]);
    assert_eq!(f.fields[2].1, "1");
    assert_eq!(f.image, "o.png");
    assert_eq!(f.mask.as_deref(), Some("m.png"));
    let err = edit_form(&cfg("http://h", None, None)).unwrap_err();
    assert_eq!(err.message(), "input error: --image required for edit");
}

#[test]
fn summaries_count_prompt_bytes() {
    let mut c = cfg("http://h", None, None);
    c.prompt = "你好".into();
    assert_eq!(generate_summary(&c), "prompt_len=6 size=auto quality=high model=gpt-image-2");
    assert_eq!(
        edit_summary(&c, "o.png"),
        "prompt_len=6 size=auto quality=high model=gpt-image-2 image=o.png mask=<none>"
    );
}

fn api_error(t: Option<&str>, msg: &str, param: Option<&str>) -> ApiError {
    ApiError {
        error: ApiErrorBody {
            code: t.map(|s| s.to_string()),
            err_type: t.map(|s| s.to_string()),
            message: msg.into(),
            param: param.map(|s| s.to_string()),
        },
    }
}

#[test]
fn failure_message_quotes_api_error() {
    let e = api_error(Some("authentication_error"), "Invalid API key", None);
    assert_eq!(
        failure_message(401, &Some(e), "", "http://h/v1/images/generations"),
        "401 authentication_error: Invalid API key\n  param: null\n  endpoint: POST http://h/v1/images/generations"
    );
    let e2 = api_error(None, "bad mask", Some("mask"));
    assert_eq!(
        failure_message(400, &Some(e2), "", "u"),
        "400 unknown: bad mask\n  param: mask\n  endpoint: POST u"
    );
}

#[test]
fn failure_message_quotes_plain_body() {
    assert_eq!(
        failure_message(502, &None, "upstream timeout", "u"),
        "502: upstream timeout\n  endpoint: POST u"
    );
    let long = "x".repeat(3000);
    let m = failure_message(500, &None, &long, "u");
    assert!(m.starts_with(&format!("500: {}...(truncated)\n", "x".repeat(2048))));
}

fn resp_with(data: Vec<ImageData>) -> ApiResponse {
    ApiResponse { created: 0, data, usage: None }
}

fn image(b64: Option<&str>, url: Option<&str>) -> ImageData {
    ImageData {
        b64_json: b64.map(|s| s.to_string()),
        url: url.map(|s| s.to_string()),
        revised_prompt: None,
    }
}

#[test]
fn decode_response_outcomes() {
    assert!(is_success(200) && is_success(299) && !is_success(199) && !is_success(300));
    let ok = resp_with(vec![image(Some("AA=="), None)]);
    assert_eq!(decode_response(200, b"{}", Some(ok.clone()), &None, "u"), Ok(ok));
    let e = decode_response(200, b"nope", None, &None, "u").unwrap_err();
    assert_eq!(e.exit_code(), 5);
    assert_eq!(e.message(), "response parse error: from u");
    let e = decode_response(502, b"upstream timeout", None, &None, "u").unwrap_err();
    assert_eq!(e.exit_code(), 4);
    assert!(e.message().contains("502"));
    assert!(e.message().contains("upstream timeout"));
    let body = br#"{"error":{"type":"authentication_error","message":"Invalid API key"}}"#;
    let parsed = api_error(Some("authentication_error"), "Invalid API key", None);
    let e = decode_response(401, body, None, &Some(parsed), "u").unwrap_err();
    assert_eq!(e.exit_code(), 4);
    assert!(e.message().contains("authentication_error"));
    assert!(e.message().contains("Invalid API key"));
}

#[test]
fn decode_response_replaces_invalid_utf8() {
    let e = decode_response(500, &[b'a', 0xff, b'b'], None, &None, "u").unwrap_err();
    assert_eq!(e.message(), "api error: 500: a\u{FFFD}b\n  endpoint: POST u");
}

fn args(parts: &[(&str, &str)], init: bool) -> Args {
    let mut a = Args {
        prompt: None,
        output: None,
        image: None,
        mask: None,
        quality: None,
        size: None,
        model: None,
        init,
        quiet: false,
    };
    for (k, v) in parts {
        let v = Some(v.to_string());
        match *k {
            "prompt" => a.prompt = v,
            "output" => a.output = v,
            "image" => a.image = v,
            "mask" => a.mask = v,
            "quality" => a.quality = v,
            "size" => a.size = v,
            "model" => a.model = v,
            _ => unreachable!(),
        }
    }
    a
}

#[test]
fn init_alone_is_valid() {
    let a = args(&[], true);
    a.validate().unwrap();
}

#[test]
fn missing_prompt_fails_validate() {
    let a = args(&[("output", "/tmp/x.png")], false);
    let err = a.validate().unwrap_err();
    assert!(err.message().contains("--prompt is required"));
}

#[test]
fn missing_output_fails_validate() {
    let a = args(&[("prompt", "x")], false);
    let err = a.validate().unwrap_err();
    assert!(err.message().contains("--output is required"));
}

#[test]
fn image_missing_file_fails_validate() {
    let a = args(
        &[("prompt", "x"), ("output", "/tmp/x.png"), ("image", "/nonexistent-path-xxx.png")],
        false,
    );
    let err = a.validate().unwrap_err();
    assert!(err.message().contains("--image file does not exist"));
}

#[test]
fn happy_path_generate_validates() {
    let a = args(&[("prompt", "hello"), ("output", "/tmp/out.png")], false);
    a.validate().unwrap();
}

#[test]
fn validate_with_reports_each_missing_file() {
    let a = args(&[("prompt", "p"), ("output", "o"), ("image", "i.png"), ("mask", "m.png")], false);
    assert!(a.validate_with(true, true).is_ok());
    let e = a.validate_with(false, false).unwrap_err();
    assert_eq!(e.message(), "input error: --image file does not exist: i.png");
    assert_eq!(e.exit_code(), 2);
    let e = a.validate_with(true, false).unwrap_err();
    assert_eq!(e.message(), "input error: --mask file does not exist: m.png");
}

#[test]
fn request_timeout_allows_slow_image_generation() {
    assert_eq!(Duration::from_secs(REQUEST_TIMEOUT_SECS), Duration::from_secs(300));
}

#[test]
fn user_agent_has_expected_shape() {
    let ua = user_agent("x86_64", &None);
    assert!(ua.starts_with("sub2api-image/"), "ua={ua}");
    assert!(ua.contains("; "));
    assert!(ua.contains("(sub2api-image;"));
}

#[test]
fn user_agent_exact_forms() {
    assert_eq!(
        user_agent_for("Debian", "13.0.0", "x86_64", &Some("WindowsTerminal".into())),
        "sub2api-image/0.1.0 (Debian 13.0.0; x86_64) WindowsTerminal (sub2api-image; 0.1.0)"
    );
    assert_eq!(
        user_agent_for("Mac OS", "Unknown", "aarch64", &Some(String::new())),
        "sub2api-image/0.1.0 (Mac OS; aarch64) Terminal (sub2api-image; 0.1.0)"
    );
    assert_eq!(
        user_agent_for("Linux", "", "x86_64", &None),
        "sub2api-image/0.1.0 (Linux; x86_64) Terminal (sub2api-image; 0.1.0)"
    );
}

#[test]
fn human_bytes_formats() {
    assert_eq!(human_bytes(500), "500B");
    assert_eq!(human_bytes(2048), "2.0KB");
    assert_eq!(human_bytes(2 * 1024 * 1024), "2.0MB");
}

#[test]
fn human_bytes_matches_float_formatting() {
    for n in [0usize, 1, 1023, 1024, 1075, 1280, 1331, 1536, 1587, 10_000, 1_048_575, 1_048_576,
        1_310_720, 3_000_000, 123_456_789]
    {
        let expect = if n >= 1024 * 1024 {
            format!("{:.1}MB", n as f64 / (1024.0 * 1024.0))
        } else if n >= 1024 {
            format!("{:.1}KB", n as f64 / 1024.0)
        } else {
            format!("{}B", n)
        };
        assert_eq!(human_bytes(n), expect, "n={n}");
    }
}

#[test]
fn quiet_logger_produces_no_panic() {
    let log = Logger::new(true);
    assert_eq!(log.endpoint("POST", "http://x"), None);
    assert_eq!(log.body("prompt_len=3"), None);
    assert_eq!(log.received(200, "0.1", 1024), None);
    assert!(log.response_summary(&resp_with(vec![])).is_empty());
}

#[test]
fn logger_lines() {
    let log = Logger::new(false);
    assert_eq!(
        log.endpoint("POST", "http://x").unwrap(),
        "[sub2api-image] endpoint: POST http://x"
    );
    assert_eq!(log.body("b").unwrap(), "[sub2api-image] body: b");
    assert_eq!(
        log.received(200, "1.5", 2048).unwrap(),
        "[sub2api-image] ← 200 in 1.5s  bytes=2.0KB"
    );
    let mut r = resp_with(vec![image(Some("QUJD"), Some("u"))]);
    r.usage = Some(Usage { total_tokens: 100, input_tokens: 10, output_tokens: 90 });
    assert_eq!(
        log.response_summary(&r),
        vec![
            "[sub2api-image] usage: total=100 in=10 out=90",
            "[sub2api-image] response: data.len=1 b64_json.len=4 url=Some revised_prompt=None",
        ]
    );
}

#[test]
fn saves_decoded_png_to_disk() {
    let b64 = base64::engine::general_purpose::STANDARD.encode(PNG_1X1);
    let resp = resp_with(vec![image(Some(&b64), None)]);
    let bytes = image_bytes(&resp).unwrap();
    assert_eq!(&bytes[..4], &[137, 80, 78, 71]);
    assert_eq!(bytes, PNG_1X1.to_vec());
}

#[test]
fn empty_data_errors() {
    let err = image_bytes(&resp_with(vec![])).unwrap_err();
    assert!(err.message().contains("response parse error"));
    assert!(err.message().contains("data is empty"));
}

#[test]
fn url_mode_rejected() {
    let err =
        image_bytes(&resp_with(vec![image(None, Some("https://example.com/a.png"))])).unwrap_err();
    assert!(err.message().contains("URL mode"));
    assert_eq!(err.exit_code(), 5);
}

#[test]
fn neither_b64_nor_url_errors() {
    let err = image_bytes(&resp_with(vec![image(None, None)])).unwrap_err();
    assert!(err.message().contains("neither b64_json nor url"));
}

#[test]
fn bad_base64_errors() {
    let err = image_bytes(&resp_with(vec![image(Some("!!!not base64!!!"), None)])).unwrap_err();
    assert!(err.message().contains("base64 decode"));
    assert_eq!(err.exit_code(), 5);
}

#[test]
fn payload_and_decoded_image() {
    let resp = resp_with(vec![image(Some("QUJD"), None), image(None, None)]);
    assert_eq!(first_image_payload(&resp).unwrap(), "QUJD");
    assert_eq!(image_bytes(&resp).unwrap(), b"ABC".to_vec());
    assert_eq!(decoded_image(Some(vec![1, 2])).unwrap(), vec![1, 2]);
    assert_eq!(decoded_image(None).unwrap_err().message(), "response parse error: base64 decode failed");
}

fn some(s: &str) -> Option<String> {
    Some(s.to_string())
}

#[test]
fn explicit_config_env_wins() {
    let p = resolve_config_path(&some("/tmp/test-cfg.toml"), &some("/tmp/ignored"), &None, &None);
    assert_eq!(p.unwrap(), "/tmp/test-cfg.toml");
}

#[test]
fn home_env_used_when_no_explicit_config() {
    let p = resolve_config_path(&None, &some("/tmp/custom"), &some("/home/me"), &None);
    assert_eq!(p.unwrap(), "/tmp/custom/config.toml");
}

#[test]
fn falls_back_to_home_var() {
    let p = resolve_config_path(&None, &None, &some("/home/me"), &None);
    assert_eq!(p.unwrap(), "/home/me/.sub2api-image/config.toml");
}

#[test]
fn falls_back_to_userprofile_when_home_missing() {
    let p = resolve_config_path(&None, &None, &None, &some("C:\\Users\\me")).unwrap();
    assert!(p.ends_with(".sub2api-image/config.toml") || p.ends_with(".sub2api-image\\config.toml"));
}

#[test]
fn errors_when_no_home_at_all() {
    let err = resolve_config_path(&None, &None, &None, &None).unwrap_err();
    assert_eq!(exit_code_from(&vec![ErrorLink::App(err.clone())]), 2);
    assert!(err.message().contains("home directory"));
}

#[test]
fn empty_env_treated_as_unset() {
    let p = resolve_config_path(&some(""), &some(""), &some("/home/me"), &None);
    assert_eq!(p.unwrap(), "/home/me/.sub2api-image/config.toml");
    assert_eq!(home_dir(&some(""), &some("/u")), some("/u"));
    assert_eq!(home_dir(&some(""), &some("")), None);
}

fn config(base: &str, key: &str) -> Config {
    Config { base_url: base.into(), api_key: key.into(), defaults: Defaults::default() }
}

#[test]
fn load_missing_api_key_errors() {
    let err = validate_config(config("https://x.example.com", "")).unwrap_err();
    assert_eq!(err.exit_code(), 2);
    assert!(err.message().contains("api_key"));
    let err = validate_config(config("  ", "k")).unwrap_err();
    assert_eq!(err.message(), "config error: base_url is required");
    assert!(validate_config(config("https://x", "sk-abc")).is_ok());
}

#[test]
fn load_missing_file_errors() {
    let err = unreadable_config("/t/config.toml", "No such file or directory (os error 2)");
    assert_eq!(exit_code_from(&vec![ErrorLink::App(err.clone())]), 2);
    assert_eq!(
        err.message(),
        "config error: cannot read /t/config.toml: No such file or directory (os error 2), run `sub2api-image --init` to create"
    );
}

#[test]
fn load_bad_toml_errors() {
    let err = check_loaded("/t/c.toml", Err("expected `=`".into())).unwrap_err();
    assert_eq!(err.exit_code(), 2);
    assert_eq!(err.message(), "config error: cannot parse TOML at /t/c.toml: expected `=`");
    assert!(check_loaded("/t/c.toml", Ok(config("u", "k"))).is_ok());
}

#[test]
fn write_template_refuses_overwrite() {
    let err = check_template_target("/t/config.toml", true).unwrap_err();
    assert!(err.message().contains("already exists"));
    assert_eq!(err.exit_code(), 2);
    assert!(check_template_target("/t/config.toml", false).is_ok());
}

#[test]
fn template_roundtrip_parses() {
    let v: toml::Value = toml::from_str(TEMPLATE).expect("template must parse");
    assert_eq!(v["base_url"].as_str(), Some("https://REPLACE_ME.example.com"));
    assert!(TEMPLATE.contains("REPLACE_ME"));
}

#[test]
fn effective_config_merges_sources() {
    let a = args(&[("prompt", "p"), ("output", "o"), ("quality", "low")], false);
    let mut c = config("https://x", "k");
    c.defaults.model = some("m2");
    c.defaults.size = some("1024x1024");
    c.defaults.quality = some("high");
    let e = effective_config(&a, c);
    assert_eq!(e.model, "m2");
    assert_eq!(e.size, "1024x1024");
    assert_eq!(e.quality, "low");
    assert_eq!(e.prompt, "p");
    let e2 = effective_config(&a, config("https://x", "k"));
    assert_eq!(e2.model, "gpt-image-2");
    assert_eq!(e2.size, "auto");
    let b = args(&[("prompt", "p"), ("size", "512x512"), ("model", "m9")], false);
    let e3 = effective_config(&b, config("https://x", "k"));
    assert_eq!(e3.size, "512x512");
    assert_eq!(e3.model, "m9");
    assert_eq!(e3.quality, "auto");
}
