//! The gateway's wire types and everything about a request and its answer
//! that is not the transfer itself: endpoint URLs, the JSON request, the
//! multipart form, the log lines, and how an answer becomes a response or an
//! error.
use crate::sub2api_image::errors::{result_view, AppError, ErrorKind};
use crate::text::{
    chars_of, decimal, fit_count, fit_prefix, lemma_fit_all, lemma_utf8_len, push_decimal,
    push_range, push_str, string_of,
};
use vstd::prelude::*;
use vstd::utf8::{decode_utf8, encode_utf8, valid_utf8};

verus! {

broadcast use vstd::string::group_string_axioms;

/// The JSON body of a generation request.
#[derive(Debug, Clone, PartialEq, Eq)]
pub struct GenerateReq {
    pub prompt: String,
    pub model: String,
    pub n: u32,
    pub size: String,
    pub quality: String,
}

/// A successful answer: the generated images and, when reported, the tokens
/// spent.
#[derive(Debug, Clone, PartialEq, Eq)]
pub struct ApiResponse {
    pub created: i64,
    pub data: Vec<ImageData>,
    pub usage: Option<Usage>,
}

/// One generated image, inline (`b64_json`) or by reference (`url`).
#[derive(Debug, Clone, PartialEq, Eq)]
pub struct ImageData {
    pub b64_json: Option<String>,
    pub url: Option<String>,
    pub revised_prompt: Option<String>,
}

/// Token accounting of a request.
#[derive(Debug, Clone, Copy, PartialEq, Eq)]
pub struct Usage {
    pub total_tokens: u64,
    pub input_tokens: u64,
    pub output_tokens: u64,
}

/// The body of an error answer.
#[derive(Debug, Clone, PartialEq, Eq)]
pub struct ApiError {
    pub error: ApiErrorBody,
}

/// What the gateway says went wrong; `err_type` is the JSON field `type`.
#[derive(Debug, Clone, PartialEq, Eq)]
pub struct ApiErrorBody {
    pub code: Option<String>,
    pub err_type: Option<String>,
    pub message: String,
    pub param: Option<String>,
}

/// The settings of one request, merged from the command line and the
/// configuration file.  Image paths are kept as text.
#[derive(Debug, Clone, PartialEq, Eq)]
pub struct EffectiveCfg {
    pub base_url: String,
    pub api_key: String,
    pub model: String,
    pub size: String,
    pub quality: String,
    pub prompt: String,
    pub image: Option<String>,
    pub mask: Option<String>,
}

/// An optional string by its text.
pub open spec fn opt_view(o: Option<String>) -> Option<Seq<char>> {
    match o {
        Some(s) => Some(s@),
        None => None,
    }
}

/// A copy of an optional string.
pub fn copy_opt(o: &Option<String>) -> (r: Option<String>)
    ensures
        opt_view(r) == opt_view(*o),
{
    match o {
        Some(s) => Some(s.clone()),
        None => None,
    }
}

/// The text of an optional string, or `default` when it is absent.
pub open spec fn text_or(o: Option<String>, default: Seq<char>) -> Seq<char> {
    match o {
        Some(s) => s@,
        None => default,
    }
}

/// `s` without its trailing `/` characters.
pub open spec fn strip_slashes(s: Seq<char>) -> Seq<char>
    decreases s.len(),
{
    if s.len() > 0 && s.last() == '/' {
        strip_slashes(s.drop_last())
    } else {
        s
    }
}

/// The URL of an endpoint: the base URL without trailing slashes, then the
/// endpoint's path.
pub open spec fn endpoint_url(base: Seq<char>, path: Seq<char>) -> Seq<char> {
    strip_slashes(base) + path
}

fn endpoint(base: &str, path: &str) -> (r: String)
    ensures
        r@ == endpoint_url(base@, path@),
{
    let b = chars_of(base);
    let mut end = b.len();
    assert(b@.subrange(0, b@.len() as int) =~= b@);
    while end > 0 && b[end - 1] == '/'
        invariant
            end <= b@.len(),
            strip_slashes(b@) == strip_slashes(b@.subrange(0, end as int)),
        decreases end,
    {
        assert(b@.subrange(0, end - 1) =~= b@.subrange(0, end as int).drop_last());
        end = end - 1;
    }
    let mut out: Vec<char> = Vec::new();
    push_range(&mut out, &b, 0, end);
    push_str(&mut out, path);
    string_of(&out)
}

/// The generation endpoint under `base_url`.
pub fn generations_url(base_url: &str) -> (r: String)
    ensures
        r@ == endpoint_url(base_url@, "/v1/images/generations"@),
{
    endpoint(base_url, "/v1/images/generations")
}

/// The edit endpoint under `base_url`.
pub fn edits_url(base_url: &str) -> (r: String)
    ensures
        r@ == endpoint_url(base_url@, "/v1/images/edits"@),
{
    endpoint(base_url, "/v1/images/edits")
}

/// The URL a request goes to: the edit endpoint when an image is given, the
/// generation endpoint otherwise.
pub fn request_url(cfg: &EffectiveCfg) -> (r: String)
    ensures
        r@ == endpoint_url(
            cfg.base_url@,
            if cfg.image is Some {
                "/v1/images/edits"@
            } else {
                "/v1/images/generations"@
            },
        ),
{
    if cfg.image.is_some() {
        edits_url(cfg.base_url.as_str())
    } else {
        generations_url(cfg.base_url.as_str())
    }
}

/// The JSON body of a generation request: the prompt, model, size and
/// quality of `cfg`, and always one image.
pub fn generate_request(cfg: &EffectiveCfg) -> (r: GenerateReq)
    ensures
        r.prompt@ == cfg.prompt@,
        r.model@ == cfg.model@,
        r.n == 1,
        r.size@ == cfg.size@,
        r.quality@ == cfg.quality@,
{
    GenerateReq {
        prompt: cfg.prompt.clone(),
        model: cfg.model.clone(),
        n: 1,
        size: cfg.size.clone(),
        quality: cfg.quality.clone(),
    }
}

/// The multipart form of an edit request: its text fields, in order, and
/// the files to attach.
#[derive(Debug, Clone, PartialEq, Eq)]
pub struct EditForm {
    pub fields: Vec<(String, String)>,
    pub image: String,
    pub mask: Option<String>,
}

/// The text fields of an edit form, in the order they are sent.
pub open spec fn edit_fields(cfg: EffectiveCfg) -> Seq<(Seq<char>, Seq<char>)> {
    seq![
        ("prompt"@, cfg.prompt@),
        ("model"@, cfg.model@),
        ("n"@, "1"@),
        ("quality"@, cfg.quality@),
        ("size"@, cfg.size@),
    ]
}

fn pair(name: &str, value: &str) -> (r: (String, String))
    ensures
        r.0@ == name@,
        r.1@ == value@,
{
    (name.to_owned(), value.to_owned())
}

/// The form of an edit request: prompt, model, one image, quality and size
/// as text fields, then the image and, when given, the mask.  Without an
/// image there is nothing to edit.
pub fn edit_form(cfg: &EffectiveCfg) -> (r: Result<EditForm, AppError>)
    ensures
        match cfg.image {
            None => r matches Err(e) && e@ == (ErrorKind::Input, "--image required for edit"@),
            Some(img) => r matches Ok(f) && f.fields@.map_values(
                |p: (String, String)| (p.0@, p.1@),
            ) == edit_fields(*cfg) && f.image@ == img@ && opt_view(f.mask) == opt_view(cfg.mask),
        },
{
    proof {
        reveal_strlit("--image required for edit");
    }
    let image = match &cfg.image {
        None => {
            return Err(AppError::Input("--image required for edit".to_owned()));
        },
        Some(p) => p.clone(),
    };
    let mut fields: Vec<(String, String)> = Vec::new();
    fields.push(pair("prompt", cfg.prompt.as_str()));
    fields.push(pair("model", cfg.model.as_str()));
    fields.push(pair("n", "1"));
    fields.push(pair("quality", cfg.quality.as_str()));
    fields.push(pair("size", cfg.size.as_str()));
    let ghost f = fields@.map_values(|p: (String, String)| (p.0@, p.1@));
    assert(f =~= edit_fields(*cfg));
    Ok(EditForm { fields, image, mask: copy_opt(&cfg.mask) })
}

/// The logged summary of a generation request.
pub open spec fn generate_summary_text(cfg: EffectiveCfg) -> Seq<char> {
    "prompt_len="@ + decimal(encode_utf8(cfg.prompt@).len()) + " size="@ + cfg.size@
        + " quality="@ + cfg.quality@ + " model="@ + cfg.model@
}

/// The logged summary of an edit request.
pub open spec fn edit_summary_text(cfg: EffectiveCfg, image: Seq<char>) -> Seq<char> {
    generate_summary_text(cfg) + " image="@ + image + " mask="@ + text_or(cfg.mask, "<none>"@)
}

fn push_summary(v: &mut Vec<char>, cfg: &EffectiveCfg)
    requires
        encode_utf8(cfg.prompt@).len() <= usize::MAX,
    ensures
        final(v)@ == old(v)@ + generate_summary_text(*cfg),
{
    let n = cfg.prompt.as_str().len();
    push_str(v, "prompt_len=");
    push_decimal(v, n as u64);
    push_str(v, " size=");
    push_str(v, cfg.size.as_str());
    push_str(v, " quality=");
    push_str(v, cfg.quality.as_str());
    push_str(v, " model=");
    push_str(v, cfg.model.as_str());
    assert(final(v)@ =~= old(v)@ + generate_summary_text(*cfg));
}

/// What is logged of a generation request: the prompt's length in bytes,
/// the size, the quality and the model.
pub fn generate_summary(cfg: &EffectiveCfg) -> (r: String)
    requires
        encode_utf8(cfg.prompt@).len() <= usize::MAX,
    ensures
        r@ == generate_summary_text(*cfg),
{
    let mut v: Vec<char> = Vec::new();
    push_summary(&mut v, cfg);
    assert(v@ =~= generate_summary_text(*cfg));
    string_of(&v)
}

/// What is logged of an edit request: as for a generation, then the image
/// and the mask (`<none>` without one).
pub fn edit_summary(cfg: &EffectiveCfg, image: &str) -> (r: String)
    requires
        encode_utf8(cfg.prompt@).len() <= usize::MAX,
    ensures
        r@ == edit_summary_text(*cfg, image@),
{
    let mut v: Vec<char> = Vec::new();
    push_summary(&mut v, cfg);
    push_str(&mut v, " image=");
    push_str(&mut v, image);
    push_str(&mut v, " mask=");
    match &cfg.mask {
        Some(m) => push_str(&mut v, m.as_str()),
        None => push_str(&mut v, "<none>"),
    }
    assert(v@ =~= edit_summary_text(*cfg, image@));
    string_of(&v)
}

/// `s` cut to at most `max` bytes of UTF-8 at a character boundary and
/// marked as cut; unchanged when it already fits.
pub open spec fn truncated(s: Seq<char>, max: nat) -> Seq<char> {
    if encode_utf8(s).len() <= max {
        s
    } else {
        s.take(fit_count(s, max as int) as int) + "...(truncated)"@
    }
}

/// Shortens `s` to the longest prefix of at most `max` UTF-8 bytes that
/// ends on a character boundary, followed by `...(truncated)`; returns `s`
/// unchanged when it is no longer than `max` bytes.
pub fn truncate(s: &str, max: usize) -> (r: String)
    ensures
        r@ == truncated(s@, max as nat),
{
    let cs = chars_of(s);
    let k = fit_prefix(&cs, max);
    proof {
        lemma_fit_all(s@, max as int);
        crate::text::lemma_utf8_len(s@);
    }
    if k == cs.len() {
        return s.to_owned();
    }
    let mut out: Vec<char> = Vec::new();
    push_range(&mut out, &cs, 0, k);
    push_str(&mut out, "...(truncated)");
    assert(out@ =~= truncated(s@, max as nat));
    string_of(&out)
}

/// The longest body text quoted in an error message, in bytes.
pub const MAX_QUOTED_BODY: usize = 2048;

/// How a failed request is reported: the status, then the gateway's error
/// type, message and parameter when its body is a JSON error, or the body
/// itself (cut to 2048 bytes) when it is not; then the endpoint.
pub open spec fn failure_text(
    status: u16,
    api_err: Option<ApiError>,
    body_text: Seq<char>,
    url: Seq<char>,
) -> Seq<char> {
    match api_err {
        Some(e) => decimal(status as nat) + " "@ + text_or(e.error.err_type, "unknown"@) + ": "@
            + e.error.message@ + "\n  param: "@ + text_or(e.error.param, "null"@)
            + "\n  endpoint: POST "@ + url,
        None => decimal(status as nat) + ": "@ + truncated(body_text, MAX_QUOTED_BODY as nat)
            + "\n  endpoint: POST "@ + url,
    }
}

/// The message of a failed request (see `failure_text`).
pub fn failure_message(status: u16, api_err: &Option<ApiError>, body_text: &str, url: &str) -> (r:
    String)
    ensures
        r@ == failure_text(status, *api_err, body_text@, url@),
{
    let mut v: Vec<char> = Vec::new();
    push_decimal(&mut v, status as u64);
    match api_err {
        Some(e) => {
            push_str(&mut v, " ");
            match &e.error.err_type {
                Some(t) => push_str(&mut v, t.as_str()),
                None => push_str(&mut v, "unknown"),
            }
            push_str(&mut v, ": ");
            push_str(&mut v, e.error.message.as_str());
            push_str(&mut v, "\n  param: ");
            match &e.error.param {
                Some(p) => push_str(&mut v, p.as_str()),
                None => push_str(&mut v, "null"),
            }
        },
        None => {
            push_str(&mut v, ": ");
            let t = truncate(body_text, MAX_QUOTED_BODY);
            push_str(&mut v, t.as_str());
        },
    }
    push_str(&mut v, "\n  endpoint: POST ");
    push_str(&mut v, url);
    assert(v@ =~= failure_text(status, *api_err, body_text@, url@));
    string_of(&v)
}

/// A status in `200..=299`, as `http::StatusCode::is_success` reads it.
pub open spec fn success_status(status: u16) -> bool {
    200 <= status <= 299
}

/// Whether `status` reports success.
pub fn is_success(status: u16) -> (r: bool)
    ensures
        r == success_status(status),
{
    200 <= status && status <= 299
}

/// The text that `String::from_utf8_lossy` makes of `bytes`.
pub uninterp spec fn utf8_lossy(bytes: Seq<u8>) -> Seq<char>;

/// `String::from_utf8_lossy`: the text of `bytes`, with each invalid UTF-8
/// sequence replaced by U+FFFD.  Claimed: the result is `utf8_lossy` of the
/// bytes, and valid UTF-8 is decoded as it stands.
#[verifier::external_body]
fn lossy_text(bytes: &[u8]) -> (r: String)
    ensures
        r@ == utf8_lossy(bytes@),
        valid_utf8(bytes@) ==> r@ == decode_utf8(bytes@),
{
    String::from_utf8_lossy(bytes).into_owned()
}

/// The detail of the error raised when a successful answer is not the
/// expected JSON: where it came from (the parser's reason follows it as the
/// error's cause).
pub open spec fn undecodable_text(url: Seq<char>) -> Seq<char> {
    "from "@ + url
}

/// What an answer becomes: for a success status, the parsed response (a
/// parse error when the body did not parse); for any other status an API
/// error whose message `failure_text` gives, quoting the gateway's JSON
/// error when the body is one and the body's text otherwise.
pub open spec fn outcome(
    status: u16,
    body: Seq<u8>,
    parsed: Option<ApiResponse>,
    api_err: Option<ApiError>,
    url: Seq<char>,
) -> Result<ApiResponse, (ErrorKind, Seq<char>)> {
    if success_status(status) {
        match parsed {
            Some(r) => Ok(r),
            None => Err((ErrorKind::Parse, undecodable_text(url))),
        }
    } else {
        Err((ErrorKind::Api, failure_text(status, api_err, utf8_lossy(body), url)))
    }
}

/// Turns an answer into the response or the error.  `parsed` is the body
/// read as a response and `api_err` the body read as a JSON error, each
/// `None` where the body is not of that shape.
pub fn decode_response(
    status: u16,
    body: &[u8],
    parsed: Option<ApiResponse>,
    api_err: &Option<ApiError>,
    url: &str,
) -> (r: Result<ApiResponse, AppError>)
    ensures
        result_view(r) == outcome(status, body@, parsed, *api_err, url@),
{
    if is_success(status) {
        match parsed {
            Some(resp) => Ok(resp),
            None => {
                let mut v: Vec<char> = Vec::new();
                push_str(&mut v, "from ");
                push_str(&mut v, url);
                Err(AppError::Parse(string_of(&v)))
            },
        }
    } else {
        let text = lossy_text(body);
        Err(AppError::Api(failure_message(status, api_err, text.as_str(), url)))
    }
}

/// What `truncate` keeps of a text longer than `max` bytes is its longest
/// prefix of at most `max` bytes: that prefix fits, one more character would
/// not, and the mark follows it.
pub proof fn law_truncate_keeps_longest_fitting_prefix(s: Seq<char>, max: nat)
    ensures
        encode_utf8(s).len() <= max ==> truncated(s, max) == s,
        encode_utf8(s).len() > max ==> {
            let k = fit_count(s, max as int) as int;
            &&& k < s.len()
            &&& truncated(s, max) == s.take(k) + "...(truncated)"@
            &&& encode_utf8(s.take(k)).len() <= max
            &&& encode_utf8(s.take(k + 1)).len() > max
        },
{
    let k = fit_count(s, max as int) as int;
    lemma_utf8_len(s);
    lemma_fit_all(s, max as int);
    crate::text::lemma_fit_prefix(s, max as int);
    lemma_utf8_len(s.take(k));
    if k < s.len() {
        lemma_utf8_len(s.take(k + 1));
    }
}

/// Trailing slashes of the base URL make no difference to an endpoint.
pub proof fn law_trailing_slash_ignored(base: Seq<char>, path: Seq<char>)
    ensures
        endpoint_url(base + "/"@, path) == endpoint_url(base, path),
{
    reveal_strlit("/");
    let b = base + "/"@;
    assert(b.drop_last() =~= base);
    assert(b.last() == '/');
}

/// Every error status becomes an API error (exit 4); a success whose body
/// is not a response becomes a parse error (exit 5).
pub proof fn law_answer_failures_are_classified(
    status: u16,
    body: Seq<u8>,
    parsed: Option<ApiResponse>,
    api_err: Option<ApiError>,
    url: Seq<char>,
)
    ensures
        !success_status(status) ==> (outcome(status, body, parsed, api_err, url) matches Err(
            (k, _),
        ) && k == ErrorKind::Api),
        success_status(status) && parsed is None ==> (outcome(
            status,
            body,
            parsed,
            api_err,
            url,
        ) matches Err((k, _)) && k == ErrorKind::Parse),
        success_status(status) && parsed is Some ==> outcome(status, body, parsed, api_err, url)
            == Ok::<ApiResponse, (ErrorKind, Seq<char>)>(parsed->0),
{
}

} // verus!
