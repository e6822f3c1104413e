//! The diagnostic lines written to stderr, unless the run is quiet.
use crate::sub2api_image::api::ApiResponse;
use crate::text::{decimal, push_decimal, push_str, string_of};
use vstd::prelude::*;
use vstd::utf8::encode_utf8;

verus! {

broadcast use vstd::string::group_string_axioms;

/// The start of every diagnostic line.
pub open spec fn tag() -> Seq<char> {
    "[sub2api-image] "@
}

/// `n` units counted in tenths, rounded to the nearest tenth, a tie going to
/// the even tenth.
pub open spec fn tenths(n: nat, unit: nat) -> nat {
    let q = (10 * n) / unit;
    let r = (10 * n) % unit;
    if 2 * r > unit || (2 * r == unit && q % 2 == 1) {
        q + 1
    } else {
        q
    }
}

/// A count of tenths written with one decimal.
pub open spec fn one_decimal(t: nat) -> Seq<char> {
    decimal(t / 10) + "."@ + decimal(t % 10)
}

/// A byte count for people: in MB (1024 × 1024 bytes) or KB (1024 bytes)
/// with one decimal when it reaches the unit, else in plain bytes.
pub open spec fn human_bytes_text(n: nat) -> Seq<char> {
    if n >= 1048576 {
        one_decimal(tenths(n, 1048576)) + "MB"@
    } else if n >= 1024 {
        one_decimal(tenths(n, 1024)) + "KB"@
    } else {
        decimal(n) + "B"@
    }
}

fn push_tenths(v: &mut Vec<char>, n: usize, unit: u128)
    requires
        unit == 1024 || unit == 1048576,
    ensures
        final(v)@ == old(v)@ + one_decimal(tenths(n as nat, unit as nat)),
{
    let ten_n: u128 = (n as u128) * 10;
    let q: u128 = ten_n / unit;
    let r: u128 = ten_n % unit;
    let t: u128 = if 2 * r > unit || (2 * r == unit && q % 2 == 1) {
        q + 1
    } else {
        q
    };
    assert(t == tenths(n as nat, unit as nat));
    assert(q <= ten_n / 1024) by (nonlinear_arith)
        requires
            unit >= 1024,
            q == ten_n / unit,
    ;
    assert(t <= 0xffff_ffff_ffff_ffff);
    push_decimal(v, (t / 10) as u64);
    push_str(v, ".");
    push_decimal(v, (t % 10) as u64);
    assert(final(v)@ =~= old(v)@ + one_decimal(tenths(n as nat, unit as nat)));
}

/// Formats a byte count as `human_bytes_text` describes.
pub fn human_bytes(n: usize) -> (r: String)
    ensures
        r@ == human_bytes_text(n as nat),
{
    let mut v: Vec<char> = Vec::new();
    if n >= 1048576 {
        push_tenths(&mut v, n, 1048576);
        push_str(&mut v, "MB");
    } else if n >= 1024 {
        push_tenths(&mut v, n, 1024);
        push_str(&mut v, "KB");
    } else {
        push_decimal(&mut v, n as u64);
        push_str(&mut v, "B");
    }
    assert(v@ =~= human_bytes_text(n as nat));
    string_of(&v)
}

/// `Some` or `None`, as the summary shows whether a field is present.
pub open spec fn presence(b: bool) -> Seq<char> {
    if b {
        "Some"@
    } else {
        "None"@
    }
}

/// The byte length of the first image's inline data, 0 without one.
pub open spec fn first_b64_len(r: ApiResponse) -> nat {
    if r.data@.len() > 0 && r.data@[0].b64_json is Some {
        encode_utf8(r.data@[0].b64_json->0@).len()
    } else {
        0
    }
}

/// The summary line of a response: how many images, the length of the first
/// one's inline data, and whether it has a URL and a revised prompt.
pub open spec fn response_line(r: ApiResponse) -> Seq<char> {
    tag() + "response: data.len="@ + decimal(r.data@.len()) + " b64_json.len="@ + decimal(
        first_b64_len(r),
    ) + " url="@ + presence(r.data@.len() > 0 && r.data@[0].url is Some) + " revised_prompt="@
        + presence(r.data@.len() > 0 && r.data@[0].revised_prompt is Some)
}

/// The lines that summarise a response: the token usage when reported, then
/// the response line.
pub open spec fn summary_lines(r: ApiResponse) -> Seq<Seq<char>> {
    match r.usage {
        Some(u) => seq![
            tag() + "usage: total="@ + decimal(u.total_tokens as nat) + " in="@ + decimal(
                u.input_tokens as nat,
            ) + " out="@ + decimal(u.output_tokens as nat),
            response_line(r),
        ],
        None => seq![response_line(r)],
    }
}

/// Writes diagnostics unless quiet; each method gives the line(s) to write.
#[derive(Debug, Clone, Copy, PartialEq, Eq)]
pub struct Logger {
    quiet: bool,
}

impl Logger {
    /// Whether this logger stays silent.
    pub closed spec fn is_quiet(&self) -> bool {
        self.quiet
    }

    pub fn new(quiet: bool) -> (r: Self)
        ensures
            r.is_quiet() == quiet,
    {
        Logger { quiet }
    }

    fn line(&self, parts: Vec<char>) -> (r: Option<String>)
        ensures
            self.is_quiet() ==> r is None,
            !self.is_quiet() ==> (r matches Some(l) && l@ == parts@),
    {
        if self.quiet {
            None
        } else {
            Some(string_of(&parts))
        }
    }

    /// `[sub2api-image] endpoint: METHOD URL`.
    pub fn endpoint(&self, method: &str, url: &str) -> (r: Option<String>)
        ensures
            self.is_quiet() ==> r is None,
            !self.is_quiet() ==> (r matches Some(l) && l@ == tag() + "endpoint: "@ + method@ + " "@
                + url@),
    {
        let mut v: Vec<char> = Vec::new();
        push_str(&mut v, "[sub2api-image] endpoint: ");
        push_str(&mut v, method);
        push_str(&mut v, " ");
        push_str(&mut v, url);
        proof {
            reveal_strlit("[sub2api-image] endpoint: ");
            reveal_strlit("[sub2api-image] ");
            reveal_strlit("endpoint: ");
            assert(v@ =~= tag() + "endpoint: "@ + method@ + " "@ + url@);
        }
        self.line(v)
    }

    /// `[sub2api-image] body: TEXT`.
    pub fn body(&self, s: &str) -> (r: Option<String>)
        ensures
            self.is_quiet() ==> r is None,
            !self.is_quiet() ==> (r matches Some(l) && l@ == tag() + "body: "@ + s@),
    {
        let mut v: Vec<char> = Vec::new();
        push_str(&mut v, "[sub2api-image] body: ");
        push_str(&mut v, s);
        proof {
            reveal_strlit("[sub2api-image] body: ");
            reveal_strlit("[sub2api-image] ");
            reveal_strlit("body: ");
            assert(v@ =~= tag() + "body: "@ + s@);
        }
        self.line(v)
    }

    /// `[sub2api-image] ← STATUS in SECONDSs  bytes=SIZE`, the seconds as
    /// given (one decimal) and the size as `human_bytes` writes it.
    pub fn received(&self, status: u16, elapsed_secs: &str, bytes: usize) -> (r: Option<String>)
        ensures
            self.is_quiet() ==> r is None,
            !self.is_quiet() ==> (r matches Some(l) && l@ == tag() + "← "@ + decimal(status as nat)
                + " in "@ + elapsed_secs@ + "s  bytes="@ + human_bytes_text(bytes as nat)),
    {
        let mut v: Vec<char> = Vec::new();
        push_str(&mut v, "[sub2api-image] ← ");
        push_decimal(&mut v, status as u64);
        push_str(&mut v, " in ");
        push_str(&mut v, elapsed_secs);
        push_str(&mut v, "s  bytes=");
        let h = human_bytes(bytes);
        push_str(&mut v, h.as_str());
        proof {
            reveal_strlit("[sub2api-image] ← ");
            reveal_strlit("[sub2api-image] ");
            reveal_strlit("← ");
            assert(v@ =~= tag() + "← "@ + decimal(status as nat) + " in "@ + elapsed_secs@
                + "s  bytes="@ + human_bytes_text(bytes as nat));
        }
        self.line(v)
    }

    /// The lines summarising a response (see `summary_lines`); none when
    /// quiet.
    pub fn response_summary(&self, r: &ApiResponse) -> (lines: Vec<String>)
        requires
            first_b64_len(*r) <= usize::MAX,
        ensures
            self.is_quiet() ==> lines@.len() == 0,
            !self.is_quiet() ==> lines@.map_values(|l: String| l@) == summary_lines(*r),
    {
        let mut lines: Vec<String> = Vec::new();
        if self.quiet {
            return lines;
        }
        proof {
            reveal_strlit("[sub2api-image] ");
            reveal_strlit("[sub2api-image] usage: total=");
            reveal_strlit("usage: total=");
            reveal_strlit("[sub2api-image] response: data.len=");
            reveal_strlit("response: data.len=");
        }
        if let Some(u) = &r.usage {
            let mut v: Vec<char> = Vec::new();
            push_str(&mut v, "[sub2api-image] usage: total=");
            push_decimal(&mut v, u.total_tokens);
            push_str(&mut v, " in=");
            push_decimal(&mut v, u.input_tokens);
            push_str(&mut v, " out=");
            push_decimal(&mut v, u.output_tokens);
            assert(v@ =~= summary_lines(*r)[0]);
            lines.push(string_of(&v));
        }
        let n = r.data.len();
        let mut b64_len: usize = 0;
        let mut has_url = false;
        let mut has_revised = false;
        if n > 0 {
            let first = &r.data[0];
            if let Some(b) = &first.b64_json {
                b64_len = b.as_str().len();
            }
            has_url = first.url.is_some();
            has_revised = first.revised_prompt.is_some();
        }
        let mut v: Vec<char> = Vec::new();
        push_str(&mut v, "[sub2api-image] response: data.len=");
        push_decimal(&mut v, n as u64);
        push_str(&mut v, " b64_json.len=");
        push_decimal(&mut v, b64_len as u64);
        push_str(&mut v, " url=");
        push_str(&mut v, if has_url { "Some" } else { "None" });
        push_str(&mut v, " revised_prompt=");
        push_str(&mut v, if has_revised { "Some" } else { "None" });
        proof {
            reveal_strlit("Some");
            reveal_strlit("None");
        }
        assert(v@ =~= response_line(*r));
        lines.push(string_of(&v));
        assert(lines@.map_values(|l: String| l@) =~= summary_lines(*r));
        lines
    }
}

/// The tenths shown are the nearest to the exact value: they differ from
/// `10 * n / unit` by at most half a tenth.
pub proof fn law_tenths_are_nearest(n: nat, unit: nat)
    requires
        unit > 0,
    ensures
        2 * (tenths(n, unit) * unit - 10 * n) <= unit,
        2 * (10 * n - tenths(n, unit) * unit) <= unit,
{
    let q = (10 * n) / unit;
    let r = (10 * n) % unit;
    assert(q * unit + r == 10 * n && 0 <= r < unit) by (nonlinear_arith)
        requires
            unit > 0,
            q == (10 * n) / unit,
            r == (10 * n) % unit,
    ;
    if tenths(n, unit) == q + 1 {
        assert((q + 1) * unit == q * unit + unit) by (nonlinear_arith);
    }
}

} // verus!
