//! Character-level text utilities shared by both tools: searching, trimming,
//! ASCII case folding, decimal numbers and slash-separated paths.
//!
//! Strings are modelled by their `Seq<char>` view.  Every pattern searched for in
//! this crate is ASCII, so positions counted in characters and positions counted
//! in UTF-8 bytes single out the same matches.
use vstd::prelude::*;
use vstd::std_specs::iter::IteratorSpec;
use vstd::utf8::{encode_scalar, encode_utf8};

verus! {

broadcast use vstd::string::group_string_axioms;

// ---------------------------------------------------------------------------
// Character classes
// ---------------------------------------------------------------------------
/// `char::is_whitespace`: the Unicode `White_Space` property.
pub open spec fn is_ws(c: char) -> bool {
    ||| ('\t' <= c && c <= '\r')
    ||| c == ' '
    ||| c == '\u{85}'
    ||| c == '\u{A0}'
    ||| c == '\u{1680}'
    ||| ('\u{2000}' <= c && c <= '\u{200A}')
    ||| c == '\u{2028}'
    ||| c == '\u{2029}'
    ||| c == '\u{202F}'
    ||| c == '\u{205F}'
    ||| c == '\u{3000}'
}

/// `u8::is_ascii_whitespace`, read on a character.
pub open spec fn is_ascii_ws(c: char) -> bool {
    c == ' ' || c == '\t' || c == '\n' || c == '\x0C' || c == '\r'
}

pub open spec fn is_lower_alpha(c: char) -> bool {
    'a' <= c && c <= 'z'
}

pub open spec fn is_digit(c: char) -> bool {
    '0' <= c && c <= '9'
}

pub open spec fn ascii_lower(c: char) -> char {
    if 'A' <= c && c <= 'Z' {
        ((c as u32) + 32) as char
    } else {
        c
    }
}

/// `str::to_ascii_lowercase` on the character view.
pub open spec fn lower(s: Seq<char>) -> Seq<char> {
    Seq::new(s.len(), |i: int| ascii_lower(s[i]))
}

pub fn is_whitespace(c: char) -> (r: bool)
    ensures
        r == is_ws(c),
{
    ('\t' <= c && c <= '\r') || c == ' ' || c == '\u{85}' || c == '\u{A0}' || c == '\u{1680}' || (
    '\u{2000}' <= c && c <= '\u{200A}') || c == '\u{2028}' || c == '\u{2029}' || c == '\u{202F}'
        || c == '\u{205F}' || c == '\u{3000}'
}

pub fn is_ascii_whitespace(c: char) -> (r: bool)
    ensures
        r == is_ascii_ws(c),
{
    c == ' ' || c == '\t' || c == '\n' || c == '\x0C' || c == '\r'
}

pub fn to_lower(c: char) -> (r: char)
    ensures
        r == ascii_lower(c),
{
    if 'A' <= c && c <= 'Z' {
        ((c as u8) + 32) as char
    } else {
        c
    }
}

pub fn lower_chars(s: &Vec<char>) -> (r: Vec<char>)
    ensures
        r@ == lower(s@),
{
    let mut r: Vec<char> = Vec::new();
    let mut i: usize = 0;
    while i < s.len()
        invariant
            i <= s.len(),
            r@ =~= lower(s@.take(i as int)),
        decreases s.len() - i,
    {
        r.push(to_lower(s[i]));
        i = i + 1;
        assert(r@ =~= lower(s@.take(i as int)));
    }
    assert(s@.take(s@.len() as int) =~= s@);
    r
}

// ---------------------------------------------------------------------------
// Conversions between `str`/`String` and character vectors
// ---------------------------------------------------------------------------
/// The characters of `s`, in order.
pub fn chars_of(s: &str) -> (out: Vec<char>)
    ensures
        out@ == s@,
{
    let mut it = s.chars();
    let mut out: Vec<char> = Vec::new();
    loop
        invariant
            it.remaining() == s@.skip(out@.len() as int),
            out@ == s@.take(out@.len() as int),
            out@.len() <= s@.len(),
        ensures
            out@ == s@,
        decreases s@.len() - out@.len(),
    {
        match it.next() {
            Some(c) => {
                out.push(c);
            },
            None => {
                assert(s@.skip(out@.len() as int).len() == 0);
                assert(out@ =~= s@);
                break ;
            },
        }
    }
    out
}

/// `String::from_iter` over `v`'s characters.  std documents that collecting an
/// iterator of `char` into a `String` concatenates the characters in order.
#[verifier::external_body]
pub(crate) fn string_of(v: &Vec<char>) -> (s: String)
    ensures
        s@ == v@,
{
    String::from_iter(v.iter())
}

/// Appends the characters of `s` to `v`.
pub fn push_str(v: &mut Vec<char>, s: &str)
    ensures
        final(v)@ == old(v)@ + s@,
{
    let mut t = chars_of(s);
    v.append(&mut t);
}

/// Appends the characters `s[lo..hi]` to `v`.
pub fn push_range(v: &mut Vec<char>, s: &Vec<char>, lo: usize, hi: usize)
    requires
        lo <= hi <= s@.len(),
    ensures
        final(v)@ == old(v)@ + s@.subrange(lo as int, hi as int),
{
    let mut i = lo;
    while i < hi
        invariant
            lo <= i <= hi <= s@.len(),
            v@ =~= old(v)@ + s@.subrange(lo as int, i as int),
        decreases hi - i,
    {
        v.push(s[i]);
        i = i + 1;
        assert(v@ =~= old(v)@ + s@.subrange(lo as int, i as int));
    }
}

/// The characters `s[lo..hi]` as a new vector.
pub fn slice_chars(s: &Vec<char>, lo: usize, hi: usize) -> (r: Vec<char>)
    requires
        lo <= hi <= s@.len(),
    ensures
        r@ == s@.subrange(lo as int, hi as int),
{
    let mut r: Vec<char> = Vec::new();
    push_range(&mut r, s, lo, hi);
    assert(r@ =~= s@.subrange(lo as int, hi as int));
    r
}

/// `s[lo..hi]` as a `String`.
pub fn string_range(s: &Vec<char>, lo: usize, hi: usize) -> (r: String)
    requires
        lo <= hi <= s@.len(),
    ensures
        r@ == s@.subrange(lo as int, hi as int),
{
    let v = slice_chars(s, lo, hi);
    string_of(&v)
}

/// Character-wise equality of two vectors.
pub fn chars_eq(a: &Vec<char>, b: &Vec<char>) -> (r: bool)
    ensures
        r == (a@ == b@),
{
    if a.len() != b.len() {
        return false;
    }
    let mut i: usize = 0;
    while i < a.len()
        invariant
            a@.len() == b@.len(),
            i <= a@.len(),
            forall|j: int| 0 <= j < i ==> a@[j] == b@[j],
        decreases a.len() - i,
    {
        if a[i] != b[i] {
            return false;
        }
        i = i + 1;
    }
    assert(a@ =~= b@);
    true
}

// ---------------------------------------------------------------------------
// Searching
// ---------------------------------------------------------------------------
/// `p` occurs in `s` starting at position `i`.
pub open spec fn occurs_at(s: Seq<char>, i: int, p: Seq<char>) -> bool {
    0 <= i && i + p.len() <= s.len() && s.subrange(i, i + p.len()) == p
}

/// The first position `i >= from` at which `p` occurs in `s` (`str::find` on
/// `s[from..]`, counted from the start of `s`).
pub open spec fn find_from(s: Seq<char>, p: Seq<char>, from: int) -> Option<int>
    decreases s.len() + 1 - from,
{
    if from < 0 || from > s.len() || from + p.len() > s.len() {
        None
    } else if occurs_at(s, from, p) {
        Some(from)
    } else {
        find_from(s, p, from + 1)
    }
}

/// The first position `i >= from` whose character satisfies `f`.
pub open spec fn find_char_from(s: Seq<char>, f: spec_fn(char) -> bool, from: int) -> Option<int>
    decreases s.len() - from,
{
    if from < 0 || from >= s.len() {
        None
    } else if f(s[from]) {
        Some(from)
    } else {
        find_char_from(s, f, from + 1)
    }
}

pub proof fn lemma_find_from(s: Seq<char>, p: Seq<char>, from: int)
    requires
        0 <= from,
    ensures
        match find_from(s, p, from) {
            Some(i) => from <= i && occurs_at(s, i, p) && i + p.len() <= s.len() && forall|j: int|
                from <= j < i ==> !occurs_at(s, j, p),
            None => forall|j: int| from <= j ==> !occurs_at(s, j, p),
        },
    decreases s.len() + 1 - from,
{
    if from > s.len() || from + p.len() > s.len() {
    } else if occurs_at(s, from, p) {
    } else {
        lemma_find_from(s, p, from + 1);
    }
}

/// A first occurrence found by other means is what `find_from` returns.
pub proof fn lemma_find_from_is(s: Seq<char>, p: Seq<char>, from: int, i: int)
    requires
        0 <= from <= i,
        occurs_at(s, i, p),
        forall|j: int| from <= j < i ==> !occurs_at(s, j, p),
    ensures
        find_from(s, p, from) == Some(i),
    decreases i - from,
{
    if from < i {
        lemma_find_from_is(s, p, from + 1, i);
    }
}

pub proof fn lemma_find_from_none(s: Seq<char>, p: Seq<char>, from: int)
    requires
        0 <= from,
        forall|j: int| from <= j ==> !occurs_at(s, j, p),
    ensures
        find_from(s, p, from) is None,
    decreases s.len() + 1 - from,
{
    if from <= s.len() && from + p.len() <= s.len() {
        lemma_find_from_none(s, p, from + 1);
    }
}

pub proof fn lemma_find_char_from(s: Seq<char>, f: spec_fn(char) -> bool, from: int)
    requires
        0 <= from,
    ensures
        match find_char_from(s, f, from) {
            Some(i) => from <= i < s.len() && f(s[i]) && forall|j: int| from <= j < i ==> !f(s[j]),
            None => forall|j: int| from <= j < s.len() ==> !f(#[trigger] s[j]),
        },
    decreases s.len() - from,
{
    if from < s.len() && !f(s[from]) {
        lemma_find_char_from(s, f, from + 1);
    }
}

/// Occurrences in a suffix `s[k..]` are occurrences in `s`, shifted by `k`.
pub proof fn lemma_occurs_suffix(s: Seq<char>, k: int, j: int, p: Seq<char>)
    requires
        0 <= k <= s.len(),
    ensures
        occurs_at(s.subrange(k, s.len() as int), j, p) <==> (0 <= j && occurs_at(s, k + j, p)),
{
    if 0 <= j && j + p.len() <= s.len() - k {
        assert(s.subrange(k + j, k + j + p.len()) =~= s.subrange(k, s.len() as int).subrange(
            j,
            j + p.len(),
        ));
    }
}

/// Searching the suffix `s[k..]` finds what searching `s` from `k` finds,
/// shifted by `k`.
pub proof fn lemma_find_suffix(s: Seq<char>, p: Seq<char>, k: int, from: int)
    requires
        0 <= k <= s.len(),
        0 <= from,
    ensures
        match find_from(s, p, k + from) {
            Some(i) => find_from(s.subrange(k, s.len() as int), p, from) == Some(i - k),
            None => find_from(s.subrange(k, s.len() as int), p, from) is None,
        },
{
    let r = s.subrange(k, s.len() as int);
    lemma_find_from(s, p, k + from);
    assert forall|j: int| #![trigger occurs_at(r, j, p)] 0 <= j implies occurs_at(r, j, p) == occurs_at(s, k + j, p) by {
        lemma_occurs_suffix(s, k, j, p);
    }
    match find_from(s, p, k + from) {
        Some(i) => {
            assert(occurs_at(r, i - k, p));
            assert forall|j: int| from <= j < i - k implies !occurs_at(r, j, p) by {
                assert(!occurs_at(s, k + j, p));
            }
            lemma_find_from_is(r, p, from, i - k);
        },
        None => {
            assert forall|j: int| from <= j implies !occurs_at(r, j, p) by {
                assert(!occurs_at(s, k + j, p));
            }
            lemma_find_from_none(r, p, from);
        },
    }
}

/// Whether `p` occurs in `s` at position `i`.
pub fn matches_at(s: &Vec<char>, i: usize, p: &Vec<char>) -> (r: bool)
    ensures
        r == occurs_at(s@, i as int, p@),
{
    if i > s.len() || p.len() > s.len() - i {
        return false;
    }
    let mut k: usize = 0;
    while k < p.len()
        invariant
            i + p.len() <= s.len(),
            k <= p@.len(),
            forall|j: int| 0 <= j < k ==> s@[i + j] == p@[j],
        decreases p.len() - k,
    {
        if s[i + k] != p[k] {
            assert(s@.subrange(i as int, i + p@.len())[k as int] != p@[k as int]);
            return false;
        }
        k = k + 1;
    }
    assert(s@.subrange(i as int, i + p@.len()) =~= p@);
    true
}

/// `find_from` in executable form.
pub fn find(s: &Vec<char>, p: &Vec<char>, from: usize) -> (r: Option<usize>)
    ensures
        match r {
            Some(i) => find_from(s@, p@, from as int) == Some(i as int),
            None => find_from(s@, p@, from as int) is None,
        },
{
    if p.len() > s.len() {
        proof {
            lemma_find_from_none(s@, p@, from as int);
        }
        return None;
    }
    let last = s.len() - p.len();
    let mut i = from;
    while i <= last
        invariant
            last == s@.len() - p@.len(),
            from <= i,
            find_from(s@, p@, from as int) == find_from(s@, p@, i as int),
        decreases last + 1 - i,
    {
        if matches_at(s, i, p) {
            return Some(i);
        }
        if i == last {
            assert(find_from(s@, p@, i as int + 1) is None);
            return None;
        }
        i = i + 1;
    }
    None
}

/// The first `j >= from` with `s[j] == c`.
pub fn find_char(s: &Vec<char>, c: char, from: usize) -> (r: Option<usize>)
    ensures
        match r {
            Some(i) => find_from(s@, seq![c], from as int) == Some(i as int),
            None => find_from(s@, seq![c], from as int) is None,
        },
{
    let mut p: Vec<char> = Vec::new();
    p.push(c);
    assert(p@ =~= seq![c]);
    find(s, &p, from)
}

// ---------------------------------------------------------------------------
// Trimming
// ---------------------------------------------------------------------------
pub open spec fn trim_start(s: Seq<char>) -> Seq<char>
    decreases s.len(),
{
    if s.len() > 0 && is_ws(s[0]) {
        trim_start(s.drop_first())
    } else {
        s
    }
}

pub open spec fn trim_end(s: Seq<char>) -> Seq<char>
    decreases s.len(),
{
    if s.len() > 0 && is_ws(s.last()) {
        trim_end(s.drop_last())
    } else {
        s
    }
}

/// `str::trim`: leading and trailing Unicode whitespace removed.
pub open spec fn trim(s: Seq<char>) -> Seq<char> {
    trim_end(trim_start(s))
}

/// Bounds `(a, b)` with `s[a..b] == trim(s[lo..hi])`.
pub fn trim_bounds(s: &Vec<char>, lo: usize, hi: usize) -> (r: (usize, usize))
    requires
        lo <= hi <= s@.len(),
    ensures
        lo <= r.0 <= r.1 <= hi,
        s@.subrange(r.0 as int, r.1 as int) == trim(s@.subrange(lo as int, hi as int)),
{
    let mut a = lo;
    while a < hi && is_whitespace(s[a])
        invariant
            lo <= a <= hi <= s@.len(),
            trim_start(s@.subrange(lo as int, hi as int)) == trim_start(
                s@.subrange(a as int, hi as int),
            ),
        decreases hi - a,
    {
        assert(s@.subrange(a as int, hi as int).drop_first() =~= s@.subrange(
            a + 1,
            hi as int,
        ));
        a = a + 1;
    }
    let mut b = hi;
    while b > a && is_whitespace(s[b - 1])
        invariant
            lo <= a <= b <= hi <= s@.len(),
            trim_end(s@.subrange(a as int, hi as int)) == trim_end(s@.subrange(a as int, b as int)),
        decreases b - a,
    {
        assert(s@.subrange(a as int, b as int).drop_last() =~= s@.subrange(a as int, b - 1));
        b = b - 1;
    }
    (a, b)
}

/// `str::trim` as a new `String`.
pub fn trim_string(s: &str) -> (r: String)
    ensures
        r@ == trim(s@),
{
    let v = chars_of(s);
    let (a, b) = trim_bounds(&v, 0, v.len());
    assert(v@.subrange(0, v@.len() as int) =~= v@);
    string_range(&v, a, b)
}

// ---------------------------------------------------------------------------
// Decimal numbers
// ---------------------------------------------------------------------------
pub open spec fn digit_char(d: nat) -> char {
    (('0' as u32) + d) as char
}

pub open spec fn digit_value(c: char) -> nat {
    ((c as u32) - ('0' as u32)) as nat
}

/// The decimal notation of `n`, without sign or leading zeros (`to_string`).
pub open spec fn decimal(n: nat) -> Seq<char>
    decreases n,
{
    if n < 10 {
        seq![digit_char(n)]
    } else {
        decimal(n / 10).push(digit_char(n % 10))
    }
}

fn digit(d: u64) -> (c: char)
    requires
        d < 10,
    ensures
        c == digit_char(d as nat),
{
    ((d as u8) + 48) as char
}

/// Appends the decimal notation of `n` to `out`.
pub fn push_decimal(out: &mut Vec<char>, n: u64)
    ensures
        final(out)@ == old(out)@ + decimal(n as nat),
    decreases n,
{
    if n >= 10 {
        push_decimal(out, n / 10);
    }
    out.push(digit(n % 10));
    assert(old(out)@ + decimal(n as nat) =~= (if n >= 10 {
        old(out)@ + decimal((n / 10) as nat)
    } else {
        old(out)@
    }).push(digit_char((n % 10) as nat)));
}

/// `n.to_string()` for an unsigned integer.
pub fn decimal_string(n: u64) -> (s: String)
    ensures
        s@ == decimal(n as nat),
{
    let mut v: Vec<char> = Vec::new();
    push_decimal(&mut v, n);
    assert(v@ =~= decimal(n as nat));
    string_of(&v)
}

pub open spec fn all_digits(s: Seq<char>) -> bool {
    forall|i: int| 0 <= i < s.len() ==> is_digit(#[trigger] s[i])
}

/// The value of a string of decimal digits.
pub open spec fn digits_value(s: Seq<char>) -> nat
    decreases s.len(),
{
    if s.len() == 0 {
        0
    } else {
        digits_value(s.drop_last()) * 10 + digit_value(s.last())
    }
}

/// `str::parse` for an unsigned integer type whose largest value is `max`: an
/// optional `+`, then at least one ASCII digit, with a value that fits.
pub open spec fn parse_unsigned(s: Seq<char>, max: nat) -> Option<nat> {
    let body = if s.len() > 0 && s[0] == '+' {
        s.drop_first()
    } else {
        s
    };
    if body.len() > 0 && all_digits(body) && digits_value(body) <= max {
        Some(digits_value(body))
    } else {
        None
    }
}

proof fn lemma_digits_value_prefix(s: Seq<char>, k: int)
    requires
        0 <= k <= s.len(),
        all_digits(s),
    ensures
        digits_value(s.take(k)) <= digits_value(s),
    decreases s.len(),
{
    if k < s.len() {
        assert(s.drop_last().take(k) =~= s.take(k));
        lemma_digits_value_prefix(s.drop_last(), k);
    } else {
        assert(s.take(k) =~= s);
    }
}

/// A digit character is a digit, not whitespace, and reads back as itself.
pub proof fn lemma_digit_char(d: nat)
    requires
        d < 10,
    ensures
        is_digit(digit_char(d)),
        digit_value(digit_char(d)) == d,
        !is_ws(digit_char(d)),
        digit_char(d) != '+',
{
    let c = digit_char(d);
    assert(c as u32 == 48 + d);
}

/// The decimal notation of `n` is a non-empty string of digits whose value
/// is `n`, and `str::parse` reads it back.
pub proof fn lemma_decimal_parses(n: nat, max: nat)
    requires
        n <= max,
    ensures
        decimal(n).len() > 0,
        all_digits(decimal(n)),
        digits_value(decimal(n)) == n,
        !is_ws(decimal(n)[0]),
        !is_ws(decimal(n).last()),
        trim(decimal(n)) == decimal(n),
        parse_unsigned(decimal(n), max) == Some(n),
    decreases n,
{
    let s = decimal(n);
    if n < 10 {
        lemma_digit_char(n);
        assert(s.drop_last() =~= Seq::<char>::empty());
        assert(digits_value(s) == digits_value(s.drop_last()) * 10 + digit_value(s.last()));
    } else {
        lemma_decimal_parses(n / 10, max);
        lemma_digit_char(n % 10);
        let p = decimal(n / 10);
        assert(s == p.push(digit_char(n % 10)));
        assert(s.drop_last() =~= p);
        assert(s.last() == digit_char(n % 10));
        assert(digits_value(s) == digits_value(p) * 10 + digit_value(digit_char(n % 10)));
        assert((n / 10) * 10 + n % 10 == n) by (nonlinear_arith);
        assert(s[0] == p[0]);
        assert forall|i: int| 0 <= i < s.len() implies is_digit(#[trigger] s[i]) by {
            if i < p.len() {
                assert(s[i] == p[i]);
            }
        }
    }
    assert(s[0] != '+') by {
        lemma_decimal_first(n);
    }
    assert(trim_start(s) == s);
    assert(trim_end(s) == s);
}

proof fn lemma_decimal_first(n: nat)
    ensures
        decimal(n).len() > 0,
        is_digit(decimal(n)[0]),
    decreases n,
{
    if n < 10 {
        lemma_digit_char(n);
    } else {
        lemma_decimal_first(n / 10);
        lemma_digit_char(n % 10);
    }
}

/// Parses `s` as an unsigned number no larger than `max`, as `parse_unsigned`.
pub fn parse_unsigned_chars(s: &Vec<char>, max: u64) -> (r: Option<u64>)
    ensures
        match r {
            Some(n) => parse_unsigned(s@, max as nat) == Some(n as nat),
            None => parse_unsigned(s@, max as nat) is None,
        },
{
    let start: usize = if s.len() > 0 && s[0] == '+' {
        1
    } else {
        0
    };
    let ghost body = if s@.len() > 0 && s@[0] == '+' {
        s@.drop_first()
    } else {
        s@
    };
    assert(body =~= s@.subrange(start as int, s@.len() as int));
    if start >= s.len() {
        return None;
    }
    let mut acc: u64 = 0;
    let mut i = start;
    while i < s.len()
        invariant
            start <= i <= s@.len(),
            body == s@.subrange(start as int, s@.len() as int),
            body == (if s@.len() > 0 && s@[0] == '+' {
                s@.drop_first()
            } else {
                s@
            }),
            all_digits(s@.subrange(start as int, i as int)),
            acc as nat == digits_value(s@.subrange(start as int, i as int)),
            acc <= max,
        decreases s.len() - i,
    {
        let c = s[i];
        if !('0' <= c && c <= '9') {
            assert(body[i - start] == c);
            assert(!is_digit(body[i - start]));
            assert(!all_digits(body));
            return None;
        }
        let d = (c as u32 - '0' as u32) as u64;
        assert(s@.subrange(start as int, i + 1).drop_last() =~= s@.subrange(start as int, i as int));
        if d > max || acc > (max - d) / 10 {
            proof {
                let pre = s@.subrange(start as int, i + 1);
                assert(digits_value(pre) == acc * 10 + d);
                if d <= max {
                    assert(acc * 10 + d > max) by (nonlinear_arith)
                        requires
                            acc > (max - d) / 10,
                            d <= max,
                    ;
                }
                assert(digits_value(pre) > max);
                if all_digits(body) {
                    assert(body.take(i + 1 - start) =~= pre);
                    lemma_digits_value_prefix(body, i + 1 - start);
                    assert(digits_value(body) > max);
                }
            }
            return None;
        }
        assert(acc * 10 + d <= max) by (nonlinear_arith)
            requires
                acc <= (max - d) / 10,
                d <= max,
        ;
        acc = acc * 10 + d;
        i = i + 1;
    }
    Some(acc)
}

/// Parses `s` as an unsigned number no larger than `max`, as `parse_unsigned`.
pub fn parse_unsigned_str(s: &str, max: u64) -> (r: Option<u64>)
    ensures
        match r {
            Some(n) => parse_unsigned(s@, max as nat) == Some(n as nat),
            None => parse_unsigned(s@, max as nat) is None,
        },
{
    let v = chars_of(s);
    parse_unsigned_chars(&v, max)
}

// ---------------------------------------------------------------------------
// Slash-separated paths
// ---------------------------------------------------------------------------
/// `Path::join` on Unix: an absolute `b` replaces `a`; otherwise `b` is appended,
/// with a `/` in between unless `a` is empty or already ends in `/`.
pub open spec fn join(a: Seq<char>, b: Seq<char>) -> Seq<char> {
    if b.len() > 0 && b[0] == '/' {
        b
    } else if a.len() == 0 || a.last() == '/' {
        a + b
    } else {
        a + seq!['/'] + b
    }
}

/// `a.join(b)` for Unix paths.
pub fn path_join(a: &str, b: &str) -> (r: String)
    ensures
        r@ == join(a@, b@),
{
    let av = chars_of(a);
    let bv = chars_of(b);
    let mut out: Vec<char> = Vec::new();
    if bv.len() > 0 && bv[0] == '/' {
        push_str(&mut out, b);
    } else {
        push_str(&mut out, a);
        if !(av.len() == 0 || av[av.len() - 1] == '/') {
            out.push('/');
        }
        push_str(&mut out, b);
    }
    assert(out@ =~= join(a@, b@));
    string_of(&out)
}

/// The components of a Unix path: the non-empty pieces between `/`, leaving out
/// `.` pieces.
pub open spec fn components(p: Seq<char>) -> Seq<Seq<char>>
    decreases p.len(),
{
    match find_char_from(p, |c: char| c == '/', 0) {
        None => if p.len() == 0 || p == seq!['.'] {
            Seq::empty()
        } else {
            seq![p]
        },
        Some(k) => {
            if k < 0 || k >= p.len() {
                Seq::empty()
            } else {
                let head = p.subrange(0, k);
                let tail = components(p.subrange(k + 1, p.len() as int));
                if head.len() == 0 || head == seq!['.'] {
                    tail
                } else {
                    seq![head] + tail
                }
            }
        },
    }
}

/// `Path::file_name`: the last component, unless the path has none or it is
/// `..`.
pub open spec fn file_name(p: Seq<char>) -> Option<Seq<char>> {
    let c = components(p);
    if c.len() == 0 || c.last() == seq!['.', '.'] {
        None
    } else {
        Some(c.last())
    }
}

/// The proper pieces of `v` from position `lo` on, as index ranges, with the
/// pieces already collected before `lo`.
pub fn components_of(v: &Vec<char>) -> (r: Vec<(usize, usize)>)
    ensures
        r@.len() == components(v@).len(),
        forall|i: int|
            0 <= i < r@.len() ==> {
                &&& (#[trigger] r@[i]).0 <= r@[i].1 <= v@.len()
                &&& v@.subrange(r@[i].0 as int, r@[i].1 as int) == components(v@)[i]
            },
{
    let mut r: Vec<(usize, usize)> = Vec::new();
    let ghost mut acc: Seq<Seq<char>> = Seq::empty();
    let mut lo: usize = 0;
    assert(v@.subrange(0, v@.len() as int) =~= v@);
    loop
        invariant
            lo <= v@.len(),
            components(v@) == acc + components(v@.subrange(lo as int, v@.len() as int)),
            r@.len() == acc.len(),
            forall|i: int|
                0 <= i < r@.len() ==> {
                    &&& (#[trigger] r@[i]).0 <= r@[i].1 <= v@.len()
                    &&& v@.subrange(r@[i].0 as int, r@[i].1 as int) == acc[i]
                },
        decreases v.len() - lo,
    {
        let ghost rest = v@.subrange(lo as int, v@.len() as int);
        let mut k = lo;
        while k < v.len() && v[k] != '/'
            invariant
                lo <= k <= v@.len(),
                rest == v@.subrange(lo as int, v@.len() as int),
                find_char_from(rest, |c: char| c == '/', 0) == find_char_from(
                    rest,
                    |c: char| c == '/',
                    (k - lo) as int,
                ),
            decreases v.len() - k,
        {
            k = k + 1;
        }
        let proper = k > lo && !(k == lo + 1 && v[lo] == '.');
        assert(proper == !(v@.subrange(lo as int, k as int).len() == 0 || v@.subrange(
            lo as int,
            k as int,
        ) =~= seq!['.']));
        if k == v.len() {
            assert(find_char_from(rest, |c: char| c == '/', (k - lo) as int) is None);
            assert(rest =~= v@.subrange(lo as int, k as int));
            if proper {
                r.push((lo, k));
                proof {
                    acc = acc.push(rest);
                }
                assert(components(v@) =~= acc);
            } else {
                assert(components(v@) =~= acc);
            }
            return r;
        }
        assert(find_char_from(rest, |c: char| c == '/', (k - lo) as int) == Some((k - lo) as int));
        let ghost head = v@.subrange(lo as int, k as int);
        assert(rest.subrange(0, (k - lo) as int) =~= head);
        assert(rest.subrange((k - lo) + 1, rest.len() as int) =~= v@.subrange(
            k + 1,
            v@.len() as int,
        ));
        if proper {
            r.push((lo, k));
            proof {
                acc = acc.push(head);
            }
            assert(components(v@) =~= acc + components(v@.subrange(k + 1, v@.len() as int)));
        }
        lo = k + 1;
    }
}

/// `Path::file_name` for a Unix path.
pub fn file_name_of(p: &str) -> (r: Option<String>)
    ensures
        match r {
            Some(n) => file_name(p@) == Some(n@),
            None => file_name(p@) is None,
        },
{
    let v = chars_of(p);
    let cs = components_of(&v);
    if cs.len() == 0 {
        return None;
    }
    let (a, b) = cs[cs.len() - 1];
    let last = slice_chars(&v, a, b);
    if last.len() == 2 && last[0] == '.' && last[1] == '.' {
        assert(last@ =~= seq!['.', '.']);
        return None;
    }
    assert(last@ != seq!['.', '.']) by {
        if last@ == seq!['.', '.'] {
            assert(last@[0] == '.' && last@[1] == '.');
        }
    }
    Some(string_of(&last))
}

/// `cs` joined by `/`.
pub open spec fn joined(cs: Seq<Seq<char>>) -> Seq<char>
    decreases cs.len(),
{
    if cs.len() == 0 {
        Seq::empty()
    } else if cs.len() == 1 {
        cs[0]
    } else {
        joined(cs.drop_last()) + seq!['/'] + cs.last()
    }
}

/// The directory made of the first components `cs`, rooted when `absolute`.
pub open spec fn dir_of(absolute: bool, cs: Seq<Seq<char>>) -> Seq<char> {
    if absolute {
        seq!['/'] + joined(cs)
    } else {
        joined(cs)
    }
}

/// `p` and the directories above it, nearest first: `p` itself, then the path
/// made of all but the last component, and so on up to the root (or the empty
/// relative path).  Paths are compared by components, so the ancestors are
/// written in normal form: one `/` between components, no `.` pieces.
pub open spec fn ancestors(p: Seq<char>) -> Seq<Seq<char>> {
    let c = components(p);
    let absolute = p.len() > 0 && p[0] == '/';
    seq![p] + Seq::new(c.len(), |k: int| dir_of(absolute, c.take(c.len() - 1 - k)))
}

/// The ancestors of `p`, as `ancestors` lists them.
pub fn ancestors_of(p: &str) -> (r: Vec<String>)
    ensures
        r@.len() == ancestors(p@).len(),
        forall|i: int| 0 <= i < r@.len() ==> (#[trigger] r@[i])@ == ancestors(p@)[i],
{
    let v = chars_of(p);
    let cs = components_of(&v);
    let absolute = v.len() > 0 && v[0] == '/';
    let ghost c = components(p@);
    let mut r: Vec<String> = Vec::new();
    r.push(p.to_string());
    let n = cs.len();
    let mut k: usize = 0;
    while k < n
        invariant
            v@ == p@,
            c == components(v@),
            n == cs@.len() == c.len(),
            absolute == (p@.len() > 0 && p@[0] == '/'),
            forall|i: int|
                0 <= i < cs@.len() ==> {
                    &&& (#[trigger] cs@[i]).0 <= cs@[i].1 <= v@.len()
                    &&& v@.subrange(cs@[i].0 as int, cs@[i].1 as int) == c[i]
                },
            k <= n,
            r@.len() == k + 1,
            r@[0]@ == p@,
            forall|i: int|
                1 <= i <= k ==> (#[trigger] r@[i])@ == dir_of(absolute, c.take(c.len() - i)),
        decreases n - k,
    {
        // the directory of the first n - 1 - k components
        let m = n - 1 - k;
        let mut d: Vec<char> = Vec::new();
        if absolute {
            d.push('/');
        }
        let ghost base = d@;
        let mut j: usize = 0;
        while j < m
            invariant
                m < n,
                n == cs@.len() == c.len(),
                forall|i: int|
                    0 <= i < cs@.len() ==> {
                        &&& (#[trigger] cs@[i]).0 <= cs@[i].1 <= v@.len()
                        &&& v@.subrange(cs@[i].0 as int, cs@[i].1 as int) == c[i]
                    },
                j <= m,
                d@ == base + joined(c.take(j as int)),
            decreases m - j,
        {
            if j > 0 {
                d.push('/');
            }
            let (a, b) = cs[j];
            push_range(&mut d, &v, a, b);
            proof {
                let t = c.take(j + 1);
                assert(t.drop_last() =~= c.take(j as int));
                if j == 0 {
                    assert(joined(c.take(0)) =~= Seq::<char>::empty());
                    assert(joined(t) == t[0]);
                }
            }
            assert(d@ =~= base + joined(c.take(j + 1)));
            j = j + 1;
        }
        assert(d@ =~= dir_of(absolute, c.take(c.len() - (k + 1))));
        r.push(string_of(&d));
        k = k + 1;
    }
    assert(r@.len() == ancestors(p@).len());
    assert forall|i: int| 0 <= i < r@.len() implies (#[trigger] r@[i])@ == ancestors(p@)[i] by {
        if i > 0 {
            assert(ancestors(p@)[i] == dir_of(absolute, c.take(c.len() - 1 - (i - 1))));
        }
    }
    r
}

// ---------------------------------------------------------------------------
// ASCII bytes
// ---------------------------------------------------------------------------
/// The bytes of an ASCII text: each character's code, truncated to a byte.
pub open spec fn ascii_bytes(s: Seq<char>) -> Seq<u8> {
    Seq::new(s.len(), |i: int| (s[i] as u32) as u8)
}

/// `s`'s characters as bytes, as `ascii_bytes`.
pub fn ascii_bytes_of(s: &str) -> (r: Vec<u8>)
    ensures
        r@ == ascii_bytes(s@),
{
    let v = chars_of(s);
    let mut r: Vec<u8> = Vec::new();
    let mut i: usize = 0;
    while i < v.len()
        invariant
            v@ == s@,
            i <= v@.len(),
            r@ =~= ascii_bytes(v@.take(i as int)),
        decreases v.len() - i,
    {
        r.push((v[i] as u32) as u8);
        i = i + 1;
        assert(r@ =~= ascii_bytes(v@.take(i as int)));
    }
    assert(v@.take(v@.len() as int) =~= v@);
    r
}

pub open spec fn byte_prefix(s: Seq<u8>, p: Seq<u8>) -> bool {
    p.len() <= s.len() && s.take(p.len() as int) == p
}

/// Whether `s` starts with `p`.
pub fn starts_with_bytes(s: &[u8], p: &Vec<u8>) -> (r: bool)
    ensures
        r == byte_prefix(s@, p@),
{
    if p.len() > s.len() {
        return false;
    }
    let mut i: usize = 0;
    while i < p.len()
        invariant
            p@.len() <= s@.len(),
            i <= p@.len(),
            forall|j: int| 0 <= j < i ==> s@[j] == p@[j],
        decreases p.len() - i,
    {
        if s[i] != p[i] {
            assert(s@.take(p@.len() as int)[i as int] != p@[i as int]);
            return false;
        }
        i = i + 1;
    }
    assert(s@.take(p@.len() as int) =~= p@);
    true
}

// ---------------------------------------------------------------------------
// Ordering of texts
// ---------------------------------------------------------------------------
/// Lexicographic order by code point, which is also the byte order of the
/// UTF-8 encodings (the order of `OsStr` names on Unix).
pub open spec fn seq_lt(a: Seq<char>, b: Seq<char>) -> bool
    decreases a.len(),
{
    if a.len() == 0 {
        b.len() > 0
    } else if b.len() == 0 {
        false
    } else if a[0] != b[0] {
        a[0] < b[0]
    } else {
        seq_lt(a.drop_first(), b.drop_first())
    }
}

pub proof fn lemma_lt_irreflexive(a: Seq<char>)
    ensures
        !seq_lt(a, a),
    decreases a.len(),
{
    if a.len() > 0 {
        lemma_lt_irreflexive(a.drop_first());
    }
}

pub proof fn lemma_lt_asymmetric(a: Seq<char>, b: Seq<char>)
    requires
        seq_lt(a, b),
    ensures
        !seq_lt(b, a),
    decreases a.len(),
{
    if a.len() > 0 && b.len() > 0 && a[0] == b[0] {
        lemma_lt_asymmetric(a.drop_first(), b.drop_first());
    }
}

pub proof fn lemma_lt_transitive(a: Seq<char>, b: Seq<char>, c: Seq<char>)
    requires
        seq_lt(a, b),
        seq_lt(b, c),
    ensures
        seq_lt(a, c),
    decreases a.len(),
{
    if a.len() > 0 && b.len() > 0 && c.len() > 0 && a[0] == b[0] && b[0] == c[0] {
        lemma_lt_transitive(a.drop_first(), b.drop_first(), c.drop_first());
    }
}

pub proof fn lemma_lt_total(a: Seq<char>, b: Seq<char>)
    requires
        a != b,
    ensures
        seq_lt(a, b) || seq_lt(b, a),
    decreases a.len(),
{
    if a.len() > 0 && b.len() > 0 && a[0] == b[0] {
        if a.drop_first() == b.drop_first() {
            assert(a =~= seq![a[0]] + a.drop_first());
            assert(b =~= seq![b[0]] + b.drop_first());
        }
        lemma_lt_total(a.drop_first(), b.drop_first());
    } else if a.len() == 0 && b.len() == 0 {
        assert(a =~= b);
    }
}

/// Whether `a` sorts before `b`.
pub fn chars_less(a: &Vec<char>, b: &Vec<char>) -> (r: bool)
    ensures
        r == seq_lt(a@, b@),
{
    let mut i: usize = 0;
    assert(a@.skip(0) =~= a@);
    assert(b@.skip(0) =~= b@);
    while i < a.len() && i < b.len() && a[i] == b[i]
        invariant
            i <= a@.len(),
            i <= b@.len(),
            seq_lt(a@, b@) == seq_lt(a@.skip(i as int), b@.skip(i as int)),
        decreases a.len() - i,
    {
        assert(a@.skip(i as int).drop_first() =~= a@.skip(i + 1));
        assert(b@.skip(i as int).drop_first() =~= b@.skip(i + 1));
        i = i + 1;
    }
    if i == a.len() {
        i < b.len()
    } else if i == b.len() {
        false
    } else {
        a[i] < b[i]
    }
}

// ---------------------------------------------------------------------------
// UTF-8 lengths
// ---------------------------------------------------------------------------
/// The number of bytes of the UTF-8 encoding of `c`.
pub open spec fn char_width(c: char) -> nat {
    encode_scalar(c as u32).len()
}

/// The number of bytes of the UTF-8 encoding of `s`.
pub open spec fn utf8_len(s: Seq<char>) -> nat
    decreases s.len(),
{
    if s.len() == 0 {
        0
    } else {
        char_width(s[0]) + utf8_len(s.drop_first())
    }
}

/// `utf8_len` is the length of vstd's UTF-8 encoding.
pub proof fn lemma_utf8_len(s: Seq<char>)
    ensures
        utf8_len(s) == encode_utf8(s).len(),
    decreases s.len(),
{
    if s.len() > 0 {
        lemma_utf8_len(s.drop_first());
    }
}

/// How many leading characters of `s` fit in `max` bytes of UTF-8.
pub open spec fn fit_count(s: Seq<char>, max: int) -> nat
    decreases s.len(),
{
    if s.len() == 0 {
        0
    } else if char_width(s[0]) <= max {
        1 + fit_count(s.drop_first(), max - char_width(s[0]))
    } else {
        0
    }
}

/// Everything fits exactly when the whole encoding is no longer than `max`.
pub proof fn lemma_fit_all(s: Seq<char>, max: int)
    requires
        0 <= max,
    ensures
        fit_count(s, max) <= s.len(),
        fit_count(s, max) == s.len() <==> utf8_len(s) <= max,
    decreases s.len(),
{
    if s.len() > 0 {
        let w = char_width(s[0]);
        assert(utf8_len(s) == w + utf8_len(s.drop_first()));
        if w <= max {
            lemma_fit_all(s.drop_first(), max - w);
            assert(fit_count(s, max) == 1 + fit_count(s.drop_first(), max - w));
        } else {
            assert(fit_count(s, max) == 0);
        }
    }
}

/// The characters that fit are the longest prefix within `max` bytes: they
/// fit, and one more would not.
pub proof fn lemma_fit_prefix(s: Seq<char>, max: int)
    requires
        0 <= max,
    ensures
        fit_count(s, max) <= s.len(),
        utf8_len(s.take(fit_count(s, max) as int)) <= max,
        fit_count(s, max) < s.len() ==> utf8_len(s.take(fit_count(s, max) + 1int)) > max,
    decreases s.len(),
{
    if s.len() > 0 {
        let w = char_width(s[0]);
        let k = fit_count(s, max);
        if w <= max {
            let t = s.drop_first();
            lemma_fit_prefix(t, max - w);
            let k1 = fit_count(t, max - w);
            assert(k == 1 + k1);
            assert(s.take(k as int).drop_first() =~= t.take(k1 as int));
            assert(utf8_len(s.take(k as int)) == w + utf8_len(t.take(k1 as int)));
            if k < s.len() {
                assert(s.take(k + 1int).drop_first() =~= t.take(k1 + 1int));
                assert(utf8_len(s.take(k + 1int)) == w + utf8_len(t.take(k1 + 1int)));
            }
        } else {
            assert(k == 0);
            assert(s.take(0) =~= Seq::<char>::empty());
            assert(s.take(1).drop_first() =~= Seq::<char>::empty());
            assert(utf8_len(s.take(1)) == w + utf8_len(s.take(1).drop_first()));
        }
    }
}

/// `char::len_utf8`.
pub fn width_of(c: char) -> (w: usize)
    ensures
        w == char_width(c),
        1 <= w <= 4,
{
    proof {
        vstd::utf8::char_is_scalar(c);
    }
    let u = c as u32;
    if u < 0x80 {
        1
    } else if u < 0x800 {
        2
    } else if u < 0x10000 {
        3
    } else {
        4
    }
}

/// The number of leading characters of `s` whose UTF-8 encoding fits in
/// `max` bytes.
pub fn fit_prefix(s: &Vec<char>, max: usize) -> (k: usize)
    ensures
        k == fit_count(s@, max as int),
{
    let mut k: usize = 0;
    let mut used: usize = 0;
    assert(s@.skip(0) =~= s@);
    while k < s.len()
        invariant
            k <= s@.len(),
            used <= max,
            fit_count(s@, max as int) == k + fit_count(s@.skip(k as int), max - used),
        ensures
            fit_count(s@.skip(k as int), max - used) == 0,
        decreases s@.len() - k,
    {
        let w = width_of(s[k]);
        assert(s@.skip(k as int)[0] == s@[k as int]);
        if w > max - used {
            break;
        }
        assert(s@.skip(k as int).drop_first() =~= s@.skip(k + 1));
        used = used + w;
        k = k + 1;
    }
    k
}

} // verus!
