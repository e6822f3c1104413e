//! Playground slug validation, shared by the HTTP routes and the CLI.
use crate::text::{chars_of, is_digit, is_lower_alpha};
use vstd::prelude::*;

verus! {

/// A character allowed after the first one: lowercase ASCII letter, digit or `-`.
pub open spec fn slug_char(c: char) -> bool {
    is_lower_alpha(c) || is_digit(c) || c == '-'
}

/// `[a-z0-9][a-z0-9-]{0,63}`.
pub open spec fn valid_slug(s: Seq<char>) -> bool {
    &&& 1 <= s.len() <= 64
    &&& (is_lower_alpha(s[0]) || is_digit(s[0]))
    &&& forall|i: int| 1 <= i < s.len() ==> slug_char(#[trigger] s[i])
}

/// Whether `s` is a playground slug: one to 64 characters, the first a
/// lowercase ASCII letter or digit, the rest lowercase ASCII letters, digits or
/// hyphens.  Uppercase, `_`, `.`, `/` and every other character are refused.
pub fn is_valid_slug(s: &str) -> (r: bool)
    ensures
        r == valid_slug(s@),
{
    let v = chars_of(s);
    if v.len() == 0 || v.len() > 64 {
        return false;
    }
    let first = v[0];
    if !(('a' <= first && first <= 'z') || ('0' <= first && first <= '9')) {
        return false;
    }
    let mut i: usize = 1;
    while i < v.len()
        invariant
            v@ == s@,
            1 <= i <= v@.len(),
            forall|j: int| 1 <= j < i ==> slug_char(#[trigger] v@[j]),
        decreases v.len() - i,
    {
        let c = v[i];
        if !(('a' <= c && c <= 'z') || ('0' <= c && c <= '9') || c == '-') {
            assert(!slug_char(v@[i as int]));
            return false;
        }
        i = i + 1;
    }
    true
}

/// The slug rule spelled out on characters: a slug is exactly a string of 1
/// to 64 characters whose first is `a`-`z` or `0`-`9` and whose others are
/// `a`-`z`, `0`-`9` or `-`, however many hyphens there are and wherever
/// they stand after the first character.
pub proof fn law_slug_shape(s: Seq<char>)
    ensures
        valid_slug(s) <==> {
            &&& 1 <= s.len() <= 64
            &&& (('a' <= s[0] && s[0] <= 'z') || ('0' <= s[0] && s[0] <= '9'))
            &&& forall|i: int|
                1 <= i < s.len() ==> {
                    let c = #[trigger] s[i];
                    ('a' <= c && c <= 'z') || ('0' <= c && c <= '9') || c == '-'
                }
        },
{
}

} // verus!
