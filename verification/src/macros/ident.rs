//! Identifier sanitizing for the names the macros generate.

use vstd::prelude::*;
use crate::text::push_char;

verus! {

/// An ASCII letter or digit.
pub open spec fn ascii_alnum(c: char) -> bool {
    ('a' <= c && c <= 'z') || ('A' <= c && c <= 'Z') || ('0' <= c && c <= '9')
}

/// The identifier character `c` becomes: ASCII letters upper-cased, ASCII
/// digits kept, everything else `_`.
pub open spec fn ident_char(c: char) -> char {
    if 'a' <= c && c <= 'z' {
        ((c as int) - 32) as char
    } else if ascii_alnum(c) {
        c
    } else {
        '_'
    }
}

/// The ASCII uppercase of `c` (what `char::to_ascii_uppercase` gives):
/// `a`-`z` map to `A`-`Z`, every other character is unchanged.
fn ascii_upper(c: char) -> (r: char)
    ensures
        r == (if 'a' <= c && c <= 'z' {
            ((c as int) - 32) as char
        } else {
            c
        }),
{
    if 'a' <= c && c <= 'z' {
        let b: u8 = c as u8;
        ((b - 32) as char)
    } else {
        c
    }
}

/// Turn an arbitrary string into a valid uppercase identifier suffix.
pub fn sanitize_ident(s: &str) -> (r: String)
    ensures
        r@ == s@.map_values(|c: char| ident_char(c)),
{
    let n = s.unicode_len();
    let mut out = String::new();
    let mut i: usize = 0;
    while i < n
        invariant
            n == s@.len(),
            i <= n,
            out@ == s@.subrange(0, i as int).map_values(|c: char| ident_char(c)),
        decreases n - i,
    {
        let c = s.get_char(i);
        let is_alnum = ('a' <= c && c <= 'z') || ('A' <= c && c <= 'Z') || ('0' <= c && c <= '9');
        let d = if is_alnum { ascii_upper(c) } else { '_' };
        push_char(&mut out, d);
        proof {
            assert(d == ident_char(c));
            assert(out@ =~= s@.subrange(0, i + 1).map_values(|c: char| ident_char(c)));
        }
        i = i + 1;
    }
    proof {
        assert(s@.subrange(0, n as int) =~= s@);
    }
    out
}

} // verus!
