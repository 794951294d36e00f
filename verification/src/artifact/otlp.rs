//! The computed pieces of the OTLP rendering: id encoding and status codes.

use vstd::prelude::*;
use crate::ordering::{concat_map, lemma_concat_map_push};
use crate::text::push_char;

verus! {

/// The status a span closed with.
#[derive(Debug, Clone, Copy, PartialEq, Eq, Structural)]
pub enum SpanStatus {
    /// No status was set.
    Unset,
    /// The span succeeded (OTLP's `OK`).
    Succeeded,
    /// The span failed (a declared error or a fault).
    Error,
}

/// The numeric OTLP `StatusCode` of a span status. `Unset` promotes to `OK`
/// (`1`): the runtime sets `Error` on both the declared-error and the fault
/// paths, so an unset span is a success.
pub fn status_code(status: SpanStatus) -> (r: u8)
    ensures
        r == (match status {
            SpanStatus::Error => 2u8,
            _ => 1u8,
        }),
{
    match status {
        SpanStatus::Unset | SpanStatus::Succeeded => 1,
        SpanStatus::Error => 2,
    }
}

/// The lowercase hexadecimal digit of `n` (`n < 16`).
pub open spec fn hex_digit(n: int) -> char {
    if n < 10 {
        (('0' as int) + n) as char
    } else {
        (('a' as int) + n - 10) as char
    }
}

/// Two lowercase hexadecimal digits per byte, high nibble first.
pub open spec fn hex_of(bytes: Seq<u8>) -> Seq<char> {
    concat_map(bytes, |b: u8| seq![hex_digit(b as int / 16), hex_digit(b as int % 16)])
}

fn digit(n: u8) -> (c: char)
    requires
        n < 16,
    ensures
        c == hex_digit(n as int),
{
    let table = ['0', '1', '2', '3', '4', '5', '6', '7', '8', '9', 'a', 'b', 'c', 'd', 'e', 'f'];
    let c = table[n as usize];
    proof {
        assert(c == hex_digit(n as int)) by {
            reveal_with_fuel(hex_digit, 1);
        }
    }
    c
}

/// Encodes id bytes as lowercase hex (16 bytes give 32 characters for a trace
/// id, 8 give 16 for a span id).
pub fn hex(bytes: &[u8]) -> (r: String)
    ensures
        r@ == hex_of(bytes@),
{
    let mut out = String::new();
    let mut i: usize = 0;
    while i < bytes.len()
        invariant
            i <= bytes.len(),
            out@ == hex_of(bytes@.subrange(0, i as int)),
        decreases bytes.len() - i,
    {
        let b = bytes[i];
        push_char(&mut out, digit(b / 16));
        push_char(&mut out, digit(b % 16));
        proof {
            crate::ordering::lemma_concat_map_prefix(
                bytes@,
                i as int,
                |b: u8| seq![hex_digit(b as int / 16), hex_digit(b as int % 16)],
            );
            assert(out@ =~= hex_of(bytes@.subrange(0, i + 1)));
        }
        i = i + 1;
    }
    proof {
        assert(bytes@.subrange(0, bytes.len() as int) =~= bytes@);
    }
    out
}

/// A lowercase hexadecimal digit.
pub open spec fn is_lower_hex(c: char) -> bool {
    ('0' <= c && c <= '9') || ('a' <= c && c <= 'f')
}

/// Hex encoding gives two characters per byte, each a lowercase hexadecimal
/// digit.
pub proof fn law_hex_is_lowercase_and_double_length(bytes: Seq<u8>)
    ensures
        hex_of(bytes).len() == 2 * bytes.len(),
        forall|i: int| 0 <= i < hex_of(bytes).len() ==> is_lower_hex(#[trigger] hex_of(bytes)[i]),
    decreases bytes.len(),
{
    if bytes.len() > 0 {
        let pre = bytes.drop_last();
        let b = bytes.last();
        law_hex_is_lowercase_and_double_length(pre);
        assert(bytes =~= pre.push(b));
        let f = |b: u8| seq![hex_digit(b as int / 16), hex_digit(b as int % 16)];
        lemma_concat_map_push(pre, b, f);
        assert(hex_of(bytes) == hex_of(pre) + f(b));
        assert(is_lower_hex(hex_digit(b as int / 16)));
        assert(is_lower_hex(hex_digit(b as int % 16)));
        assert forall|i: int| 0 <= i < hex_of(bytes).len() implies is_lower_hex(#[trigger] hex_of(bytes)[i]) by {
            if i < hex_of(pre).len() {
                assert(hex_of(bytes)[i] == hex_of(pre)[i]);
            } else {
                assert(hex_of(bytes)[i] == f(b)[i - hex_of(pre).len()]);
            }
        }
    }
}

} // verus!
