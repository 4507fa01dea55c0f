//! Percent-decoding of captured path segments.
//!
//! A `%` followed by two hexadecimal digits stands for the byte those two
//! digits name; any other byte, a lone `%` included, passes through
//! unchanged. Decoding is a one-time transformation of the raw bytes; the
//! result need not be valid UTF-8 and is validated separately.

use vstd::prelude::*;

verus! {

/// True when `b` is the code of an ASCII hexadecimal digit.
pub open spec fn is_hex_digit(b: u8) -> bool {
    0x30 <= b <= 0x39 || 0x41 <= b <= 0x46 || 0x61 <= b <= 0x66
}

/// Numeric value of the hexadecimal digit with code `b`.
pub open spec fn hex_val(b: u8) -> u8
    recommends
        is_hex_digit(b),
{
    if 0x30 <= b <= 0x39 {
        (b - 0x30) as u8
    } else if 0x41 <= b <= 0x46 {
        (b - 0x37) as u8
    } else if 0x61 <= b <= 0x66 {
        (b - 0x57) as u8
    } else {
        0
    }
}

/// The percent-decoding of `s`: each `%` followed by two hexadecimal
/// digits becomes one byte; everything else is copied.
pub open spec fn percent_decoded(s: Seq<u8>) -> Seq<u8>
    decreases s.len(),
{
    if s.len() == 0 {
        Seq::empty()
    } else if s[0] == 0x25 && s.len() >= 3 && is_hex_digit(s[1]) && is_hex_digit(s[2]) {
        seq![(hex_val(s[1]) * 16 + hex_val(s[2])) as u8] + percent_decoded(
            s.subrange(3, s.len() as int),
        )
    } else {
        seq![s[0]] + percent_decoded(s.subrange(1, s.len() as int))
    }
}

/// True when `b` is the code of an ASCII hexadecimal digit.
fn is_hex_digit_byte(b: u8) -> (r: bool)
    ensures
        r == is_hex_digit(b),
{
    (0x30 <= b && b <= 0x39) || (0x41 <= b && b <= 0x46) || (0x61 <= b && b <= 0x66)
}

/// Numeric value of the hexadecimal digit with code `b`.
fn hex_val_byte(b: u8) -> (r: u8)
    requires
        is_hex_digit(b),
    ensures
        r == hex_val(b),
        r <= 15,
{
    if b <= 0x39 {
        b - 0x30
    } else if b <= 0x46 {
        b - 0x37
    } else {
        b - 0x57
    }
}

/// Percent-decode `input` (see [`percent_decoded`]).
pub fn percent_decode(input: &[u8]) -> (r: Vec<u8>)
    ensures
        r@ == percent_decoded(input@),
{
    let n = input.len();
    let mut out: Vec<u8> = Vec::new();
    let mut i: usize = 0;
    proof {
        assert(input@.subrange(0, n as int) =~= input@);
        assert(out@ + percent_decoded(input@) =~= percent_decoded(input@));
    }
    while i < n
        invariant
            n == input@.len(),
            i <= n,
            percent_decoded(input@) == out@ + percent_decoded(input@.subrange(i as int, n as int)),
        decreases n - i,
    {
        let ghost rest = input@.subrange(i as int, n as int);
        let ghost before = out@;
        if input[i] == 0x25 && n - i >= 3 && is_hex_digit_byte(input[i + 1]) && is_hex_digit_byte(
            input[i + 2],
        ) {
            let b = hex_val_byte(input[i + 1]) * 16 + hex_val_byte(input[i + 2]);
            out.push(b);
            proof {
                assert(rest[0] == input@[i as int] && rest[1] == input@[i as int + 1] && rest[2]
                    == input@[i as int + 2]);
                assert(rest.subrange(3, rest.len() as int) =~= input@.subrange(
                    i as int + 3,
                    n as int,
                ));
                assert(out@ =~= before + seq![b]);
                assert(percent_decoded(rest) == seq![b] + percent_decoded(
                    input@.subrange(i as int + 3, n as int),
                ));
                assert(before + (seq![b] + percent_decoded(input@.subrange(i as int + 3, n as int)))
                    =~= out@ + percent_decoded(input@.subrange(i as int + 3, n as int)));
            }
            i += 3;
        } else {
            let b = input[i];
            out.push(b);
            proof {
                assert(rest[0] == input@[i as int]);
                assert(rest.subrange(1, rest.len() as int) =~= input@.subrange(
                    i as int + 1,
                    n as int,
                ));
                assert(out@ =~= before + seq![b]);
                assert(percent_decoded(rest) == seq![b] + percent_decoded(
                    input@.subrange(i as int + 1, n as int),
                ));
                assert(before + (seq![b] + percent_decoded(input@.subrange(i as int + 1, n as int)))
                    =~= out@ + percent_decoded(input@.subrange(i as int + 1, n as int)));
            }
            i += 1;
        }
    }
    proof {
        assert(input@.subrange(n as int, n as int) =~= Seq::<u8>::empty());
        assert(out@ =~= out@ + percent_decoded(input@.subrange(n as int, n as int)));
    }
    out
}

} // verus!
