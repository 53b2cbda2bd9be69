//! Hexadecimal digits: classification, values, and lowercase rendering.
//!
//! These helpers are shared by the pattern compiler (which reads hex digits
//! out of a pattern string) and the scanner (which renders matched bytes as
//! space-separated lowercase hex pairs).

use vstd::prelude::*;
use vstd::string::StringExecFns;

verus! {

/// A character is an ASCII hexadecimal digit (either case).
pub open spec fn is_hex_digit_char(c: char) -> bool {
    (('0' as u32) <= (c as u32) && (c as u32) <= ('9' as u32)) || (('a' as u32) <= (c as u32) && (c
        as u32) <= ('f' as u32)) || (('A' as u32) <= (c as u32) && (c as u32) <= ('F' as u32))
}

/// The numeric value of a hexadecimal digit character.
pub open spec fn hex_digit_value(c: char) -> int {
    if ('0' as u32) <= (c as u32) && (c as u32) <= ('9' as u32) {
        (c as u32) - ('0' as u32)
    } else if ('a' as u32) <= (c as u32) && (c as u32) <= ('f' as u32) {
        (c as u32) - ('a' as u32) + 10
    } else {
        (c as u32) - ('A' as u32) + 10
    }
}

/// The lowercase hexadecimal digit character for a value below 16.
pub open spec fn nibble_char(v: int) -> char {
    if v == 0 {
        '0'
    } else if v == 1 {
        '1'
    } else if v == 2 {
        '2'
    } else if v == 3 {
        '3'
    } else if v == 4 {
        '4'
    } else if v == 5 {
        '5'
    } else if v == 6 {
        '6'
    } else if v == 7 {
        '7'
    } else if v == 8 {
        '8'
    } else if v == 9 {
        '9'
    } else if v == 10 {
        'a'
    } else if v == 11 {
        'b'
    } else if v == 12 {
        'c'
    } else if v == 13 {
        'd'
    } else if v == 14 {
        'e'
    } else {
        'f'
    }
}

/// The two lowercase digits of one byte, high nibble first.
pub open spec fn hex_pair_chars(b: u8) -> Seq<char> {
    seq![nibble_char(b as int / 16), nibble_char(b as int % 16)]
}

/// The rest of a space-separated pair rendering: a space before every
/// further byte's two digits.
pub open spec fn hex_pairs_tail(bs: Seq<u8>) -> Seq<char>
    decreases bs.len(),
{
    if bs.len() == 0 {
        Seq::empty()
    } else {
        seq![' '] + hex_pair_chars(bs[0]) + hex_pairs_tail(bs.skip(1))
    }
}

/// Bytes rendered as space-separated two-digit lowercase hex pairs.
pub open spec fn hex_pairs_string(bs: Seq<u8>) -> Seq<char> {
    if bs.len() == 0 {
        Seq::empty()
    } else {
        hex_pair_chars(bs[0]) + hex_pairs_tail(bs.skip(1))
    }
}

/// Exec check that a character is an ASCII hexadecimal digit.
pub fn is_hex_digit(c: char) -> (r: bool)
    ensures
        r == is_hex_digit_char(c),
{
    let v = c as u32;
    (48 <= v && v <= 57) || (97 <= v && v <= 102) || (65 <= v && v <= 70)
}

/// A one-character string slice holding the lowercase digit for `v`.
pub fn nibble_str(v: u8) -> (r: &'static str)
    requires
        v < 16,
    ensures
        r@ =~= seq![nibble_char(v as int)],
{
    proof {
        reveal_strlit("0");
        reveal_strlit("1");
        reveal_strlit("2");
        reveal_strlit("3");
        reveal_strlit("4");
        reveal_strlit("5");
        reveal_strlit("6");
        reveal_strlit("7");
        reveal_strlit("8");
        reveal_strlit("9");
        reveal_strlit("a");
        reveal_strlit("b");
        reveal_strlit("c");
        reveal_strlit("d");
        reveal_strlit("e");
        reveal_strlit("f");
    }
    if v == 0 {
        "0"
    } else if v == 1 {
        "1"
    } else if v == 2 {
        "2"
    } else if v == 3 {
        "3"
    } else if v == 4 {
        "4"
    } else if v == 5 {
        "5"
    } else if v == 6 {
        "6"
    } else if v == 7 {
        "7"
    } else if v == 8 {
        "8"
    } else if v == 9 {
        "9"
    } else if v == 10 {
        "a"
    } else if v == 11 {
        "b"
    } else if v == 12 {
        "c"
    } else if v == 13 {
        "d"
    } else if v == 14 {
        "e"
    } else {
        "f"
    }
}

/// Appends the two lowercase digits of `b` to `out`.
pub fn push_hex_pair(out: &mut String, b: u8)
    ensures
        final (out)@ == old(out)@ + hex_pair_chars(b),
{
    let hi: u8 = b / 16;
    let lo: u8 = b % 16;
    out.append(nibble_str(hi));
    out.append(nibble_str(lo));
    proof {
        assert(out@ =~= old(out)@ + hex_pair_chars(b));
    }
}

/// Renders a byte slice as space-separated two-digit lowercase hex pairs.
pub fn to_hex_pairs(data: &[u8]) -> (out: String)
    ensures
        out@ == hex_pairs_string(data@),
{
    let n = data.len();
    let mut out = String::new();
    if n == 0 {
        return out;
    }
    push_hex_pair(&mut out, data[0]);
    let mut i: usize = 1;
    proof {
        reveal_strlit(" ");
        assert(out@ =~= Seq::<char>::empty() + hex_pair_chars(data@[0]));
        assert(out@ + hex_pairs_tail(data@.skip(1)) =~= hex_pair_chars(data@[0]) + hex_pairs_tail(
            data@.skip(1),
        ));
    }
    while i < n
        invariant
            1 <= i <= n,
            n == data@.len(),
            hex_pairs_string(data@) == out@ + hex_pairs_tail(data@.skip(i as int)),
        decreases n - i,
    {
        let ghost rest = data@.skip(i as int);
        proof {
            reveal_strlit(" ");
            assert(rest[0] == data@[i as int]);
            assert(rest.skip(1) =~= data@.skip(i as int + 1));
            assert((" ")@ =~= seq![' ']);
        }
        let ghost before = out@;
        out.append(" ");
        push_hex_pair(&mut out, data[i]);
        proof {
            assert(out@ + hex_pairs_tail(data@.skip(i as int + 1)) =~= before + (seq![' ']
                + hex_pair_chars(data@[i as int]) + hex_pairs_tail(data@.skip(i as int + 1))));
        }
        i += 1;
    }
    proof {
        assert(data@.skip(n as int) =~= Seq::<u8>::empty());
        assert(out@ + hex_pairs_tail(Seq::<u8>::empty()) =~= out@);
    }
    out
}

} // verus!
