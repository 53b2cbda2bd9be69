//! Pattern text validation and hex-pair translation.
//!
//! A pattern arrives in one of two content modes. In hex mode the text is a
//! simplified syntax: whitespace-separated two-digit hex pairs, a wildcard
//! token, and grouping, alternation and repetition metacharacters. The
//! translator strips whitespace, rejects any character outside that
//! alphabet, and rewrites every adjacent pair of hex digits into an escaped
//! single-byte literal, ready for a byte-exact expression compiler. In text
//! mode the text is handed to the compiler unchanged.

use crate::hex::{hex_digit_value, is_hex_digit, is_hex_digit_char};
use vstd::prelude::*;
use vstd::string::StrSliceExecFns;
use vstd::string::StringExecFns;

verus! {

/// Which syntax the pattern text is written in.
#[derive(Clone, Copy, PartialEq, Eq, Structural, Debug)]
pub enum ContentMode {
    Hex,
    Text,
}

/// Why a pattern was rejected.
#[derive(Debug)]
pub enum PatternError {
    /// The pattern text is empty.
    EmptyPattern,
    /// Hex mode: a character outside the hex-mode alphabet occurs.
    InvalidCharacter,
    /// The expression compiler rejected the pattern; the diagnostic is kept.
    CompileError(String),
}

/// Whitespace that hex mode strips before validation.
pub open spec fn is_space_char(c: char) -> bool {
    c == ' ' || c == '\t' || c == '\n' || c == '\r'
}

/// Metacharacters allowed in hex mode besides hex digits: the single-byte
/// wildcard and grouping, alternation and repetition syntax.
pub open spec fn is_hex_meta_char(c: char) -> bool {
    c == '.' || c == '?' || c == '[' || c == ']' || c == '{' || c == '}' || c == '(' || c == ')'
        || c == '|' || c == ',' || c == '-'
}

/// The whole hex-mode alphabet (after whitespace is stripped).
pub open spec fn is_hex_alphabet_char(c: char) -> bool {
    is_hex_digit_char(c) || is_hex_meta_char(c)
}

/// The pattern text with all whitespace characters removed.
pub open spec fn strip_spaces(s: Seq<char>) -> Seq<char>
    decreases s.len(),
{
    if s.len() == 0 {
        Seq::empty()
    } else if is_space_char(s[0]) {
        strip_spaces(s.skip(1))
    } else {
        seq![s[0]] + strip_spaces(s.skip(1))
    }
}

/// Some character of `s` lies outside the hex-mode alphabet.
pub open spec fn has_invalid_char(s: Seq<char>) -> bool {
    exists|i: int| 0 <= i < s.len() && !is_hex_alphabet_char(#[trigger] s[i])
}

/// The hex-pair rewrite: every adjacent pair of hex digits becomes an
/// escaped single-byte literal `\xHH`; all other characters pass through.
pub open spec fn hex_rewrite(s: Seq<char>) -> Seq<char>
    decreases s.len(),
{
    if s.len() == 0 {
        Seq::empty()
    } else if s.len() >= 2 && is_hex_digit_char(s[0]) && is_hex_digit_char(s[1]) {
        seq!['\\', 'x', s[0], s[1]] + hex_rewrite(s.skip(2))
    } else {
        seq![s[0]] + hex_rewrite(s.skip(1))
    }
}

/// The byte values of a run of two-digit hex pairs.
pub open spec fn pair_bytes(s: Seq<char>) -> Seq<u8>
    decreases s.len(),
{
    if s.len() < 2 {
        Seq::empty()
    } else {
        seq![(hex_digit_value(s[0]) * 16 + hex_digit_value(s[1])) as u8] + pair_bytes(s.skip(2))
    }
}

/// `src` is a chain of escaped single-byte literals `\xHH` denoting
/// exactly the byte sequence `bs`.
pub open spec fn denotes_bytes(src: Seq<char>, bs: Seq<u8>) -> bool
    decreases src.len(),
{
    if src.len() == 0 {
        bs.len() == 0
    } else {
        &&& src.len() >= 4
        &&& src[0] == '\\'
        &&& src[1] == 'x'
        &&& is_hex_digit_char(src[2])
        &&& is_hex_digit_char(src[3])
        &&& bs.len() > 0
        &&& bs[0] == 16 * hex_digit_value(src[2]) + hex_digit_value(src[3])
        &&& denotes_bytes(src.skip(4), bs.skip(1))
    }
}

/// Stripping whitespace from text made of whitespace and hex digits
/// leaves hex digits only.
proof fn lemma_strip_leaves_digits(s: Seq<char>)
    requires
        forall|i: int| 0 <= i < s.len() ==> is_space_char(#[trigger] s[i]) || is_hex_digit_char(s[i]),
    ensures
        forall|j: int| 0 <= j < strip_spaces(s).len() ==> is_hex_digit_char(#[trigger] strip_spaces(s)[j]),
    decreases s.len(),
{
    if s.len() == 0 {
    } else {
        assert(forall|i: int|
            0 <= i < s.skip(1).len() ==> #[trigger] s.skip(1)[i] == s[i + 1]);
        lemma_strip_leaves_digits(s.skip(1));
        let t = strip_spaces(s);
        let rest = strip_spaces(s.skip(1));
        if !is_space_char(s[0]) {
            assert forall|j: int| 0 <= j < t.len() implies is_hex_digit_char(#[trigger] t[j]) by {
                if j > 0 {
                    assert(t[j] == rest[j - 1]);
                }
            }
        }
    }
}

/// The rewrite of an even-length run of hex digits is an escape chain
/// denoting exactly its pairs' byte values, one byte per pair.
proof fn lemma_rewrite_denotes(t: Seq<char>)
    requires
        t.len() % 2 == 0,
        forall|i: int| 0 <= i < t.len() ==> is_hex_digit_char(#[trigger] t[i]),
    ensures
        denotes_bytes(hex_rewrite(t), pair_bytes(t)),
        pair_bytes(t).len() == t.len() / 2,
    decreases t.len(),
{
    if t.len() == 0 {
    } else {
        assert(t.len() >= 2);
        assert(forall|i: int|
            0 <= i < t.skip(2).len() ==> #[trigger] t.skip(2)[i] == t[i + 2]);
        lemma_rewrite_denotes(t.skip(2));
        let src = hex_rewrite(t);
        let head = seq!['\\', 'x', t[0], t[1]];
        assert(src == head + hex_rewrite(t.skip(2)));
        assert(src.skip(4) =~= hex_rewrite(t.skip(2)));
        assert(0 <= hex_digit_value(t[0]) <= 15);
        assert(0 <= hex_digit_value(t[1]) <= 15);
        let bs = pair_bytes(t);
        assert(bs == seq![(hex_digit_value(t[0]) * 16 + hex_digit_value(t[1])) as u8] + pair_bytes(
            t.skip(2),
        ));
        assert(bs.skip(1) =~= pair_bytes(t.skip(2)));
        assert(bs[0] == 16 * hex_digit_value(src[2]) + hex_digit_value(src[3]));
    }
}

/// Law (hex-pair translation): pattern text that is nothing but
/// whitespace-separated two-digit hex pairs is never rejected — neither
/// as empty nor for an invalid character — and translates to a chain of
/// escaped single-byte literals denoting exactly those pairs' byte
/// values, one byte per pair. A byte-exact expression compiler given
/// that chain matches precisely occurrences of those bytes, so a match's
/// length equals the pair count.
pub proof fn lemma_hex_pairs_translation(s: Seq<char>)
    requires
        s.len() > 0,
        strip_spaces(s).len() > 0,
        strip_spaces(s).len() % 2 == 0,
        forall|i: int| 0 <= i < s.len() ==> is_space_char(#[trigger] s[i]) || is_hex_digit_char(s[i]),
    ensures
        !has_invalid_char(strip_spaces(s)),
        denotes_bytes(hex_rewrite(strip_spaces(s)), pair_bytes(strip_spaces(s))),
        pair_bytes(strip_spaces(s)).len() == strip_spaces(s).len() / 2,
{
    lemma_strip_leaves_digits(s);
    lemma_rewrite_denotes(strip_spaces(s));
}

/// Exec check for the stripped whitespace set.
pub fn is_space(c: char) -> (r: bool)
    ensures
        r == is_space_char(c),
{
    c == ' ' || c == '\t' || c == '\n' || c == '\r'
}

/// Exec check for the hex-mode alphabet.
pub fn is_hex_alphabet(c: char) -> (r: bool)
    ensures
        r == is_hex_alphabet_char(c),
{
    is_hex_digit(c) || c == '.' || c == '?' || c == '[' || c == ']' || c == '{' || c == '}' || c
        == '(' || c == ')' || c == '|' || c == ',' || c == '-'
}

/// Collects the non-whitespace characters of `s`, in order.
pub fn strip_spaces_exec(s: &str) -> (out: Vec<char>)
    ensures
        out@ == strip_spaces(s@),
{
    let n = s.unicode_len();
    let mut out: Vec<char> = Vec::new();
    let mut i: usize = 0;
    proof {
        assert(s@.skip(0) =~= s@);
        assert(out@ + strip_spaces(s@) =~= strip_spaces(s@));
    }
    while i < n
        invariant
            i <= n,
            n == s@.len(),
            strip_spaces(s@) == out@ + strip_spaces(s@.skip(i as int)),
        decreases n - i,
    {
        let c = s.get_char(i);
        proof {
            assert(s@.skip(i as int)[0] == s@[i as int]);
            assert(s@.skip(i as int).skip(1) =~= s@.skip(i as int + 1));
        }
        if !is_space(c) {
            let ghost before = out@;
            out.push(c);
            proof {
                assert(out@ + strip_spaces(s@.skip(i as int + 1)) =~= before + (seq![c]
                    + strip_spaces(s@.skip(i as int + 1))));
            }
        }
        i += 1;
    }
    proof {
        assert(s@.skip(n as int) =~= Seq::<char>::empty());
        assert(out@ + Seq::<char>::empty() =~= out@);
    }
    out
}

/// Reports whether any character of `cs` lies outside the hex-mode alphabet.
pub fn contains_invalid_char(cs: &Vec<char>) -> (r: bool)
    ensures
        r == has_invalid_char(cs@),
{
    let n = cs.len();
    let mut i: usize = 0;
    while i < n
        invariant
            i <= n,
            n == cs@.len(),
            forall|j: int| 0 <= j < i ==> is_hex_alphabet_char(#[trigger] cs@[j]),
        decreases n - i,
    {
        if !is_hex_alphabet(cs[i]) {
            return true;
        }
        i += 1;
    }
    false
}

/// Appends one character to a string.
///
/// Relies on `String::push`: appends the given character to the end of the
/// string.
#[verifier::external_body]
fn push_char(out: &mut String, c: char)
    ensures
        final (out)@ == old(out)@ + seq![c],
{
    out.push(c);
}

/// Applies the hex-pair rewrite to the stripped pattern characters.
pub fn rewrite_hex_pairs(cs: &Vec<char>) -> (out: String)
    ensures
        out@ == hex_rewrite(cs@),
{
    let n = cs.len();
    let mut out = String::new();
    let mut i: usize = 0;
    proof {
        reveal_strlit("\\x");
        assert(cs@.skip(0) =~= cs@);
        assert(out@ + hex_rewrite(cs@) =~= hex_rewrite(cs@));
    }
    while i < n
        invariant
            i <= n,
            n == cs@.len(),
            hex_rewrite(cs@) == out@ + hex_rewrite(cs@.skip(i as int)),
        decreases n - i,
    {
        let ghost rest = cs@.skip(i as int);
        proof {
            assert(rest[0] == cs@[i as int]);
            assert(rest.skip(1) =~= cs@.skip(i as int + 1));
        }
        if i + 1 < n && is_hex_digit(cs[i]) && is_hex_digit(cs[i + 1]) {
            proof {
                assert(rest[1] == cs@[i as int + 1]);
                assert(rest.skip(2) =~= cs@.skip(i as int + 2));
                reveal_strlit("\\x");
                assert(("\\x")@ =~= seq!['\\', 'x']);
            }
            let ghost before = out@;
            out.append("\\x");
            push_char(&mut out, cs[i]);
            push_char(&mut out, cs[i + 1]);
            proof {
                assert(out@ =~= before + seq!['\\', 'x', cs@[i as int], cs@[i as int + 1]]);
                assert(out@ + hex_rewrite(cs@.skip(i as int + 2)) =~= before + (seq![
                    '\\',
                    'x',
                    cs@[i as int],
                    cs@[i as int + 1],
                ] + hex_rewrite(cs@.skip(i as int + 2))));
            }
            i += 2;
        } else {
            let ghost before = out@;
            push_char(&mut out, cs[i]);
            proof {
                assert(out@ + hex_rewrite(cs@.skip(i as int + 1)) =~= before + (seq![cs@[i as int]]
                    + hex_rewrite(cs@.skip(i as int + 1))));
            }
            i += 1;
        }
    }
    proof {
        assert(cs@.skip(n as int) =~= Seq::<char>::empty());
        assert(out@ + Seq::<char>::empty() =~= out@);
    }
    out
}

/// Translates hex-mode pattern text into expression source.
///
/// Whitespace is stripped first. A character outside the hex-mode alphabet
/// is rejected as `InvalidCharacter`; empty pattern text is rejected as
/// `EmptyPattern`; otherwise the result is the hex-pair rewrite of the
/// stripped text.
pub fn hex_to_regex(raw: &str) -> (r: Result<String, PatternError>)
    ensures
        has_invalid_char(strip_spaces(raw@)) ==> r == Err::<String, PatternError>(
            PatternError::InvalidCharacter,
        ),
        !has_invalid_char(strip_spaces(raw@)) && raw@.len() == 0 ==> r == Err::<
            String,
            PatternError,
        >(PatternError::EmptyPattern),
        !has_invalid_char(strip_spaces(raw@)) && raw@.len() > 0 ==> (r matches Ok(s) && s@
            == hex_rewrite(strip_spaces(raw@))),
{
    let stripped = strip_spaces_exec(raw);
    if contains_invalid_char(&stripped) {
        return Err(PatternError::InvalidCharacter);
    }
    if raw.unicode_len() == 0 {
        return Err(PatternError::EmptyPattern);
    }
    Ok(rewrite_hex_pairs(&stripped))
}

} // verus!
