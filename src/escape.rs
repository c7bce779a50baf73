//! The Debug escaping table for bytes of a string.
use vstd::prelude::*;

verus! {

/// Bytes written as a backslash and one letter: tab, newline, carriage
/// return, single quote, double quote and backslash.
pub open spec fn is_backslash_escaped_spec(c: u8) -> bool {
    c == 9 || c == 10 || c == 13 || c == 39 || c == 34 || c == 92
}

/// Bytes that Debug formatting escapes: the control bytes below `0x20` and
/// the backslash-escaped ones.
pub open spec fn is_escaped_spec(c: u8) -> bool {
    c < 32 || is_backslash_escaped_spec(c)
}

/// The letter after the backslash for a backslash-escaped byte.
pub open spec fn backslash_letter(c: u8) -> u8 {
    if c == 9 {
        116
    } else if c == 10 {
        110
    } else if c == 13 {
        114
    } else {
        c
    }
}

/// The ASCII hexadecimal digit of `n < 16`, upper case.
pub open spec fn hex_digit(n: u8) -> u8 {
    if n < 10 {
        (n + 48) as u8
    } else {
        (n + 55) as u8
    }
}

/// What one byte of a string becomes in Debug formatting.
pub open spec fn escape_byte(c: u8) -> Seq<u8> {
    if is_backslash_escaped_spec(c) {
        seq![92u8, backslash_letter(c)]
    } else if c < 32 {
        seq![92u8, 120u8, hex_digit(c / 16), hex_digit(c % 16)]
    } else {
        seq![c]
    }
}

/// What a byte string becomes in Debug formatting, quotes left out.
pub open spec fn escaped(s: Seq<u8>) -> Seq<u8>
    decreases s.len(),
{
    if s.len() == 0 {
        seq![]
    } else {
        escaped(s.drop_last()) + escape_byte(s.last())
    }
}

/// The length of the escaped form of a byte string.
pub open spec fn escaped_len(s: Seq<u8>) -> nat {
    escaped(s).len()
}

/// A longer prefix never escapes to fewer bytes, and each byte adds at
/// most four.
pub proof fn lemma_escaped_len_prefix(s: Seq<u8>, a: nat, b: nat)
    requires
        a <= b <= s.len(),
    ensures
        escaped_len(s.take(a as int)) <= escaped_len(s.take(b as int)),
        escaped_len(s.take(b as int)) <= escaped_len(s.take(a as int)) + 4 * (b - a),
    decreases b - a,
{
    if a < b {
        lemma_escaped_len_prefix(s, a, (b - 1) as nat);
        assert(s.take(b as int).drop_last() =~= s.take(b - 1));
    }
}

/// The escaped form of `s` with one more byte appended.
pub proof fn lemma_escaped_push(s: Seq<u8>, j: int)
    requires
        0 <= j < s.len(),
    ensures
        escaped(s.take(j + 1)) == escaped(s.take(j)) + escape_byte(s[j]),
{
    assert(s.take(j + 1).drop_last() =~= s.take(j));
}

/// Converts `0..=15` to its ASCII hexadecimal digit.
pub fn hex_as_ascii(n: u8) -> (r: u8)
    requires
        n < 16,
    ensures
        r == hex_digit(n),
{
    if n < 10 {
        n + 48
    } else {
        n + 55
    }
}

/// Whether Debug formatting escapes this byte.
pub fn is_escaped(c: u8) -> (r: bool)
    ensures
        r == is_escaped_spec(c),
{
    c < 32 || is_backslash_escaped(c)
}

/// Whether Debug formatting writes this byte as a backslash and a letter.
pub fn is_backslash_escaped(c: u8) -> (r: bool)
    ensures
        r == is_backslash_escaped_spec(c),
{
    c == 9 || c == 10 || c == 13 || c == 39 || c == 34 || c == 92
}

/// The letter after the backslash, for a byte known to be backslash-escaped.
pub fn get_backslash_escape(c: u8) -> (r: u8)
    requires
        is_backslash_escaped_spec(c),
    ensures
        r == backslash_letter(c),
{
    if c == 9 {
        116
    } else if c == 10 {
        110
    } else if c == 13 {
        114
    } else {
        c
    }
}

/// How many bytes this byte takes once Debug-escaped.
pub fn byte_len(c: u8) -> (r: usize)
    ensures
        r == escape_byte(c).len(),
        1 <= r <= 4,
{
    if is_backslash_escaped(c) {
        2
    } else if c < 32 {
        4
    } else {
        1
    }
}

/// Appends the Debug escape of `c` to `out`.
pub fn push_escaped(c: u8, out: &mut Vec<u8>)
    ensures
        final(out)@ == old(out)@ + escape_byte(c),
{
    if is_backslash_escaped(c) {
        out.push(92);
        out.push(get_backslash_escape(c));
        assert(final(out)@ =~= old(out)@ + escape_byte(c));
    } else if c < 32 {
        out.push(92);
        out.push(120);
        out.push(hex_as_ascii(c / 16));
        out.push(hex_as_ascii(c % 16));
        assert(final(out)@ =~= old(out)@ + escape_byte(c));
    } else {
        out.push(c);
        assert(final(out)@ =~= old(out)@ + escape_byte(c));
    }
}

} // verus!
