//! Rendering of integers in decimal, binary and hexadecimal.
use vstd::prelude::*;
use vstd::arithmetic::power2::{pow2, lemma2_to64, lemma_pow2_adds, lemma_pow2_unfold, lemma_pow2_pos};
use vstd::arithmetic::div_mod::{lemma_div_denominator, lemma_small_mod};

use crate::fmt::NumberFmt;

verus! {

/// The sign of an integer, kept apart from its magnitude.
#[derive(Debug, Copy, Clone, PartialEq, Eq, Structural)]
pub enum Sign {
    Positive,
    Negative,
}

/// `10` to the power `e`.
pub open spec fn pow10(e: nat) -> nat
    decreases e,
{
    if e == 0 {
        1
    } else {
        10 * pow10((e - 1) as nat)
    }
}

/// The ASCII digit for `d`: `0`-`9`, then `A`-`F`.
pub open spec fn digit_byte(d: nat) -> u8 {
    if d < 10 {
        (48 + d) as u8
    } else {
        (55 + d) as u8
    }
}

/// The value of an ASCII digit, as `digit_byte` writes them.
pub open spec fn digit_value(b: u8) -> nat {
    if 48 <= b <= 57 {
        (b - 48) as nat
    } else if 65 <= b <= 70 {
        (b - 55) as nat
    } else {
        0
    }
}

/// The digits of `n` in `base`, most significant first, without leading
/// zeros; zero is the single digit `0`.
pub open spec fn digits(n: nat, base: nat) -> Seq<u8>
    decreases n,
    via digits_decreases
{
    if base < 2 || n < base {
        seq![digit_byte(n)]
    } else {
        digits(n / base, base).push(digit_byte(n % base))
    }
}

#[via_fn]
proof fn digits_decreases(n: nat, base: nat) {
    if !(base < 2 || n < base) {
        lemma_div_smaller(n, base);
    }
}

proof fn lemma_div_smaller(n: nat, base: nat)
    requires
        2 <= base <= n,
    ensures
        n / base < n,
        n % base < base,
        n == (n / base) * base + n % base,
{
    assert(n / base < n) by (nonlinear_arith)
        requires 2 <= base <= n;
    assert(n % base < base) by (nonlinear_arith)
        requires 2 <= base;
    assert(n == (n / base) * base + n % base) by (nonlinear_arith)
        requires 2 <= base;
}

/// The number that a sequence of digits in `base` stands for.
pub open spec fn value_of(s: Seq<u8>, base: nat) -> nat
    decreases s.len(),
{
    if s.len() == 0 {
        0
    } else {
        value_of(s.drop_last(), base) * base + digit_value(s.last())
    }
}

/// The integer that a decimal text with an optional leading `-` stands for.
pub open spec fn parse_decimal(s: Seq<u8>) -> int {
    if s.len() > 0 && s[0] == 45 {
        -(value_of(s.drop_first(), 10) as int)
    } else {
        value_of(s, 10) as int
    }
}

/// The decimal text of a signed magnitude.
pub open spec fn decimal_text(sign: Sign, n: nat) -> Seq<u8> {
    if sign == Sign::Negative {
        seq![45u8] + digits(n, 10)
    } else {
        digits(n, 10)
    }
}

/// The digits of `n` in `base`, after `0` and `prefix` in alternate mode.
pub open spec fn radix_text(n: nat, base: nat, prefix: u8, alternate: bool) -> Seq<u8> {
    if alternate {
        seq![48u8, prefix] + digits(n, base)
    } else {
        digits(n, base)
    }
}

/// The bit pattern that binary and hexadecimal show: for a negative number,
/// its two's complement in `bits` bits.
pub open spec fn masked(sign: Sign, n: nat, bits: nat) -> nat {
    if sign == Sign::Negative {
        ((pow2(bits) - n % pow2(bits)) % (pow2(bits) as int)) as nat
    } else {
        n
    }
}

/// The text of an integer of `bits` bits, rendered in the given base.
pub open spec fn int_text(sign: Sign, n: nat, bits: nat, number_fmt: NumberFmt, alternate: bool) -> Seq<u8> {
    match number_fmt {
        NumberFmt::Decimal => decimal_text(sign, n),
        NumberFmt::Binary => radix_text(masked(sign, n, bits), 2, 98, alternate),
        NumberFmt::Hexadecimal => radix_text(masked(sign, n, bits), 16, 120, alternate),
    }
}

proof fn lemma_digit_value(d: nat)
    requires
        d < 16,
    ensures
        digit_value(digit_byte(d)) == d,
{
}

/// Reading back the digits of `n` gives `n`.
pub proof fn lemma_digits_value(n: nat, base: nat)
    requires
        2 <= base <= 16,
    ensures
        value_of(digits(n, base), base) == n,
    decreases n,
{
    if n < base {
        lemma_digit_value(n);
        assert(digits(n, base) == seq![digit_byte(n)]);
        assert(digits(n, base).drop_last() =~= Seq::<u8>::empty());
        assert(value_of(Seq::<u8>::empty(), base) == 0);
        assert(value_of(digits(n, base), base) == value_of(Seq::<u8>::empty(), base) * base + digit_value(digit_byte(n)));
    } else {
        lemma_div_smaller(n, base);
        lemma_digits_value(n / base, base);
        lemma_digit_value(n % base);
        let d = digits(n, base);
        assert(d == digits(n / base, base).push(digit_byte(n % base)));
        assert(d.drop_last() =~= digits(n / base, base));
        assert(d.last() == digit_byte(n % base));
        assert(value_of(d, base) == value_of(d.drop_last(), base) * base + digit_value(d.last()));
    }
}

/// Rendering a signed integer in decimal and parsing the text back gives
/// the integer.
pub proof fn lemma_decimal_round_trip(sign: Sign, n: nat)
    requires
        sign == Sign::Negative ==> n > 0,
    ensures
        parse_decimal(decimal_text(sign, n)) == (if sign == Sign::Negative { -(n as int) } else { n as int }),
{
    lemma_digits_value(n, 10);
    if sign == Sign::Negative {
        assert((seq![45u8] + digits(n, 10)).drop_first() =~= digits(n, 10));
    } else {
        assert(digits(n, 10)[0] != 45) by {
            lemma_digits_first(n, 10);
        }
    }
}

proof fn lemma_digits_first(n: nat, base: nat)
    requires
        2 <= base <= 16,
    ensures
        digits(n, base).len() >= 1,
        (48 <= digits(n, base)[0] <= 57) || (65 <= digits(n, base)[0] <= 70),
    decreases n,
{
    if n >= base {
        lemma_div_smaller(n, base);
        lemma_digits_first(n / base, base);
    }
}

proof fn lemma_digits_len_div(n: nat, j: nat)
    requires
        n >= pow10(j),
    ensures
        digits(n, 10).len() == j + digits(n / pow10(j), 10).len(),
    decreases j,
{
    if j > 0 {
        let p = pow10((j - 1) as nat);
        assert(p > 0) by { lemma_pow10_pos((j - 1) as nat); }
        assert(n / 10 >= p) by (nonlinear_arith)
            requires n >= 10 * p;
        assert(n >= 10);
        assert(digits(n, 10) == digits(n / 10, 10).push(digit_byte(n % 10)));
        lemma_digits_len_div(n / 10, (j - 1) as nat);
        lemma_div_denominator(n as int, 10, p as int);
        assert(pow10(j) == 10 * p);
        assert(n / 10 / p == n / pow10(j));
    } else {
        assert(pow10(0) == 1);
        assert(n / 1 == n);
    }
}

proof fn lemma_pow10_pos(e: nat)
    ensures
        pow10(e) > 0,
    decreases e,
{
    if e > 0 {
        lemma_pow10_pos((e - 1) as nat);
    }
}

/// A number below `2^k` has at most `k` digits in any base from 2 up.
proof fn lemma_digits_len_bound(n: nat, base: nat, k: nat)
    requires
        2 <= base,
        1 <= k,
        n < pow2(k),
    ensures
        digits(n, base).len() <= k,
    decreases n,
{
    if n >= base {
        lemma_pow2_unfold(k);
        lemma_div_smaller(n, base);
        if k == 1 {
            lemma2_to64();
            assert(false);
        } else {
            assert(n / base < pow2((k - 1) as nat)) by (nonlinear_arith)
                requires n < 2 * pow2((k - 1) as nat), base >= 2;
            lemma_digits_len_bound(n / base, base, (k - 1) as nat);
        }
    }
}

/// `2^128` is one more than the largest `u128`.
proof fn lemma_pow2_128()
    ensures
        pow2(128) == u128::MAX + 1,
{
    lemma2_to64();
    lemma_pow2_adds(64, 64);
}

/// Writes the digits of `n` in `base` after what `out` holds.
fn push_digits(n: u128, base: u128, out: &mut Vec<u8>)
    requires
        2 <= base <= 16,
    ensures
        final(out)@ == old(out)@ + digits(n as nat, base as nat),
    decreases n,
{
    if n >= base {
        proof { lemma_div_smaller(n as nat, base as nat); }
        push_digits(n / base, base, out);
    }
    proof {
        if n < base {
            lemma_small_mod(n as nat, base as nat);
        } else {
            lemma_div_smaller(n as nat, base as nat);
        }
    }
    let d = (n % base) as u8;
    let c = if d < 10 { 48 + d } else { 55 + d };
    out.push(c);
    proof {
        if n < base {
            assert(old(out)@ + digits(n as nat, base as nat) =~= old(out)@.push(c));
        } else {
            assert(old(out)@ + digits(n as nat, base as nat) =~= (old(out)@ + digits((n / base) as nat, base as nat)).push(c));
        }
    }
}

/// The decimal text of a signed magnitude.
pub fn fmt_decimal(sign: Sign, n: u128) -> (r: Vec<u8>)
    ensures
        r@ == decimal_text(sign, n as nat),
{
    let mut out: Vec<u8> = Vec::new();
    if sign == Sign::Negative {
        out.push(45u8);
    }
    push_digits(n, 10, &mut out);
    proof {
        if sign == Sign::Negative {
            assert(seq![45u8] =~= seq![] + seq![45u8]);
        } else {
            assert(Seq::<u8>::empty() + digits(n as nat, 10) =~= digits(n as nat, 10));
        }
    }
    out
}

/// The binary digits of `n`, after `0b` in alternate mode.
pub fn fmt_binary(n: u128, is_alternate: bool) -> (r: Vec<u8>)
    ensures
        r@ == radix_text(n as nat, 2, 98, is_alternate),
{
    fmt_radix(n, 2, 98u8, is_alternate)
}

/// The hexadecimal digits of `n` (upper case), after `0x` in alternate mode.
pub fn fmt_hexadecimal(n: u128, is_alternate: bool) -> (r: Vec<u8>)
    ensures
        r@ == radix_text(n as nat, 16, 120, is_alternate),
{
    fmt_radix(n, 16, 120u8, is_alternate)
}

fn fmt_radix(n: u128, base: u128, prefix: u8, is_alternate: bool) -> (r: Vec<u8>)
    requires
        2 <= base <= 16,
    ensures
        r@ == radix_text(n as nat, base as nat, prefix, is_alternate),
{
    let mut out: Vec<u8> = Vec::new();
    if is_alternate {
        out.push(48u8);
        out.push(prefix);
    }
    push_digits(n, base, &mut out);
    proof {
        if is_alternate {
            assert(out@ =~= seq![48u8, prefix] + digits(n as nat, base as nat));
        } else {
            assert(Seq::<u8>::empty() + digits(n as nat, base as nat) =~= digits(n as nat, base as nat));
        }
    }
    out
}

proof fn lemma_pow10_values()
    ensures
        pow10(1) == 10,
        pow10(2) == 100,
        pow10(4) == 1_0000,
        pow10(8) == 1_0000_0000,
        pow10(12) == 1_0000_0000_0000,
        pow10(16) == 1_0000_0000_0000_0000,
{
    reveal_with_fuel(pow10, 17);
}

/// Strips `j` digits off `m` when it has more than `j`, counting them in `len`.
fn decimal_step(m: u128, len: usize, j: usize, p: u128) -> (res: (u128, usize))
    requires
        p as nat == pow10(j as nat),
        len + j <= 45,
    ensures
        res.1 <= len + j,
        m >= p ==> res.0 == m / p,
        m < p ==> res.0 == m,
        digits(m as nat, 10).len() + len == digits(res.0 as nat, 10).len() + res.1,
{
    proof { lemma_pow10_pos(j as nat); }
    if m >= p {
        proof { lemma_digits_len_div(m as nat, j as nat); }
        (m / p, len + j)
    } else {
        (m, len)
    }
}

/// The length of the decimal text, from digit-count thresholds.
pub fn compute_decimal_len(sign: Sign, n: u128) -> (r: usize)
    ensures
        r == decimal_text(sign, n as nat).len(),
        r <= 45,
{
    proof { lemma_pow10_values(); }
    let (m, len) = decimal_step(n, 1, 16, 1_0000_0000_0000_0000);
    let (m, len) = decimal_step(m, len, 12, 1_0000_0000_0000);
    let (m, len) = decimal_step(m, len, 8, 1_0000_0000);
    let (m, len) = decimal_step(m, len, 4, 1_0000);
    let (m, len) = decimal_step(m, len, 2, 100);
    let (m, len) = decimal_step(m, len, 1, 10);
    assert(m < 10);
    assert(digits(m as nat, 10).len() == 1);
    if sign == Sign::Negative {
        len + 1
    } else {
        len
    }
}

/// The number of digits of `n` in `base`, counted by repeated division.
pub fn radix_len(n: u128, base: u128) -> (r: usize)
    requires
        2 <= base <= 16,
    ensures
        r == digits(n as nat, base as nat).len(),
        r <= 128,
{
    proof {
        lemma_pow2_128();
        lemma_digits_len_bound(n as nat, base as nat, 128);
    }
    let mut m = n;
    let mut len: usize = 1;
    while m >= base
        invariant
            2 <= base <= 16,
            1 <= len,
            digits(n as nat, base as nat).len() == len - 1 + digits(m as nat, base as nat).len(),
            digits(n as nat, base as nat).len() <= 128,
        decreases m,
    {
        m = m / base;
        len = len + 1;
    }
    len
}

/// `2^bits` for `bits` below 128.
fn pow2_u128(bits: u8) -> (r: u128)
    requires
        bits < 128,
    ensures
        r == pow2(bits as nat),
{
    proof { lemma_pow2_128(); }
    let mut r: u128 = 1;
    let mut i: u8 = 0;
    proof { lemma2_to64(); }
    while i < bits
        invariant
            i <= bits < 128,
            r == pow2(i as nat),
            pow2(128) == u128::MAX + 1,
        decreases bits - i,
    {
        proof {
            lemma_pow2_unfold((i + 1) as nat);
            vstd::arithmetic::power2::lemma_pow2_strictly_increases((i + 1) as nat, 128);
        }
        r = r * 2;
        i = i + 1;
    }
    r
}

/// The bit pattern that binary and hexadecimal show for a signed magnitude.
pub fn apply_mask(sign: Sign, n: u128, bits: u8) -> (r: u128)
    requires
        1 <= bits <= 128,
    ensures
        r == masked(sign, n as nat, bits as nat),
{
    match sign {
        Sign::Positive => n,
        Sign::Negative => {
            if bits == 128 {
                proof { lemma_pow2_128(); }
                if n == 0 {
                    0
                } else {
                    u128::MAX - n + 1
                }
            } else {
                let m = pow2_u128(bits);
                proof { lemma_pow2_pos(bits as nat); }
                let low = n % m;
                (m - low) % m
            }
        }
    }
}

/// Bits of a negative magnitude that fits the signed type of that width show
/// as exactly `bits` binary digits, whose value is the two's complement.
pub proof fn lemma_negative_binary(n: nat, bits: nat)
    requires
        1 <= bits <= 128,
        1 <= n <= pow2((bits - 1) as nat),
    ensures
        masked(Sign::Negative, n, bits) == pow2(bits) - n,
        digits(masked(Sign::Negative, n, bits), 2).len() == bits,
        value_of(digits(masked(Sign::Negative, n, bits), 2), 2) == pow2(bits) - n,
        value_of(digits(masked(Sign::Negative, n, bits), 16), 16) == pow2(bits) - n,
{
    lemma_pow2_unfold(bits);
    let p = pow2(bits);
    assert(n < p);
    lemma_small_mod(n, p);
    lemma_small_mod((p - n) as nat, p);
    lemma2_to64();
    if bits > 1 {
        lemma_pow2_unfold((bits - 1) as nat);
    }
    assert(pow2((bits - 1) as nat) <= p - n);
    lemma_digits_value((p - n) as nat, 2);
    lemma_digits_value((p - n) as nat, 16);
    lemma_bits_len((p - n) as nat, bits);
}

/// The hexadecimal text of a negative magnitude that fits the signed type
/// of `bits` bits has `ceil(bits / 4)` digits.
pub proof fn lemma_negative_hex_len(n: nat, bits: nat)
    requires
        1 <= bits <= 128,
        1 <= n <= pow2((bits - 1) as nat),
    ensures
        digits(masked(Sign::Negative, n, bits), 16).len() == (bits + 3) / 4,
{
    lemma_negative_binary(n, bits);
    let v = (pow2(bits) - n) as nat;
    let k = (bits + 3) / 4;
    lemma_pow2_unfold(bits);
    assert(pow2((bits - 1) as nat) <= v < pow2(bits));
    if 4 * (k - 1) < bits - 1 {
        vstd::arithmetic::power2::lemma_pow2_strictly_increases((4 * (k - 1)) as nat, (bits - 1) as nat);
    }
    if bits < 4 * k {
        vstd::arithmetic::power2::lemma_pow2_strictly_increases(bits, 4 * k);
    }
    lemma_hex_len(v, k);
}

/// A number in `[2^(4(k-1)), 2^(4k))` has exactly `k` hexadecimal digits.
proof fn lemma_hex_len(v: nat, k: nat)
    requires
        1 <= k,
        pow2((4 * (k - 1)) as nat) <= v < pow2(4 * k),
    ensures
        digits(v, 16).len() == k,
    decreases k,
{
    lemma2_to64();
    lemma_pow2_adds((4 * (k - 1)) as nat, 4);
    if k == 1 {
        assert(v < 16);
    } else {
        lemma_pow2_adds((4 * (k - 2)) as nat, 4);
        assert(pow2((4 * (k - 2)) as nat) <= v / 16 < pow2((4 * (k - 1)) as nat)) by (nonlinear_arith)
            requires
                pow2((4 * (k - 2)) as nat) * 16 <= v < pow2((4 * (k - 1)) as nat) * 16;
        lemma_hex_len(v / 16, (k - 1) as nat);
    }
}

/// A number in `[2^(k-1), 2^k)` has exactly `k` binary digits.
proof fn lemma_bits_len(v: nat, k: nat)
    requires
        1 <= k,
        pow2((k - 1) as nat) <= v < pow2(k),
    ensures
        digits(v, 2).len() == k,
    decreases k,
{
    lemma_pow2_unfold(k);
    if k == 1 {
        assert(pow2(0) == 1) by { lemma2_to64(); }
    } else {
        lemma_pow2_unfold((k - 1) as nat);
        assert(pow2((k - 2) as nat) <= v / 2 < pow2((k - 1) as nat)) by (nonlinear_arith)
            requires
                2 * pow2((k - 2) as nat) <= v < 2 * pow2((k - 1) as nat);
        lemma_bits_len(v / 2, (k - 1) as nat);
    }
}

} // verus!
