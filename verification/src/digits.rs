//! Numbers written out as ASCII digits.

use vstd::prelude::*;

verus! {

/// The ASCII code of the digit `d`, for `d` below 16: `0` to `9`, then `a` to
/// `f`.
pub open spec fn digit_char(d: int) -> u8 {
    if d < 10 {
        (48 + d) as u8
    } else {
        (87 + d) as u8
    }
}

/// The last `width` digits of `value` in base `base`, most significant first,
/// with leading zeros.
pub open spec fn fixed_digits(value: int, base: int, width: nat) -> Seq<u8>
    decreases width,
{
    if width == 0 {
        Seq::empty()
    } else {
        fixed_digits(value / base, base, (width - 1) as nat).push(digit_char(value % base))
    }
}

/// The number of decimal digits of `value`; 1 for 0.
pub open spec fn decimal_len(value: int) -> nat
    decreases value,
{
    if value < 10 {
        1
    } else {
        decimal_len(value / 10) + 1
    }
}

/// `value` in decimal, padded with zeros to at least `width` digits.
pub open spec fn decimal(value: int, width: nat) -> Seq<u8> {
    if decimal_len(value) > width {
        fixed_digits(value, 10, decimal_len(value))
    } else {
        fixed_digits(value, 10, width)
    }
}

/// `value` in hexadecimal with lower-case letters, as sixteen digits.
pub open spec fn hex16(value: u64) -> Seq<u8> {
    fixed_digits(value as int, 16, 16)
}

/// The number that the ASCII digit `c` stands for.
pub open spec fn digit_value(c: u8) -> int {
    if c < 58 {
        c - 48
    } else {
        c - 87
    }
}

/// `base` to the power `n`.
pub open spec fn power(base: int, n: nat) -> int
    decreases n,
{
    if n == 0 {
        1
    } else {
        base * power(base, (n - 1) as nat)
    }
}

/// The number that the digits `s` stand for in base `base`.
pub open spec fn value_of_digits(s: Seq<u8>, base: int) -> int
    decreases s.len(),
{
    if s.len() == 0 {
        0
    } else {
        value_of_digits(s.drop_last(), base) * base + digit_value(s.last())
    }
}

/// The digits that `fixed_digits` gives stand for the value they were made
/// of, cut to as many digits as were asked for.
pub proof fn fixed_digits_denote(value: int, base: int, width: nat)
    requires
        0 <= value,
        2 <= base <= 16,
    ensures
        power(base, width) > 0,
        value_of_digits(fixed_digits(value, base, width), base) == value % power(base, width),
    decreases width,
{
    if width > 0 {
        let rest = (width - 1) as nat;
        fixed_digits_denote(value / base, base, rest);
        let front = fixed_digits(value / base, base, rest);
        let digits = fixed_digits(value, base, width);
        assert(digits.drop_last() =~= front);
        assert(digit_value(digit_char(value % base)) == value % base);
        vstd::arithmetic::div_mod::lemma_mod_breakdown(value, base, power(base, rest));
        assert(((value / base) % power(base, rest)) * base == base * ((value / base) % power(
            base,
            rest,
        ))) by (nonlinear_arith);
    }
}

/// A value is below ten to the number of its decimal digits.
pub proof fn lemma_decimal_len_bounds(value: int)
    requires
        0 <= value,
    ensures
        value < power(10, decimal_len(value)),
    decreases value,
{
    if value >= 10 {
        lemma_decimal_len_bounds(value / 10);
        let rest = power(10, decimal_len(value / 10));
        assert(power(10, decimal_len(value)) == 10 * rest);
        assert(value < 10 * (value / 10 + 1));
    } else {
        assert(power(10, 1) == 10) by {
            reveal_with_fuel(power, 2);
        }
    }
}

/// The digits of `decimal` stand for the value itself, whatever the width.
pub proof fn decimal_denotes(value: int, width: nat)
    requires
        0 <= value,
    ensures
        value_of_digits(decimal(value, width), 10) == value,
{
    let n = if decimal_len(value) > width {
        decimal_len(value)
    } else {
        width
    };
    fixed_digits_denote(value, 10, n);
    lemma_decimal_len_bounds(value);
    lemma_power_grows(10, decimal_len(value), n);
    vstd::arithmetic::div_mod::lemma_small_mod(value as nat, power(10, n) as nat);
}

/// A power of a base of at least 1 does not fall as the exponent grows.
proof fn lemma_power_grows(base: int, low: nat, high: nat)
    requires
        1 <= base,
        low <= high,
    ensures
        0 < power(base, low) <= power(base, high),
    decreases high,
{
    if low < high {
        lemma_power_grows(base, low, (high - 1) as nat);
        let p = power(base, (high - 1) as nat);
        assert(p <= base * p) by (nonlinear_arith)
            requires
                1 <= base,
                0 < p,
        ;
    } else {
        lemma_power_positive(base, low);
    }
}

/// A power of a positive base is positive.
proof fn lemma_power_positive(base: int, n: nat)
    requires
        1 <= base,
    ensures
        0 < power(base, n),
    decreases n,
{
    if n > 0 {
        lemma_power_positive(base, (n - 1) as nat);
        let p = power(base, (n - 1) as nat);
        assert(0 < base * p) by (nonlinear_arith)
            requires
                1 <= base,
                0 < p,
        ;
    }
}

/// `fixed_digits` gives as many digits as asked for.
pub proof fn lemma_fixed_digits_len(value: int, base: int, width: nat)
    ensures
        fixed_digits(value, base, width).len() == width,
    decreases width,
{
    if width > 0 {
        lemma_fixed_digits_len(value / base, base, (width - 1) as nat);
    }
}

/// The ASCII code of the digit `d`.
fn digit(d: u64) -> (c: u8)
    requires
        d < 16,
    ensures
        c == digit_char(d as int),
{
    if d < 10 {
        (48 + d) as u8
    } else {
        (87 + d) as u8
    }
}

/// The number of decimal digits of `value`.
pub fn count_decimal_digits(value: u64) -> (n: usize)
    ensures
        n == decimal_len(value as int),
        1 <= n <= 20,
{
    let mut n: usize = 1;
    let mut rest = value;
    while rest >= 10
        invariant
            1 <= n <= 20,
            decimal_len(value as int) == decimal_len(rest as int) + n - 1,
            rest * power(10, (n - 1) as nat) <= value,
        decreases rest,
    {
        proof {
            let below = power(10, (n - 1) as nat);
            lemma_power_positive(10, (n - 1) as nat);
            assert(power(10, n as nat) == 10 * below);
            assert(rest / 10 * (10 * below) <= rest * below) by (nonlinear_arith)
                requires
                    below > 0,
                    rest >= 0,
            ;
            if n == 20 {
                assert(power(10, 20) == 100_000_000_000_000_000_000int) by {
                    reveal_with_fuel(power, 21);
                }
                assert(1 * power(10, 20) <= rest / 10 * power(10, 20)) by (nonlinear_arith)
                    requires
                        rest / 10 >= 1,
                        power(10, 20) > 0,
                ;
            }
        }
        rest = rest / 10;
        n += 1;
    }
    n
}

/// Appends the last `width` digits of `value` in base `base` to `out`.
pub(crate) fn push_fixed_digits(out: &mut Vec<u8>, value: u64, base: u64, width: usize)
    requires
        base == 10 || base == 16,
    ensures
        final(out)@ == old(out)@ + fixed_digits(value as int, base as int, width as nat),
{
    let start = out.len();
    let mut k: usize = 0;
    // The digits are found from the least significant on, so each is put in
    // before those found so far.
    let mut rest = value;
    while k < width
        invariant
            base == 10 || base == 16,
            k <= width,
            start == old(out)@.len(),
            out@.len() == start + k,
            out@.subrange(0, start as int) == old(out)@,
            fixed_digits(value as int, base as int, width as nat) == fixed_digits(
                rest as int,
                base as int,
                (width - k) as nat,
            ) + out@.subrange(start as int, start + k),
        decreases width - k,
    {
        let c = digit(rest % base);
        proof {
            let tail = out@.subrange(start as int, start + k);
            let front = fixed_digits((rest / base) as int, base as int, (width - k - 1) as nat);
            assert(fixed_digits(rest as int, base as int, (width - k) as nat) == front.push(c));
            assert(front.push(c) + tail =~= front + seq![c].add(tail));
            assert(out@.insert(start as int, c).subrange(start as int, start + k + 1)
                =~= seq![c].add(tail));
            assert(out@.insert(start as int, c).subrange(0, start as int) =~= out@.subrange(
                0,
                start as int,
            ));
        }
        out.insert(start, c);
        rest = rest / base;
        k += 1;
    }
    proof {
        assert(fixed_digits(rest as int, base as int, 0) =~= Seq::<u8>::empty());
        assert(out@ =~= out@.subrange(0, start as int) + out@.subrange(
            start as int,
            start + width,
        ));
    }
}

/// Appends `value` in decimal to `out`, padded with zeros to at least `width`
/// digits.
pub fn push_decimal(out: &mut Vec<u8>, value: u64, width: usize)
    ensures
        final(out)@ == old(out)@ + decimal(value as int, width as nat),
{
    let needed = count_decimal_digits(value);
    if needed > width {
        push_fixed_digits(out, value, 10, needed);
    } else {
        push_fixed_digits(out, value, 10, width);
    }
}

/// Appends `value` as sixteen hexadecimal digits to `out`.
pub fn push_hex16(out: &mut Vec<u8>, value: u64)
    ensures
        final(out)@ == old(out)@ + hex16(value),
{
    push_fixed_digits(out, value, 16, 16);
}

/// Appends the bytes of `text` to `out`.
pub fn push_bytes(out: &mut Vec<u8>, text: &[u8])
    ensures
        final(out)@ == old(out)@ + text@,
{
    let n = text.len();
    let mut i: usize = 0;
    while i < n
        invariant
            n == text@.len(),
            i <= n,
            out@ == old(out)@ + text@.subrange(0, i as int),
        decreases n - i,
    {
        proof {
            assert(text@.subrange(0, i + 1) =~= text@.subrange(0, i as int).push(text@[i as int]));
        }
        out.push(text[i]);
        i += 1;
    }
    proof {
        assert(text@.subrange(0, n as int) =~= text@);
    }
}

} // verus!
