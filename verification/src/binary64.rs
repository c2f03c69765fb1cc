//! Rounding to the 53 significant binary digits of an IEEE 754 double, carried out on integers.
//!
//! A few figures shown to the user were worked out by the float arithmetic of `f64`, and the
//! digits printed depend on where that arithmetic rounds. Every such value here is at least 1,
//! so it is a whole multiple of 2^-52; it is held as that multiple, an integer. Rounding a
//! positive quotient `num / den` (both already in units of 2^-52) to the nearest double is
//! then rounding it to a multiple of the power of two that leaves 53 significant bits, halves
//! going to the even multiple, which is what `f64` division, `as f64` and the like do.

use vstd::arithmetic::power2::{
    lemma2_to64, lemma2_to64_rest, lemma_pow2_adds, lemma_pow2_pos, lemma_pow2_strictly_increases,
    lemma_pow2_unfold, pow2,
};
use vstd::prelude::*;

verus! {

/// The number of binary digits of `n`: 0 for 0.
pub open spec fn bitlen(n: nat) -> nat
    decreases n,
{
    if n == 0 {
        0
    } else {
        1 + bitlen(n / 2)
    }
}

/// `num / den` rounded to the nearest whole number, halves to the even one.
pub open spec fn round_half_even(num: nat, den: nat) -> nat {
    let q = num / den;
    let r = num % den;
    if 2 * r > den {
        q + 1
    } else if 2 * r < den {
        q
    } else if q % 2 == 0 {
        q
    } else {
        q + 1
    }
}

/// How many low binary digits of `num / den` fall outside 53 significant ones.
pub open spec fn dropped_bits(num: nat, den: nat) -> nat {
    if bitlen(num / den) > 53 {
        (bitlen(num / den) - 53) as nat
    } else {
        0
    }
}

/// `num / den` rounded to 53 significant binary digits, halves to an even last digit. When
/// `num / den` is at least 2^52, this is the nearest double, in units of 2^-52.
pub open spec fn round53(num: nat, den: nat) -> nat {
    let s = dropped_bits(num, den);
    round_half_even(num, den * pow2(s)) * pow2(s)
}

/// 1 in units of 2^-52.
pub open spec fn one() -> nat {
    pow2(52)
}

pub proof fn lemma_pow2_le(a: nat, b: nat)
    requires
        a <= b,
    ensures
        pow2(a) <= pow2(b),
{
    if a < b {
        lemma_pow2_strictly_increases(a, b);
    }
}

/// `n` has `bitlen(n)` binary digits.
pub proof fn lemma_bitlen(n: nat)
    requires
        n > 0,
    ensures
        pow2((bitlen(n) - 1) as nat) <= n < pow2(bitlen(n)),
    decreases n,
{
    if n == 1 {
        lemma2_to64();
        assert(bitlen(0) == 0);
    } else {
        lemma_bitlen(n / 2);
        let k = bitlen(n / 2);
        lemma_pow2_unfold(k + 1);
        if k > 0 {
            lemma_pow2_unfold(k);
        }
        assert(bitlen(n) == k + 1);
    }
}

/// A number below 2^k has at most k binary digits.
pub proof fn lemma_bitlen_below(n: nat, k: nat)
    requires
        n < pow2(k),
    ensures
        bitlen(n) <= k,
{
    if n > 0 && bitlen(n) > k {
        lemma_bitlen(n);
        lemma_pow2_le(k, (bitlen(n) - 1) as nat);
    }
}

/// Facts about 2^52 and 2^128 that bounds need.
pub proof fn lemma_powers()
    ensures
        pow2(52) == 0x10000000000000,
        pow2(64) == 0x10000000000000000,
        pow2(128) == 0x10000000000000000 * 0x10000000000000000,
{
    lemma2_to64();
    lemma2_to64_rest();
    lemma_pow2_adds(64, 64);
}

/// `g` (a 54-digit binary number) rounded to its first 53 digits: the last digit is the guard;
/// a set guard rounds up when anything lies below it (`sticky`) or the kept part is odd.
pub open spec fn guard_round(g: nat, sticky: bool) -> nat {
    let t = g / 2;
    if g % 2 == 1 && (sticky || t % 2 == 1) {
        t + 1
    } else {
        t
    }
}

/// Dividing by a common factor.
pub proof fn lemma_cancel(a: nat, b: nat, c: nat)
    requires
        b > 0,
        c > 0,
    ensures
        (a * c) / (b * c) == a / b,
        (a * c) % (b * c) == (a % b) * c,
{
    vstd::arithmetic::div_mod::lemma_fundamental_div_mod(a as int, b as int);
    vstd::arithmetic::div_mod::lemma_mod_pos_bound(a as int, b as int);
    let q = a / b;
    let r = a % b;
    assert(a * c == q * (b * c) + r * c) by (nonlinear_arith)
        requires
            a == b * q + r,
    ;
    assert(r * c < b * c) by (nonlinear_arith)
        requires
            r < b,
            c > 0,
    ;
    assert(b * c > 0) by (nonlinear_arith)
        requires
            b > 0,
            c > 0,
    ;
    vstd::arithmetic::div_mod::lemma_fundamental_div_mod_converse((a * c) as int, (b * c) as int, q as int, (r * c) as int);
}

/// Rounding to whole numbers does not change when both sides are multiplied alike.
pub proof fn lemma_round_half_even_cancel(a: nat, b: nat, c: nat)
    requires
        b > 0,
        c > 0,
    ensures
        round_half_even(a * c, b * c) == round_half_even(a, b),
{
    lemma_cancel(a, b, c);
    let r = a % b;
    assert((2 * r > b) == (2 * (r * c) > b * c)) by (nonlinear_arith)
        requires
            c > 0,
    ;
    assert((2 * r < b) == (2 * (r * c) < b * c)) by (nonlinear_arith)
        requires
            c > 0,
    ;
}

proof fn lemma_bitlen_exact(n: nat, a: nat)
    requires
        pow2(a) <= n < pow2(a + 1),
    ensures
        bitlen(n) == a + 1,
{
    lemma_pow2_pos(a);
    lemma_bitlen(n);
    if bitlen(n) > a + 1 {
        lemma_pow2_le(a + 1, (bitlen(n) - 1) as nat);
    }
    if bitlen(n) < a + 1 {
        lemma_pow2_le(bitlen(n), a);
    }
}

/// Rounding a quotient whose first 54 binary digits are known: when `num / (den * 2^c)` has 54
/// digits, the nearest double drops `c + 1` digits and is decided by that quotient and by
/// whether anything was left over.
pub proof fn lemma_round53_by_guard(num: nat, den: nat, c: nat)
    requires
        den > 0,
        pow2(53) <= num / (den * pow2(c)) < pow2(54),
    ensures
        dropped_bits(num, den) == c + 1,
        round53(num, den) == guard_round(num / (den * pow2(c)), num % (den * pow2(c)) != 0) * pow2(c + 1),
{
    lemma_pow2_pos(c);
    let p = pow2(c);
    let e = den * p;
    assert(e > 0) by (nonlinear_arith)
        requires
            den > 0,
            p > 0,
            e == den * p,
    ;
    let g = num / e;
    let r1 = num % e;
    let q = num / den;
    vstd::arithmetic::div_mod::lemma_div_denominator(num as int, den as int, p as int);
    assert(g == q / p);
    vstd::arithmetic::div_mod::lemma_fundamental_div_mod(q as int, p as int);
    vstd::arithmetic::div_mod::lemma_mod_pos_bound(q as int, p as int);
    lemma_pow2_adds(53, c);
    lemma_pow2_adds(54, c);
    assert(q >= pow2(53) * p) by (nonlinear_arith)
        requires
            q == p * g + q % p,
            q % p >= 0,
            g >= pow2(53),
            p > 0,
    ;
    assert(q < pow2(54) * p) by (nonlinear_arith)
        requires
            q == p * g + q % p,
            q % p < p,
            g + 1 <= pow2(54),
            p > 0,
    ;
    assert(pow2(53 + c) == pow2(53) * p);
    assert(pow2((53 + c) + 1) == pow2(54) * p);
    lemma_bitlen_exact(q, 53 + c);
    assert(dropped_bits(num, den) == c + 1);
    lemma_pow2_unfold(c + 1);
    let d = den * pow2(c + 1);
    assert(d == 2 * e) by (nonlinear_arith)
        requires
            pow2(c + 1) == 2 * p,
            e == den * p,
            d == den * pow2(c + 1),
    ;
    vstd::arithmetic::div_mod::lemma_fundamental_div_mod(num as int, e as int);
    vstd::arithmetic::div_mod::lemma_mod_pos_bound(num as int, e as int);
    let h = g / 2;
    let b = g % 2;
    assert(num == h * d + (b * e + r1)) by (nonlinear_arith)
        requires
            num == e * g + r1,
            g == 2 * h + b,
            d == 2 * e,
    ;
    assert(b * e + r1 < d) by (nonlinear_arith)
        requires
            b <= 1,
            r1 < e,
            d == 2 * e,
    ;
    vstd::arithmetic::div_mod::lemma_fundamental_div_mod_converse(num as int, d as int, h as int, (b * e + r1) as int);
    assert(num / d == h);
    assert(num % d == b * e + r1);
    if b == 0 {
        assert(b * e == 0) by (nonlinear_arith)
            requires
                b == 0,
        ;
        assert(num % d == r1);
        assert(2 * (num % d) < d);
    } else {
        assert(b == 1);
        assert(b * e == e) by (nonlinear_arith)
            requires
                b == 1,
        ;
        assert(num % d == e + r1);
    }
}

/// Rounding to 53 digits commutes with a power of two.
pub proof fn lemma_round53_shift(a: nat, u: nat)
    requires
        a >= pow2(52),
    ensures
        round53(a * pow2(u), 1) == round53(a, 1) * pow2(u),
        round53(a, 1) >= pow2(52),
{
    lemma_pow2_pos(u);
    lemma_pow2_pos(52);
    let f = pow2(u);
    lemma_bitlen(a);
    let bl = bitlen(a);
    if bl < 53 {
        lemma_pow2_le(bl, 52);
    }
    assert(bl >= 53);
    let s = (bl - 53) as nat;
    assert(a / 1 == a);
    assert(dropped_bits(a, 1) == s);
    lemma_pow2_adds((bl - 1) as nat, u);
    lemma_pow2_adds(bl, u);
    assert(a * f >= pow2((bl - 1) as nat) * f) by (nonlinear_arith)
        requires
            a >= pow2((bl - 1) as nat),
            f > 0,
    ;
    assert(a * f < pow2(bl) * f) by (nonlinear_arith)
        requires
            a < pow2(bl),
            f > 0,
    ;
    assert(((bl - 1) as nat + u) + 1 == bl + u);
    lemma_bitlen_exact(a * f, ((bl - 1) as nat + u) as nat);
    assert((a * f) / 1 == a * f);
    assert(dropped_bits(a * f, 1) == s + u);
    lemma_pow2_pos(s);
    lemma_pow2_adds(s, u);
    assert(1 * pow2(s + u) == pow2(s) * f);
    assert(1 * pow2(s) == pow2(s));
    lemma_round_half_even_cancel(a, pow2(s), f);
    assert(round53(a * f, 1) == round_half_even(a, pow2(s)) * (pow2(s) * f));
    assert(round53(a, 1) == round_half_even(a, pow2(s)) * pow2(s));
    assert(round_half_even(a, pow2(s)) * (pow2(s) * f) == round_half_even(a, pow2(s)) * pow2(s) * f) by (nonlinear_arith);
    // at least 2^52
    lemma_pow2_adds(52, s);
    assert(pow2((bl - 1) as nat) == pow2(52) * pow2(s));
    assert(a / pow2(s) >= pow2(52)) by {
        vstd::arithmetic::div_mod::lemma_div_is_ordered((pow2(52) * pow2(s)) as int, a as int, pow2(s) as int);
        vstd::arithmetic::div_mod::lemma_div_by_multiple(pow2(52) as int, pow2(s) as int);
    }
    assert(round_half_even(a, pow2(s)) >= a / pow2(s));
    assert(round_half_even(a, pow2(s)) * pow2(s) >= pow2(52)) by (nonlinear_arith)
        requires
            round_half_even(a, pow2(s)) >= pow2(52),
            pow2(s) >= 1,
    ;
}

/// The binary digits of `n` (`128 - n.leading_zeros()`).
pub fn bit_length(n: u128) -> (r: u32)
    ensures
        r == bitlen(n as nat),
        r <= 128,
{
    proof {
        lemma_powers();
        lemma_bitlen_below(n as nat, 128);
    }
    let mut x: u128 = n;
    let mut c: u32 = 0;
    while x > 0
        invariant
            bitlen(n as nat) == c + bitlen(x as nat),
            bitlen(n as nat) <= 128,
        decreases x,
    {
        assert(bitlen(x as nat) == 1 + bitlen((x / 2) as nat));
        x = x / 2;
        c = c + 1;
    }
    c
}

/// 2^s.
pub fn pow2_of(s: u32) -> (r: u128)
    requires
        s < 128,
    ensures
        r == pow2(s as nat),
{
    proof {
        lemma_powers();
        lemma2_to64();
    }
    let mut r: u128 = 1;
    let mut i: u32 = 0;
    while i < s
        invariant
            i <= s < 128,
            r == pow2(i as nat),
            pow2(128) == 0x10000000000000000 * 0x10000000000000000,
        decreases s - i,
    {
        proof {
            lemma_pow2_unfold((i + 1) as nat);
            lemma_pow2_le((i + 1) as nat, 127);
            lemma_pow2_unfold(128);
        }
        r = r * 2;
        i = i + 1;
    }
    r
}

/// `num / den` rounded to the nearest whole number, halves to the even one.
pub fn round_half_even_of(num: u128, den: u128) -> (r: u128)
    requires
        den > 0,
        den <= 0x8000_0000_0000_0000_0000_0000_0000_0000u128,
        num < u128::MAX,
    ensures
        r == round_half_even(num as nat, den as nat),
        num / den <= r <= num / den + 1,
{
    let q = num / den;
    let rem = num % den;
    if rem > den - rem {
        q + 1
    } else if rem < den - rem {
        q
    } else if q % 2 == 0 {
        q
    } else {
        q + 1
    }
}

proof fn lemma_floor_scaled(num: nat, den: nat, p: nat)
    requires
        den > 0,
        p > 0,
    ensures
        (num / (den * p)) * p <= num / den,
        num / (den * p) == (num / den) / p,
{
    assert(den * p > 0) by (nonlinear_arith)
        requires
            den > 0,
            p > 0,
    ;
    vstd::arithmetic::div_mod::lemma_div_denominator(num as int, den as int, p as int);
    let a = (num / den) as int;
    vstd::arithmetic::div_mod::lemma_fundamental_div_mod(a, p as int);
    vstd::arithmetic::div_mod::lemma_mod_pos_bound(a, p as int);
    vstd::arithmetic::mul::lemma_mul_is_commutative(p as int, a / (p as int));
}

/// `num / den` rounded to 53 significant binary digits, halves to an even last digit.
pub fn round53_of(num: u128, den: u128) -> (r: u128)
    requires
        0 < den <= 1024,
        num / den >= pow2(52),
        num < pow2(118),
    ensures
        r == round53(num as nat, den as nat),
        r <= 2 * (num / den),
        r >= pow2(52),
{
    proof {
        lemma_powers();
        lemma_pow2_pos(118);
        lemma_pow2_le(118, 127);
        lemma_pow2_unfold(128);
    }
    let q = num / den;
    let l = bit_length(q);
    proof {
        lemma_bitlen(q as nat);
        lemma_bitlen_below(q as nat, 118);
        if l <= 52 {
            lemma_pow2_le(l as nat, 52);
        }
    }
    let s: u32 = if l > 53 { l - 53 } else { 0 };
    assert(s == dropped_bits(num as nat, den as nat));
    let p = pow2_of(s);
    proof {
        lemma_pow2_pos(s as nat);
        lemma_pow2_le(s as nat, 65);
        lemma_pow2_le(s as nat, (l - 1) as nat);
        lemma_pow2_unfold(65);
        lemma2_to64();
        assert(den * p <= 1024 * pow2(65)) by (nonlinear_arith)
            requires
                den <= 1024,
                p <= pow2(65),
        ;
        lemma_floor_scaled(num as nat, den as nat, p as nat);
        assert(den * p >= den) by (nonlinear_arith)
            requires
                p >= 1,
        ;
    }
    let d = den * p;
    let m = round_half_even_of(num, d);
    assert(p <= q) by {
        if s == 0 {
            lemma2_to64();
        }
    }
    proof {
        assert(m * p <= q + p) by (nonlinear_arith)
            requires
                m <= num / d + 1,
                (num / d) * p <= q,
        ;
        if s == 0 {
            assert(q * 1 >= pow2(52));
            assert(m >= q) by {
                lemma2_to64();
                assert(p == 1);
                assert(d == den * 1);
            }
        } else {
            assert(pow2((l - 1) as nat) == pow2(52) * pow2(s as nat)) by {
                lemma_pow2_adds(52, s as nat);
            }
            assert((num / d) * p >= pow2(52) * p) by (nonlinear_arith)
                requires
                    num / d == q / p,
                    q >= pow2(52) * p,
                    p > 0,
            {
                assert((pow2(52) * (p as nat)) / (p as nat) == pow2(52)) by (nonlinear_arith)
                    requires
                        p > 0,
                ;
                vstd::arithmetic::div_mod::lemma_div_is_ordered((pow2(52) * p) as int, q as int, p as int);
            }
            assert(m * p >= pow2(52)) by (nonlinear_arith)
                requires
                    m >= num / d,
                    (num / d) * p >= pow2(52) * p,
                    p >= 1,
            ;
        }
    }
    assert(m * p <= 2 * q);
    m * p
}

} // verus!
