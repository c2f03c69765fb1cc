//! Reading Docker's output.
//!
//! `docker system df` reports sizes as human strings (`12.4GB`, `947.5kB`), not bytes, so they
//! have to be read back. Docker uses SI units, which is what Prune displays too.
//!
//! Everything here is forgiving: a size that cannot be read counts as nothing, and an
//! unrecognised row is skipped rather than failing the whole reading.

use vstd::arithmetic::power2::{lemma2_to64, lemma_pow2_adds, lemma_pow2_pos, lemma_pow2_strictly_increases, pow2};
use vstd::prelude::*;

use crate::binary64::{
    bit_length, bitlen, guard_round, lemma_bitlen, lemma_cancel, lemma_pow2_le, lemma_powers, lemma_round53_by_guard,
    lemma_round53_shift, pow2_of, round53, round53_of,
};

use crate::text::{
    ascii_lower, chars_of, find_pattern, first_occurrence, lower_seq, occurs_at, string_of_range,
    trim_bounds, trim_seq,
};

verus! {

pub open spec fn is_digit(c: char) -> bool {
    '0' <= c <= '9'
}

/// A character that can belong to the number at the front of a size.
pub open spec fn number_char(c: char) -> bool {
    is_digit(c) || c == '.'
}

pub open spec fn digit_val(c: char) -> nat {
    (c as int - '0' as int) as nat
}

/// The value of a run of decimal digits.
pub open spec fn digits_value(s: Seq<char>) -> nat
    decreases s.len(),
{
    if s.len() == 0 {
        0
    } else {
        digits_value(s.drop_last()) * 10 + digit_val(s.last())
    }
}

pub open spec fn pow10(n: nat) -> nat
    decreases n,
{
    if n == 0 {
        1
    } else {
        10 * pow10((n - 1) as nat)
    }
}

/// Whether `e` is where the leading run of digits and dots in `t` ends.
pub open spec fn is_number_end(t: Seq<char>, e: int) -> bool {
    &&& 0 <= e <= t.len()
    &&& forall|k: int| 0 <= k < e ==> number_char(#[trigger] t[k])
    &&& e == t.len() || !number_char(t[e])
}

/// Where the leading run of digits and dots ends.
pub open spec fn number_end(t: Seq<char>) -> int {
    choose|e: int| is_number_end(t, e)
}

/// Whether a run of digits and dots is a number `f64::from_str` reads: at most one dot and at
/// least one digit.
pub open spec fn valid_number(num: Seq<char>) -> bool {
    match first_occurrence(num, seq!['.']) {
        None => num.len() > 0,
        Some(d) => first_occurrence(num.subrange(d + 1, num.len() as int), seq!['.']) is None
            && num.len() > 1,
    }
}

/// The digits before the dot.
pub open spec fn whole_digits(num: Seq<char>) -> Seq<char> {
    match first_occurrence(num, seq!['.']) {
        None => num,
        Some(d) => num.subrange(0, d),
    }
}

/// The digits after the dot.
pub open spec fn fraction_digits(num: Seq<char>) -> Seq<char> {
    match first_occurrence(num, seq!['.']) {
        None => Seq::empty(),
        Some(d) => num.subrange(d + 1, num.len() as int),
    }
}

/// Bytes per unit, for the units Docker prints (and the binary ones, should it ever print them).
pub open spec fn multiplier(u: Seq<char>) -> Option<nat> {
    if u.len() == 0 || u == seq!['b'] {
        Some(1)
    } else if u == seq!['k', 'b'] {
        Some(1_000)
    } else if u == seq!['m', 'b'] {
        Some(1_000_000)
    } else if u == seq!['g', 'b'] {
        Some(1_000_000_000)
    } else if u == seq!['t', 'b'] {
        Some(1_000_000_000_000)
    } else if u == seq!['p', 'b'] {
        Some(1_000_000_000_000_000)
    } else if u == seq!['k', 'i', 'b'] {
        Some(1024)
    } else if u == seq!['m', 'i', 'b'] {
        Some(1024 * 1024)
    } else if u == seq!['g', 'i', 'b'] {
        Some(1024 * 1024 * 1024)
    } else if u == seq!['t', 'i', 'b'] {
        Some(1024 * 1024 * 1024 * 1024)
    } else {
        None
    }
}

pub open spec fn saturate(n: nat) -> nat {
    if n > u64::MAX {
        u64::MAX as nat
    } else {
        n
    }
}

/// What `parse_size` reads out of `text`: the number read as an `f64`, times its unit in
/// `f64` arithmetic, cast to whole bytes (rounded down, capped at `u64::MAX`); 0 when the
/// number or the unit cannot be read.
pub open spec fn size_of_text(text: Seq<char>) -> nat {
    let t = trim_seq(text);
    let e = number_end(t);
    let num = t.subrange(0, e);
    let unit = lower_seq(trim_seq(t.subrange(e, t.len() as int)));
    if !valid_number(num) {
        0
    } else {
        match multiplier(unit) {
            None => 0,
            Some(m) => float_times(whole_digits(num), fraction_digits(num), m),
        }
    }
}

proof fn lemma_pow10_positive(n: nat)
    ensures
        pow10(n) >= 1,
    decreases n,
{
    if n > 0 {
        lemma_pow10_positive((n - 1) as nat);
    }
}

/// Reading a run of digits from the front: the first digit weighs `10^(len-1)`.
proof fn lemma_digits_front(s: Seq<char>)
    requires
        s.len() > 0,
    ensures
        digits_value(s) == digit_val(s[0]) * pow10((s.len() - 1) as nat) + digits_value(
            s.drop_first(),
        ),
    decreases s.len(),
{
    if s.len() == 1 {
        assert(s.drop_last().len() == 0);
        assert(s.drop_first().len() == 0);
        assert(s.last() == s[0]);
        assert(digits_value(s) == digits_value(s.drop_last()) * 10 + digit_val(s.last()));
        assert(pow10(0) == 1);
    } else {
        let a = s.drop_last();
        lemma_digits_front(a);
        assert(a.drop_first() == s.drop_first().drop_last());
        assert(s.drop_first().last() == s.last());
        assert(a[0] == s[0]);
        let d0 = digit_val(s[0]) as int;
        let p = pow10((a.len() - 1) as nat) as int;
        let mid = digits_value(a.drop_first()) as int;
        assert(pow10((s.len() - 1) as nat) == 10 * p);
        assert(digits_value(s) == digits_value(a) * 10 + digit_val(s.last()));
        assert(digits_value(s.drop_first()) == digits_value(s.drop_first().drop_last()) * 10
            + digit_val(s.drop_first().last()));
        assert((d0 * p + mid) * 10 == d0 * (10 * p) + mid * 10) by (nonlinear_arith);
    }
}

fn is_digit_char(c: char) -> (r: bool)
    ensures
        r == is_digit(c),
{
    '0' <= c && c <= '9'
}

fn digit_of(c: char) -> (r: u64)
    requires
        is_digit(c),
    ensures
        r == digit_val(c),
        r <= 9,
{
    (c as u32 - '0' as u32) as u64
}

fn multiplier_of(u: &[char]) -> (r: Option<u64>)
    ensures
        r matches Some(m) ==> multiplier(u@) == Some(m as nat) && 1 <= m <= 1_000_000_000_000_000,
        r is None ==> multiplier(u@) is None,
{
    let n = u.len();
    if n == 0 {
        return Some(1);
    }
    if n == 1 {
        if u[0] == 'b' {
            assert(u@ =~= seq!['b']);
            return Some(1);
        }
        return None;
    }
    if n == 2 && u[1] == 'b' {
        let c = u[0];
        if c == 'k' {
            assert(u@ =~= seq!['k', 'b']);
            return Some(1_000);
        } else if c == 'm' {
            assert(u@ =~= seq!['m', 'b']);
            return Some(1_000_000);
        } else if c == 'g' {
            assert(u@ =~= seq!['g', 'b']);
            return Some(1_000_000_000);
        } else if c == 't' {
            assert(u@ =~= seq!['t', 'b']);
            return Some(1_000_000_000_000);
        } else if c == 'p' {
            assert(u@ =~= seq!['p', 'b']);
            return Some(1_000_000_000_000_000);
        }
        return None;
    }
    if n == 3 && u[1] == 'i' && u[2] == 'b' {
        let c = u[0];
        if c == 'k' {
            assert(u@ =~= seq!['k', 'i', 'b']);
            return Some(1024);
        } else if c == 'm' {
            assert(u@ =~= seq!['m', 'i', 'b']);
            return Some(1024 * 1024);
        } else if c == 'g' {
            assert(u@ =~= seq!['g', 'i', 'b']);
            return Some(1024 * 1024 * 1024);
        } else if c == 't' {
            assert(u@ =~= seq!['t', 'i', 'b']);
            return Some(1024 * 1024 * 1024 * 1024);
        }
        return None;
    }
    None
}

/// The value of a run of digits, capped at `2^64`.
fn capped_digits(s: &[char]) -> (r: u128)
    requires
        forall|k: int| 0 <= k < s@.len() ==> is_digit(#[trigger] s@[k]),
    ensures
        r == if digits_value(s@) >= 0x1_0000_0000_0000_0000 {
            0x1_0000_0000_0000_0000
        } else {
            digits_value(s@)
        },
{
    let cap: u128 = 0x1_0000_0000_0000_0000;
    let mut w: u128 = 0;
    let mut i: usize = 0;
    while i < s.len()
        invariant
            i <= s@.len(),
            cap == 0x1_0000_0000_0000_0000,
            forall|k: int| 0 <= k < s@.len() ==> is_digit(#[trigger] s@[k]),
            w == if digits_value(s@.take(i as int)) >= cap {
                cap as nat
            } else {
                digits_value(s@.take(i as int))
            },
        decreases s@.len() - i,
    {
        let d = digit_of(s[i]);
        proof {
            assert(s@.take(i + 1).drop_last() == s@.take(i as int));
            assert(s@.take(i + 1).last() == s@[i as int]);
        }
        if w < cap {
            let nw = w * 10 + d as u128;
            if nw >= cap {
                w = cap;
            } else {
                w = nw;
            }
        }
        i = i + 1;
    }
    assert(s@.take(s@.len() as int) == s@);
    w
}

/// The whole and fractional digits of a run of digits and dots, or `None` where it is not a
/// number.
fn split_number(num: &[char]) -> (r: Option<(Vec<char>, Vec<char>)>)
    requires
        forall|k: int| 0 <= k < num@.len() ==> number_char(#[trigger] num@[k]),
    ensures
        r is None <==> !valid_number(num@),
        r matches Some((w, f)) ==> {
            &&& w@ == whole_digits(num@)
            &&& f@ == fraction_digits(num@)
            &&& forall|k: int| 0 <= k < w@.len() ==> is_digit(#[trigger] w@[k])
            &&& forall|k: int| 0 <= k < f@.len() ==> is_digit(#[trigger] f@[k])
        },
{
    let dot_pat: [char; 1] = ['.'];
    assert(dot_pat@ =~= seq!['.']);
    let dot = find_pattern(num, dot_pat.as_slice());
    match dot {
        None => {
            if num.len() == 0 {
                return None;
            }
            let w = string_of_range(num, 0, num.len());
            assert(num@.subrange(0, num@.len() as int) == num@);
            let wv = chars_of(w.as_str());
            assert forall|k: int| 0 <= k < wv@.len() implies is_digit(#[trigger] wv@[k]) by {
                assert(number_char(num@[k]));
                if num@[k] == '.' {
                    assert(num@.subrange(k, k + 1) =~= seq!['.']);
                    assert(occurs_at(num@, dot_pat@, k));
                }
            }
            Some((wv, Vec::new()))
        },
        Some(d) => {
            assert(occurs_at(num@, dot_pat@, d as int));
            assert(dot_pat@.len() == 1);
            assert(d + 1 <= num@.len());
            assert(num@.len() == num.len());
            let rest_s = string_of_range(num, d + 1, num.len());
            let rest = chars_of(rest_s.as_str());
            let second = find_pattern(rest.as_slice(), dot_pat.as_slice());
            if second.is_some() || num.len() <= 1 {
                return None;
            }
            let w = string_of_range(num, 0, d);
            let wv = chars_of(w.as_str());
            assert forall|k: int| 0 <= k < wv@.len() implies is_digit(#[trigger] wv@[k]) by {
                assert(number_char(num@[k]));
                if num@[k] == '.' {
                    assert(num@.subrange(k, k + 1) =~= seq!['.']);
                    assert(occurs_at(num@, dot_pat@, k));
                }
            }
            assert forall|k: int| 0 <= k < rest@.len() implies is_digit(#[trigger] rest@[k]) by {
                assert(rest@[k] == num@[d + 1 + k]);
                assert(number_char(num@[d + 1 + k]));
                if rest@[k] == '.' {
                    assert(rest@.subrange(k, k + 1) =~= seq!['.']);
                    assert(occurs_at(rest@, dot_pat@, k));
                }
            }
            Some((wv, rest))
        },
    }
}

proof fn lemma_number_end(t: Seq<char>, e: int)
    requires
        is_number_end(t, e),
    ensures
        number_end(t) == e,
{
    let c = number_end(t);
    assert(is_number_end(t, c));
    if c < e {
        assert(number_char(t[c]));
    }
    if c > e {
        assert(number_char(t[e]));
    }
}

/// The end of the leading number in `text[a..b]`.
fn number_end_in(text: &[char], a: usize, b: usize) -> (e: usize)
    requires
        a <= b <= text@.len(),
    ensures
        a <= e <= b,
        number_end(text@.subrange(a as int, b as int)) == e - a,
        is_number_end(text@.subrange(a as int, b as int), e - a),
{
    let ghost t = text@.subrange(a as int, b as int);
    let mut e: usize = a;
    while e < b && (is_digit_char(text[e]) || text[e] == '.')
        invariant
            a <= e <= b <= text@.len(),
            t == text@.subrange(a as int, b as int),
            forall|k: int| a <= k < e ==> number_char(#[trigger] text@[k]),
        decreases b - e,
    {
        e = e + 1;
    }
    proof {
        assert forall|k: int| 0 <= k < e - a implies number_char(#[trigger] t[k]) by {
            assert(t[k] == text@[a + k]);
        }
        if e < b {
            assert(t[e - a] == text@[e as int]);
        }
        lemma_number_end(t, e - a);
    }
    e
}

/// The unit after the number, trimmed and lower-cased.
fn unit_in(text: &[char], e: usize, b: usize) -> (u: Vec<char>)
    requires
        e <= b <= text@.len(),
    ensures
        u@ == lower_seq(trim_seq(text@.subrange(e as int, b as int))),
{
    let unit_raw = string_of_range(text, e, b);
    let unit_chars = chars_of(unit_raw.as_str());
    let (ua, ub) = trim_bounds(unit_chars.as_slice());
    let unit_trim = string_of_range(unit_chars.as_slice(), ua, ub);
    let unit_trim_chars = chars_of(unit_trim.as_str());
    ascii_lower(unit_trim_chars.as_slice())
}

/// Reads a size as Docker writes it, from its characters.
fn size_of_chars(text: &[char]) -> (r: u64)
    ensures
        r == size_of_text(text@),
{
    let (a, b) = trim_bounds(text);
    let ghost t = trim_seq(text@);
    let e = number_end_in(text, a, b);
    let num_v = string_of_range(text, a, e);
    let num = chars_of(num_v.as_str());
    proof {
        assert(num@ =~= t.subrange(0, e - a));
        assert(text@.subrange(e as int, b as int) =~= t.subrange(e - a, t.len() as int));
        assert forall|k: int| 0 <= k < num@.len() implies number_char(#[trigger] num@[k]) by {
            assert(num@[k] == t[k]);
        }
    }
    let unit = unit_in(text, e, b);
    let (whole, frac) = match split_number(num.as_slice()) {
        None => {
            return 0;
        },
        Some(p) => p,
    };
    let m = match multiplier_of(unit.as_slice()) {
        None => {
            return 0;
        },
        Some(m) => m,
    };
    float_times_of(whole.as_slice(), frac.as_slice(), m)
}

/// Parses a size as Docker writes it: `0B`, `947.5kB`, `12.4GB`, `1.5 TB`.
///
/// Returns 0 for anything unrecognised, which is the safe direction: a size Prune cannot read
/// is reported as nothing to reclaim rather than as a number it invented.
///
/// The number is taken as the nearest double and multiplied in double arithmetic before it is
/// cut to whole bytes, so `4.1GB` is 4,099,999,999 bytes: 4.1 is a little under 4.1 as a double.
pub fn parse_size(text: &str) -> (r: u64)
    ensures
        r == size_of_text(text@),
{
    let v = chars_of(text);
    size_of_chars(v.as_slice())
}

// ----- the number as an `f64` reads it -----

/// All digits are digits.
pub open spec fn all_digits(s: Seq<char>) -> bool {
    forall|k: int| 0 <= k < s.len() ==> is_digit(#[trigger] s[k])
}

fn char_of_digit(d: u64) -> (c: char)
    requires
        d < 10,
    ensures
        is_digit(c),
        digit_val(c) == d,
{
    let b: u8 = (d as u8) + 48;
    b as char
}

/// Doubles the number written by the digits `r`, in place, and gives back what carries out of
/// the first digit.
fn double_digits(r: &mut Vec<char>) -> (carry: u64)
    requires
        all_digits(old(r)@),
    ensures
        final(r)@.len() == old(r)@.len(),
        all_digits(final(r)@),
        carry <= 1,
        digits_value(final(r)@) + carry * pow10(old(r)@.len()) == 2 * digits_value(old(r)@),
{
    let ghost o = r@;
    let n = r.len();
    let mut i: usize = n;
    let mut carry: u64 = 0;
    proof {
        assert(o.subrange(n as int, n as int).len() == 0);
        assert(r@.subrange(n as int, n as int).len() == 0);
        assert(pow10(0) == 1);
    }
    while i > 0
        invariant
            i <= n == r@.len() == o.len(),
            all_digits(r@),
            carry <= 1,
            forall|x: int| 0 <= x < i ==> r@[x] == o[x],
            digits_value(r@.subrange(i as int, n as int)) + carry * pow10((n - i) as nat) == 2
                * digits_value(o.subrange(i as int, n as int)),
        decreases i,
    {
        let ghost before = r@;
        let d = digit_of(r[i - 1]);
        let v = 2 * d + carry;
        let nd = char_of_digit(v % 10);
        r.set(i - 1, nd);
        proof {
            let p = pow10((n - i) as nat);
            let new_s = r@.subrange(i - 1, n as int);
            let old_s = o.subrange(i - 1, n as int);
            lemma_digits_front(new_s);
            lemma_digits_front(old_s);
            assert(new_s.drop_first() =~= before.subrange(i as int, n as int));
            assert(old_s.drop_first() =~= o.subrange(i as int, n as int));
            assert(new_s[0] == nd);
            assert(old_s[0] == o[i - 1]);
            assert((n - (i - 1) - 1) as nat == (n - i) as nat);
            assert(pow10((n - (i - 1)) as nat) == 10 * p);
            let vv = v as int;
            assert(vv == (vv % 10) + 10 * (vv / 10));
            let rest = digits_value(before.subrange(i as int, n as int)) as int;
            let orest = digits_value(o.subrange(i as int, n as int)) as int;
            assert((vv % 10) * p + rest + (vv / 10) * (10 * p) == 2 * ((d as int) * p + orest)) by (nonlinear_arith)
                requires
                    rest + (carry as int) * p == 2 * orest,
                    vv == 2 * (d as int) + carry as int,
                    vv == (vv % 10) + 10 * (vv / 10),
            ;
            assert forall|k: int| 0 <= k < r@.len() implies is_digit(#[trigger] r@[k]) by {
                if k != i - 1 {
                    assert(r@[k] == before[k]);
                }
            }
        }
        carry = v / 10;
        i = i - 1;
    }
    assert(r@.subrange(0, n as int) =~= r@);
    assert(o.subrange(0, n as int) =~= o);
    carry
}

/// How many binary places a number with `k` decimals is scaled by before it is rounded: enough
/// that any such number other than zero has more than 53 binary digits before the point, so
/// that rounding it to 53 digits is rounding it to the nearest double.
pub open spec fn size_scale(k: nat) -> nat {
    60 + 4 * k
}

/// `w.f` as `f64` parsing reads it (the nearest double), times `m` in `f64` arithmetic (the
/// product rounded to the nearest double), then cast to `u64`: rounded toward zero and capped
/// at `u64::MAX`. Values are in units of 2^-z, z being `size_scale` of the number of decimals.
pub open spec fn float_times(w: Seq<char>, f: Seq<char>, m: nat) -> nat {
    let k = f.len();
    let n = digits_value(w) * pow10(k) + digits_value(f);
    let z = size_scale(k);
    if n == 0 {
        0
    } else {
        saturate(round53(round53(n * pow2(z), pow10(k)) * m, 1) / pow2(z))
    }
}

proof fn lemma_pow10_below_pow2(k: nat)
    ensures
        pow10(k) <= pow2(4 * k),
    decreases k,
{
    lemma2_to64();
    if k > 0 {
        lemma_pow10_below_pow2((k - 1) as nat);
        lemma_pow2_adds(4 * (k - 1) as nat, 4);
        assert(4 * (k - 1) as nat + 4 == 4 * k);
    }
}

proof fn lemma_digits_below(s: Seq<char>)
    requires
        all_digits(s),
    ensures
        digits_value(s) < pow10(s.len()),
    decreases s.len(),
{
    if s.len() > 0 {
        lemma_digits_below(s.drop_last());
        assert(is_digit(s[s.len() - 1]));
        assert(digits_value(s) < pow10(s.len())) by (nonlinear_arith)
            requires
                digits_value(s) == digits_value(s.drop_last()) * 10 + digit_val(s.last()),
                digits_value(s.drop_last()) + 1 <= pow10(s.drop_last().len()),
                digit_val(s.last()) <= 9,
                pow10(s.len()) == 10 * pow10(s.drop_last().len()),
        ;
    }
}

/// Dividing `y * 2^a` by `2^z`.
proof fn lemma_shift_div(y: nat, a: nat, z: nat)
    ensures
        a >= z ==> (y * pow2(a)) / pow2(z) == y * pow2((a - z) as nat),
        a < z ==> (y * pow2(a)) / pow2(z) == y / pow2((z - a) as nat),
{
    lemma_pow2_pos(a);
    lemma_pow2_pos(z);
    if a >= z {
        let d = (a - z) as nat;
        lemma_pow2_adds(d, z);
        assert(y * pow2(a) == (y * pow2(d)) * pow2(z)) by (nonlinear_arith)
            requires
                pow2(a) == pow2(d) * pow2(z),
        ;
        vstd::arithmetic::div_mod::lemma_div_by_multiple((y * pow2(d)) as int, pow2(z) as int);
    } else {
        let d = (z - a) as nat;
        lemma_pow2_pos(d);
        lemma_pow2_adds(d, a);
        lemma_cancel(y, pow2(d), pow2(a));
        assert(pow2(z) == pow2(d) * pow2(a));
    }
}

/// The value, once the first 54 binary digits `g` of `n * 2^z / 10^k` (with `c` more digits
/// after them) and whether anything lies below them are known.
proof fn lemma_float_times_via(n: nat, k: nat, m: nat, c: nat, g: nat, sticky: bool)
    requires
        n > 0,
        1 <= m,
        g == (n * pow2(size_scale(k))) / (pow10(k) * pow2(c)),
        sticky == ((n * pow2(size_scale(k))) % (pow10(k) * pow2(c)) != 0),
        pow2(53) <= g < pow2(54),
    ensures
        round53(round53(n * pow2(size_scale(k)), pow10(k)) * m, 1) == round53(guard_round(g, sticky) * m, 1)
            * pow2(c + 1),
        pow2(52) <= guard_round(g, sticky) <= pow2(53),
        round53(guard_round(g, sticky) * m, 1) >= pow2(52),
{
    lemma_pow10_positive(k);
    lemma_round53_by_guard(n * pow2(size_scale(k)), pow10(k), c);
    let gr = guard_round(g, sticky);
    lemma2_to64();
    vstd::arithmetic::power2::lemma_pow2_unfold(53);
    vstd::arithmetic::power2::lemma_pow2_unfold(54);
    assert(pow2(52) <= gr <= pow2(53));
    assert(gr * m >= pow2(52)) by (nonlinear_arith)
        requires
            gr >= pow2(52),
            m >= 1,
    ;
    lemma_round53_shift(gr * m, c + 1);
    assert((gr * pow2(c + 1)) * m == (gr * m) * pow2(c + 1)) by (nonlinear_arith);
}

/// A number with a large whole part: its first 54 binary digits come from the whole part alone.
proof fn lemma_whole_case(wv: nat, fv: nat, k: nat, t: nat)
    requires
        fv < pow10(k),
        pow2(53 + t) <= wv < pow2(54 + t),
    ensures
        ({
            let n = wv * pow10(k) + fv;
            let z = size_scale(k);
            let c = z + t;
            &&& (n * pow2(z)) / (pow10(k) * pow2(c)) == wv / pow2(t)
            &&& ((n * pow2(z)) % (pow10(k) * pow2(c)) != 0) == (wv % pow2(t) != 0 || fv != 0)
            &&& pow2(53) <= wv / pow2(t) < pow2(54)
        }),
{
    let n = wv * pow10(k) + fv;
    let z = size_scale(k);
    let c = z + t;
    let q = pow10(k);
    let pt = pow2(t);
    lemma_pow10_positive(k);
    lemma_pow2_pos(t);
    lemma_pow2_pos(z);
    lemma_pow2_adds(t, z);
    assert(pow2(c) == pt * pow2(z));
    assert(q * pow2(c) == (q * pt) * pow2(z)) by (nonlinear_arith)
        requires
            pow2(c) == pt * pow2(z),
    ;
    assert(q * pt > 0) by (nonlinear_arith)
        requires
            q > 0,
            pt > 0,
    ;
    lemma_cancel(n, q * pt, pow2(z));
    // n / (q * pt) and n % (q * pt)
    vstd::arithmetic::div_mod::lemma_fundamental_div_mod(wv as int, pt as int);
    vstd::arithmetic::div_mod::lemma_mod_pos_bound(wv as int, pt as int);
    let h = wv / pt;
    let l = wv % pt;
    assert(n == h * (q * pt) + (l * q + fv)) by (nonlinear_arith)
        requires
            n == wv * q + fv,
            wv == pt * h + l,
    ;
    assert(l * q + fv < q * pt) by (nonlinear_arith)
        requires
            l + 1 <= pt,
            fv < q,
    ;
    vstd::arithmetic::div_mod::lemma_fundamental_div_mod_converse(n as int, (q * pt) as int, h as int, (l * q + fv) as int);
    assert((l * q + fv == 0) == (l == 0 && fv == 0)) by (nonlinear_arith)
        requires
            q > 0,
    ;
    assert(((l * q + fv) * pow2(z) != 0) == (l * q + fv != 0)) by (nonlinear_arith)
        requires
            pow2(z) > 0,
    ;
    // the range of h
    lemma_pow2_adds(53, t);
    lemma_pow2_adds(54, t);
    assert(h >= pow2(53)) by (nonlinear_arith)
        requires
            wv == pt * h + l,
            l < pt,
            wv >= pow2(53) * pt,
            pt > 0,
    ;
    assert(h < pow2(54)) by (nonlinear_arith)
        requires
            wv == pt * h + l,
            l >= 0,
            wv < pow2(54) * pt,
            pt > 0,
    ;
}

/// A number whose first 54 binary digits end `j` places after the point.
proof fn lemma_fraction_case(n: nat, k: nat, j: nat)
    requires
        j <= size_scale(k),
    ensures
        ({
            let z = size_scale(k);
            let c = (z - j) as nat;
            &&& (n * pow2(z)) / (pow10(k) * pow2(c)) == (n * pow2(j)) / pow10(k)
            &&& ((n * pow2(z)) % (pow10(k) * pow2(c)) != 0) == ((n * pow2(j)) % pow10(k) != 0)
        }),
{
    let z = size_scale(k);
    let c = (z - j) as nat;
    lemma_pow10_positive(k);
    lemma_pow2_pos(c);
    lemma_pow2_adds(j, c);
    assert(n * pow2(z) == (n * pow2(j)) * pow2(c)) by (nonlinear_arith)
        requires
            pow2(z) == pow2(j) * pow2(c),
    ;
    lemma_cancel(n * pow2(j), pow10(k), pow2(c));
    let r = (n * pow2(j)) % pow10(k);
    let pc = pow2(c);
    assert((r * pc != 0) == (r != 0)) by (nonlinear_arith)
        requires
            pc > 0,
    ;
}

/// Whether every digit is `0`.
fn is_zero_digits(f: &[char]) -> (r: bool)
    requires
        all_digits(f@),
    ensures
        r == (digits_value(f@) == 0),
{
    let mut i: usize = 0;
    while i < f.len()
        invariant
            i <= f@.len(),
            all_digits(f@),
            digits_value(f@.take(i as int)) == 0,
        decreases f@.len() - i,
    {
        assert(f@.take(i + 1).drop_last() == f@.take(i as int));
        assert(f@.take(i + 1).last() == f@[i as int]);
        if f[i] != '0' {
            proof {
                lemma_digits_tail_zero(f@, (i + 1) as nat);
            }
            return false;
        }
        i = i + 1;
    }
    assert(f@.take(f@.len() as int) == f@);
    true
}

/// A run of digits is worth nothing only when its first `i` digits are.
proof fn lemma_digits_tail_zero(s: Seq<char>, i: nat)
    requires
        1 <= i <= s.len(),
        all_digits(s),
        s[i - 1] != '0',
    ensures
        digits_value(s) != 0,
    decreases s.len(),
{
    assert(is_digit(s[i - 1]));
    if i == s.len() {
        assert(digit_val(s.last()) > 0);
    } else {
        lemma_digits_tail_zero(s.drop_last(), i);
        assert(digits_value(s) == digits_value(s.drop_last()) * 10 + digit_val(s.last()));
    }
}

fn guard_round_of(g: u128, sticky: bool) -> (r: u128)
    requires
        g < 0x40_0000_0000_0000,
    ensures
        r == guard_round(g as nat, sticky),
{
    let t = g / 2;
    if g % 2 == 1 && (sticky || t % 2 == 1) {
        t + 1
    } else {
        t
    }
}

fn saturate_wide(x: u128) -> (r: u64)
    ensures
        r == saturate(x as nat),
{
    if x > 0xffff_ffff_ffff_ffff {
        u64::MAX
    } else {
        x as u64
    }
}

/// `w.f` read as an `f64`, times `m` in `f64` arithmetic, cast to `u64`.
fn float_times_of(w: &[char], f: &[char], m: u64) -> (r: u64)
    requires
        all_digits(w@),
        all_digits(f@),
        1 <= m <= 1_000_000_000_000_000,
    ensures
        r == float_times(w@, f@, m as nat),
{
    let ghost k = f@.len();
    let ghost wv = digits_value(w@);
    let ghost fv = digits_value(f@);
    let ghost kk = pow10(k);
    let ghost n = wv * kk + fv;
    let ghost z = size_scale(k);
    proof {
        lemma_digits_below(f@);
        lemma_pow10_positive(k);
        lemma_powers();
        lemma2_to64();
        vstd::arithmetic::power2::lemma_pow2_unfold(53);
        vstd::arithmetic::power2::lemma_pow2_unfold(54);
        vstd::arithmetic::power2::lemma2_to64_rest();
        assert(pow2(50) >= 1_000_000_000_000_000);
    }
    let whole = capped_digits(w);
    let fzero = is_zero_digits(f);
    if whole == 0 && fzero {
        assert(n == 0);
        return 0;
    }
    assert(n > 0) by (nonlinear_arith)
        requires
            n == wv * kk + fv,
            wv > 0 || fv > 0,
            kk >= 1,
    ;
    if whole == 0x1_0000_0000_0000_0000u128 {
        proof {
            lemma_bitlen(wv);
            let bl = bitlen(wv);
            if bl <= 64 {
                lemma_pow2_le(bl, 64);
            }
            let t = (bl - 54) as nat;
            assert(53 + t == (bl - 1) as nat);
            lemma_whole_case(wv, fv, k, t);
            let g = wv / pow2(t);
            let sticky = wv % pow2(t) != 0 || fv != 0;
            lemma_float_times_via(n, k, m as nat, z + t, g, sticky);
            let y = round53(guard_round(g, sticky) * (m as nat), 1);
            lemma_shift_div(y, z + t + 1, z);
            assert((z + t + 1 - z) as nat == t + 1);
            lemma_pow2_le(12, t + 1);
            assert(y * pow2(t + 1) >= pow2(52) * pow2(12)) by (nonlinear_arith)
                requires
                    y >= pow2(52),
                    pow2(t + 1) >= pow2(12),
            ;
            lemma_pow2_adds(52, 12);
        }
        return u64::MAX;
    }
    let cap53: u128 = 0x20_0000_0000_0000;
    assert(cap53 == pow2(53));
    if whole >= 2 * cap53 {
        let bl = bit_length(whole);
        proof {
            lemma_bitlen(wv);
            if bl <= 54 {
                lemma_pow2_le(bl as nat, 54);
            }
            if bl > 64 {
                lemma_pow2_le(64, (bl - 1) as nat);
            }
        }
        let t: u32 = bl - 54;
        let pt = pow2_of(t);
        let g = whole / pt;
        let sticky = whole % pt != 0 || !fzero;
        proof {
            assert(53 + t == (bl - 1) as nat);
            lemma_whole_case(wv, fv, k, t as nat);
            lemma_float_times_via(n, k, m as nat, (z + t) as nat, g as nat, sticky);
            lemma_pow2_le(t as nat, 10);
        }
        let gr = guard_round_of(g, sticky);
        proof {
            vstd::arithmetic::power2::lemma_pow2_strictly_increases(110, 118);
            lemma_pow2_adds(53, 57);
            lemma_pow2_le(50, 57);
            vstd::arithmetic::power2::lemma_pow2_strictly_increases(50, 57);
            assert(gr * m < pow2(110)) by (nonlinear_arith)
                requires
                    gr <= pow2(53),
                    gr >= 1,
                    m < pow2(57),
                    pow2(110) == pow2(53) * pow2(57),
            ;
            assert(gr * m < pow2(118));
            assert(gr * m >= pow2(52)) by (nonlinear_arith)
                requires
                    gr >= pow2(52),
                    m >= 1,
            ;
            lemma_pow2_le(118, 128);
        }
        let y = round53_of(gr * (m as u128), 1);
        let sh = pow2_of(t + 1);
        proof {
            let yv = y as nat;
            lemma_shift_div(yv, (z + t + 1) as nat, z);
            assert((z + t + 1 - z) as nat == t + 1);
            lemma_pow2_le((t + 1) as nat, 11);
            assert(y * sh <= pow2(110) * 2 * pow2(11)) by (nonlinear_arith)
                requires
                    y <= 2 * (gr * m),
                    gr * m < pow2(110),
                    sh <= pow2(11),
            ;
            lemma_pow2_adds(110, 11);
            lemma_pow2_le(122, 127);
            vstd::arithmetic::power2::lemma_pow2_unfold(122);
            vstd::arithmetic::power2::lemma_pow2_unfold(128);
        }
        return saturate_wide(y * sh);
    }
    // The whole part has fewer than 54 binary digits: double until 54 are known.
    let rest_s = string_of_range(f, 0, f.len());
    assert(f@.subrange(0, f@.len() as int) == f@);
    let mut rest = chars_of(rest_s.as_str());
    let mut g: u128 = whole;
    let mut j: u128 = 0;
    proof {
        assert(wv < pow2(54));
        lemma2_to64();
        assert(n * pow2(0) == n);
        vstd::arithmetic::div_mod::lemma_fundamental_div_mod_converse(n as int, kk as int, wv as int, fv as int);
    }
    while g < cap53
        invariant
            cap53 == pow2(53),
            cap53 == 0x20_0000_0000_0000,
            n > 0,
            kk == pow10(k) >= 1,
            k == f@.len(),
            rest@.len() == k,
            all_digits(rest@),
            g < 2 * cap53,
            g == (n * pow2(j as nat)) / kk,
            digits_value(rest@) == (n * pow2(j as nat)) % kk,
            j <= 53 + 4 * k,
            k <= usize::MAX,
        decreases 53 + 4 * k - j,
    {
        proof {
            if j >= 53 + 4 * k {
                lemma_pow10_below_pow2(k);
                lemma_pow2_adds(53, 4 * k);
                lemma_pow2_le(53 + 4 * k, j as nat);
                assert(n * pow2(j as nat) >= pow2(53) * kk) by (nonlinear_arith)
                    requires
                        n >= 1,
                        pow2(j as nat) >= pow2(53) * pow2(4 * k),
                        pow2(4 * k) >= kk,
                ;
                vstd::arithmetic::div_mod::lemma_div_is_ordered((pow2(53) * kk) as int, (n * pow2(j as nat)) as int, kk as int);
                vstd::arithmetic::div_mod::lemma_div_by_multiple(pow2(53) as int, kk as int);
            }
        }
        let ghost a = n * pow2(j as nat);
        let ghost rv = digits_value(rest@);
        let carry = double_digits(&mut rest);
        proof {
            lemma_digits_below(rest@);
            vstd::arithmetic::div_mod::lemma_fundamental_div_mod(a as int, kk as int);
            vstd::arithmetic::power2::lemma_pow2_unfold((j + 1) as nat);
            assert(n * pow2((j + 1) as nat) == ((2 * g + carry) as nat) * kk + digits_value(rest@)) by (nonlinear_arith)
                requires
                    a == n * pow2(j as nat),
                    pow2((j + 1) as nat) == 2 * pow2(j as nat),
                    a == kk * g + rv,
                    digits_value(rest@) + carry * kk == 2 * rv,
            ;
            vstd::arithmetic::div_mod::lemma_fundamental_div_mod_converse(
                (n * pow2((j + 1) as nat)) as int,
                kk as int,
                (2 * g + carry) as int,
                digits_value(rest@) as int,
            );
        }
        g = 2 * g + carry as u128;
        j = j + 1;
    }
    let sticky = !is_zero_digits(rest.as_slice());
    proof {
        assert(j <= z);
        lemma_fraction_case(n, k, j as nat);
        lemma_float_times_via(n, k, m as nat, (z - j) as nat, g as nat, sticky);
    }
    let gr = guard_round_of(g, sticky);
    proof {
        vstd::arithmetic::power2::lemma_pow2_strictly_increases(110, 118);
        lemma_pow2_adds(53, 57);
        lemma_pow2_le(50, 57);
        vstd::arithmetic::power2::lemma_pow2_strictly_increases(50, 57);
        assert(gr * m < pow2(110)) by (nonlinear_arith)
            requires
                gr <= pow2(53),
                gr >= 1,
                m < pow2(57),
                pow2(110) == pow2(53) * pow2(57),
        ;
        assert(gr * m < pow2(118));
        assert(gr * m >= pow2(52)) by (nonlinear_arith)
            requires
                gr >= pow2(52),
                m >= 1,
        ;
        lemma_pow2_le(118, 128);
    }
    let y = round53_of(gr * (m as u128), 1);
    proof {
        let yv = y as nat;
        lemma_shift_div(yv, ((z - j) + 1) as nat, z);
        vstd::arithmetic::power2::lemma_pow2_unfold(111);
        assert(yv < pow2(111)) by (nonlinear_arith)
            requires
                yv <= 2 * (gr * m),
                gr * m < pow2(110),
                pow2(111) == 2 * pow2(110),
        ;
    }
    if j == 0 {
        proof {
            assert((((z - j) + 1) as nat - z) as nat == 1);
            vstd::arithmetic::power2::lemma_pow2_unfold(1);
        }
        saturate_wide(y * 2)
    } else if j == 1 {
        proof {
            assert((((z - j) + 1) as nat - z) as nat == 0);
        }
        saturate_wide(y)
    } else if j - 1 >= 127 {
        proof {
            assert((z - (((z - j) + 1) as nat)) as nat == (j - 1) as nat);
            lemma_pow2_le(111, (j - 1) as nat);
            vstd::arithmetic::div_mod::lemma_div_pos_is_pos(y as int, pow2((j - 1) as nat) as int);
            assert(y < pow2((j - 1) as nat));
            vstd::arithmetic::div_mod::lemma_basic_div(y as int, pow2((j - 1) as nat) as int);
        }
        0
    } else {
        let d = pow2_of((j - 1) as u32);
        proof {
            lemma_pow2_pos((j - 1) as nat);
            assert((z - (((z - j) + 1) as nat)) as nat == (j - 1) as nat);
        }
        saturate_wide(y / d)
    }
}

} // verus!
