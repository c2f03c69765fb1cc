//! Turning engine data into something readable in a terminal.

use vstd::prelude::*;

use crate::binary64::{lemma_powers, one, round53, round53_of, round_half_even, round_half_even_of};
use crate::models::RiskLevel;
use crate::text::{
    chars_of, concat, decimal_digits, decimal_text, decimal_text_wide, join_strings, join_with,
    owned, push_char, string_of_range, string_views, zero_padded, zero_padded_text,
};
use vstd::arithmetic::power2::{lemma2_to64, lemma_pow2_adds, lemma_pow2_strictly_increases, pow2};

verus! {

pub open spec fn pow10(n: nat) -> nat
    decreases n,
{
    if n == 0 {
        1
    } else {
        10 * pow10((n - 1) as nat)
    }
}

pub open spec fn unit_name(u: nat) -> Seq<char> {
    if u == 0 {
        "B"@
    } else if u == 1 {
        "KB"@
    } else if u == 2 {
        "MB"@
    } else if u == 3 {
        "GB"@
    } else {
        "TB"@
    }
}

/// `n / 10^d` written with `d` decimals.
pub open spec fn fixed_point(n: nat, d: nat) -> Seq<char> {
    if d == 0 {
        decimal_digits(n)
    } else {
        decimal_digits(n / pow10(d)) + "."@ + zero_padded(decimal_digits(n % pow10(d)), d)
    }
}

/// `b as f64`, in units of 2^-52.
pub open spec fn float_of(b: nat) -> nat {
    round53(b * one(), 1)
}

/// Dividing a double `v` (in units of 2^-52) by 1000, rounding each quotient to a double, while
/// it is at least 1000 and a larger unit is left: the value and the unit reached.
pub open spec fn unit_steps(v: nat, unit: nat) -> (nat, nat)
    decreases 4 - unit,
{
    if unit < 4 && v >= 1000 * one() {
        unit_steps(round53(v, 1000), unit + 1)
    } else {
        (v, unit)
    }
}

/// Decimals shown for a value `v` (in units of 2^-52): none from 100 up, one from 10, two below.
pub open spec fn shown_decimals(v: nat) -> nat {
    if v >= 100 * one() {
        0
    } else if v >= 10 * one() {
        1
    } else {
        2
    }
}

/// A byte count as the UI shows it: whole bytes below a kilobyte; otherwise the count as a
/// double, divided by 1000 (each quotient rounded to a double) until it is below 1000 or in
/// terabytes, then printed with two, one or no decimals as it is below 10, below 100 or
/// larger. The decimals are those of the double itself, rounded half to even.
pub open spec fn human_bytes_text(b: nat) -> Seq<char> {
    if b < 1000 {
        decimal_digits(b) + " B"@
    } else {
        let (v, u) = unit_steps(float_of(b), 0);
        let d = shown_decimals(v);
        fixed_point(round_half_even(v * pow10(d), one()), d) + " "@ + unit_name(u)
    }
}

/// Decimal units, matching Finder and Windows Settings.
pub fn human_bytes(bytes: u64) -> (r: String)
    ensures
        r@ == human_bytes_text(bytes as nat),
{
    if bytes < 1000 {
        let n = decimal_text(bytes);
        return concat(n.as_str(), " B");
    }
    proof {
        lemma_powers();
        lemma_pow2_adds(64, 52);
        lemma_pow2_strictly_increases(116, 118);
    }
    let one_unit: u128 = 0x10000000000000;
    assert(bytes as u128 * one_unit < pow2(118)) by (nonlinear_arith)
        requires
            bytes < 0x10000000000000000u128,
            one_unit == 0x10000000000000,
            0x10000000000000000u128 * 0x10000000000000 == pow2(116),
            pow2(116) < pow2(118),
    ;
    assert(bytes as u128 * one_unit >= one_unit) by (nonlinear_arith)
        requires
            bytes >= 1000,
    ;
    let mut v: u128 = round53_of(bytes as u128 * one_unit, 1);
    let mut unit: u64 = 0;
    proof {
        lemma_pow2_strictly_increases(117, 118);
        lemma_pow2_adds(1, 116);
        lemma2_to64();
    }
    while unit < 4 && v >= 1000 * one_unit
        invariant
            unit <= 4,
            one_unit == one(),
            one_unit == 0x10000000000000,
            v <= pow2(117),
            pow2(117) < pow2(118),
            unit_steps(v as nat, unit as nat) == unit_steps(float_of(bytes as nat), 0),
        decreases 4 - unit,
    {
        proof {
            lemma_pow2_strictly_increases(117, 118);
        }
        let next = round53_of(v, 1000);
        v = next;
        unit = unit + 1;
    }
    let name: &str = if unit == 0 {
        "B"
    } else if unit == 1 {
        "KB"
    } else if unit == 2 {
        "MB"
    } else if unit == 3 {
        "GB"
    } else {
        "TB"
    };
    proof {
        reveal_strlit("B");
        reveal_strlit("KB");
        reveal_strlit("MB");
        reveal_strlit("GB");
        reveal_strlit("TB");
        reveal_with_fuel(pow10, 3);
    }
    assert(name@ == unit_name(unit as nat));
    let (d, scale): (u64, u128) = if v >= 100 * one_unit {
        (0, 1)
    } else if v >= 10 * one_unit {
        (1, 10)
    } else {
        (2, 100)
    };
    assert(d == shown_decimals(v as nat));
    assert(scale == pow10(d as nat));
    assert(v * scale <= pow2(117) * 100);
    let rounded: u128 = round_half_even_of(v * scale, one_unit);
    let text: String = if d == 0 {
        decimal_text_wide(rounded)
    } else {
        let ghost x: int = (v * scale) as int;
        let ghost o: int = one_unit as int;
        assert(rounded <= 1001) by (nonlinear_arith)
            requires
                rounded <= x / o + 1,
                x < 1000 * o,
                o > 0,
        ;
        let whole = decimal_text((rounded / scale) as u64);
        let frac = zero_padded_text((rounded % scale) as u64, d as usize);
        let with_dot = concat(whole.as_str(), ".");
        concat(with_dot.as_str(), frac.as_str())
    };
    let spaced = concat(text.as_str(), " ");
    concat(spaced.as_str(), name)
}

pub open spec fn risk_word(level: RiskLevel) -> Seq<char> {
    match level {
        RiskLevel::Safe => "safe"@,
        RiskLevel::Low => "low"@,
        RiskLevel::Medium => "medium"@,
        RiskLevel::High => "high"@,
        RiskLevel::Protected => "protected"@,
    }
}

pub fn risk(level: RiskLevel) -> (r: &'static str)
    ensures
        r@ == risk_word(level),
        r@.len() > 0,
{
    proof {
        reveal_strlit("safe");
        reveal_strlit("low");
        reveal_strlit("medium");
        reveal_strlit("high");
        reveal_strlit("protected");
    }
    match level {
        RiskLevel::Safe => "safe",
        RiskLevel::Low => "low",
        RiskLevel::Medium => "medium",
        RiskLevel::High => "high",
        RiskLevel::Protected => "protected",
    }
}

/// `text` cut to `width` characters, ending with `…` when something was dropped.
pub open spec fn truncated(text: Seq<char>, width: nat) -> Seq<char> {
    if text.len() <= width {
        text
    } else {
        let keep = if width == 0 { 0 } else { (width - 1) as int };
        text.take(keep).push('…')
    }
}

/// Cuts a string to `width` characters, ending with `…` when something was dropped.
pub fn truncate(text: &str, width: usize) -> (r: String)
    ensures
        r@ == truncated(text@, width as nat),
{
    let cs = chars_of(text);
    if cs.len() <= width {
        return owned(text);
    }
    let keep: usize = if width == 0 {
        0
    } else {
        width - 1
    };
    let mut r = string_of_range(cs.as_slice(), 0, keep);
    push_char(&mut r, '…');
    r
}

/// The paths, separated by commas, or `none found`.
pub open spec fn joined_paths(paths: Seq<String>) -> Seq<char> {
    if paths.len() == 0 {
        "none found"@
    } else {
        join_with(string_views(paths), ", "@)
    }
}

pub fn join_paths(paths: &Vec<String>) -> (r: String)
    ensures
        r@ == joined_paths(paths@),
{
    if paths.len() == 0 {
        return owned("none found");
    }
    join_strings(paths, ", ")
}

} // verus!
