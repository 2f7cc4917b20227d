//! Parsing of human-readable amounts and durations: a run of decimal digits
//! followed by an optional unit suffix. The digit run is read here; the two
//! unit tables turn the pair into a plain count or a count of nanoseconds.
//!
//! A bare number (no suffix) is a count of seconds: the suffix table of
//! durations lists the empty suffix exactly once, beside `"s"`.

use vstd::prelude::*;
use vstd::arithmetic::div_mod::*;

verus! {

/// An ASCII decimal digit.
pub open spec fn is_digit(c: char) -> bool {
    '0' <= c && c <= '9'
}

/// The numeric value of one decimal digit.
pub open spec fn digit_val(c: char) -> nat {
    (c as u32 - '0' as u32) as nat
}

/// The length of the leading run of decimal digits of `s`.
pub open spec fn digits_prefix_len(s: Seq<char>) -> nat
    decreases s.len(),
{
    if s.len() == 0 || !is_digit(s[0]) {
        0
    } else {
        1 + digits_prefix_len(s.drop_first())
    }
}

/// The value of a sequence of decimal digits, most significant first.
pub open spec fn digits_value(s: Seq<char>) -> nat
    decreases s.len(),
{
    if s.len() == 0 {
        0
    } else {
        digits_value(s.drop_last()) * 10 + digit_val(s.last())
    }
}

/// A scan that saw digits up to `k` and stopped there determines the
/// digit-prefix length.
proof fn lemma_digits_prefix_len_from_scan(s: Seq<char>, k: int)
    requires
        0 <= k <= s.len(),
        forall|j: int| 0 <= j < k ==> is_digit(#[trigger] s[j]),
        k == s.len() || !is_digit(s[k]),
    ensures
        digits_prefix_len(s) == k,
    decreases k,
{
    if k == 0 {
    } else {
        let t = s.drop_first();
        assert(forall|j: int| 0 <= j < k - 1 ==> #[trigger] t[j] == s[j + 1]);
        lemma_digits_prefix_len_from_scan(t, k - 1);
    }
}

/// Extending the digit run by one digit multiplies the value by ten and
/// adds the digit.
proof fn lemma_digits_value_step(s: Seq<char>, j: int)
    requires
        0 <= j < s.len(),
    ensures
        digits_value(s.take(j + 1)) == digits_value(s.take(j)) * 10 + digit_val(s[j]),
{
    let t = s.take(j + 1);
    assert(t.drop_last() =~= s.take(j));
    assert(t.last() == s[j]);
}

/// The value of a digit run never shrinks as the run grows.
proof fn lemma_digits_value_mono(s: Seq<char>, j: int, k: int)
    requires
        0 <= j <= k <= s.len(),
    ensures
        digits_value(s.take(j)) <= digits_value(s.take(k)),
    decreases k - j,
{
    if j < k {
        lemma_digits_value_step(s, k - 1);
        lemma_digits_value_mono(s, j, k - 1);
    }
}

/// Two string slices are equal exactly when they hold the same characters.
pub fn str_eq(a: &str, b: &str) -> (r: bool)
    ensures
        r == (a@ == b@),
{
    let la = a.unicode_len();
    let lb = b.unicode_len();
    if la != lb {
        return false;
    }
    let mut i: usize = 0;
    while i < la
        invariant
            la == a@.len(),
            la == b@.len(),
            0 <= i <= la,
            forall|j: int| 0 <= j < i ==> a@[j] == b@[j],
        decreases la - i,
    {
        if a.get_char(i) != b.get_char(i) {
            return false;
        }
        i = i + 1;
    }
    proof {
        assert(a@ =~= b@);
    }
    true
}

/// Reads the leading run of decimal digits of `text` and hands back its
/// value with the rest of the string verbatim. Fails when no digit leads,
/// when the run's value is zero, and when it exceeds `u64::MAX`.
pub fn parse_number_with_suffix(text: &str) -> (r: Result<(u64, String), &'static str>)
    ensures
        ({
            let k = digits_prefix_len(text@) as int;
            let v = digits_value(text@.take(k));
            match r {
                Ok((a, suffix)) => {
                    &&& k >= 1
                    &&& 1 <= v <= u64::MAX
                    &&& a == v
                    &&& suffix@ == text@.skip(k)
                },
                Err(m) => {
                    ||| (k == 0 && m@ == "Number contains no digits"@)
                    ||| (k >= 1 && v > u64::MAX && m@ == "Number has too many digits"@)
                    ||| (k >= 1 && v == 0 && m@ == "Only strictly positive numbers, please!"@)
                },
            }
        }),
{
    let len = text.unicode_len();
    let mut k: usize = 0;
    let mut scanning = true;
    while scanning && k < len
        invariant
            len == text@.len(),
            0 <= k <= len,
            forall|j: int| 0 <= j < k ==> is_digit(#[trigger] text@[j]),
            !scanning ==> k < len && !is_digit(text@[k as int]),
        decreases len - k + if scanning { 1int } else { 0int },
    {
        let c = text.get_char(k);
        if '0' <= c && c <= '9' {
            k = k + 1;
        } else {
            scanning = false;
        }
    }
    proof {
        lemma_digits_prefix_len_from_scan(text@, k as int);
    }
    if k == 0 {
        return Err("Number contains no digits");
    }
    let mut value: u64 = 0;
    let mut over = false;
    let mut j: usize = 0;
    while j < k && !over
        invariant
            len == text@.len(),
            0 <= j <= k <= len,
            forall|i: int| 0 <= i < k ==> is_digit(#[trigger] text@[i]),
            !over ==> value == digits_value(text@.take(j as int)),
            over ==> digits_value(text@.take(j as int)) > u64::MAX,
        decreases k - j + if over { 0int } else { 1int },
    {
        let c = text.get_char(j);
        let d: u64 = (c as u32 - '0' as u32) as u64;
        proof {
            lemma_digits_value_step(text@, j as int);
        }
        if value <= (u64::MAX - d) / 10 {
            assert(value * 10 + d <= u64::MAX) by {
                lemma_fundamental_div_mod((u64::MAX - d) as int, 10);
                lemma_mod_division_less_than_divisor((u64::MAX - d) as int, 10);
                assert(value * 10 <= ((u64::MAX - d) as int / 10) * 10) by (nonlinear_arith)
                    requires value <= (u64::MAX - d) as int / 10;
            }
            value = value * 10 + d;
        } else {
            assert(value * 10 + d > u64::MAX) by {
                lemma_fundamental_div_mod((u64::MAX - d) as int, 10);
                lemma_mod_division_less_than_divisor((u64::MAX - d) as int, 10);
                assert(value * 10 >= ((u64::MAX - d) as int / 10 + 1) * 10) by (nonlinear_arith)
                    requires value >= (u64::MAX - d) as int / 10 + 1;
            }
            over = true;
        }
        j = j + 1;
    }
    proof {
        lemma_digits_value_mono(text@, j as int, k as int);
    }
    if over {
        return Err("Number has too many digits");
    }
    if value == 0 {
        return Err("Only strictly positive numbers, please!");
    }
    let suffix = text.substring_char(k, len).to_owned();
    Ok((value, suffix))
}

/// The multiplier a unit suffix gives to a plain amount: powers of one
/// thousand, or nothing for an unknown suffix.
pub open spec fn amount_unit(suffix: Seq<char>) -> Option<nat> {
    if suffix.len() == 0 {
        Some(1)
    } else if suffix == "K"@ {
        Some(1_000)
    } else if suffix == "M"@ {
        Some(1_000_000)
    } else if suffix == "G"@ {
        Some(1_000_000_000)
    } else if suffix == "T"@ {
        Some(1_000_000_000_000)
    } else if suffix == "P"@ {
        Some(1_000_000_000_000_000)
    } else if suffix == "E"@ {
        Some(1_000_000_000_000_000_000)
    } else {
        None
    }
}

/// The count of nanoseconds a duration suffix stands for. A bare number
/// is a count of seconds.
pub open spec fn duration_unit(suffix: Seq<char>) -> Option<nat> {
    if suffix.len() == 0 {
        Some(1_000_000_000)
    } else if suffix == "d"@ {
        Some(86_400_000_000_000)
    } else if suffix == "h"@ {
        Some(3_600_000_000_000)
    } else if suffix == "m"@ {
        Some(60_000_000_000)
    } else if suffix == "s"@ {
        Some(1_000_000_000)
    } else if suffix == "ms"@ {
        Some(1_000_000)
    } else if suffix == "mcs"@ {
        Some(1_000)
    } else if suffix == "ns"@ {
        Some(1)
    } else {
        None
    }
}

/// What scaling an already-parsed `(value, suffix)` pair must yield under a
/// unit table: the scaled value, or the error owed when the suffix is not in
/// the table or the product leaves `u64`.
pub open spec fn scaled_result(
    v: nat,
    unit: Option<nat>,
    unknown_msg: Seq<char>,
    r: Result<u64, &'static str>,
) -> bool {
    match r {
        Ok(a) => unit is Some && v * unit->0 <= u64::MAX && a == v * unit->0,
        Err(m) => {
            ||| (unit is None && m@ == unknown_msg)
            ||| (unit is Some && v * unit->0 > u64::MAX && m@ == "Number has too many digits"@)
        },
    }
}

/// The contract of [`parse_amount`] and [`parse_duration`] over the whole
/// input: either the digit run itself fails to parse, or the parsed value is
/// scaled by the suffix's unit.
pub open spec fn parse_with_units_result(
    s: Seq<char>,
    units: spec_fn(Seq<char>) -> Option<nat>,
    unknown_msg: Seq<char>,
    r: Result<u64, &'static str>,
) -> bool {
    let k = digits_prefix_len(s) as int;
    let v = digits_value(s.take(k));
    if k == 0 {
        r matches Err(m) && m@ == "Number contains no digits"@
    } else if v == 0 {
        r matches Err(m) && m@ == "Only strictly positive numbers, please!"@
    } else if v > u64::MAX {
        r matches Err(m) && m@ == "Number has too many digits"@
    } else {
        scaled_result(v, units(s.skip(k)), unknown_msg, r)
    }
}

/// Parses a plain amount such as `"250"`, `"1K"` or `"3M"` into a count,
/// scaling by the power of one thousand the suffix names.
pub fn parse_amount(text: &str) -> (r: Result<u64, &'static str>)
    ensures
        parse_with_units_result(text@, |sfx: Seq<char>| amount_unit(sfx), "Amount value contains unknown suffix"@, r),
{
    let (amount, suffix) = match parse_number_with_suffix(text) {
        Ok(pair) => pair,
        Err(m) => {
            return Err(m);
        },
    };
    let unit: u64 = if suffix.as_str().is_empty() {
        1
    } else if str_eq(suffix.as_str(), "K") {
        1_000
    } else if str_eq(suffix.as_str(), "M") {
        1_000_000
    } else if str_eq(suffix.as_str(), "G") {
        1_000_000_000
    } else if str_eq(suffix.as_str(), "T") {
        1_000_000_000_000
    } else if str_eq(suffix.as_str(), "P") {
        1_000_000_000_000_000
    } else if str_eq(suffix.as_str(), "E") {
        1_000_000_000_000_000_000
    } else {
        return Err("Amount value contains unknown suffix");
    };
    match amount.checked_mul(unit) {
        Some(scaled) => Ok(scaled),
        None => Err("Number has too many digits"),
    }
}

/// Parses a duration such as `"10s"`, `"23ms"` or a bare count of seconds
/// into a count of nanoseconds.
pub fn parse_duration(text: &str) -> (r: Result<u64, &'static str>)
    ensures
        parse_with_units_result(text@, |sfx: Seq<char>| duration_unit(sfx), "Duration value contains unknown suffix"@, r),
{
    let (amount, suffix) = match parse_number_with_suffix(text) {
        Ok(pair) => pair,
        Err(m) => {
            return Err(m);
        },
    };
    let unit: u64 = if suffix.as_str().is_empty() {
        1_000_000_000
    } else if str_eq(suffix.as_str(), "d") {
        86_400_000_000_000
    } else if str_eq(suffix.as_str(), "h") {
        3_600_000_000_000
    } else if str_eq(suffix.as_str(), "m") {
        60_000_000_000
    } else if str_eq(suffix.as_str(), "s") {
        1_000_000_000
    } else if str_eq(suffix.as_str(), "ms") {
        1_000_000
    } else if str_eq(suffix.as_str(), "mcs") {
        1_000
    } else if str_eq(suffix.as_str(), "ns") {
        1
    } else {
        return Err("Duration value contains unknown suffix");
    };
    match amount.checked_mul(unit) {
        Some(scaled) => Ok(scaled),
        None => Err("Number has too many digits"),
    }
}

} // verus!
