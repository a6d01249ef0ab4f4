//! Exact parsing of the numeric literals of the language.
//!
//! Unsigned integers are read for counts and integer-valued settings, and
//! decimal numbers — an optional sign, digits with at most one dot — are
//! read for time values and fractional settings.  A decimal is kept
//! exactly, as a mantissa and a power-of-ten scale, so scaling a time
//! value by its unit loses nothing; a literal whose digits exceed what a
//! mantissa can hold is rejected rather than rounded.

use vstd::prelude::*;
use vstd::string::*;

use crate::chars::chars_to_string;
use crate::chars::digit_val;
use crate::chars::is_digit;
use crate::chars::is_digit_char;

verus! {

/// All characters are ASCII digits.
pub open spec fn all_digits(s: Seq<char>) -> bool {
    forall|i: int| 0 <= i < s.len() ==> is_digit_char(s[i])
}

/// The value of a digit string read in base ten.
pub open spec fn dec_value(s: Seq<char>) -> int
    decreases s.len(),
{
    if s.len() == 0 {
        0
    } else {
        dec_value(s.drop_last()) * 10 + digit_val(s.last())
    }
}

pub proof fn lemma_dec_value_nonneg(s: Seq<char>)
    requires
        all_digits(s),
    ensures
        dec_value(s) >= 0,
    decreases s.len(),
{
    if s.len() > 0 {
        assert(all_digits(s.drop_last()));
        lemma_dec_value_nonneg(s.drop_last());
    }
}

pub proof fn lemma_dec_value_step(s: Seq<char>, i: int)
    requires
        0 <= i < s.len(),
    ensures
        dec_value(s.take(i + 1)) == dec_value(s.take(i)) * 10 + digit_val(s[i]),
{
    assert(s.take(i + 1).drop_last() =~= s.take(i));
    assert(s.take(i + 1).last() == s[i]);
}

pub proof fn lemma_dec_value_grows(s: Seq<char>, i: int)
    requires
        all_digits(s),
        0 <= i <= s.len(),
    ensures
        dec_value(s.take(i)) <= dec_value(s),
    decreases s.len() - i,
{
    if i < s.len() {
        assert(all_digits(s.take(i)));
        lemma_dec_value_nonneg(s.take(i));
        lemma_dec_value_step(s, i);
        lemma_dec_value_grows(s, i + 1);
    } else {
        assert(s.take(i) =~= s);
    }
}

/// The literal with a single leading `+` removed.
pub open spec fn strip_plus(s: Seq<char>) -> Seq<char> {
    if s.len() > 0 && s[0] == '+' {
        s.drop_first()
    } else {
        s
    }
}

/// The literal with a single leading sign removed.
pub open spec fn strip_sign(s: Seq<char>) -> Seq<char> {
    if s.len() > 0 && (s[0] == '+' || s[0] == '-') {
        s.drop_first()
    } else {
        s
    }
}

/// An unsigned integer literal: an optional leading `+`, then one or more
/// digits, valued at most `u32::MAX`.
pub open spec fn spec_parse_u32(s: Seq<char>) -> Option<u32> {
    let t = strip_plus(s);
    if t.len() > 0 && all_digits(t) && dec_value(t) <= u32::MAX {
        Some(dec_value(t) as u32)
    } else {
        None
    }
}

/// Parse an unsigned integer literal.
pub fn parse_u32(s: &str) -> (r: Option<u32>)
    ensures
        r == spec_parse_u32(s@),
{
    let n = s.unicode_len();
    let mut start: usize = 0;
    if n > 0 && s.get_char(0) == '+' {
        start = 1;
    }
    let ghost t = strip_plus(s@);
    proof {
        assert(t =~= s@.subrange(start as int, n as int));
    }
    if start >= n {
        return None;
    }
    let mut acc: u64 = 0;
    let mut i: usize = start;
    while i < n
        invariant
            start <= i <= n,
            start < n,
            n == s@.len(),
            t == strip_plus(s@),
            t == s@.subrange(start as int, n as int),
            all_digits(t.take(i - start)),
            acc == dec_value(t.take(i - start)),
            acc <= u32::MAX,
        decreases n - i,
    {
        let c = s.get_char(i);
        proof {
            assert(c == t[i - start]);
        }
        if !is_digit(c) {
            assert(!all_digits(t));
            return None;
        }
        let d = (c as u32) - 0x30;
        let next = acc * 10 + (d as u64);
        proof {
            lemma_dec_value_step(t, i - start);
        }
        if next > u32::MAX as u64 {
            proof {
                if all_digits(t) {
                    lemma_dec_value_grows(t, i - start + 1);
                }
            }
            return None;
        }
        acc = next;
        i = i + 1;
    }
    proof {
        assert(t.take(n - start) =~= t);
    }
    Some(acc as u32)
}

/// An exact decimal number: `(-1)^neg * mantissa / 10^scale`.
#[derive(Debug, Clone, Copy, PartialEq, Eq, Structural)]
pub struct Decimal {
    pub neg: bool,
    pub mantissa: u64,
    pub scale: usize,
}

/// The first position at or after `i` holding a dot, or the length of
/// `s`.
pub open spec fn find_dot(s: Seq<char>, i: int) -> int
    decreases s.len() - i,
{
    if 0 <= i < s.len() {
        if s[i] == '.' {
            i
        } else {
            find_dot(s, i + 1)
        }
    } else {
        s.len() as int
    }
}

pub proof fn lemma_find_dot_bounds(s: Seq<char>, i: int)
    requires
        0 <= i <= s.len(),
    ensures
        i <= find_dot(s, i) <= s.len(),
        find_dot(s, i) < s.len() ==> s[find_dot(s, i)] == '.',
        forall|t: int| i <= t < find_dot(s, i) ==> s[t] != '.',
    decreases s.len() - i,
{
    if i < s.len() && s[i] != '.' {
        lemma_find_dot_bounds(s, i + 1);
    }
}

pub proof fn lemma_find_dot_found(s: Seq<char>, i: int, k: int)
    requires
        0 <= i <= k <= s.len(),
        forall|t: int| i <= t < k ==> s[t] != '.',
        k == s.len() || s[k] == '.',
    ensures
        find_dot(s, i) == k,
    decreases k - i,
{
    if i < k {
        lemma_find_dot_found(s, i + 1, k);
    }
}

/// The digits of the number with the dot removed, and the count of
/// digits after the dot.
pub open spec fn spec_decimal_parts(t: Seq<char>) -> (Seq<char>, int) {
    let j = find_dot(t, 0);
    if j == t.len() {
        (t, 0)
    } else {
        (t.take(j) + t.skip(j + 1), t.len() - j - 1)
    }
}

/// A decimal literal: an optional sign, then digits holding at most one
/// dot, with at least one digit, whose digits read as an integer fit in
/// a mantissa.
pub open spec fn spec_parse_decimal(s: Seq<char>) -> Option<Decimal> {
    let neg = s.len() > 0 && s[0] == '-';
    let t = strip_sign(s);
    let (md, sc) = spec_decimal_parts(t);
    if all_digits(md) && md.len() >= 1 && dec_value(md) <= u64::MAX {
        Some(Decimal { neg, mantissa: dec_value(md) as u64, scale: sc as usize })
    } else {
        None
    }
}

/// Parse a decimal literal exactly.
pub fn parse_decimal(s: &str) -> (r: Option<Decimal>)
    ensures
        r == spec_parse_decimal(s@),
{
    let n = s.unicode_len();
    let mut start: usize = 0;
    let mut neg = false;
    if n > 0 {
        let c0 = s.get_char(0);
        if c0 == '-' {
            neg = true;
            start = 1;
        } else if c0 == '+' {
            start = 1;
        }
    }
    let ghost t = strip_sign(s@);
    proof {
        assert(t =~= s@.subrange(start as int, n as int));
    }
    // find the dot, if any
    let mut j: usize = start;
    while j < n && s.get_char(j) != '.'
        invariant
            start <= j <= n,
            n == s@.len(),
            t == strip_sign(s@),
            t == s@.subrange(start as int, n as int),
            forall|k: int| 0 <= k < j - start ==> t[k] != '.',
        decreases n - j,
    {
        j = j + 1;
    }
    proof {
        lemma_find_dot_found(t, 0, j - start);
        lemma_find_dot_bounds(t, 0);
    }
    let ghost md = spec_decimal_parts(t).0;
    // the digits before the dot
    let mut acc: u64 = 0;
    let mut i: usize = start;
    while i < j
        invariant
            start <= i <= j <= n,
            n == s@.len(),
            t == strip_sign(s@),
            t == s@.subrange(start as int, n as int),
            neg == (s@.len() > 0 && s@[0] == '-'),
            find_dot(t, 0) == j - start,
            md == spec_decimal_parts(t).0,
            j < n ==> md.len() == t.len() - 1,
            j == n ==> md == t,
            i - start <= md.len(),
            all_digits(md.take(i - start)),
            acc == dec_value(md.take(i - start)),
        decreases j - i,
    {
        let c = s.get_char(i);
        proof {
            if (j - start) < t.len() {
                assert(md == t.take(j - start) + t.skip(j - start + 1));
                assert(md[i - start] == t.take(j - start)[i - start]);
            }
            assert(md[i - start] == t[i - start]);
            assert(c == t[i - start]);
        }
        if !is_digit(c) {
            assert(!all_digits(md));
            return None;
        }
        let d = (c as u32) - 0x30;
        proof {
            lemma_dec_value_step(md, i - start);
        }
        let next_hi = (acc as u128) * 10 + (d as u128);
        if next_hi > u64::MAX as u128 {
            proof {
                if all_digits(md) {
                    lemma_dec_value_grows(md, i - start + 1);
                }
            }
            return None;
        }
        acc = next_hi as u64;
        i = i + 1;
    }
    // the digits after the dot
    let mut count: usize = i - start;
    if j < n {
        i = j + 1;
        while i < n
            invariant
                start <= j < n,
                j + 1 <= i <= n,
                n == s@.len(),
                t == strip_sign(s@),
                t == s@.subrange(start as int, n as int),
                neg == (s@.len() > 0 && s@[0] == '-'),
                find_dot(t, 0) == j - start,
                md == spec_decimal_parts(t).0,
                md.len() == t.len() - 1,
                count == i - start - 1,
                count <= md.len(),
                all_digits(md.take(count as int)),
                acc == dec_value(md.take(count as int)),
            decreases n - i,
        {
            let c = s.get_char(i);
            proof {
                assert(md == t.take(j - start) + t.skip(j - start + 1));
                assert(md[count as int] == t.skip(j - start + 1)[count - (j - start)]);
                assert(md[count as int] == t[i - start]);
                assert(c == t[i - start]);
            }
            if !is_digit(c) {
                assert(!all_digits(md));
                return None;
            }
            let d = (c as u32) - 0x30;
            proof {
                lemma_dec_value_step(md, count as int);
            }
            let next_hi = (acc as u128) * 10 + (d as u128);
            if next_hi > u64::MAX as u128 {
                proof {
                    if all_digits(md) {
                        lemma_dec_value_grows(md, count + 1);
                    }
                }
                return None;
            }
            acc = next_hi as u64;
            count = count + 1;
            i = i + 1;
        }
    }
    proof {
        assert(md.take(count as int) =~= md);
    }
    if count == 0 {
        return None;
    }
    let scale = if j < n {
        n - j - 1
    } else {
        0
    };
    Some(Decimal { neg, mantissa: acc, scale })
}

/// The decimal digits of a count, most significant first.
pub open spec fn spec_dec_str(n: nat) -> Seq<char>
    decreases n,
{
    if n < 10 {
        seq![((0x30 + n) as u8) as char]
    } else {
        spec_dec_str(n / 10) + seq![((0x30 + n % 10) as u8) as char]
    }
}

/// Render a count in decimal.
pub fn dec_string_u128(n: u128) -> (r: String)
    ensures
        r@ == spec_dec_str(n as nat),
{
    if n == 0 {
        proof {
            reveal_strlit("0");
            assert("0"@ =~= spec_dec_str(0));
        }
        return String::from_str("0");
    }
    let mut digits: Vec<char> = Vec::new();
    let mut m = n;
    loop
        invariant
            n > 0,
            m > 0 ==> spec_dec_str(n as nat) == spec_dec_str(m as nat) + digits@,
            m == 0 ==> spec_dec_str(n as nat) == digits@,
        ensures
            spec_dec_str(n as nat) == digits@,
        decreases m,
    {
        if m == 0 {
            break;
        }
        let ghost digits_before = digits@;
        let d = (m % 10) as u8;
        let c = (0x30 + d) as char;
        digits.insert(0, c);
        proof {
            assert(digits@ =~= seq![c] + digits_before);
            if m >= 10 {
                assert(spec_dec_str(m as nat) == spec_dec_str((m as nat) / 10) + seq![c]);
                assert(spec_dec_str((m as nat) / 10) + (seq![c] + digits_before) =~= (spec_dec_str(
                    (m as nat) / 10,
                ) + seq![c]) + digits_before);
            }
        }
        m = m / 10;
    }
    chars_to_string(&digits)
}

/// Render a count in decimal.
pub fn dec_string(n: u64) -> (r: String)
    ensures
        r@ == spec_dec_str(n as nat),
{
    dec_string_u128(n as u128)
}

/// Ten to the `k`.
pub open spec fn pow10(k: nat) -> int
    decreases k,
{
    if k == 0 {
        1
    } else {
        10 * pow10((k - 1) as nat)
    }
}

pub proof fn lemma_pow10_pos(k: nat)
    ensures
        pow10(k) >= 1,
    decreases k,
{
    if k > 0 {
        lemma_pow10_pos((k - 1) as nat);
    }
}

pub proof fn lemma_pow10_mono(a: nat, b: nat)
    requires
        a <= b,
    ensures
        pow10(a) <= pow10(b),
    decreases b,
{
    if a < b {
        lemma_pow10_mono(a, (b - 1) as nat);
        lemma_pow10_pos((b - 1) as nat);
    }
}

/// The value saturated at the largest representable count.
pub open spec fn sat_u64(x: int) -> int {
    if x > u64::MAX {
        u64::MAX as int
    } else {
        x
    }
}

/// `mantissa * factor / 10^scale`, rounded towards zero.
pub open spec fn spec_scaled_trunc(mantissa: int, scale: nat, factor: int) -> int {
    (mantissa * factor) / pow10(scale)
}

fn pow10_u128(k: usize) -> (r: u128)
    requires
        k <= 21,
    ensures
        r == pow10(k as nat),
        r >= 1,
{
    proof {
        lemma_pow10_mono(k as nat, 21);
        reveal_with_fuel(pow10, 25);
        assert(pow10(21) == 0x3635c9adc5dea00000);
    }
    let mut r: u128 = 1;
    let mut i: usize = 0;
    while i < k
        invariant
            i <= k <= 21,
            r == pow10(i as nat),
            pow10(k as nat) <= pow10(21),
            pow10(21) == 0x3635c9adc5dea00000,
        decreases k - i,
    {
        proof {
            lemma_pow10_mono((i + 1) as nat, k as nat);
        }
        r = r * 10;
        i = i + 1;
    }
    r
}

/// Scale a decimal's mantissa by `factor` and truncate to a whole count,
/// saturating at the largest representable one.
pub fn scaled_trunc(mantissa: u64, scale: usize, factor: u64) -> (r: u64)
    requires
        1 <= factor <= 60,
    ensures
        r == sat_u64(spec_scaled_trunc(mantissa as int, scale as nat, factor as int)),
{
    proof {
        assert((mantissa as int) * (factor as int) <= (u64::MAX as int) * 60) by (nonlinear_arith)
            requires
                0 <= mantissa <= u64::MAX,
                1 <= factor <= 60,
        ;
        assert((mantissa as int) * (factor as int) >= 0) by (nonlinear_arith)
            requires
                0 <= mantissa,
                1 <= factor,
        ;
    }
    let prod = (mantissa as u128) * (factor as u128);
    if scale >= 22 {
        proof {
            lemma_pow10_mono(22, scale as nat);
            reveal_with_fuel(pow10, 25);
            assert(pow10(22) == 0x21e19e0c9bab2400000);
            lemma_pow10_pos(scale as nat);
            assert(spec_scaled_trunc(mantissa as int, scale as nat, factor as int) == 0) by (
            nonlinear_arith)
                requires
                    0 <= (mantissa as int) * (factor as int) < pow10(scale as nat),
                    pow10(scale as nat) >= 1,
                    spec_scaled_trunc(mantissa as int, scale as nat, factor as int) == ((
                    mantissa as int) * (factor as int)) / pow10(scale as nat),
            ;
        }
        return 0;
    }
    let p10 = pow10_u128(scale);
    let q = prod / p10;
    proof {
        lemma_pow10_pos(scale as nat);
    }
    if q > u64::MAX as u128 {
        u64::MAX
    } else {
        q as u64
    }
}

} // verus!
