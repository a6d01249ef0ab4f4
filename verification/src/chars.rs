//! Character classification and small string helpers.
//!
//! The lexer's scanning rules are stated over a handful of character
//! classes.  The white-space class is written out exactly (it is the
//! Unicode `White_Space` set).  The alphabetic and numeric classes are
//! exact on ASCII and never contain white space; outside ASCII they are
//! named, uninterpreted predicates tied to the standard library's
//! classification functions.

use vstd::prelude::*;
use vstd::string::*;

verus! {

/// The Unicode `White_Space` characters: exactly the characters for which
/// `char::is_whitespace` returns true.
pub open spec fn is_space_char(c: char) -> bool {
    let u = c as u32;
    u == 0x20 || (0x09 <= u && u <= 0x0d) || u == 0x85 || u == 0xa0 || u == 0x1680 || (0x2000
        <= u && u <= 0x200a) || u == 0x2028 || u == 0x2029 || u == 0x202f || u == 0x205f || u
        == 0x3000
}

/// Whether `c` is one of the ASCII digits `0` to `9`.
pub open spec fn is_digit_char(c: char) -> bool {
    0x30 <= (c as u32) && (c as u32) <= 0x39
}

/// The numeric value of an ASCII digit.
pub open spec fn digit_val(c: char) -> int {
    (c as u32) - 0x30
}

/// The non-ASCII, non-white-space part of `char::is_alphabetic`.
pub uninterp spec fn alphabetic_ext(c: char) -> bool;

/// The non-ASCII, non-white-space part of `char::is_numeric`.
pub uninterp spec fn numeric_ext(c: char) -> bool;

/// Whether `c` has the Unicode `Alphabetic` property.  On ASCII these are
/// exactly the letters, and no white-space character is alphabetic; the
/// remainder of the class is the uninterpreted `alphabetic_ext`.
pub open spec fn is_alphabetic_char(c: char) -> bool {
    if (c as u32) < 0x80 {
        (0x41 <= (c as u32) && (c as u32) <= 0x5a) || (0x61 <= (c as u32) && (c as u32) <= 0x7a)
    } else if is_space_char(c) {
        false
    } else {
        alphabetic_ext(c)
    }
}

/// Whether `c` is Unicode-numeric.  On ASCII these are exactly the digits,
/// and no white-space character is numeric; the remainder of the class is
/// the uninterpreted `numeric_ext`.
pub open spec fn is_numeric_char(c: char) -> bool {
    if (c as u32) < 0x80 {
        is_digit_char(c)
    } else if is_space_char(c) {
        false
    } else {
        numeric_ext(c)
    }
}

/// Whether `c` is alphanumeric, i.e. alphabetic or numeric; this is how
/// the standard library documents `char::is_alphanumeric`.
pub open spec fn is_alphanumeric_char(c: char) -> bool {
    is_alphabetic_char(c) || is_numeric_char(c)
}

/// Relies on `char::is_alphabetic`: true exactly on the Unicode
/// `Alphabetic` characters, which within ASCII are the letters and which
/// never include white space.
pub assume_specification[ char::is_alphabetic ](c: char) -> (r: bool)
    ensures
        r == is_alphabetic_char(c),
        (c as u32) >= 0x80 && !is_space_char(c) ==> r == alphabetic_ext(c),
;

/// Relies on `char::is_numeric`: true exactly on the Unicode numeric
/// characters, which within ASCII are the digits and which never include
/// white space.
pub assume_specification[ char::is_numeric ](c: char) -> (r: bool)
    ensures
        r == is_numeric_char(c),
        (c as u32) >= 0x80 && !is_space_char(c) ==> r == numeric_ext(c),
;

/// Whether `c` is white space, by the exact `White_Space` list.
pub fn is_space(c: char) -> (r: bool)
    ensures
        r == is_space_char(c),
{
    let u = c as u32;
    u == 0x20 || (0x09 <= u && u <= 0x0d) || u == 0x85 || u == 0xa0 || u == 0x1680 || (0x2000
        <= u && u <= 0x200a) || u == 0x2028 || u == 0x2029 || u == 0x202f || u == 0x205f || u
        == 0x3000
}

/// Whether `c` is an ASCII digit.
pub fn is_digit(c: char) -> (r: bool)
    ensures
        r == is_digit_char(c),
{
    let u = c as u32;
    0x30 <= u && u <= 0x39
}

/// The result of `char::to_uppercase`, which depends on the character
/// alone.
pub uninterp spec fn upper_chars(c: char) -> Seq<char>;

/// Relies on `char::to_uppercase`: the Unicode uppercase mapping of one
/// character, possibly several characters long, a function of the
/// character alone.
#[verifier::external_body]
pub fn char_to_uppercase(c: char) -> (r: String)
    ensures
        r@ == upper_chars(c),
{
    c.to_uppercase().collect()
}

/// The result of `str::to_lowercase`, which depends on the characters
/// alone.
pub uninterp spec fn lower_chars(s: Seq<char>) -> Seq<char>;

/// Relies on `str::to_lowercase`: the Unicode lowercase mapping, a
/// function of the characters alone; an empty string stays empty.
#[verifier::external_body]
pub fn str_to_lowercase(s: &str) -> (r: String)
    ensures
        r@ == lower_chars(s@),
        s@.len() == 0 ==> r@.len() == 0,
{
    s.to_lowercase()
}

/// Relies on `String::from_iter` over a character iterator: the string of
/// exactly those characters, in order.
#[verifier::external_body]
pub fn chars_to_string(v: &Vec<char>) -> (r: String)
    ensures
        r@ == v@,
{
    v.iter().collect()
}

/// A copy of the characters `v[from..to]`.
pub fn vec_substring(v: &Vec<char>, from: usize, to: usize) -> (r: Vec<char>)
    requires
        from <= to <= v@.len(),
    ensures
        r@ == v@.subrange(from as int, to as int),
{
    let mut r: Vec<char> = Vec::new();
    let mut i: usize = from;
    while i < to
        invariant
            from <= i <= to <= v@.len(),
            r@ == v@.subrange(from as int, i as int),
        decreases to - i,
    {
        let c = v[i];
        r.push(c);
        proof {
            assert(v@.subrange(from as int, i + 1 as int) =~= v@.subrange(from as int, i as int)
                .push(v@[i as int]));
        }
        i = i + 1;
    }
    r
}

/// A one-character string.
pub fn char_string(c: char) -> (r: String)
    ensures
        r@ == seq![c],
{
    let mut v: Vec<char> = Vec::new();
    v.push(c);
    chars_to_string(&v)
}

/// The characters of `s`, as a vector.
pub fn str_to_chars(s: &str) -> (r: Vec<char>)
    ensures
        r@ == s@,
{
    let n = s.unicode_len();
    let mut v: Vec<char> = Vec::new();
    let mut i: usize = 0;
    while i < n
        invariant
            i <= n,
            n == s@.len(),
            v@ == s@.take(i as int),
        decreases n - i,
    {
        let c = s.get_char(i);
        v.push(c);
        proof {
            assert(s@.take(i + 1 as int) =~= s@.take(i as int).push(s@[i as int]));
        }
        i = i + 1;
    }
    proof {
        assert(s@.take(n as int) =~= s@);
    }
    v
}

/// The first position at or after `i` holding `_`, or the length of `s`
/// if there is none.
pub open spec fn find_underscore(s: Seq<char>, i: int) -> int
    decreases s.len() - i,
{
    if 0 <= i < s.len() {
        if s[i] == '_' {
            i
        } else {
            find_underscore(s, i + 1)
        }
    } else {
        s.len() as int
    }
}

pub proof fn lemma_find_underscore_bounds(s: Seq<char>, i: int)
    requires
        0 <= i <= s.len(),
    ensures
        i <= find_underscore(s, i) <= s.len(),
        find_underscore(s, i) < s.len() ==> s[find_underscore(s, i)] == '_',
        forall|t: int| i <= t < find_underscore(s, i) ==> s[t] != '_',
    decreases s.len() - i,
{
    if i < s.len() && s[i] != '_' {
        lemma_find_underscore_bounds(s, i + 1);
    }
}

pub proof fn lemma_find_underscore_found(s: Seq<char>, i: int, k: int)
    requires
        0 <= i <= k <= s.len(),
        forall|t: int| i <= t < k ==> s[t] != '_',
        k == s.len() || s[k] == '_',
    ensures
        find_underscore(s, i) == k,
    decreases k - i,
{
    if i < k {
        lemma_find_underscore_found(s, i + 1, k);
    }
}

/// A name part with its first character uppercased and the rest
/// lowercased.
pub open spec fn spec_capitalize(part: Seq<char>) -> Seq<char> {
    if part.len() == 0 {
        Seq::<char>::empty()
    } else {
        upper_chars(part[0]) + lower_chars(part.skip(1))
    }
}

/// Camel-casing from position `i` on: each `_`-separated part is
/// capitalized, and the parts are joined with nothing between them.
pub open spec fn spec_camel_from(s: Seq<char>, i: int) -> Seq<char>
    decreases s.len() - i,
    via spec_camel_from_dec
{
    if 0 <= i <= s.len() {
        let j = find_underscore(s, i);
        if j >= s.len() {
            spec_capitalize(s.subrange(i, s.len() as int))
        } else {
            spec_capitalize(s.subrange(i, j)) + spec_camel_from(s, j + 1)
        }
    } else {
        Seq::<char>::empty()
    }
}

#[via_fn]
proof fn spec_camel_from_dec(s: Seq<char>, i: int) {
    if 0 <= i <= s.len() {
        lemma_find_underscore_bounds(s, i);
    }
}

/// Camel-casing of a whole `_`-separated name.
pub open spec fn spec_to_camel(s: Seq<char>) -> Seq<char> {
    spec_camel_from(s, 0)
}

/// Character-for-character string equality.
pub fn str_eq(a: &str, b: &str) -> (r: bool)
    ensures
        r == (a@ == b@),
{
    let n = a.unicode_len();
    if n != b.unicode_len() {
        return false;
    }
    let mut i: usize = 0;
    while i < n
        invariant
            i <= n,
            n == a@.len(),
            n == b@.len(),
            forall|j: int| 0 <= j < i ==> a@[j] == b@[j],
        decreases n - i,
    {
        if a.get_char(i) != b.get_char(i) {
            return false;
        }
        i = i + 1;
    }
    proof {
        assert(a@ =~= b@);
    }
    true
}

} // verus!
