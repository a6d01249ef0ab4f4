//! Validation of regular-expression literals.
//!
//! The parser checks that a pattern compiles before it accepts a `Wait`
//! pattern or a `WaitPattern` setting; the pattern itself is carried as
//! plain text, and nothing here ever evaluates it.

use vstd::prelude::*;

verus! {

/// Whether the regex engine accepts the pattern text.
pub uninterp spec fn regex_valid(s: Seq<char>) -> bool;

/// Relies on `regex::Regex::new`: whether the pattern compiles under the
/// engine's default configuration, which depends on the pattern text
/// alone.
#[verifier::external_body]
pub fn regex_is_valid(pattern: &str) -> (r: bool)
    ensures
        r == regex_valid(pattern@),
{
    regex::Regex::new(pattern).is_ok()
}

} // verus!
