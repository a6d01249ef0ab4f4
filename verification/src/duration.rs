//! Non-negative time values.
//!
//! A duration is kept as whole seconds plus a millisecond remainder; its
//! mathematical value (the view) is the whole count of milliseconds.
//! Durations arise from a number and a time-unit suffix: `ms` keeps the
//! truncated value in milliseconds, `m` scales by sixty and truncates to
//! whole seconds, and `s` — or no suffix at all — truncates to whole
//! seconds; a value too large to represent saturates.

use vstd::prelude::*;

use crate::number::sat_u64;
use crate::number::scaled_trunc;
use crate::number::spec_scaled_trunc;
use crate::number::Decimal;
use crate::token::TokenType;

verus! {

/// A non-negative time value with millisecond resolution.
#[derive(Debug, Clone, Copy, PartialEq, Eq, Hash, Structural)]
pub struct Duration {
    secs: u64,
    millis: u32,
}

impl View for Duration {
    type V = int;

    closed spec fn view(&self) -> int {
        self.secs * 1000 + self.millis
    }
}

impl Duration {
    #[verifier::type_invariant]
    spec fn inv(self) -> bool {
        self.millis < 1000
    }

    /// The duration of a whole count of milliseconds.
    pub fn from_millis(ms: u64) -> (r: Duration)
        ensures
            r@ == ms as int,
    {
        let r = Duration { secs: ms / 1000, millis: (ms % 1000) as u32 };
        proof {
            assert(r@ == ms as int) by (nonlinear_arith)
                requires
                    r.secs == ms / 1000,
                    r.millis == ms % 1000,
                    r@ == r.secs * 1000 + r.millis,
            ;
        }
        r
    }

    /// The duration of a whole count of seconds.
    pub fn from_secs(s: u64) -> (r: Duration)
        ensures
            r@ == s as int * 1000,
    {
        Duration { secs: s, millis: 0 }
    }

    /// The whole value in milliseconds.
    pub fn as_millis(&self) -> (r: u128)
        ensures
            r as int == self@,
    {
        (self.secs as u128) * 1000 + (self.millis as u128)
    }

    /// The value in whole seconds, rounded down.
    pub fn as_secs(&self) -> (r: u64)
        ensures
            r as int == self@ / 1000,
    {
        proof {
            use_type_invariant(*self);
            assert(self@ / 1000 == self.secs as int) by (nonlinear_arith)
                requires
                    self@ == self.secs * 1000 + self.millis,
                    0 <= self.millis < 1000,
                    0 <= self.secs,
            ;
        }
        self.secs
    }

    /// The milliseconds below a whole second.
    pub fn subsec_millis(&self) -> (r: u32)
        ensures
            r as int == self@ % 1000,
    {
        proof {
            use_type_invariant(*self);
            assert(self@ % 1000 == self.millis as int) by (nonlinear_arith)
                requires
                    self@ == self.secs * 1000 + self.millis,
                    0 <= self.millis < 1000,
                    0 <= self.secs,
            ;
        }
        self.millis
    }

    /// Whether this is the zero duration.
    pub fn is_zero(&self) -> (r: bool)
        ensures
            r == (self@ == 0),
    {
        self.secs == 0 && self.millis == 0
    }
}

impl Default for Duration {
    /// The zero duration.
    fn default() -> (r: Duration)
        ensures
            r@ == 0,
    {
        Duration { secs: 0, millis: 0 }
    }
}

/// The value, in milliseconds, of a decimal number read under a
/// time-unit token.
pub open spec fn spec_duration_value(d: Decimal, unit: TokenType) -> int {
    if unit == TokenType::Milliseconds {
        sat_u64(spec_scaled_trunc(d.mantissa as int, d.scale as nat, 1))
    } else if unit == TokenType::Minutes {
        sat_u64(spec_scaled_trunc(d.mantissa as int, d.scale as nat, 60)) * 1000
    } else {
        sat_u64(spec_scaled_trunc(d.mantissa as int, d.scale as nat, 1)) * 1000
    }
}

/// Build the duration a decimal number denotes under a time-unit token;
/// any kind other than a time unit reads the number as whole seconds.
pub fn duration_for_unit(d: &Decimal, unit: &TokenType) -> (r: Duration)
    ensures
        r@ == spec_duration_value(*d, *unit),
{
    if *unit == TokenType::Milliseconds {
        Duration::from_millis(scaled_trunc(d.mantissa, d.scale, 1))
    } else if *unit == TokenType::Minutes {
        Duration::from_secs(scaled_trunc(d.mantissa, d.scale, 60))
    } else {
        Duration::from_secs(scaled_trunc(d.mantissa, d.scale, 1))
    }
}

} // verus!
