//! Lengths of time in whole nanoseconds.

use vstd::prelude::*;
use vstd::string::*;
use crate::text::{decimal, push_decimal, push_three_digits, three_digits};

verus! {

/// A length of time, held as a count of nanoseconds.
#[derive(Clone, Copy, Debug, PartialEq, Eq, Structural)]
pub struct Duration {
    pub nanos: u128,
}

impl View for Duration {
    type V = nat;

    open spec fn view(&self) -> nat {
        self.nanos as nat
    }
}

impl Duration {
    /// The length of `secs` seconds and `subsec_nanos` nanoseconds.
    pub open spec fn of_parts(secs: u64, subsec_nanos: u32) -> Duration {
        Duration { nanos: (secs * 1_000_000_000 + subsec_nanos) as u128 }
    }

    /// The length of `secs` seconds.
    pub open spec fn of_secs(secs: u64) -> Duration {
        Self::of_parts(secs, 0)
    }

    /// The length of `secs` seconds and `subsec_nanos` nanoseconds.
    pub fn from_parts(secs: u64, subsec_nanos: u32) -> (d: Duration)
        ensures
            d == Self::of_parts(secs, subsec_nanos),
            d@ == secs * 1_000_000_000 + subsec_nanos,
    {
        let whole: u128 = secs as u128 * 1_000_000_000u128;
        Duration { nanos: whole + subsec_nanos as u128 }
    }

    /// The length of `secs` seconds.
    pub fn from_secs(secs: u64) -> (d: Duration)
        ensures
            d == Self::of_secs(secs),
            d@ == secs * 1_000_000_000,
    {
        Self::from_parts(secs, 0)
    }

    /// The length of `millis` milliseconds.
    pub fn from_millis(millis: u64) -> (d: Duration)
        ensures
            d@ == millis * 1_000_000,
    {
        Duration { nanos: millis as u128 * 1_000_000u128 }
    }

    /// The length of `nanos` nanoseconds.
    pub fn from_nanos(nanos: u128) -> (d: Duration)
        ensures
            d@ == nanos,
    {
        Duration { nanos }
    }

    /// Whether the length is nothing.
    pub fn is_zero(&self) -> (r: bool)
        ensures
            r == (self@ == 0),
    {
        self.nanos == 0
    }

    /// The length in nanoseconds.
    pub fn as_nanos(&self) -> (r: u128)
        ensures
            r == self@,
    {
        self.nanos
    }

    /// The whole milliseconds in this length.
    pub fn as_millis(&self) -> (r: u128)
        ensures
            r == self@ / 1_000_000,
    {
        self.nanos / 1_000_000u128
    }

    /// The whole seconds in this length.
    pub fn as_secs(&self) -> (r: u128)
        ensures
            r == self@ / 1_000_000_000,
    {
        self.nanos / 1_000_000_000u128
    }

    /// The nanoseconds beyond the whole seconds.
    pub fn subsec_nanos(&self) -> (r: u32)
        ensures
            r == self@ % 1_000_000_000,
    {
        (self.nanos % 1_000_000_000u128) as u32
    }
}

/// A length of `nanos` nanoseconds as it is shown: in whole milliseconds
/// under a second; in whole seconds where it is a number of them; else in
/// seconds with three decimals, to the nearest millisecond.
pub open spec fn rendered_duration(nanos: nat) -> Seq<char> {
    let ms = nanos / 1_000_000;
    if ms < 1000 {
        decimal(ms) + "ms"@
    } else if ms % 1000 == 0 {
        decimal(ms / 1000) + "s"@
    } else {
        let nearest = (nanos + 500_000) / 1_000_000;
        decimal(nearest / 1000) + "."@ + three_digits(nearest % 1000) + "s"@
    }
}

/// Shows a length of time.
pub fn format_duration(duration: Duration) -> (r: String)
    ensures
        r@ == rendered_duration(duration@),
{
    let ms: u128 = duration.as_millis();
    let mut r = String::new();
    proof {
        assert(r@ + decimal(0) =~= decimal(0));
    }
    if ms < 1000 {
        push_decimal(&mut r, ms);
        r.append("ms");
        assert(r@ =~= decimal(ms as nat) + "ms"@);
    } else if ms % 1000 == 0 {
        push_decimal(&mut r, ms / 1000);
        r.append("s");
        assert(r@ =~= decimal((ms / 1000) as nat) + "s"@);
    } else {
        let nanos: u128 = duration.as_nanos();
        let nearest: u128 = if nanos % 1_000_000 >= 500_000 {
            nanos / 1_000_000 + 1
        } else {
            nanos / 1_000_000
        };
        assert(nearest == (nanos + 500_000) / 1_000_000);
        push_decimal(&mut r, nearest / 1000);
        r.append(".");
        push_three_digits(&mut r, (nearest % 1000) as u16);
        r.append("s");
        assert(r@ =~= decimal((nearest / 1000) as nat) + "."@ + three_digits(
            (nearest % 1000) as nat,
        ) + "s"@);
    }
    r
}

} // verus!
