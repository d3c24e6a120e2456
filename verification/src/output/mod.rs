//! What the program shows: tasks, history, lengths of time, colours.

pub mod history;
pub mod style;
pub mod tasks;

pub use history::{print_history, HistoryRow};
pub use style::{
    accent, bold, bullet, command, configure, failure, info, muted, number, success, warning,
};
pub use tasks::{print_tasks, TaskRow};

use vstd::prelude::*;
use vstd::string::*;
use crate::text::{
    decimal, push_decimal, push_signed_decimal, push_three_digits, signed_decimal, three_digits,
};

verus! {

/// A length of `ms` milliseconds as it is shown: in milliseconds under a
/// second; in whole seconds where it is a number of them; else in seconds
/// with three decimals.
pub open spec fn rendered_millis(ms: int) -> Seq<char> {
    if ms < 1000 {
        signed_decimal(ms) + "ms"@
    } else if ms % 1000 == 0 {
        decimal((ms / 1000) as nat) + "s"@
    } else {
        decimal((ms / 1000) as nat) + "."@ + three_digits((ms % 1000) as nat) + "s"@
    }
}

/// Shows a length of time given in milliseconds.
pub fn format_duration_ms(ms: i64) -> (r: String)
    ensures
        r@ == rendered_millis(ms as int),
{
    let mut r = String::new();
    if ms < 1000 {
        push_signed_decimal(&mut r, ms as i128);
        r.append("ms");
        assert(r@ =~= signed_decimal(ms as int) + "ms"@);
    } else if ms % 1000 == 0 {
        push_decimal(&mut r, (ms / 1000) as u128);
        r.append("s");
        assert(r@ =~= decimal((ms / 1000) as nat) + "s"@);
    } else {
        push_decimal(&mut r, (ms / 1000) as u128);
        r.append(".");
        push_three_digits(&mut r, (ms % 1000) as u16);
        r.append("s");
        assert(r@ =~= decimal((ms / 1000) as nat) + "."@ + three_digits((ms % 1000) as nat)
            + "s"@);
    }
    r
}

} // verus!
