//! The countdown printer: the numbers from an upper bound down to 1, and a
//! closing phrase.

use vstd::prelude::*;
use vstd::string::*;
use crate::text::{decimal, render_unsigned};

verus! {

/// The upper bound that the countdown starts from where none is chosen.
pub const START: u32 = 3;

/// The line that counts `n`: the number and an exclamation mark.
pub open spec fn count_line(n: nat) -> Seq<char> {
    decimal(n) + "!"@
}

/// The phrase that closes the countdown.
pub open spec fn closing_line() -> Seq<char> {
    "LIFTOFF!!!"@
}

/// The lines of the countdown from `upper`: the line at the place `k`
/// counts `upper - k`, down to 1, and the closing phrase follows.
pub open spec fn countdown_lines(upper: nat) -> Seq<Seq<char>> {
    Seq::new(upper, |k: int| count_line((upper - k) as nat)).push(closing_line())
}

/// Writes the countdown from `upper`.
pub fn countdown(upper: u32) -> (lines: Vec<String>)
    ensures
        lines.deep_view() == countdown_lines(upper as nat),
{
    let mut lines: Vec<String> = Vec::new();
    let mut n: u32 = upper;
    while n > 0
        invariant
            n <= upper,
            lines@.len() == upper - n,
            forall|k: int| 0 <= k < upper - n ==> (#[trigger] lines@[k])@ == count_line((upper - k) as nat),
        decreases n,
    {
        let mut line = render_unsigned(n as u64);
        line.append("!");
        lines.push(line);
        n = n - 1;
    }
    let ghost counted = lines@;
    lines.push(String::from_str("LIFTOFF!!!"));
    proof {
        let written = lines.deep_view();
        let wanted = countdown_lines(upper as nat);
        assert forall|k: int| 0 <= k < written.len() implies written[k] == wanted[k] by {
            if k < upper {
                assert(counted[k]@ == count_line((upper - k) as nat));
            }
        }
    }
    lines
}

} // verus!
