//! The sequence reporter: the value that is shown for an index of the
//! Fibonacci sequence, and the line that shows it.

use vstd::prelude::*;
use vstd::string::*;
use crate::input::{is_digit, parse_index, parsed_index, ParseFailure};
use crate::text::{decimal, render_unsigned};

verus! {

/// The Fibonacci sequence, counted from its seed pair: `F(0) = 0`, `F(1) = 1`,
/// and every later term is the sum of the two terms before it.
pub open spec fn fib(k: nat) -> nat
    decreases k,
{
    if k < 2 {
        k
    } else {
        fib((k - 1) as nat) + fib((k - 2) as nat)
    }
}

/// How often the running pair is advanced for the index `n`: `n - 2` times,
/// and not at all for an index below 2.
pub open spec fn advances(n: nat) -> nat {
    if n < 2 {
        0
    } else {
        (n - 2) as nat
    }
}

/// The running pair `(a, b)` once it has been advanced `k` times from the
/// seed pair `(0, 1)`; one advance replaces `(a, b)` by `(b, a + b)`.
pub open spec fn pair_after(k: nat) -> (nat, nat)
    decreases k,
{
    if k == 0 {
        (0, 1)
    } else {
        let before = pair_after((k - 1) as nat);
        (before.1, before.0 + before.1)
    }
}

/// The value reported for the index `n`, `n` at least 1: the term of the
/// sequence that the second value of the running pair has reached after
/// `advances(n)` advances. That is `F(1)` for the indices 1 and 2, and
/// `F(n - 1)` from there on.
pub open spec fn reported_value(n: nat) -> nat {
    fib(advances(n) + 1)
}

/// The largest index whose reported value fits the machine's unsigned
/// 64-bit integer.
pub const MAX_INDEX: u32 = 94;

/// The running pair holds two consecutive terms of the sequence.
pub proof fn lemma_pair_is_consecutive(k: nat)
    ensures
        pair_after(k) == (fib(k), fib(k + 1)),
    decreases k,
{
    if k > 0 {
        lemma_pair_is_consecutive((k - 1) as nat);
    }
}

/// The reported value is the second value of the running pair once the pair
/// has been advanced as often as the index asks.
pub proof fn lemma_reported_value_is_second_of_pair(n: nat)
    ensures
        reported_value(n) == pair_after(advances(n)).1,
{
    lemma_pair_is_consecutive(advances(n));
}

/// The sequence never falls.
pub proof fn lemma_fib_monotonic(i: nat, j: nat)
    requires
        i <= j,
    ensures
        fib(i) <= fib(j),
    decreases j,
{
    if i < j {
        lemma_fib_monotonic(i, (j - 1) as nat);
    }
}

/// Eight advances at once, from any pair.
proof fn lemma_eight_advances(k: nat)
    ensures
        pair_after(k + 8).0 == 13 * pair_after(k).0 + 21 * pair_after(k).1,
        pair_after(k + 8).1 == 21 * pair_after(k).0 + 34 * pair_after(k).1,
{
    reveal_with_fuel(pair_after, 9);
}

/// The last pair whose first value fits 64 bits; its second value does not.
proof fn lemma_pair_at_limit()
    ensures
        pair_after(93) == (12200160415121876738nat, 19740274219868223167nat),
{
    lemma_eight_advances(0);
    lemma_eight_advances(8);
    lemma_eight_advances(16);
    lemma_eight_advances(24);
    lemma_eight_advances(32);
    lemma_eight_advances(40);
    lemma_eight_advances(48);
    lemma_eight_advances(56);
    lemma_eight_advances(64);
    lemma_eight_advances(72);
    lemma_eight_advances(80);
    assert(pair_after(88) == (1100087778366101931nat, 1779979416004714189nat));
    reveal_with_fuel(pair_after, 6);
}

/// The reported value fits 64 bits for exactly the indices up to `MAX_INDEX`.
pub proof fn lemma_limit_is_exact(n: nat)
    ensures
        reported_value(n) <= u64::MAX <==> n <= MAX_INDEX,
{
    lemma_pair_at_limit();
    lemma_pair_is_consecutive(93);
    if n <= MAX_INDEX {
        lemma_fib_monotonic(advances(n) + 1, 93);
    } else {
        lemma_fib_monotonic(94, advances(n) + 1);
    }
}

/// From its fourth index on, the reported value is the sum of the two
/// reported values before it.
pub proof fn lemma_reported_value_recurrence(n: nat)
    requires
        n >= 4,
    ensures
        reported_value(n) == reported_value((n - 1) as nat) + reported_value((n - 2) as nat),
{
}

/// The reported value trails the sequence by one place: for an index of 2 or
/// more it is `F(n - 1)`, which is `F(n)` at the index 2 and at no other.
pub proof fn lemma_reported_value_trails(n: nat)
    requires
        n >= 2,
    ensures
        reported_value(n) == fib((n - 1) as nat),
        reported_value(n) == fib(n) <==> n == 2,
{
    if n >= 3 {
        lemma_fib_monotonic(1, (n - 2) as nat);
        assert(fib(n) == fib((n - 1) as nat) + fib((n - 2) as nat));
    } else {
        assert(fib(2) == fib(1) + fib(0));
    }
}

/// The value reported for the index `n`, computed as the reporter does: the
/// pair `(0, 1)` is advanced `advances(n)` times and its second value taken.
pub fn value_for_index(n: u32) -> (value: u64)
    requires
        1 <= n <= MAX_INDEX,
    ensures
        value == reported_value(n as nat),
{
    let steps: u32 = if n < 2 {
        0
    } else {
        n - 2
    };
    let mut a: u64 = 0;
    let mut b: u64 = 1;
    let mut done: u32 = 0;
    while done < steps
        invariant
            done <= steps <= 92,
            (a as nat, b as nat) == pair_after(done as nat),
        decreases steps - done,
    {
        proof {
            lemma_pair_is_consecutive(done as nat + 1);
            lemma_pair_at_limit();
            lemma_pair_is_consecutive(93);
            lemma_fib_monotonic(done as nat + 2, 93);
        }
        let sum: u64 = a + b;
        a = b;
        b = sum;
        done = done + 1;
    }
    proof {
        lemma_pair_is_consecutive(steps as nat);
    }
    b
}

/// What the reporter finds for the index `n`: nothing for an index that is
/// zero or negative, and else the value reported for it.
pub fn evaluate(n: i64) -> (found: Option<u64>)
    requires
        n <= MAX_INDEX,
    ensures
        n <= 0 ==> found is None,
        n >= 1 ==> found is Some && found->0 == reported_value(n as nat),
{
    if n <= 0 {
        None
    } else {
        proof {
            lemma_limit_is_exact(n as nat);
        }
        Some(value_for_index(n as u32))
    }
}

/// The line that the reporter shows for the index `n`.
pub open spec fn report_line(n: int) -> Seq<char> {
    if n <= 0 {
        "Invalid input!"@
    } else if n == 1 {
        "1st Fibonacci number: "@ + decimal(reported_value(1))
    } else {
        decimal(n as nat) + "th Fibonacci number: "@ + decimal(reported_value(n as nat))
    }
}

/// An index that is zero or negative is answered with the message for an
/// invalid index, in which no digit stands: no number is shown for it.
pub proof fn lemma_invalid_index_shows_no_number(n: int)
    requires
        n <= 0,
    ensures
        report_line(n) == "Invalid input!"@,
        forall|i: int| 0 <= i < report_line(n).len() ==> !is_digit(#[trigger] report_line(n)[i]),
{
    reveal_strlit("Invalid input!");
}

/// Writes the line that the reporter shows for the index `n`: the message
/// for an invalid index where `n` is zero or negative, and else the index
/// with its value.
pub fn report(n: i64) -> (line: String)
    requires
        n <= MAX_INDEX,
    ensures
        line@ == report_line(n as int),
{
    match evaluate(n) {
        None => String::from_str("Invalid input!"),
        Some(value) => {
            let shown = render_unsigned(value);
            if n == 1 {
                let mut line = String::from_str("1st Fibonacci number: ");
                line.append(shown.as_str());
                line
            } else {
                let mut line = render_unsigned(n as u64);
                line.append("th Fibonacci number: ");
                line.append(shown.as_str());
                line
            }
        },
    }
}

/// The line that asks for an index before one is read.
pub fn prompt() -> (line: String)
    ensures
        line@ == "Please input n for printing nth Fibonacci number"@,
{
    String::from_str("Please input n for printing nth Fibonacci number")
}

/// Where the reporter takes its index from.
#[derive(Debug)]
pub enum Source {
    /// An index fixed in advance.
    Constant(i64),
    /// A line of text that was read for the purpose.
    Line(String),
}

impl Source {
    /// The index that the source gives, or why it gives none.
    pub open spec fn index(self) -> Result<i64, ParseFailure> {
        match self {
            Source::Constant(n) => Ok(n),
            Source::Line(text) => match parsed_index(text@) {
                Ok(n) => Ok(n as i64),
                Err(failure) => Err(failure),
            },
        }
    }
}

/// Finds the index that `source` gives.
pub fn index_of(source: &Source) -> (index: Result<i64, ParseFailure>)
    ensures
        index == source.index(),
{
    match source {
        Source::Constant(n) => Ok(*n),
        Source::Line(text) => match parse_index(text.as_str()) {
            Ok(n) => Ok(n as i64),
            Err(failure) => Err(failure),
        },
    }
}

/// Runs the reporter on `source`: the line shown for the index that the
/// source gives, or the failure where the source gives no index.
pub fn run(source: &Source) -> (shown: Result<String, ParseFailure>)
    requires
        source.index() matches Ok(n) ==> n <= MAX_INDEX,
    ensures
        match source.index() {
            Ok(n) => shown matches Ok(line) && line@ == report_line(n as int),
            Err(failure) => shown == Err::<String, ParseFailure>(failure),
        },
{
    match index_of(source) {
        Ok(n) => Ok(report(n)),
        Err(failure) => Err(failure),
    }
}

} // verus!
