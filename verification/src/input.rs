//! Reading an index from a line of text: the line is trimmed of the
//! whitespace around it and then read as an unsigned decimal number.

use vstd::prelude::*;
use crate::text::decimal;

verus! {

/// Why a line is no index.
#[derive(Clone, Copy, Debug, PartialEq, Eq, Structural)]
pub enum ParseFailure {
    /// Nothing is left of the line once it is trimmed.
    Empty,
    /// A character that is no digit stands where a digit is needed, or a
    /// sign stands alone.
    InvalidDigit,
    /// The digits write a number above `u32::MAX`.
    Overflow,
}

/// Whether `c` is whitespace: a character with the Unicode property
/// `White_Space`.
pub open spec fn is_whitespace(c: char) -> bool {
    let u = c as u32;
    ||| 0x09 <= u <= 0x0D
    ||| u == 0x20
    ||| u == 0x85
    ||| u == 0xA0
    ||| u == 0x1680
    ||| 0x2000 <= u <= 0x200A
    ||| u == 0x2028
    ||| u == 0x2029
    ||| u == 0x202F
    ||| u == 0x205F
    ||| u == 0x3000
}

/// `s` without the whitespace at its start.
pub open spec fn trim_start(s: Seq<char>) -> Seq<char>
    decreases s.len(),
{
    if s.len() > 0 && is_whitespace(s.first()) {
        trim_start(s.drop_first())
    } else {
        s
    }
}

/// `s` without the whitespace at its end.
pub open spec fn trim_end(s: Seq<char>) -> Seq<char>
    decreases s.len(),
{
    if s.len() > 0 && is_whitespace(s.last()) {
        trim_end(s.drop_last())
    } else {
        s
    }
}

/// `s` without the whitespace at either end.
pub open spec fn trimmed(s: Seq<char>) -> Seq<char> {
    trim_end(trim_start(s))
}

/// Whether `c` is one of the digits `0` to `9`.
pub open spec fn is_digit(c: char) -> bool {
    0x30 <= c as u32 <= 0x39
}

/// The number that the digit `c` writes; zero for a character that is no digit.
pub open spec fn digit_value(c: char) -> nat {
    if is_digit(c) {
        (c as u32 - 0x30) as nat
    } else {
        0
    }
}

/// The number that the digits of `d` write in decimal notation.
pub open spec fn decimal_value(d: Seq<char>) -> nat
    decreases d.len(),
{
    if d.len() == 0 {
        0
    } else {
        10 * decimal_value(d.drop_last()) + digit_value(d.last())
    }
}

/// The length of the longest prefix of `d` that is made of digits only.
pub open spec fn digit_run(d: Seq<char>) -> nat
    decreases d.len(),
{
    if d.len() > 0 && is_digit(d.first()) {
        1 + digit_run(d.drop_first())
    } else {
        0
    }
}

/// `t` without the plus sign that may stand before its digits.
pub open spec fn unsigned_part(t: Seq<char>) -> Seq<char> {
    if t.len() > 0 && t.first() == '+' {
        t.drop_first()
    } else {
        t
    }
}

/// The index that `line` holds, or why it holds none.
///
/// The line is trimmed, and one plus sign before the digits is passed over.
/// What is left is read from the left: it fails as an overflow once its
/// digits write a number above `u32::MAX`, and as an invalid digit at the
/// first character that is no digit, whichever comes first. A line with
/// nothing but whitespace is empty; a sign with nothing behind it is an
/// invalid digit.
pub open spec fn parsed_index(line: Seq<char>) -> Result<u32, ParseFailure> {
    let t = trimmed(line);
    let d = unsigned_part(t);
    let run = d.take(digit_run(d) as int);
    if t.len() == 0 {
        Err(ParseFailure::Empty)
    } else if decimal_value(run) > u32::MAX {
        Err(ParseFailure::Overflow)
    } else if d.len() == 0 || run.len() < d.len() {
        Err(ParseFailure::InvalidDigit)
    } else {
        Ok(decimal_value(d) as u32)
    }
}

/// The characters of `line`, in order.
fn characters(line: &str) -> (cs: Vec<char>)
    ensures
        cs@ == line@,
{
    let mut cs: Vec<char> = Vec::new();
    for c in it: line.chars()
        invariant
            it.seq() == line@,
            cs@ == it.seq().take(it.index()),
    {
        cs.push(c);
    }
    cs
}

/// Tells whether `c` is whitespace.
pub fn whitespace(c: char) -> (w: bool)
    ensures
        w == is_whitespace(c),
{
    let u: u32 = c as u32;
    (0x09 <= u && u <= 0x0D) || u == 0x20 || u == 0x85 || u == 0xA0 || u == 0x1680 || (0x2000 <= u
        && u <= 0x200A) || u == 0x2028 || u == 0x2029 || u == 0x202F || u == 0x205F || u == 0x3000
}

/// The run of digits is at least as long as any prefix made of digits.
proof fn lemma_digit_run_reaches(d: Seq<char>, m: int)
    requires
        0 <= m <= d.len(),
        forall|j: int| 0 <= j < m ==> is_digit(#[trigger] d[j]),
    ensures
        m <= digit_run(d) <= d.len(),
        m < d.len() && !is_digit(d[m]) ==> digit_run(d) == m,
        m == d.len() ==> digit_run(d) == m,
    decreases d.len(),
{
    if m > 0 {
        let rest = d.drop_first();
        assert forall|j: int| 0 <= j < m - 1 implies is_digit(#[trigger] rest[j]) by {
            assert(rest[j] == d[j + 1]);
        }
        lemma_digit_run_reaches(rest, m - 1);
    } else if d.len() > 0 && is_digit(d.first()) {
        lemma_digit_run_reaches(d.drop_first(), 0);
    }
}

/// A longer prefix writes no smaller number.
proof fn lemma_value_grows(d: Seq<char>, m: int, n: int)
    requires
        0 <= m <= n <= d.len(),
    ensures
        decimal_value(d.take(m)) <= decimal_value(d.take(n)),
    decreases n - m,
{
    if m < n {
        lemma_value_grows(d, m, n - 1);
        assert(d.take(n).drop_last() =~= d.take(n - 1));
    }
}

/// The run of digits is made of digits, and ends at the end of `d` or before
/// a character that is no digit.
proof fn lemma_digit_run_is_digits(d: Seq<char>)
    ensures
        digit_run(d) <= d.len(),
        forall|j: int| 0 <= j < digit_run(d) ==> is_digit(#[trigger] d[j]),
        digit_run(d) < d.len() ==> !is_digit(d[digit_run(d) as int]),
    decreases d.len(),
{
    if d.len() > 0 && is_digit(d.first()) {
        let rest = d.drop_first();
        lemma_digit_run_is_digits(rest);
        assert forall|j: int| 0 <= j < digit_run(d) implies is_digit(#[trigger] d[j]) by {
            if j > 0 {
                assert(d[j] == rest[j - 1]);
            }
        }
        if digit_run(d) < d.len() {
            assert(d[digit_run(d) as int] == rest[digit_run(rest) as int]);
        }
    }
}

/// A line holds an index exactly where what is left of it, once it is trimmed
/// and one plus sign is passed over, is one digit or more and nothing else,
/// and writes a number up to `u32::MAX`. The index is then that number.
pub proof fn lemma_index_iff_digits(line: Seq<char>)
    ensures
        parsed_index(line) is Ok <==> {
            let d = unsigned_part(trimmed(line));
            &&& d.len() > 0
            &&& forall|j: int| 0 <= j < d.len() ==> is_digit(#[trigger] d[j])
            &&& decimal_value(d) <= u32::MAX
        },
        parsed_index(line) matches Ok(n) ==> n == decimal_value(unsigned_part(trimmed(line))),
{
    let d = unsigned_part(trimmed(line));
    lemma_digit_run_is_digits(d);
    if forall|j: int| 0 <= j < d.len() ==> is_digit(#[trigger] d[j]) {
        lemma_digit_run_reaches(d, d.len() as int);
    }
    if digit_run(d) == d.len() {
        assert(d.take(d.len() as int) =~= d);
    }
}

/// The decimal notation of `n` is made of digits, which write `n`.
proof fn lemma_decimal_is_digits(n: nat)
    ensures
        decimal(n).len() >= 1,
        forall|j: int| 0 <= j < decimal(n).len() ==> is_digit(#[trigger] decimal(n)[j]),
        decimal_value(decimal(n)) == n,
    decreases n,
{
    if n < 10 {
        assert(decimal_value(decimal(n).drop_last()) == 0);
    } else {
        lemma_decimal_is_digits(n / 10);
        assert(decimal(n).drop_last() =~= decimal(n / 10));
    }
}

/// What is written in decimal notation reads back as the same index.
pub proof fn lemma_decimal_reads_back(n: nat)
    requires
        n <= u32::MAX,
    ensures
        parsed_index(decimal(n)) == Ok::<u32, ParseFailure>(n as u32),
{
    let s = decimal(n);
    lemma_decimal_is_digits(n);
    lemma_digit_run_reaches(s, s.len() as int);
    assert(s.take(s.len() as int) =~= s);
}

/// Where the trimmed part of `cs` starts and ends.
fn trimmed_range(cs: &Vec<char>) -> (range: (usize, usize))
    ensures
        range.0 <= range.1 <= cs@.len(),
        cs@.subrange(range.0 as int, range.1 as int) == trimmed(cs@),
{
    let len = cs.len();
    let mut start: usize = 0;
    assert(cs@.subrange(0, len as int) =~= cs@);
    while start < len && whitespace(cs[start])
        invariant
            start <= len == cs@.len(),
            trim_start(cs@) == trim_start(cs@.subrange(start as int, len as int)),
        decreases len - start,
    {
        assert(cs@.subrange(start as int, len as int).drop_first() =~= cs@.subrange(
            start as int + 1,
            len as int,
        ));
        start = start + 1;
    }
    let ghost kept = cs@.subrange(start as int, len as int);
    let mut end: usize = len;
    while end > start && whitespace(cs[end - 1])
        invariant
            start <= end <= len == cs@.len(),
            trim_end(kept) == trim_end(cs@.subrange(start as int, end as int)),
            kept == cs@.subrange(start as int, len as int),
        decreases end - start,
    {
        assert(cs@.subrange(start as int, end as int).drop_last() =~= cs@.subrange(
            start as int,
            end as int - 1,
        ));
        end = end - 1;
    }
    (start, end)
}

/// Reads the index that `line` holds.
pub fn parse_index(line: &str) -> (index: Result<u32, ParseFailure>)
    ensures
        index == parsed_index(line@),
{
    let cs = characters(line);
    let (start, end) = trimmed_range(&cs);
    if start == end {
        return Err(ParseFailure::Empty);
    }
    let from: usize = if cs[start] == '+' {
        start + 1
    } else {
        start
    };
    let ghost d = cs@.subrange(from as int, end as int);
    let mut at: usize = from;
    let mut value: u64 = 0;
    while at < end
        invariant
            from <= at <= end <= cs@.len(),
            d == cs@.subrange(from as int, end as int),
            d == unsigned_part(trimmed(line@)),
            trimmed(line@).len() > 0,
            forall|j: int| 0 <= j < at - from ==> is_digit(#[trigger] d[j]),
            value == decimal_value(d.take(at - from)),
            value <= u32::MAX,
        decreases end - at,
    {
        let c: char = cs[at];
        let u: u32 = c as u32;
        if u < 0x30 || u > 0x39 {
            proof {
                lemma_digit_run_reaches(d, at - from);
            }
            return Err(ParseFailure::InvalidDigit);
        }
        let next: u64 = 10 * value + (u - 0x30) as u64;
        assert(d.take(at - from + 1).drop_last() =~= d.take(at - from));
        if next > u32::MAX as u64 {
            proof {
                lemma_digit_run_reaches(d, at - from + 1);
                lemma_value_grows(d, at - from + 1, digit_run(d) as int);
            }
            return Err(ParseFailure::Overflow);
        }
        value = next;
        at = at + 1;
    }
    proof {
        lemma_digit_run_reaches(d, d.len() as int);
        assert(d.take(d.len() as int) =~= d);
    }
    if from == end {
        Err(ParseFailure::InvalidDigit)
    } else {
        Ok(value as u32)
    }
}

} // verus!
