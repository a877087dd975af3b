//! The shadowing demonstration: what a named value shows when it is left
//! alone, when it is reassigned in place, and when a new binding of the same
//! name shadows it.

use vstd::prelude::*;
use vstd::string::*;
use crate::text::{render_signed, signed_decimal};

verus! {

/// The value that the demonstrations start from where none is chosen.
pub const SEED: i32 = 5;

/// The value that the mutable binding is given in place where none is chosen.
pub const REPLACEMENT: i32 = 6;

/// The line that shows the value `x`.
pub open spec fn value_line(x: int) -> Seq<char> {
    "The value of x is: "@ + signed_decimal(x)
}

/// The line that shows the value `x` of the inner scope.
pub open spec fn inner_line(x: int) -> Seq<char> {
    "The value of x in the inner scope is: "@ + signed_decimal(x)
}

/// The values that the shadowing bindings take, in the order in which they
/// come to be.
#[derive(Clone, Copy, Debug, PartialEq, Eq, Structural)]
pub struct Shadowed {
    /// The outer binding: one more than the seed.
    pub outer: i64,
    /// The binding of the inner scope: twice the outer binding.
    pub inner: i64,
    /// The outer binding once the inner scope has ended.
    pub outer_after: i64,
}

/// Writes the line that shows `x`.
fn show_value(x: i64) -> (line: String)
    ensures
        line@ == value_line(x as int),
{
    let mut line = String::from_str("The value of x is: ");
    line.append(render_signed(x).as_str());
    line
}

/// Binds the seed, shadows it by one more, and shadows that in an inner
/// scope by its double. The inner binding leaves the outer one as it was.
///
/// The bindings are 64 bits wide, so that every seed has its values.
pub fn shadow(seed: i32) -> (values: Shadowed)
    ensures
        values.outer == seed + 1,
        values.inner == 2 * (seed + 1),
        values.outer_after == values.outer,
{
    let x: i64 = seed as i64;
    let x: i64 = x + 1;
    let outer: i64 = x;
    let inner: i64;
    {
        let x: i64 = x * 2;
        inner = x;
    }
    Shadowed { outer, inner, outer_after: x }
}

/// The lines of the shadowing demonstration: the value of the inner scope,
/// then the value of the outer binding after that scope.
pub fn shadowing_trace(seed: i32) -> (lines: Vec<String>)
    ensures
        lines.deep_view() == seq![inner_line(2 * (seed + 1)), value_line(seed + 1)],
{
    let values = shadow(seed);
    let mut first = String::from_str("The value of x in the inner scope is: ");
    first.append(render_signed(values.inner).as_str());
    let mut lines: Vec<String> = Vec::new();
    lines.push(first);
    lines.push(show_value(values.outer_after));
    assert(lines.deep_view() =~= seq![inner_line(2 * (seed + 1)), value_line(seed + 1)]);
    lines
}

/// The lines of the mutable binding: its value before it is reassigned in
/// place, and after.
pub fn mutable_trace(initial: i32, replacement: i32) -> (lines: Vec<String>)
    ensures
        lines.deep_view() == seq![value_line(initial as int), value_line(replacement as int)],
{
    let mut lines: Vec<String> = Vec::new();
    let mut x: i32 = initial;
    lines.push(show_value(x as i64));
    x = replacement;
    lines.push(show_value(x as i64));
    assert(lines.deep_view() =~= seq![value_line(initial as int), value_line(replacement as int)]);
    lines
}

/// The lines of the immutable binding: its value, shown twice. The binding is
/// not declared mutable, so an assignment to it between the two lines would
/// not compile: that the second line shows what the first does is settled
/// when the function is built, not when it runs.
pub fn immutable_trace(value: i32) -> (lines: Vec<String>)
    ensures
        lines.deep_view() == seq![value_line(value as int), value_line(value as int)],
{
    let mut lines: Vec<String> = Vec::new();
    let x: i32 = value;
    lines.push(show_value(x as i64));
    lines.push(show_value(x as i64));
    assert(lines.deep_view() =~= seq![value_line(value as int), value_line(value as int)]);
    lines
}

/// The three demonstrations one after another: the immutable binding, the
/// mutable binding, and the shadowing, the first two begun at `seed`.
pub fn demonstration(seed: i32, replacement: i32) -> (lines: Vec<String>)
    ensures
        lines.deep_view() == seq![
            value_line(seed as int),
            value_line(seed as int),
            value_line(seed as int),
            value_line(replacement as int),
            inner_line(2 * (seed + 1)),
            value_line(seed + 1),
        ],
{
    let mut lines = immutable_trace(seed);
    let ghost first = lines.deep_view();
    let mut mutable = mutable_trace(seed, replacement);
    let ghost second = mutable.deep_view();
    let mut shadowing = shadowing_trace(seed);
    let ghost third = shadowing.deep_view();
    lines.append(&mut mutable);
    lines.append(&mut shadowing);
    assert(lines.deep_view() =~= first + second + third);
    lines
}

} // verus!
