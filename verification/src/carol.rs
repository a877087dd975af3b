//! The carol generator: the twelve verses of a cumulative carol.
//!
//! Each verse names its day, lists the gifts of that day and of all the days
//! before it, the latest gift first, and ends with a blank line. In a verse
//! of more than one gift the last line, the gift of the first day, opens with
//! a conjunction.

use vstd::prelude::*;
use vstd::string::*;

verus! {

/// The number of days, and of verses.
pub const DAYS: usize = 12;

/// The ordinal name of the day `i`, counted from 0.
pub open spec fn day_text(i: int) -> Seq<char> {
    if i == 0 {
        "first"@
    } else if i == 1 {
        "second"@
    } else if i == 2 {
        "third"@
    } else if i == 3 {
        "fourth"@
    } else if i == 4 {
        "fifth"@
    } else if i == 5 {
        "sixth"@
    } else if i == 6 {
        "seventh"@
    } else if i == 7 {
        "eighth"@
    } else if i == 8 {
        "ninth"@
    } else if i == 9 {
        "tenth"@
    } else if i == 10 {
        "eleventh"@
    } else {
        "twelfth"@
    }
}

/// The gift of the day `j`, counted from 0.
pub open spec fn gift_text(j: int) -> Seq<char> {
    if j == 0 {
        "a Partridge in a Pear Tree"@
    } else if j == 1 {
        "Two Turtle Doves"@
    } else if j == 2 {
        "Three French Hens"@
    } else if j == 3 {
        "Four Calling Birds"@
    } else if j == 4 {
        "Five Golden Rings"@
    } else if j == 5 {
        "Six Geese a Laying"@
    } else if j == 6 {
        "Seven Swans a Swimming"@
    } else if j == 7 {
        "Eight Maids a Milking"@
    } else if j == 8 {
        "Nine Ladies Dancing"@
    } else if j == 9 {
        "Ten Lords a Leaping"@
    } else if j == 10 {
        "Eleven Pipers Piping"@
    } else {
        "Twelve Drummers Drumming"@
    }
}

/// The line that opens the verse of the day `i`.
pub open spec fn opening_line(i: int) -> Seq<char> {
    "On the "@ + day_text(i) + " day of Christmas my true love sent to me"@
}

/// The line that gives the gift `j` in the verse of the day `i`: the gift
/// itself, after the conjunction where it is the first day's gift and the
/// verse holds other gifts too.
pub open spec fn gift_line(i: int, j: int) -> Seq<char> {
    if j == 0 && i > 0 {
        "and "@ + gift_text(0)
    } else {
        gift_text(j)
    }
}

/// The lines of the verse of the day `i`: the opening line, the gifts from
/// that of the day `i` down to that of the day 0, and a blank line.
pub open spec fn verse_lines(i: int) -> Seq<Seq<char>> {
    seq![opening_line(i)] + Seq::new((i + 1) as nat, |k: int| gift_line(i, i - k)) + seq![
        Seq::<char>::empty(),
    ]
}

/// The lines of the first `n` verses, in the order of their days.
pub open spec fn verses_through(n: nat) -> Seq<Seq<char>>
    decreases n,
{
    if n == 0 {
        Seq::empty()
    } else {
        verses_through((n - 1) as nat) + verse_lines(n - 1)
    }
}

/// The lines of the whole carol.
pub open spec fn carol_lines() -> Seq<Seq<char>> {
    verses_through(DAYS as nat)
}

/// Where the verse of the day `i` starts among the lines of the carol.
pub open spec fn verse_start(i: nat) -> nat {
    i * (i + 5) / 2
}

/// Whether `line` opens with the conjunction.
pub open spec fn opens_with_conjunction(line: Seq<char>) -> bool {
    "and "@.is_prefix_of(line)
}

/// No gift is blank, and none opens with the conjunction by itself.
proof fn lemma_gifts_are_plain(j: int)
    ensures
        gift_text(j).len() > 0,
        !opens_with_conjunction(gift_text(j)),
{
    reveal_strlit("and ");
    reveal_strlit("a Partridge in a Pear Tree");
    reveal_strlit("Two Turtle Doves");
    reveal_strlit("Three French Hens");
    reveal_strlit("Four Calling Birds");
    reveal_strlit("Five Golden Rings");
    reveal_strlit("Six Geese a Laying");
    reveal_strlit("Seven Swans a Swimming");
    reveal_strlit("Eight Maids a Milking");
    reveal_strlit("Nine Ladies Dancing");
    reveal_strlit("Ten Lords a Leaping");
    reveal_strlit("Eleven Pipers Piping");
    reveal_strlit("Twelve Drummers Drumming");
    let text = gift_text(j);
    if opens_with_conjunction(text) {
        assert(text.subrange(0, 4)[0] == text[0]);
        assert(text.subrange(0, 4)[1] == text[1]);
    }
}

/// A verse of the day `i` has `i + 3` lines, of which the last is blank and
/// no other is.
pub proof fn lemma_verse_ends_blank(i: int)
    requires
        0 <= i < DAYS,
    ensures
        verse_lines(i).len() == i + 3,
        verse_lines(i).last().len() == 0,
        forall|k: int| 0 <= k < i + 2 ==> (#[trigger] verse_lines(i)[k]).len() > 0,
{
    reveal_strlit("On the ");
    assert forall|k: int| 0 <= k < i + 2 implies (#[trigger] verse_lines(i)[k]).len() > 0 by {
        if k > 0 {
            lemma_gifts_are_plain(i - (k - 1));
        }
    }
}

/// In the verse of the day `i` the conjunction opens one line at most: the
/// last gift line, and only where the verse holds more than one gift.
pub proof fn lemma_conjunction_once(i: int, k: int)
    requires
        0 <= i < DAYS,
        0 <= k < i + 3,
    ensures
        opens_with_conjunction(verse_lines(i)[k]) <==> i > 0 && k == i + 1,
        1 <= k <= i + 1 ==> verse_lines(i)[k] == gift_line(i, i + 1 - k),
        1 <= k <= i + 1 && !(i > 0 && k == i + 1) ==> verse_lines(i)[k] == gift_text(i + 1 - k),
{
    reveal_strlit("and ");
    reveal_strlit("On the ");
    let line = verse_lines(i)[k];
    if k == 0 {
        if opens_with_conjunction(line) {
            assert(line.subrange(0, 4)[0] == line[0]);
        }
    } else if k <= i + 1 {
        lemma_gifts_are_plain(i + 1 - k);
        if i > 0 && k == i + 1 {
            assert(line.subrange(0, 4) =~= "and "@);
        }
    }
}

/// The carol is the twelve verses one after another, the verse of each day
/// standing whole at its place, and has 102 lines in all.
pub proof fn lemma_carol_is_twelve_verses(i: nat)
    requires
        i < DAYS,
    ensures
        carol_lines().len() == 102,
        verse_start(i) + verse_lines(i as int).len() == verse_start(i + 1) <= 102,
        carol_lines().subrange(verse_start(i) as int, verse_start(i + 1) as int) == verse_lines(
            i as int,
        ),
{
    lemma_verses_through(DAYS as nat, i);
}

/// The first `n` verses fill `verse_start(n)` lines, and hold each of those
/// verses whole at its place.
proof fn lemma_verses_through(n: nat, i: nat)
    requires
        i < n,
    ensures
        verses_through(n).len() == verse_start(n),
        verse_start(i) + verse_lines(i as int).len() == verse_start(i + 1) <= verse_start(n),
        verses_through(n).subrange(verse_start(i) as int, verse_start(i + 1) as int)
            == verse_lines(i as int),
    decreases n,
{
    lemma_length_through((n - 1) as nat);
    lemma_length_through(n);
    lemma_length_through(i);
    lemma_length_through(i + 1);
    let earlier = verses_through((n - 1) as nat);
    if i == n - 1 {
        assert((earlier + verse_lines(i as int)).subrange(
            verse_start(i) as int,
            verse_start(i + 1) as int,
        ) =~= verse_lines(i as int));
    } else {
        lemma_verses_through((n - 1) as nat, i);
        assert((earlier + verse_lines(n - 1)).subrange(
            verse_start(i) as int,
            verse_start(i + 1) as int,
        ) =~= earlier.subrange(verse_start(i) as int, verse_start(i + 1) as int));
    }
}

/// The first `n` verses fill `verse_start(n)` lines.
proof fn lemma_length_through(n: nat)
    ensures
        verses_through(n).len() == verse_start(n),
        2 * verse_start(n) == n * (n + 5),
    decreases n,
{
    if n > 0 {
        let m = (n - 1) as nat;
        lemma_length_through(m);
        assert(n * (n + 5) == m * (m + 5) + 2 * n + 4) by (nonlinear_arith)
            requires
                n == m + 1,
        ;
    } else {
        assert(n * (n + 5) == 0) by (nonlinear_arith)
            requires
                n == 0,
        ;
    }
}

/// The ordinal name of the day `i`.
pub fn day_name(i: usize) -> (name: &'static str)
    requires
        i < DAYS,
    ensures
        name@ == day_text(i as int),
{
    match i {
        0 => "first",
        1 => "second",
        2 => "third",
        3 => "fourth",
        4 => "fifth",
        5 => "sixth",
        6 => "seventh",
        7 => "eighth",
        8 => "ninth",
        9 => "tenth",
        10 => "eleventh",
        _ => "twelfth",
    }
}

/// The gift of the day `j`.
pub fn gift(j: usize) -> (name: &'static str)
    requires
        j < DAYS,
    ensures
        name@ == gift_text(j as int),
{
    match j {
        0 => "a Partridge in a Pear Tree",
        1 => "Two Turtle Doves",
        2 => "Three French Hens",
        3 => "Four Calling Birds",
        4 => "Five Golden Rings",
        5 => "Six Geese a Laying",
        6 => "Seven Swans a Swimming",
        7 => "Eight Maids a Milking",
        8 => "Nine Ladies Dancing",
        9 => "Ten Lords a Leaping",
        10 => "Eleven Pipers Piping",
        _ => "Twelve Drummers Drumming",
    }
}

/// Writes the verse of the day `i`.
pub fn verse(i: usize) -> (lines: Vec<String>)
    requires
        i < DAYS,
    ensures
        lines.deep_view() == verse_lines(i as int),
{
    let mut opening = String::from_str("On the ");
    opening.append(day_name(i));
    opening.append(" day of Christmas my true love sent to me");
    let mut lines: Vec<String> = Vec::new();
    lines.push(opening);
    let mut j: usize = i + 1;
    while j > 0
        invariant
            i < DAYS,
            j <= i + 1,
            lines@.len() == 1 + (i + 1 - j),
            lines@[0]@ == opening_line(i as int),
            forall|k: int| 0 <= k < i + 1 - j ==> (#[trigger] lines@[k + 1])@ == gift_line(i as int, i - k),
        decreases j,
    {
        j = j - 1;
        let mut line = String::new();
        if j == 0 && i > 0 {
            line.append("and ");
        }
        line.append(gift(j));
        lines.push(line);
    }
    let ghost listed = lines@;
    lines.push(String::new());
    proof {
        let written = lines.deep_view();
        let wanted = verse_lines(i as int);
        assert forall|k: int| 0 <= k < written.len() implies written[k] == wanted[k] by {
            if 1 <= k <= i + 1 {
                assert(listed[(k - 1) + 1]@ == gift_line(i as int, i - (k - 1)));
            }
        }
    }
    lines
}

/// Writes the whole carol: the verses of all the days, in order.
pub fn carol() -> (lines: Vec<String>)
    ensures
        lines.deep_view() == carol_lines(),
{
    let mut lines: Vec<String> = Vec::new();
    let mut i: usize = 0;
    while i < DAYS
        invariant
            i <= DAYS,
            lines.deep_view() == verses_through(i as nat),
        decreases DAYS - i,
    {
        let ghost before = lines.deep_view();
        let mut next = verse(i);
        let ghost added = next.deep_view();
        lines.append(&mut next);
        assert(lines.deep_view() =~= before + added);
        i = i + 1;
    }
    lines
}

} // verus!
