//! The greeting printer: one fixed line.

use vstd::prelude::*;
use vstd::string::*;

verus! {

/// The greeting.
pub open spec fn greeting_text() -> Seq<char> {
    "Hello World!"@
}

/// The greeting is twelve characters, none of which breaks the line: it
/// fills one line and no more.
pub proof fn lemma_greeting_is_one_line()
    ensures
        greeting_text().len() == 12,
        forall|i: int|
            0 <= i < greeting_text().len() ==> #[trigger] greeting_text()[i] != '\n'
                && greeting_text()[i] != '\r',
{
    reveal_strlit("Hello World!");
}

/// Writes the greeting: the same line at every call.
pub fn greeting() -> (line: String)
    ensures
        line@ == greeting_text(),
{
    String::from_str("Hello World!")
}

} // verus!
