//! The welcome screen's stock quotes: a fixed dozen, picked by a seed.
//! Reading the clock for the seed is the shell's concern.

use vstd::prelude::*;

verus! {

/// The quote in a given slot of the fixed dozen.
pub open spec fn spec_quote(i: int) -> Seq<char> {
    if i == 0 {
        "\"Stay curious, keep reading.\""@
    } else if i == 1 {
        "\"Knowledge is the new currency.\""@
    } else if i == 2 {
        "\"Every article is a window to the world.\""@
    } else if i == 3 {
        "\"Read widely, think deeply.\""@
    } else if i == 4 {
        "\"Information is the oxygen of the modern age.\""@
    } else if i == 5 {
        "\"The more you read, the more you know.\""@
    } else if i == 6 {
        "\"Feed your mind, one article at a time.\""@
    } else if i == 7 {
        "\"Stay informed, stay ahead.\""@
    } else if i == 8 {
        "\"Reading is to the mind what exercise is to the body.\""@
    } else if i == 9 {
        "\"A reader lives a thousand lives.\""@
    } else if i == 10 {
        "\"Today a reader, tomorrow a leader.\""@
    } else {
        "\"Books are a uniquely portable magic.\""@
    }
}

/// Pick one of the twelve quotes: the seed chooses the slot, seed modulo
/// twelve.
pub fn pick_quote(seed: u64) -> (r: &'static str)
    ensures
        r@ == spec_quote((seed % 12) as int),
{
    let i: u64 = seed % 12;
    if i == 0 {
        "\"Stay curious, keep reading.\""
    } else if i == 1 {
        "\"Knowledge is the new currency.\""
    } else if i == 2 {
        "\"Every article is a window to the world.\""
    } else if i == 3 {
        "\"Read widely, think deeply.\""
    } else if i == 4 {
        "\"Information is the oxygen of the modern age.\""
    } else if i == 5 {
        "\"The more you read, the more you know.\""
    } else if i == 6 {
        "\"Feed your mind, one article at a time.\""
    } else if i == 7 {
        "\"Stay informed, stay ahead.\""
    } else if i == 8 {
        "\"Reading is to the mind what exercise is to the body.\""
    } else if i == 9 {
        "\"A reader lives a thousand lives.\""
    } else if i == 10 {
        "\"Today a reader, tomorrow a leader.\""
    } else {
        "\"Books are a uniquely portable magic.\""
    }
}

} // verus!
