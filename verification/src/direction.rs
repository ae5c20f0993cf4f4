//! The navigation direction, validated once at the boundary.
//!
//! Only the two literal arguments `"prev"` and `"next"` are recognised; any
//! other word is rejected before a scan begins, so the scan's step function is
//! total and strictly monotonic.

use vstd::prelude::*;

verus! {

/// Which way the scan moves through the workspace numbers.
#[derive(Clone, Copy, PartialEq, Eq, Structural, Debug)]
pub enum Direction {
    Previous,
    Next,
}

/// Turns the command-line word into a direction: `"prev"` and `"next"` are
/// the only recognised values, anything else is an invalid direction.
pub fn parse_direction(word: &String) -> (r: Option<Direction>)
    ensures
        r == Some(Direction::Previous) <==> word@ == "prev"@,
        r == Some(Direction::Next) <==> word@ == "next"@,
        r is None <==> word@ != "prev"@ && word@ != "next"@,
{
    proof {
        reveal_strlit("prev");
        reveal_strlit("next");
        assert("prev"@[0] == 'p' && "next"@[0] == 'n');
        assert("prev"@ != "next"@);
    }
    let prev: String = "prev".to_owned();
    let next: String = "next".to_owned();
    if *word == prev {
        Some(Direction::Previous)
    } else if *word == next {
        Some(Direction::Next)
    } else {
        None
    }
}

} // verus!
