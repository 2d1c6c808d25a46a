//! The three outcomes of a comparison, as a value that specifications can
//! compute with.

use std::cmp::Ordering;
use vstd::prelude::*;

verus! {

/// How a first value stands to a second one.
#[derive(Clone, Copy, Debug, PartialEq, Eq, Structural)]
pub enum Rank {
    Less,
    Equal,
    Greater,
}

impl Rank {
    /// The outcome with the two sides exchanged.
    pub open spec fn reverse(self) -> Rank {
        match self {
            Rank::Less => Rank::Greater,
            Rank::Equal => Rank::Equal,
            Rank::Greater => Rank::Less,
        }
    }
}

/// The order of two integers.
pub open spec fn int_rank(a: int, b: int) -> Rank {
    if a < b {
        Rank::Less
    } else if a == b {
        Rank::Equal
    } else {
        Rank::Greater
    }
}

/// The lexicographic order of two byte strings: the first differing byte
/// decides, and a proper prefix comes before the longer string.
pub open spec fn lex_rank(a: Seq<u8>, b: Seq<u8>) -> Rank
    decreases a.len(),
{
    if a.len() == 0 && b.len() == 0 {
        Rank::Equal
    } else if a.len() == 0 {
        Rank::Less
    } else if b.len() == 0 {
        Rank::Greater
    } else if a[0] < b[0] {
        Rank::Less
    } else if a[0] > b[0] {
        Rank::Greater
    } else {
        lex_rank(a.skip(1), b.skip(1))
    }
}

/// The outcome that a standard `Ordering` stands for.
pub open spec fn rank_of(o: Ordering) -> Rank {
    match o {
        Ordering::Less => Rank::Less,
        Ordering::Equal => Rank::Equal,
        Ordering::Greater => Rank::Greater,
    }
}

/// The standard `Ordering` for an outcome.
pub fn ordering_of(r: Rank) -> (o: Ordering)
    ensures
        rank_of(o) == r,
{
    match r {
        Rank::Less => Ordering::Less,
        Rank::Equal => Ordering::Equal,
        Rank::Greater => Ordering::Greater,
    }
}

} // verus!
