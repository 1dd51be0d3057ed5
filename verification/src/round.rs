//! Consensus rounds.

use vstd::prelude::*;

verus! {

/// A round of consensus at some height.
///
/// `Nil` is the sentinel used where no round applies (for instance the
/// proof-of-lock round of a first-time proposal). Defined rounds are
/// counted from zero, and `Nil` orders below all of them.
#[derive(Clone, Copy, Debug, PartialEq, Eq, Structural, Hash, PartialOrd, Ord)]
pub enum Round {
    Nil,
    Defined(u32),
}

impl Round {
    /// The position of the round on the integer line: `-1` for `Nil`, the
    /// round number otherwise. All ordering of rounds goes by this number.
    pub open spec fn as_int(self) -> int {
        match self {
            Round::Nil => -1,
            Round::Defined(r) => r as int,
        }
    }

    /// Whether a next round exists within the machine's range.
    pub open spec fn can_increment(self) -> bool {
        self is Defined && self.as_int() < u32::MAX
    }

    /// The round after this one; meaningful where `can_increment` holds.
    pub open spec fn successor(self) -> Round {
        match self {
            Round::Nil => Round::Nil,
            Round::Defined(r) => Round::Defined((r + 1) as u32),
        }
    }

    /// The defined round with the given number.
    pub fn new(round: u32) -> (r: Round)
        ensures
            r == Round::Defined(round),
    {
        Round::Defined(round)
    }

    /// The round as a signed integer, `-1` standing for `Nil`.
    pub fn as_i64(&self) -> (n: i64)
        ensures
            n as int == self.as_int(),
    {
        match self {
            Round::Nil => -1,
            Round::Defined(r) => *r as i64,
        }
    }

    /// The round with the given signed number: `Nil` for a negative one,
    /// and nothing where the number lies beyond the last round.
    pub fn from_i64(n: i64) -> (r: Option<Round>)
        ensures
            n < 0 ==> r == Some(Round::Nil),
            0 <= n <= u32::MAX ==> r == Some(Round::Defined(n as u32)),
            n > u32::MAX ==> r is None,
    {
        if n < 0 {
            Some(Round::Nil)
        } else if n <= u32::MAX as i64 {
            Some(Round::Defined(n as u32))
        } else {
            None
        }
    }

    pub fn is_defined(&self) -> (b: bool)
        ensures
            b == (*self is Defined),
    {
        matches!(self, Round::Defined(_))
    }

    pub fn is_nil(&self) -> (b: bool)
        ensures
            b == (*self is Nil),
    {
        matches!(self, Round::Nil)
    }

    /// The round that follows a defined round.
    pub fn increment(&self) -> (r: Round)
        requires
            self.can_increment(),
        ensures
            r == self.successor(),
            r is Defined,
            r.as_int() == self.as_int() + 1,
    {
        match self {
            Round::Nil => Round::Nil,
            Round::Defined(r) => Round::Defined(*r + 1),
        }
    }

    /// Strict order of rounds, with `Nil` below every defined round.
    pub fn lt(&self, other: &Round) -> (b: bool)
        ensures
            b == (self.as_int() < other.as_int()),
    {
        self.as_i64() < other.as_i64()
    }

    /// Non-strict order of rounds, with `Nil` below every defined round.
    pub fn le(&self, other: &Round) -> (b: bool)
        ensures
            b == (self.as_int() <= other.as_int()),
    {
        self.as_i64() <= other.as_i64()
    }
}

/// Rounds are told apart by their position on the integer line.
pub proof fn lemma_round_as_int_injective(a: Round, b: Round)
    ensures
        a.as_int() == b.as_int() <==> a == b,
{
}

} // verus!
