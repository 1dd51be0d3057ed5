//! The selection of the proposer of a round.

use vstd::prelude::*;
use crate::round::Round;
use crate::types::{Address, Height};
use crate::validator_set::{Validator, ValidatorSet};

verus! {

/// How the proposer of a round is chosen among the validators.
#[derive(Clone, Copy, Debug, PartialEq, Eq, Structural, Hash)]
pub enum ProposerSelector {
    /// Always the first validator.
    Fixed,
    /// The validators take turns, in the order of the validator set: the
    /// turn advances by one with each round and with each height.
    RoundRobin,
}

/// The position in the validator set of the proposer of a round.
pub open spec fn proposer_index(selector: ProposerSelector, height: Height, round: Round, count: nat) -> int {
    match selector {
        ProposerSelector::Fixed => 0,
        ProposerSelector::RoundRobin => (height.0 + round.as_int()) % (count as int),
    }
}

/// The proposer of a round: a function of the height, the round and the
/// validator set alone.
pub open spec fn proposer_of(
    selector: ProposerSelector,
    height: Height,
    round: Round,
    validators: Seq<Validator>,
) -> Address {
    validators[proposer_index(selector, height, round, validators.len())].address
}

impl ProposerSelector {
    /// Select the proposer of a defined round among the validators of a
    /// validator set that is not empty.
    pub fn select_proposer(&self, height: Height, round: Round, validator_set: &ValidatorSet) -> (proposer: Address)
        requires
            validator_set@.len() > 0,
            round is Defined,
        ensures
            proposer == proposer_of(*self, height, round, validator_set@),
            *self is Fixed ==> proposer == validator_set@[0].address,
            *self is RoundRobin ==> proposer == validator_set@[(height.0 + round.as_int()) % (
            validator_set@.len() as int)].address,
    {
        let count = validator_set.count();
        let index: usize = match self {
            ProposerSelector::Fixed => 0,
            ProposerSelector::RoundRobin => {
                let turn: u128 = height.0 as u128 + round.as_i64() as u128;
                (turn % (count as u128)) as usize
            },
        };
        validator_set.get(index).address
    }
}

} // verus!
