//! The values that consensus messages are made of.

use vstd::prelude::*;
use crate::round::Round;

verus! {

/// The height of the block that consensus is deciding.
#[derive(Clone, Copy, Debug, PartialEq, Eq, Structural, Hash, PartialOrd, Ord)]
pub struct Height(pub u64);

/// The address of a validator.
#[derive(Clone, Copy, Debug, PartialEq, Eq, Structural, Hash, PartialOrd, Ord)]
pub struct Address(pub u64);

/// The identifier of a value: what votes carry in place of the value itself.
#[derive(Clone, Copy, Debug, PartialEq, Eq, Structural, Hash, PartialOrd, Ord)]
pub struct ValueId(pub u64);

/// A value that can be proposed and decided.
#[derive(Clone, Copy, Debug, PartialEq, Eq, Structural, Hash, PartialOrd, Ord)]
pub struct Value(pub u64);

impl Value {
    pub fn new(value: u64) -> (v: Value)
        ensures
            v == Value(value),
    {
        Value(value)
    }

    /// The identifier of the value. Distinct values have distinct identifiers.
    pub open spec fn spec_id(self) -> ValueId {
        ValueId(self.0)
    }

    #[verifier::when_used_as_spec(spec_id)]
    pub fn id(self) -> (id: ValueId)
        ensures
            id == self.spec_id(),
    {
        ValueId(self.0)
    }
}

/// What a vote is cast for: nothing, or the value with a given identifier.
#[derive(Clone, Copy, Debug, PartialEq, Eq, Structural, Hash, PartialOrd, Ord)]
pub enum NilOrVal {
    Nil,
    Val(ValueId),
}

/// The two voting steps of a round.
#[derive(Clone, Copy, Debug, PartialEq, Eq, Structural, Hash, PartialOrd, Ord)]
pub enum VoteType {
    Prevote,
    Precommit,
}

/// A vote of one validator, at one height and round, for a value or for nil.
#[derive(Clone, Copy, Debug, PartialEq, Eq, Structural, Hash)]
pub struct Vote {
    pub typ: VoteType,
    pub height: Height,
    pub round: Round,
    pub value: NilOrVal,
    pub validator_address: Address,
}

impl Vote {
    pub fn new_prevote(height: Height, round: Round, value: NilOrVal, validator_address: Address) -> (v: Vote)
        ensures
            v == (Vote { typ: VoteType::Prevote, height, round, value, validator_address }),
    {
        Vote { typ: VoteType::Prevote, height, round, value, validator_address }
    }

    pub fn new_precommit(height: Height, round: Round, value: NilOrVal, validator_address: Address) -> (v: Vote)
        ensures
            v == (Vote { typ: VoteType::Precommit, height, round, value, validator_address }),
    {
        Vote { typ: VoteType::Precommit, height, round, value, validator_address }
    }
}

/// A proposal of a value for one height and round.
///
/// `pol_round` is the proof-of-lock round: `Nil` when the value is proposed
/// for the first time, otherwise an earlier round in which the proposer saw
/// a polka for the value.
#[derive(Clone, Copy, Debug, PartialEq, Eq, Structural, Hash)]
pub struct Proposal {
    pub height: Height,
    pub round: Round,
    pub value: Value,
    pub pol_round: Round,
    pub validator_address: Address,
}

impl Proposal {
    pub fn new(height: Height, round: Round, value: Value, pol_round: Round, validator_address: Address) -> (p: Proposal)
        ensures
            p == (Proposal { height, round, value, pol_round, validator_address }),
    {
        Proposal { height, round, value, pol_round, validator_address }
    }
}

/// The host's verdict on a proposal's value.
#[derive(Clone, Copy, Debug, PartialEq, Eq, Structural, Hash)]
pub enum Validity {
    Valid,
    Invalid,
}

impl Validity {
    pub fn is_valid(self) -> (b: bool)
        ensures
            b == (self is Valid),
    {
        matches!(self, Validity::Valid)
    }
}

/// The step of a round that a timeout guards.
#[derive(Clone, Copy, Debug, PartialEq, Eq, Structural, Hash)]
pub enum TimeoutStep {
    Propose,
    Prevote,
    Precommit,
}

/// A timeout for one step of one round. The host owns the clock: the core
/// only names the timers it wants armed.
#[derive(Clone, Copy, Debug, PartialEq, Eq, Structural, Hash)]
pub struct Timeout {
    pub round: Round,
    pub step: TimeoutStep,
}

impl Timeout {
    pub fn new(round: Round, step: TimeoutStep) -> (t: Timeout)
        ensures
            t == (Timeout { round, step }),
    {
        Timeout { round, step }
    }
}

} // verus!
