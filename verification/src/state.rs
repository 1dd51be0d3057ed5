//! The state of the consensus state machine at one round.

use vstd::prelude::*;
use crate::round::Round;
use crate::types::{Height, Value};

verus! {

/// The step that the state machine has reached within its round.
#[derive(Clone, Copy, Debug, PartialEq, Eq, Structural, Hash)]
pub enum Step {
    Unstarted,
    Propose,
    Prevote,
    Precommit,
    Commit,
}

impl Step {
    /// The position of the step in the order
    /// Unstarted, Propose, Prevote, Precommit, Commit.
    pub open spec fn rank(self) -> nat {
        match self {
            Step::Unstarted => 0,
            Step::Propose => 1,
            Step::Prevote => 2,
            Step::Precommit => 3,
            Step::Commit => 4,
        }
    }

    /// The position of the step in the order of the steps, from zero.
    pub fn position(&self) -> (n: u8)
        ensures
            n as nat == self.rank(),
    {
        match self {
            Step::Unstarted => 0,
            Step::Propose => 1,
            Step::Prevote => 2,
            Step::Precommit => 3,
            Step::Commit => 4,
        }
    }
}

/// A value together with the round in which it was locked or seen valid.
#[derive(Clone, Copy, Debug, PartialEq, Eq, Structural, Hash)]
pub struct RoundValue {
    pub value: Value,
    pub round: Round,
}

impl RoundValue {
    pub fn new(value: Value, round: Round) -> (rv: RoundValue)
        ensures
            rv == (RoundValue { value, round }),
    {
        RoundValue { value, round }
    }
}

/// The state of the state machine.
#[derive(Clone, Copy, Debug, PartialEq, Eq, Structural, Hash)]
pub struct State {
    pub height: Height,
    pub round: Round,
    pub step: Step,
    /// The value this validator precommitted and is bound to, with its round.
    pub locked: Option<RoundValue>,
    /// The latest value seen with a polka, with its round.
    pub valid: Option<RoundValue>,
    /// The decided value, set once on commit.
    pub decision: Option<Value>,
}

impl State {
    /// The invariant that the state machine keeps on its own state:
    /// a decision is present exactly in the `Commit` step, neither the locked
    /// nor the valid round lies beyond the current round, and the locked
    /// round never exceeds the valid round.
    pub open spec fn inv(self) -> bool {
        &&& self.decision is Some <==> self.step is Commit
        &&& self.locked is Some ==> self.locked->0.round.as_int() <= self.round.as_int()
        &&& self.valid is Some ==> self.valid->0.round.as_int() <= self.round.as_int()
        &&& self.locked is Some ==> self.valid is Some
        &&& self.locked is Some ==> self.locked->0.round.as_int() <= self.valid->0.round.as_int()
    }

    /// The state in which a height begins: nothing started, locked,
    /// seen valid or decided.
    pub fn new(height: Height, round: Round) -> (s: State)
        ensures
            s == (State { height, round, step: Step::Unstarted, locked: None, valid: None, decision: None }),
    {
        State { height, round, step: Step::Unstarted, locked: None, valid: None, decision: None }
    }

    pub fn with_round(self, round: Round) -> (s: State)
        ensures
            s == (State { round, ..self }),
    {
        State { round, ..self }
    }

    pub fn with_step(self, step: Step) -> (s: State)
        ensures
            s == (State { step, ..self }),
    {
        State { step, ..self }
    }

    /// Lock on a value at the current round.
    pub fn set_locked(self, value: Value) -> (s: State)
        ensures
            s == (State { locked: Some(RoundValue { value, round: self.round }), ..self }),
    {
        State { locked: Some(RoundValue::new(value, self.round)), ..self }
    }

    /// Record a value as valid at the current round.
    pub fn set_valid(self, value: Value) -> (s: State)
        ensures
            s == (State { valid: Some(RoundValue { value, round: self.round }), ..self }),
    {
        State { valid: Some(RoundValue::new(value, self.round)), ..self }
    }

    pub fn set_decision(self, value: Value) -> (s: State)
        ensures
            s == (State { decision: Some(value), ..self }),
    {
        State { decision: Some(value), ..self }
    }
}

} // verus!
