//! The outputs of the consensus state machine.

use vstd::prelude::*;
use crate::round::Round;
use crate::state::RoundValue;
use crate::types::{Address, Height, NilOrVal, Timeout, TimeoutStep, Value, Vote, VoteType};

verus! {

/// What the state machine asks of its driver after a transition.
#[derive(Clone, Copy, Debug, PartialEq, Eq, Structural, Hash)]
pub enum Output {
    /// Move to the given round.
    NewRound(Round),
    /// Broadcast a proposal of the value, with the given proof-of-lock round.
    Proposal { height: Height, round: Round, value: Value, pol_round: Round },
    /// Broadcast a vote.
    Vote(Vote),
    /// Arm a timer.
    ScheduleTimeout(Timeout),
    /// Ask for a value to propose in the round, and arm the timer.
    GetValueAndScheduleTimeout(Round, Timeout),
    /// Decide the value, at the round of the deciding proposal.
    Decision(RoundValue),
}

impl Output {
    pub fn proposal(height: Height, round: Round, value: Value, pol_round: Round) -> (o: Output)
        ensures
            o == (Output::Proposal { height, round, value, pol_round }),
    {
        Output::Proposal { height, round, value, pol_round }
    }

    pub fn prevote(height: Height, round: Round, value: NilOrVal, validator_address: Address) -> (o: Output)
        ensures
            o == Output::Vote(Vote { typ: VoteType::Prevote, height, round, value, validator_address }),
    {
        Output::Vote(Vote::new_prevote(height, round, value, validator_address))
    }

    pub fn precommit(height: Height, round: Round, value: NilOrVal, validator_address: Address) -> (o: Output)
        ensures
            o == Output::Vote(Vote { typ: VoteType::Precommit, height, round, value, validator_address }),
    {
        Output::Vote(Vote::new_precommit(height, round, value, validator_address))
    }

    pub fn schedule_timeout(round: Round, step: TimeoutStep) -> (o: Output)
        ensures
            o == Output::ScheduleTimeout(Timeout { round, step }),
    {
        Output::ScheduleTimeout(Timeout::new(round, step))
    }

    pub fn get_value_and_schedule_timeout(round: Round, step: TimeoutStep) -> (o: Output)
        ensures
            o == Output::GetValueAndScheduleTimeout(round, Timeout { round, step }),
    {
        Output::GetValueAndScheduleTimeout(round, Timeout::new(round, step))
    }

    pub fn decision(round: Round, value: Value) -> (o: Output)
        ensures
            o == Output::Decision(RoundValue { value, round }),
    {
        Output::Decision(RoundValue::new(value, round))
    }
}

} // verus!
