//! The inputs of the consensus state machine.

use vstd::prelude::*;
use crate::round::Round;
use crate::types::{Proposal, Value};

verus! {

/// An input to the state machine for one round.
#[derive(Clone, Copy, Debug, PartialEq, Eq, Structural, Hash)]
pub enum Input {
    /// Start the given round.
    NewRound(Round),
    /// The value that this node, as proposer, is to propose.
    ProposeValue(Value),
    /// A valid proposal with no proof-of-lock round.
    Proposal(Proposal),
    /// An invalid proposal.
    InvalidProposal,
    /// A valid proposal together with a polka for its value in its proof-of-lock round.
    ProposalAndPolkaPrevious(Proposal),
    /// An invalid proposal together with a polka for its value in its proof-of-lock round.
    InvalidProposalAndPolkaPrevious(Proposal),
    /// A quorum of prevotes for anything.
    PolkaAny,
    /// A quorum of prevotes for nil.
    PolkaNil,
    /// A valid proposal together with a polka for its value in the current round.
    ProposalAndPolkaCurrent(Proposal),
    /// A quorum of precommits for anything.
    PrecommitAny,
    /// A valid proposal together with a quorum of precommits for its value.
    ProposalAndPrecommitValue(Proposal),
    /// More than a third of the voting power has been seen in the given later round.
    SkipRound(Round),
    /// The propose step timed out.
    TimeoutPropose,
    /// The prevote step timed out.
    TimeoutPrevote,
    /// The precommit step timed out.
    TimeoutPrecommit,
}

} // verus!
