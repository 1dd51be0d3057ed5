//! For storing proposals.

use std::collections::BTreeMap;
use vstd::prelude::*;
use crate::round::Round;
use crate::types::{Address, Proposal};
use crate::validator_set::{Validator, ValidatorSet};

verus! {

broadcast use {vstd::std_specs::btree::group_btree_axioms, vstd::laws_cmp::group_laws_cmp};

/// Errors that can be yielded when recording a proposal.
#[derive(Clone, Copy, Debug, PartialEq, Eq, Structural)]
pub enum RecordProposalError {
    /// Attempted to record a conflicting proposal.
    ConflictingProposal {
        /// The proposal already recorded.
        existing: Proposal,
        /// The conflicting proposal.
        conflicting: Proposal,
    },
}

/// The proposal received in one round, if any.
#[derive(Clone, Copy, Debug, PartialEq, Eq, Structural)]
pub struct PerRound {
    proposal: Option<Proposal>,
}

impl View for PerRound {
    type V = Option<Proposal>;

    closed spec fn view(&self) -> Option<Proposal> {
        self.proposal
    }
}

impl Default for PerRound {
    fn default() -> (r: PerRound)
        ensures
            r@ is None,
    {
        PerRound { proposal: None }
    }
}

impl PerRound {
    /// Add a proposal to the round, checking for conflicts.
    ///
    /// The first proposal of a round is recorded and stays. A later proposal
    /// of another value is an equivocation: it is handed back in the error
    /// together with the recorded one.
    pub fn add(&mut self, proposal: Proposal) -> (r: Result<(), RecordProposalError>)
        ensures
            match old(self)@ {
                None => r is Ok && final(self)@ == Some(proposal),
                Some(existing) => {
                    &&& final(self)@ == old(self)@
                    &&& existing.value == proposal.value ==> r is Ok
                    &&& existing.value != proposal.value ==> r == Err::<(), RecordProposalError>(
                        RecordProposalError::ConflictingProposal { existing, conflicting: proposal },
                    )
                },
            },
    {
        match self.proposal {
            Some(existing) => {
                if existing.value != proposal.value {
                    // This is an equivocating proposal
                    return Err(RecordProposalError::ConflictingProposal { existing, conflicting: proposal });
                }
            },
            None => {
                self.proposal = Some(proposal);
            },
        }
        Ok(())
    }

    /// Return the proposal recorded for the round.
    pub fn get_proposal(&self) -> (r: Option<&Proposal>)
        ensures
            match r {
                Some(p) => self@ == Some(*p),
                None => self@ is None,
            },
    {
        self.proposal.as_ref()
    }
}

/// The key under which a round is filed.
pub open spec fn round_key(round: Round) -> i64 {
    round.as_int() as i64
}

/// What a proposal keeper holds: the validator set it was made with, the
/// proposal recorded for each round that has one, and for each proposer
/// caught equivocating the pairs of proposals that show it, oldest first.
pub ghost struct ProposalKeeperView {
    pub validators: Seq<Validator>,
    pub proposals: Map<Round, Proposal>,
    pub evidence: Map<Address, Seq<(Proposal, Proposal)>>,
}

/// The evidence with one more pair filed under the equivocator's address.
pub open spec fn add_evidence(
    evidence: Map<Address, Seq<(Proposal, Proposal)>>,
    existing: Proposal,
    conflicting: Proposal,
) -> Map<Address, Seq<(Proposal, Proposal)>> {
    let address = conflicting.validator_address;
    if evidence.contains_key(address) {
        evidence.insert(address, evidence[address].push((existing, conflicting)))
    } else {
        evidence.insert(address, seq![(existing, conflicting)])
    }
}

/// Whether `proposal` equivocates against what the keeper holds: its round
/// has a recorded proposal by the same proposer for another value.
pub open spec fn equivocates(keeper: ProposalKeeperView, proposal: Proposal) -> bool {
    &&& keeper.proposals.contains_key(proposal.round)
    &&& keeper.proposals[proposal.round].value != proposal.value
    &&& keeper.proposals[proposal.round].validator_address == proposal.validator_address
}

/// What the keeper holds once `proposal` has been applied.
///
/// The first proposal of a round is recorded. After that the round's record
/// no longer changes; a proposal that equivocates against it adds the pair
/// (recorded, new) to the evidence against its proposer.
pub open spec fn record_proposal(keeper: ProposalKeeperView, proposal: Proposal) -> ProposalKeeperView {
    if !keeper.proposals.contains_key(proposal.round) {
        ProposalKeeperView { proposals: keeper.proposals.insert(proposal.round, proposal), ..keeper }
    } else if equivocates(keeper, proposal) {
        ProposalKeeperView {
            evidence: add_evidence(keeper.evidence, keeper.proposals[proposal.round], proposal),
            ..keeper
        }
    } else {
        keeper
    }
}

/// Keeps track of proposals.
#[derive(Debug)]
pub struct ProposalKeeper {
    /// The validator set for this height.
    validator_set: ValidatorSet,
    /// The proposal for each round.
    per_round: BTreeMap<i64, PerRound>,
    /// Evidence of equivocation.
    evidence: EvidenceMap,
}

impl View for ProposalKeeper {
    type V = ProposalKeeperView;

    closed spec fn view(&self) -> ProposalKeeperView {
        ProposalKeeperView {
            validators: self.validator_set@,
            proposals: Map::new(
                |r: Round| self.per_round@.contains_key(round_key(r)) && self.per_round@[round_key(r)]@ is Some,
                |r: Round| self.per_round@[round_key(r)]@->0,
            ),
            evidence: self.evidence@,
        }
    }
}

impl ProposalKeeper {
    /// Create a new `ProposalKeeper` instance, with nothing recorded.
    pub fn new(validator_set: ValidatorSet) -> (keeper: ProposalKeeper)
        ensures
            keeper@ == (ProposalKeeperView {
                validators: validator_set@,
                proposals: Map::empty(),
                evidence: Map::empty(),
            }),
    {
        let keeper = ProposalKeeper { validator_set, per_round: BTreeMap::new(), evidence: EvidenceMap::new() };
        proof {
            assert(keeper@.proposals =~= Map::empty());
        }
        keeper
    }

    /// Return the current validator set.
    pub fn validator_set(&self) -> (vs: &ValidatorSet)
        ensures
            vs@ == self@.validators,
    {
        &self.validator_set
    }

    /// Return the proposal recorded for the round, if any.
    pub fn get_proposal_for_round(&self, round: Round) -> (r: Option<&Proposal>)
        ensures
            match r {
                Some(p) => self@.proposals.contains_key(round) && self@.proposals[round] == *p,
                None => !self@.proposals.contains_key(round),
            },
    {
        let key = round.as_i64();
        match self.per_round.get(&key) {
            Some(round_info) => round_info.get_proposal(),
            None => None,
        }
    }

    /// Return the evidence of equivocation.
    pub fn evidence(&self) -> (e: &EvidenceMap)
        ensures
            e@ == self@.evidence,
    {
        &self.evidence
    }

    /// Apply a proposal.
    pub fn apply_proposal(&mut self, proposal: Proposal)
        ensures
            final(self)@ == record_proposal(old(self)@, proposal),
    {
        let key = proposal.round.as_i64();
        let mut per_round = match self.per_round.remove(&key) {
            Some(per_round) => per_round,
            None => PerRound::default(),
        };
        let recorded = per_round.add(proposal);
        self.per_round.insert(key, per_round);
        proof {
            assert forall|r: Round| round_key(r) == key implies r == proposal.round by {
                crate::round::lemma_round_as_int_injective(r, proposal.round);
            }
        }
        match recorded {
            Ok(()) => {
                proof {
                    assert(self@.proposals =~= record_proposal(old(self)@, proposal).proposals);
                }
            },
            Err(RecordProposalError::ConflictingProposal { existing, conflicting }) => {
                proof {
                    assert(self@.proposals =~= old(self)@.proposals);
                }
                if existing.validator_address == conflicting.validator_address {
                    // This is an equivocating proposal
                    self.evidence.add(existing, conflicting);
                }
            },
        }
    }
}

/// Keeps track of evidence of equivocation.
#[derive(Debug)]
pub struct EvidenceMap {
    map: BTreeMap<u64, Vec<(Proposal, Proposal)>>,
}

impl View for EvidenceMap {
    type V = Map<Address, Seq<(Proposal, Proposal)>>;

    closed spec fn view(&self) -> Map<Address, Seq<(Proposal, Proposal)>> {
        Map::new(|a: Address| self.map@.contains_key(a.0), |a: Address| self.map@[a.0]@)
    }
}

impl EvidenceMap {
    /// Create a new `EvidenceMap` instance, with no evidence in it.
    pub fn new() -> (e: EvidenceMap)
        ensures
            e@ == Map::<Address, Seq<(Proposal, Proposal)>>::empty(),
    {
        let e = EvidenceMap { map: BTreeMap::new() };
        proof {
            assert(e@ =~= Map::empty());
        }
        e
    }

    /// Return whether or not there is any evidence of equivocation.
    pub fn is_empty(&self) -> (b: bool)
        ensures
            b == (self@ == Map::<Address, Seq<(Proposal, Proposal)>>::empty()),
    {
        let b = self.map.is_empty();
        proof {
            if b {
                assert(self@ =~= Map::empty());
            } else {
                let k = choose|k: u64| self.map@.contains_key(k);
                assert(self@.contains_key(Address(k)));
            }
        }
        b
    }

    /// Return the evidence of equivocation for a given address, if any.
    pub fn get(&self, address: &Address) -> (r: Option<&Vec<(Proposal, Proposal)>>)
        ensures
            match r {
                Some(pairs) => self@.contains_key(*address) && self@[*address] == pairs@,
                None => !self@.contains_key(*address),
            },
    {
        self.map.get(&address.0)
    }

    /// Add evidence of equivocation: a recorded proposal and a later one of
    /// the same proposer that conflicts with it.
    pub fn add(&mut self, existing: Proposal, proposal: Proposal)
        ensures
            final(self)@ == add_evidence(old(self)@, existing, proposal),
    {
        let key = proposal.validator_address.0;
        let mut evidence = match self.map.remove(&key) {
            Some(evidence) => evidence,
            None => Vec::new(),
        };
        evidence.push((existing, proposal));
        self.map.insert(key, evidence);
        proof {
            assert(self@ =~= add_evidence(old(self)@, existing, proposal));
        }
    }
}

//---------------------------------------------------------------------
// What holds of every proposal keeper
//---------------------------------------------------------------------

/// The proposal recorded for a round is the first that was applied for it:
/// no later proposal replaces it.
pub proof fn law_first_proposal_stays(keeper: ProposalKeeperView, proposal: Proposal, round: Round)
    requires
        keeper.proposals.contains_key(round),
    ensures
        record_proposal(keeper, proposal).proposals.contains_key(round),
        record_proposal(keeper, proposal).proposals[round] == keeper.proposals[round],
        round == proposal.round ==> record_proposal(keeper, proposal).proposals == keeper.proposals,
{
}

/// A proposal is recorded for its own round and touches no other, and the
/// keeper keeps its validator set.
pub proof fn law_proposal_touches_its_round_only(keeper: ProposalKeeperView, proposal: Proposal, round: Round)
    requires
        round != proposal.round,
    ensures
        record_proposal(keeper, proposal).proposals.contains_key(round) == keeper.proposals.contains_key(round),
        keeper.proposals.contains_key(round) ==> record_proposal(keeper, proposal).proposals[round]
            == keeper.proposals[round],
        record_proposal(keeper, proposal).validators == keeper.validators,
{
}

/// Two proposals of one proposer for one round, for different values: the
/// first is recorded and stays, and the second adds exactly the pair
/// (first, second) to the evidence against the proposer.
pub proof fn law_equivocating_proposal_is_evidence(keeper: ProposalKeeperView, first: Proposal, second: Proposal)
    requires
        !keeper.proposals.contains_key(first.round),
        first.round == second.round,
        first.validator_address == second.validator_address,
        first.value != second.value,
    ensures
        record_proposal(record_proposal(keeper, first), second) == (ProposalKeeperView {
            proposals: keeper.proposals.insert(first.round, first),
            evidence: add_evidence(keeper.evidence, first, second),
            ..keeper
        }),
        add_evidence(keeper.evidence, first, second).contains_key(first.validator_address),
        add_evidence(keeper.evidence, first, second)[first.validator_address].last() == (first, second),
{
}

} // verus!
