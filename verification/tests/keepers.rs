use malachite_core::proposal_keeper::{EvidenceMap, PerRound, ProposalKeeper, RecordProposalError};
use malachite_core::proposer::ProposerSelector;
use malachite_core::round::Round;
use malachite_core::types::{Address, Height, NilOrVal, Proposal, Value, ValueId, Vote, VoteType};
use malachite_core::validator_set::{Validator, ValidatorSet};
use malachite_core::vote_keeper::{
    RecordVoteError, RoundVotes, ThresholdEvent, VoteEvidenceMap, VoteKeeper,
};

const HT: Height = Height(1);

fn rnd(n: u32) -> Round {
    Round::new(n)
}

fn id(n: u64) -> NilOrVal {
    NilOrVal::Val(ValueId(n))
}

fn pv(round: u32, value: NilOrVal, from: u64) -> Vote {
    Vote::new_prevote(HT, rnd(round), value, Address(from))
}

fn pc(round: u32, value: NilOrVal, from: u64) -> Vote {
    Vote::new_precommit(HT, rnd(round), value, Address(from))
}

fn set_of(powers: &[u64]) -> ValidatorSet {
    let mut validators = Vec::new();
    for (i, power) in powers.iter().enumerate() {
        validators.push(Validator::new(Address(i as u64 + 1), *power));
    }
    ValidatorSet::new(validators).unwrap()
}

#[test]
fn validator_set_lookup_and_total() {
    let set = set_of(&[1, 2, 3]);
    assert_eq!(set.count(), 3);
    assert_eq!(set.total_voting_power(), 6);
    assert_eq!(set.get_by_address(&Address(2)), Some(Validator::new(Address(2), 2)));
    assert_eq!(set.get_by_address(&Address(9)), None);
    assert_eq!(set.get_by_index(0), Some(Validator::new(Address(1), 1)));
    assert_eq!(set.get_by_index(3), None);
    assert_eq!(set.get(2), Validator::new(Address(3), 3));
    assert_eq!(set.clone().total_voting_power(), 6);
}

#[test]
fn validator_set_refuses_duplicates_and_overflow() {
    let twice = vec![Validator::new(Address(1), 1), Validator::new(Address(1), 2)];
    assert!(ValidatorSet::new(twice).is_none());
    let heavy = vec![Validator::new(Address(1), u64::MAX), Validator::new(Address(2), 1)];
    assert!(ValidatorSet::new(heavy).is_none());
    assert_eq!(ValidatorSet::new(Vec::new()).unwrap().count(), 0);
}

#[test]
fn round_robin_proposer_follows_height_plus_round() {
    let set = set_of(&[1, 1, 1, 1]);
    let rr = ProposerSelector::RoundRobin;
    // index = (height + round) mod 4, addresses are index + 1
    assert_eq!(rr.select_proposer(Height(1), rnd(0), &set), Address(2));
    assert_eq!(rr.select_proposer(Height(1), rnd(1), &set), Address(3));
    assert_eq!(rr.select_proposer(Height(1), rnd(3), &set), Address(1));
    assert_eq!(rr.select_proposer(Height(4), rnd(0), &set), Address(1));
    assert_eq!(rr.select_proposer(Height(u64::MAX), rnd(u32::MAX), &set), Address(3));
    let fixed = ProposerSelector::Fixed;
    assert_eq!(fixed.select_proposer(Height(7), rnd(5), &set), Address(1));
}

#[test]
fn per_round_keeps_the_first_proposal() {
    let p = Proposal::new(HT, rnd(0), Value(1), Round::Nil, Address(1));
    let same_value = Proposal::new(HT, rnd(0), Value(1), rnd(0), Address(1));
    let other = Proposal::new(HT, rnd(0), Value(2), Round::Nil, Address(1));
    let mut per_round = PerRound::default();
    assert_eq!(per_round.get_proposal(), None);
    assert_eq!(per_round.add(p), Ok(()));
    assert_eq!(per_round.get_proposal(), Some(&p));
    assert_eq!(per_round.add(same_value), Ok(()));
    assert_eq!(per_round.get_proposal(), Some(&p));
    assert_eq!(
        per_round.add(other),
        Err(RecordProposalError::ConflictingProposal { existing: p, conflicting: other })
    );
    assert_eq!(per_round.get_proposal(), Some(&p));
}

#[test]
fn proposal_keeper_records_evidence_of_equivocation() {
    let mut keeper = ProposalKeeper::new(set_of(&[1, 1, 1, 1]));
    assert_eq!(keeper.validator_set().count(), 4);
    assert!(keeper.evidence().is_empty());
    assert_eq!(keeper.get_proposal_for_round(rnd(0)), None);

    let p = Proposal::new(HT, rnd(0), Value(1), Round::Nil, Address(1));
    let second = Proposal::new(HT, rnd(0), Value(2), Round::Nil, Address(1));
    let third = Proposal::new(HT, rnd(0), Value(3), Round::Nil, Address(1));
    let q = Proposal::new(HT, rnd(1), Value(2), Round::Nil, Address(2));
    let stranger = Proposal::new(HT, rnd(1), Value(9), Round::Nil, Address(3));

    keeper.apply_proposal(p);
    keeper.apply_proposal(q);
    assert!(keeper.evidence().is_empty());
    keeper.apply_proposal(second);
    keeper.apply_proposal(third);
    // Another value for round 1, but from another validator: no evidence.
    keeper.apply_proposal(stranger);

    assert_eq!(keeper.get_proposal_for_round(rnd(0)), Some(&p));
    assert_eq!(keeper.get_proposal_for_round(rnd(1)), Some(&q));
    assert_eq!(keeper.get_proposal_for_round(Round::Nil), None);
    assert_eq!(keeper.evidence().get(&Address(1)), Some(&vec![(p, second), (p, third)]));
    assert_eq!(keeper.evidence().get(&Address(2)), None);
    assert_eq!(keeper.evidence().get(&Address(3)), None);
    assert!(!keeper.evidence().is_empty());
}

#[test]
fn evidence_map_files_pairs_under_the_address() {
    let mut evidence = EvidenceMap::new();
    assert!(evidence.is_empty());
    let a = Proposal::new(HT, rnd(0), Value(1), Round::Nil, Address(7));
    let b = Proposal::new(HT, rnd(0), Value(2), Round::Nil, Address(7));
    evidence.add(a, b);
    evidence.add(b, a);
    assert_eq!(evidence.get(&Address(7)), Some(&vec![(a, b), (b, a)]));
    assert_eq!(evidence.get(&Address(8)), None);
}

#[test]
fn vote_evidence_map_files_pairs_under_the_address() {
    let mut evidence = VoteEvidenceMap::new();
    assert!(evidence.is_empty());
    evidence.add(pv(0, id(1), 7), pv(0, id(2), 7));
    assert!(!evidence.is_empty());
    assert_eq!(evidence.get(&Address(7)), Some(&vec![(pv(0, id(1), 7), pv(0, id(2), 7))]));
    assert_eq!(evidence.get(&Address(1)), None);
}

#[test]
fn polka_value_needs_more_than_two_thirds() {
    // total 4: f = 1, a quorum is more than 2
    let mut keeper = VoteKeeper::new(4);
    assert_eq!(keeper.total_weight(), 4);
    assert_eq!(keeper.apply_vote(pv(0, id(1), 1), 1, rnd(0)), None);
    assert_eq!(keeper.apply_vote(pv(0, id(1), 2), 1, rnd(0)), None);
    assert!(!keeper.has_fired(&ThresholdEvent::PolkaValue(rnd(0), ValueId(1))));
    assert_eq!(
        keeper.apply_vote(pv(0, id(1), 3), 1, rnd(0)),
        Some(ThresholdEvent::PolkaValue(rnd(0), ValueId(1)))
    );
    assert!(keeper.has_fired(&ThresholdEvent::PolkaValue(rnd(0), ValueId(1))));
    // The next vote brings the threshold for any prevote, once.
    assert_eq!(keeper.apply_vote(pv(0, id(1), 4), 1, rnd(0)), Some(ThresholdEvent::PolkaAny(rnd(0))));
    assert_eq!(keeper.apply_vote(pv(0, id(1), 4), 1, rnd(0)), None);
    let votes = keeper.per_round(rnd(0)).unwrap();
    assert_eq!(votes.weight(VoteType::Prevote, id(1)), 4);
    assert_eq!(votes.total_weight(VoteType::Prevote), 4);
    assert_eq!(votes.total_weight(VoteType::Precommit), 0);
    assert_eq!(votes.combined_weight(), 4);
}

#[test]
fn thresholds_by_formula() {
    // total 10: f = 3, quorum > 6, skip > 3
    let mut keeper = VoteKeeper::new(10);
    assert_eq!(keeper.apply_vote(pc(2, NilOrVal::Nil, 1), 3, rnd(0)), None);
    assert_eq!(
        keeper.apply_vote(pc(2, id(5), 2), 1, rnd(0)),
        Some(ThresholdEvent::SkipRound(rnd(2)))
    );
    assert_eq!(keeper.apply_vote(pc(2, id(5), 3), 2, rnd(0)), None);
    assert!(!keeper.is_threshold_met(&ThresholdEvent::PrecommitAny(rnd(2)), rnd(0)));
    assert_eq!(
        keeper.apply_vote(pc(2, id(5), 4), 1, rnd(0)),
        Some(ThresholdEvent::PrecommitAny(rnd(2)))
    );
    assert_eq!(keeper.apply_vote(pc(2, id(5), 5), 2, rnd(0)), None);
    assert_eq!(
        keeper.apply_vote(pc(2, id(5), 6), 1, rnd(0)),
        Some(ThresholdEvent::PrecommitValue(rnd(2), ValueId(5)))
    );
    assert!(keeper.is_threshold_met(&ThresholdEvent::PrecommitValue(rnd(2), ValueId(5)), rnd(0)));
    assert!(!keeper.is_threshold_met(&ThresholdEvent::PolkaAny(rnd(2)), rnd(0)));
    // A skip is only met for a round after the current one.
    assert!(keeper.is_threshold_met(&ThresholdEvent::SkipRound(rnd(2)), rnd(1)));
    assert!(!keeper.is_threshold_met(&ThresholdEvent::SkipRound(rnd(2)), rnd(2)));
    assert!(!keeper.is_threshold_met(&ThresholdEvent::SkipRound(rnd(3)), rnd(0)));
}

#[test]
fn polka_nil_and_order_of_simultaneous_thresholds() {
    let mut keeper = VoteKeeper::new(4);
    // One validator with all the power: the threshold on nil comes first,
    // then the one on any vote, then the round skip.
    assert_eq!(
        keeper.apply_vote(pv(1, NilOrVal::Nil, 1), 4, rnd(0)),
        Some(ThresholdEvent::PolkaNil(rnd(1)))
    );
    assert_eq!(
        keeper.apply_vote(pv(1, NilOrVal::Nil, 1), 4, rnd(0)),
        Some(ThresholdEvent::PolkaAny(rnd(1)))
    );
    assert_eq!(
        keeper.apply_vote(pv(1, NilOrVal::Nil, 1), 4, rnd(0)),
        Some(ThresholdEvent::SkipRound(rnd(1)))
    );
    assert_eq!(keeper.apply_vote(pv(1, NilOrVal::Nil, 1), 4, rnd(0)), None);
    assert_eq!(keeper.per_round(rnd(1)).unwrap().combined_weight(), 4);
}

#[test]
fn no_skip_for_the_current_round() {
    let mut keeper = VoteKeeper::new(4);
    assert_eq!(keeper.apply_vote(pv(0, id(1), 1), 1, rnd(0)), None);
    assert_eq!(keeper.apply_vote(pc(0, id(1), 2), 1, rnd(0)), None);
    assert!(!keeper.has_fired(&ThresholdEvent::SkipRound(rnd(0))));
}

#[test]
fn each_validator_counts_once_towards_the_skip() {
    let mut keeper = VoteKeeper::new(4);
    assert_eq!(keeper.apply_vote(pv(1, id(1), 1), 1, rnd(0)), None);
    assert_eq!(keeper.apply_vote(pc(1, id(1), 1), 1, rnd(0)), None);
    assert_eq!(keeper.per_round(rnd(1)).unwrap().combined_weight(), 1);
    assert_eq!(
        keeper.apply_vote(pc(1, NilOrVal::Nil, 2), 1, rnd(0)),
        Some(ThresholdEvent::SkipRound(rnd(1)))
    );
}

#[test]
fn equivocating_vote_is_evidence_and_changes_no_tally() {
    let mut keeper = VoteKeeper::new(4);
    let mut first_only = VoteKeeper::new(4);
    let first = pv(0, id(1), 1);
    let second = pv(0, id(2), 1);
    keeper.apply_vote(first, 1, rnd(0));
    first_only.apply_vote(first, 1, rnd(0));
    assert!(keeper.evidence().is_empty());
    assert_eq!(keeper.apply_vote(second, 1, rnd(0)), None);

    assert_eq!(keeper.evidence().get(&Address(1)), Some(&vec![(first, second)]));
    let votes = keeper.per_round(rnd(0)).unwrap();
    let expected = first_only.per_round(rnd(0)).unwrap();
    for value in [id(1), id(2), NilOrVal::Nil] {
        assert_eq!(votes.weight(VoteType::Prevote, value), expected.weight(VoteType::Prevote, value));
    }
    assert_eq!(votes.weight(VoteType::Prevote, id(1)), 1);
    assert_eq!(votes.weight(VoteType::Prevote, id(2)), 0);
    assert_eq!(votes.total_weight(VoteType::Prevote), 1);
    assert_eq!(votes.combined_weight(), 1);
    // A precommit of the same validator for another value is no equivocation.
    assert_eq!(keeper.apply_vote(pc(0, id(2), 1), 1, rnd(0)), None);
    assert_eq!(keeper.evidence().get(&Address(1)).unwrap().len(), 1);
}

#[test]
fn round_votes_add_reports_the_conflict() {
    let mut votes = RoundVotes::new();
    assert_eq!(votes.add(pv(0, id(1), 1), 2), Ok(()));
    assert_eq!(votes.add(pv(0, id(1), 1), 2), Ok(()));
    assert_eq!(votes.weight(VoteType::Prevote, id(1)), 2);
    assert_eq!(
        votes.add(pv(0, NilOrVal::Nil, 1), 2),
        Err(RecordVoteError::ConflictingVote {
            existing: pv(0, id(1), 1),
            conflicting: pv(0, NilOrVal::Nil, 1)
        })
    );
    assert_eq!(votes.emit_next(3, rnd(0), &pv(0, id(1), 1)), Some(ThresholdEvent::PolkaValue(rnd(0), ValueId(1))));
    assert!(votes.has_emitted(&ThresholdEvent::PolkaValue(rnd(0), ValueId(1))));
    assert!(votes.is_met(3, rnd(0), &ThresholdEvent::PolkaAny(rnd(0))));
    assert!(!votes.is_met(4, rnd(0), &ThresholdEvent::PolkaAny(rnd(0))));
}

#[test]
fn large_weights_do_not_overflow() {
    let mut keeper = VoteKeeper::new(u64::MAX);
    keeper.apply_vote(pv(0, id(1), 1), u64::MAX, rnd(0));
    keeper.apply_vote(pv(0, id(1), 2), u64::MAX, rnd(0));
    let votes = keeper.per_round(rnd(0)).unwrap();
    assert_eq!(votes.weight(VoteType::Prevote, id(1)), 2 * (u64::MAX as u128));
}
