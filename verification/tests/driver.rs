use malachite_core::driver::{Driver, DriverInput, DriverOutput};
use malachite_core::proposer::ProposerSelector;
use malachite_core::round::Round;
use malachite_core::state::{RoundValue, Step};
use malachite_core::types::{
    Address, Height, NilOrVal, Proposal, Timeout, TimeoutStep, Validity, Value, Vote,
};
use malachite_core::validator_set::{Validator, ValidatorSet};
use malachite_core::vote_keeper::ThresholdEvent;

const V1: Address = Address(1);
const V2: Address = Address(2);
const V3: Address = Address(3);
const V4: Address = Address(4);
const H: Height = Height(1);
const X: Value = Value(7);
const Y: Value = Value(9);

fn r(n: u32) -> Round {
    Round::new(n)
}

/// Four validators of equal power, in an order that makes V1 the
/// round-robin proposer of round 0 at height 1.
fn four_validators() -> ValidatorSet {
    ValidatorSet::new(vec![
        Validator::new(V4, 1),
        Validator::new(V1, 1),
        Validator::new(V2, 1),
        Validator::new(V3, 1),
    ])
    .unwrap()
}

fn driver_of(me: Address) -> Driver {
    Driver::new(H, four_validators(), me, ProposerSelector::RoundRobin).unwrap()
}

fn prevote(round: u32, value: NilOrVal, from: Address) -> DriverInput {
    DriverInput::Vote(Vote::new_prevote(H, r(round), value, from))
}

fn precommit(round: u32, value: NilOrVal, from: Address) -> DriverInput {
    DriverInput::Vote(Vote::new_precommit(H, r(round), value, from))
}

fn proposal_x() -> Proposal {
    Proposal::new(H, r(0), X, Round::Nil, V1)
}

fn val(v: Value) -> NilOrVal {
    NilOrVal::Val(v.id())
}

#[test]
fn happy_path_proposer() {
    let mut d = driver_of(V1);
    let t = Timeout::new(r(0), TimeoutStep::Propose);
    assert_eq!(
        d.process(DriverInput::NewRound(H, r(0))),
        vec![DriverOutput::GetValue(H, r(0), t), DriverOutput::ScheduleTimeout(t)]
    );
    assert_eq!(d.proposer(), V1);
    assert_eq!(
        d.process(DriverInput::ProposeValue(H, r(0), X)),
        vec![DriverOutput::Propose(proposal_x())]
    );
    assert_eq!(
        d.process(DriverInput::Proposal(proposal_x(), Validity::Valid)),
        vec![DriverOutput::Vote(Vote::new_prevote(H, r(0), val(X), V1))]
    );
    assert_eq!(d.process(prevote(0, val(X), V2)), vec![]);
    assert_eq!(d.process(prevote(0, val(X), V3)), vec![]);
    assert_eq!(
        d.process(prevote(0, val(X), V4)),
        vec![DriverOutput::Vote(Vote::new_precommit(H, r(0), val(X), V1))]
    );
    assert_eq!(d.round_state().locked, Some(RoundValue::new(X, r(0))));
    assert_eq!(d.round_state().valid, Some(RoundValue::new(X, r(0))));
    assert_eq!(d.process(precommit(0, val(X), V2)), vec![]);
    assert_eq!(d.process(precommit(0, val(X), V3)), vec![]);
    assert_eq!(
        d.process(precommit(0, val(X), V4)),
        vec![DriverOutput::Decide(r(0), X)]
    );
    assert_eq!(d.round_state().step, Step::Commit);
    assert_eq!(d.round_state().decision, Some(X));
}

#[test]
fn happy_path_non_proposer() {
    let mut d = driver_of(V2);
    assert_eq!(
        d.process(DriverInput::NewRound(H, r(0))),
        vec![DriverOutput::ScheduleTimeout(Timeout::new(r(0), TimeoutStep::Propose))]
    );
    assert_eq!(
        d.process(DriverInput::Proposal(proposal_x(), Validity::Valid)),
        vec![DriverOutput::Vote(Vote::new_prevote(H, r(0), val(X), V2))]
    );
    assert_eq!(d.process(prevote(0, val(X), V1)), vec![]);
    assert_eq!(d.process(prevote(0, val(X), V3)), vec![]);
    assert_eq!(
        d.process(prevote(0, val(X), V4)),
        vec![DriverOutput::Vote(Vote::new_precommit(H, r(0), val(X), V2))]
    );
    assert_eq!(d.process(precommit(0, val(X), V1)), vec![]);
    assert_eq!(d.process(precommit(0, val(X), V3)), vec![]);
    assert_eq!(
        d.process(precommit(0, val(X), V4)),
        vec![DriverOutput::Decide(r(0), X)]
    );
}

#[test]
fn propose_timeout() {
    let mut d = driver_of(V2);
    d.process(DriverInput::NewRound(H, r(0)));
    assert_eq!(
        d.process(DriverInput::TimeoutElapsed(Timeout::new(r(0), TimeoutStep::Propose))),
        vec![DriverOutput::Vote(Vote::new_prevote(H, r(0), NilOrVal::Nil, V2))]
    );
    assert_eq!(d.round_state().step, Step::Prevote);
}

#[test]
fn polka_nil() {
    let mut d = driver_of(V2);
    d.process(DriverInput::NewRound(H, r(0)));
    assert_eq!(
        d.process(DriverInput::Proposal(proposal_x(), Validity::Valid)),
        vec![DriverOutput::Vote(Vote::new_prevote(H, r(0), val(X), V2))]
    );
    assert_eq!(d.process(prevote(0, NilOrVal::Nil, V1)), vec![]);
    assert_eq!(d.process(prevote(0, NilOrVal::Nil, V3)), vec![]);
    assert_eq!(
        d.process(prevote(0, NilOrVal::Nil, V4)),
        vec![DriverOutput::Vote(Vote::new_precommit(H, r(0), NilOrVal::Nil, V2))]
    );
    assert_eq!(d.round_state().step, Step::Precommit);
    assert_eq!(d.round_state().locked, None);
}

#[test]
fn round_skip_on_votes_of_a_later_round() {
    let mut d = driver_of(V2);
    d.process(DriverInput::NewRound(H, r(0)));
    assert_eq!(d.proposer(), V1);
    assert_eq!(d.process(prevote(1, val(X), V3)), vec![]);
    assert_eq!(d.round(), r(0));
    // V2 is the round-robin proposer of round 1 and has no valid value yet.
    let t = Timeout::new(r(1), TimeoutStep::Propose);
    assert_eq!(
        d.process(precommit(1, NilOrVal::Nil, V4)),
        vec![
            DriverOutput::NewRound(H, r(1)),
            DriverOutput::GetValue(H, r(1), t),
            DriverOutput::ScheduleTimeout(t),
        ]
    );
    assert_eq!(d.round(), r(1));
    assert_eq!(d.proposer(), V2);
    assert_eq!(d.round_state().step, Step::Propose);
    assert!(d.vote_keeper().has_fired(&ThresholdEvent::SkipRound(r(1))));
}

#[test]
fn round_skip_for_a_node_that_does_not_propose_next() {
    let mut d = driver_of(V3);
    d.process(DriverInput::NewRound(H, r(0)));
    d.process(prevote(1, val(X), V1));
    assert_eq!(
        d.process(prevote(1, val(Y), V4)),
        vec![
            DriverOutput::NewRound(H, r(1)),
            DriverOutput::ScheduleTimeout(Timeout::new(r(1), TimeoutStep::Propose)),
        ]
    );
    assert_eq!(d.proposer(), V2);
}

#[test]
fn equivocating_proposal() {
    let p = proposal_x();
    let second = Proposal::new(H, r(0), Y, Round::Nil, V1);

    let mut first_only = driver_of(V2);
    first_only.process(DriverInput::NewRound(H, r(0)));
    first_only.process(prevote(0, val(X), V3));
    first_only.process(DriverInput::Proposal(p, Validity::Valid));

    let mut d = driver_of(V2);
    d.process(DriverInput::NewRound(H, r(0)));
    d.process(prevote(0, val(X), V3));
    d.process(DriverInput::Proposal(p, Validity::Valid));
    assert!(d.proposal_keeper().evidence().is_empty());
    assert_eq!(d.process(DriverInput::Proposal(second, Validity::Valid)), vec![]);

    assert_eq!(d.proposal_keeper().evidence().get(&V1), Some(&vec![(p, second)]));
    assert_eq!(d.proposal_keeper().get_proposal_for_round(r(0)), Some(&p));
    assert_eq!(d.round_state(), first_only.round_state());
    let votes = d.vote_keeper().per_round(r(0)).unwrap();
    let votes_first_only = first_only.vote_keeper().per_round(r(0)).unwrap();
    for value in [val(X), val(Y), NilOrVal::Nil] {
        assert_eq!(
            votes.weight(malachite_core::types::VoteType::Prevote, value),
            votes_first_only.weight(malachite_core::types::VoteType::Prevote, value)
        );
    }
    assert_eq!(votes.combined_weight(), votes_first_only.combined_weight());
    assert!(d.vote_keeper().evidence().is_empty());
}

#[test]
fn input_for_another_height_changes_nothing() {
    let mut d = driver_of(V2);
    d.process(DriverInput::NewRound(H, r(0)));
    let before = d.round_state();
    let other = Height(2);
    let inputs = [
        DriverInput::NewRound(other, r(3)),
        DriverInput::ProposeValue(other, r(0), X),
        DriverInput::Proposal(Proposal::new(other, r(0), X, Round::Nil, V1), Validity::Valid),
        DriverInput::Vote(Vote::new_prevote(other, r(0), val(X), V1)),
        DriverInput::Vote(Vote::new_precommit(other, r(1), val(X), V3)),
    ];
    for input in inputs {
        assert_eq!(d.process(input), vec![]);
        assert_eq!(d.round_state(), before);
        assert_eq!(d.round(), r(0));
        assert_eq!(d.proposer(), V1);
        assert!(d.vote_keeper().per_round(r(0)).is_none());
        assert!(d.vote_keeper().per_round(r(1)).is_none());
        assert!(d.proposal_keeper().get_proposal_for_round(r(0)).is_none());
    }
}

#[test]
fn messages_of_unknown_validators_are_dropped() {
    let mut d = driver_of(V2);
    d.process(DriverInput::NewRound(H, r(0)));
    let stranger = Address(99);
    assert_eq!(
        d.process(DriverInput::Proposal(Proposal::new(H, r(0), X, Round::Nil, stranger), Validity::Valid)),
        vec![]
    );
    assert_eq!(d.process(prevote(0, val(X), stranger)), vec![]);
    assert_eq!(d.round_state().step, Step::Propose);
    assert!(d.proposal_keeper().get_proposal_for_round(r(0)).is_none());
    assert!(d.vote_keeper().per_round(r(0)).is_none());
}

#[test]
fn no_driver_without_validators() {
    let empty = ValidatorSet::new(Vec::new()).unwrap();
    assert!(Driver::new(H, empty, V1, ProposerSelector::RoundRobin).is_none());
    let d = driver_of(V3);
    assert_eq!(d.height(), H);
    assert_eq!(d.address(), V3);
    assert_eq!(d.round(), Round::Nil);
    assert_eq!(d.round_state().step, Step::Unstarted);
    assert_eq!(d.validator_set().count(), 4);
}

#[test]
fn round_never_goes_back_and_decision_stays() {
    let mut d = driver_of(V2);
    d.process(DriverInput::NewRound(H, r(2)));
    assert_eq!(d.round(), r(2));
    // An earlier round, a nil round: nothing.
    assert_eq!(d.process(DriverInput::NewRound(H, r(1))), vec![]);
    assert_eq!(d.process(DriverInput::NewRound(H, Round::Nil)), vec![]);
    assert_eq!(d.process(DriverInput::SkipRound(r(0))), vec![]);
    assert_eq!(d.round(), r(2));
    // A later round is reached by skipping to it. V1 proposes in round 4.
    assert_eq!(
        d.process(DriverInput::NewRound(H, r(4))),
        vec![
            DriverOutput::NewRound(H, r(4)),
            DriverOutput::ScheduleTimeout(Timeout::new(r(4), TimeoutStep::Propose)),
        ]
    );
    assert_eq!(d.round(), r(4));
    assert_eq!(d.proposer(), V1);

    let p = Proposal::new(H, r(4), X, Round::Nil, V1);
    d.process(DriverInput::Proposal(p, Validity::Valid));
    d.process(precommit(4, val(X), V1));
    d.process(precommit(4, val(X), V3));
    assert_eq!(d.process(precommit(4, val(X), V4)), vec![DriverOutput::Decide(r(4), X)]);
    let decided = d.round_state();
    assert_eq!(decided.decision, Some(X));
    let later = [
        DriverInput::NewRound(H, r(5)),
        DriverInput::SkipRound(r(9)),
        DriverInput::TimeoutElapsed(Timeout::new(r(4), TimeoutStep::Precommit)),
        DriverInput::Proposal(Proposal::new(H, r(4), Y, Round::Nil, V1), Validity::Valid),
        precommit(4, val(Y), V2),
        prevote(5, val(Y), V3),
        prevote(5, val(Y), V4),
    ];
    for input in later {
        assert_eq!(d.process(input), vec![]);
        assert_eq!(d.round_state(), decided);
    }
}

#[test]
fn stale_timeout_is_discarded() {
    let mut d = driver_of(V2);
    d.process(DriverInput::NewRound(H, r(0)));
    d.process(DriverInput::SkipRound(r(1)));
    assert_eq!(d.round(), r(1));
    let before = d.round_state();
    for step in [TimeoutStep::Propose, TimeoutStep::Prevote, TimeoutStep::Precommit] {
        assert_eq!(d.process(DriverInput::TimeoutElapsed(Timeout::new(r(0), step))), vec![]);
        assert_eq!(d.round_state(), before);
    }
}

#[test]
fn precommit_timeout_moves_to_the_next_round() {
    let mut d = driver_of(V3);
    d.process(DriverInput::NewRound(H, r(0)));
    assert_eq!(d.process(precommit(0, NilOrVal::Nil, V1)), vec![]);
    assert_eq!(d.process(precommit(0, val(X), V2)), vec![]);
    assert_eq!(
        d.process(precommit(0, val(Y), V4)),
        vec![DriverOutput::ScheduleTimeout(Timeout::new(r(0), TimeoutStep::Precommit))]
    );
    assert_eq!(
        d.process(DriverInput::TimeoutElapsed(Timeout::new(r(0), TimeoutStep::Precommit))),
        vec![
            DriverOutput::NewRound(H, r(1)),
            DriverOutput::ScheduleTimeout(Timeout::new(r(1), TimeoutStep::Propose)),
        ]
    );
    assert_eq!(d.round(), r(1));
}

#[test]
fn invalid_proposal_yields_prevote_nil_only() {
    let mut d = driver_of(V2);
    d.process(DriverInput::NewRound(H, r(0)));
    assert_eq!(
        d.process(DriverInput::Proposal(proposal_x(), Validity::Invalid)),
        vec![DriverOutput::Vote(Vote::new_prevote(H, r(0), NilOrVal::Nil, V2))]
    );
    // A polka for the invalid value does not make this node precommit it.
    d.process(prevote(0, val(X), V1));
    d.process(prevote(0, val(X), V3));
    assert_eq!(
        d.process(prevote(0, val(X), V4)),
        vec![DriverOutput::ScheduleTimeout(Timeout::new(r(0), TimeoutStep::Prevote))]
    );
    assert_eq!(d.round_state().locked, None);
    // Nor decide it.
    d.process(precommit(0, val(X), V1));
    d.process(precommit(0, val(X), V3));
    assert_eq!(
        d.process(precommit(0, val(X), V4)),
        vec![DriverOutput::ScheduleTimeout(Timeout::new(r(0), TimeoutStep::Precommit))]
    );
    assert_eq!(d.round_state().decision, None);
}

#[test]
fn polka_before_the_proposal_is_taken_up_after_the_prevote() {
    let mut d = driver_of(V2);
    d.process(DriverInput::NewRound(H, r(0)));
    assert_eq!(d.process(prevote(0, val(X), V1)), vec![]);
    assert_eq!(d.process(prevote(0, val(X), V3)), vec![]);
    // The polka arrives in the propose step, without a proposal: nothing yet.
    assert_eq!(d.process(prevote(0, val(X), V4)), vec![]);
    // With the polka reported, the proposal counts as proposal and polka,
    // which the propose step has no rule for.
    assert_eq!(d.process(DriverInput::Proposal(proposal_x(), Validity::Valid)), vec![]);
    assert_eq!(d.round_state().step, Step::Propose);
    // On the propose timeout the node prevotes nil, reaches the prevote
    // step, and takes up the polka for the recorded proposal.
    assert_eq!(
        d.process(DriverInput::TimeoutElapsed(Timeout::new(r(0), TimeoutStep::Propose))),
        vec![
            DriverOutput::Vote(Vote::new_prevote(H, r(0), NilOrVal::Nil, V2)),
            DriverOutput::Vote(Vote::new_precommit(H, r(0), val(X), V2)),
        ]
    );
    assert_eq!(d.round_state().locked, Some(RoundValue::new(X, r(0))));
}

#[test]
fn proposal_ahead_of_its_round_is_taken_up_when_the_round_starts() {
    let mut d = driver_of(V3);
    d.process(DriverInput::NewRound(H, r(0)));
    // V2 proposes in round 1; its proposal arrives during round 0.
    let early = Proposal::new(H, r(1), Y, Round::Nil, V2);
    assert_eq!(d.process(DriverInput::Proposal(early, Validity::Valid)), vec![]);
    assert_eq!(
        d.process(DriverInput::SkipRound(r(1))),
        vec![
            DriverOutput::NewRound(H, r(1)),
            DriverOutput::ScheduleTimeout(Timeout::new(r(1), TimeoutStep::Propose)),
            DriverOutput::Vote(Vote::new_prevote(H, r(1), val(Y), V3)),
        ]
    );
    assert_eq!(d.round_state().step, Step::Prevote);
}

#[test]
fn equivocating_vote_through_the_driver() {
    let mut d = driver_of(V2);
    d.process(DriverInput::NewRound(H, r(0)));
    d.process(prevote(0, val(X), V3));
    assert_eq!(d.process(prevote(0, val(Y), V3)), vec![]);
    let first = Vote::new_prevote(H, r(0), val(X), V3);
    let second = Vote::new_prevote(H, r(0), val(Y), V3);
    assert_eq!(d.vote_keeper().evidence().get(&V3), Some(&vec![(first, second)]));
    let votes = d.vote_keeper().per_round(r(0)).unwrap();
    assert_eq!(votes.weight(malachite_core::types::VoteType::Prevote, val(X)), 1);
    assert_eq!(votes.weight(malachite_core::types::VoteType::Prevote, val(Y)), 0);
}
