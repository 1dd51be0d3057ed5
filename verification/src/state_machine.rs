//! The consensus state machine: one pure step from a state and an input to
//! the next state and an optional output.
//!
//! Line numbers in comments (L11, L22, ...) are those of the Tendermint
//! consensus algorithm as published.

use vstd::prelude::*;
use crate::input::Input;
use crate::output::Output;
use crate::round::Round;
use crate::state::{RoundValue, State, Step};
use crate::transition::Transition;
use crate::types::{Address, NilOrVal, Proposal, Timeout, TimeoutStep, Value, Vote, VoteType};

verus! {

/// What the state machine is told with each input about the input and the
/// node it runs on.
pub struct Info<'a> {
    /// The round that the input is for; it may differ from the round of the state.
    pub input_round: Round,
    /// The address of this node.
    pub address: &'a Address,
    /// The proposer of the round of the state.
    pub proposer: &'a Address,
}

impl<'a> Info<'a> {
    pub fn new(input_round: Round, address: &'a Address, proposer: &'a Address) -> (info: Info<'a>)
        ensures
            info.input_round == input_round,
            *info.address == *address,
            *info.proposer == *proposer,
    {
        Info { input_round, address, proposer }
    }

    pub open spec fn spec_is_proposer(&self) -> bool {
        *self.address == *self.proposer
    }

    /// Whether this node is the proposer of the round of the state.
    #[verifier::when_used_as_spec(spec_is_proposer)]
    pub fn is_proposer(&self) -> (b: bool)
        ensures
            b == self.spec_is_proposer(),
    {
        *self.address == *self.proposer
    }
}

/// The transition that leaves the state as it is, for an input that no rule matches.
pub open spec fn no_transition(state: State) -> Transition {
    Transition { next_state: state, output: None, valid: false }
}

/// The transition that moves to `step` and casts a vote of this node at the
/// round of the state.
pub open spec fn cast_vote(state: State, step: Step, typ: VoteType, value: NilOrVal, address: Address) -> Transition {
    Transition {
        next_state: State { step, ..state },
        output: Some(Output::Vote(Vote { typ, height: state.height, round: state.round, value, validator_address: address })),
        valid: true,
    }
}

/// The transition that arms the timer of `timeout_step` for the round of the
/// state and moves to `step`.
pub open spec fn arm_timeout(state: State, step: Step, timeout_step: TimeoutStep) -> Transition {
    Transition {
        next_state: State { step, ..state },
        output: Some(Output::ScheduleTimeout(Timeout { round: state.round, step: timeout_step })),
        valid: true,
    }
}

/// The transition with which the proposer opens its round: it proposes the
/// valid value where it has one, and otherwise asks for a value.
pub open spec fn open_as_proposer(state: State) -> Transition {
    Transition {
        next_state: State { step: Step::Propose, ..state },
        output: Some(
            match state.valid {
                Some(rv) => Output::Proposal {
                    height: state.height,
                    round: state.round,
                    value: rv.value,
                    pol_round: rv.round,
                },
                None => Output::GetValueAndScheduleTimeout(
                    state.round,
                    Timeout { round: state.round, step: TimeoutStep::Propose },
                ),
            },
        ),
        valid: true,
    }
}

/// The transition that locks on the value at the round of the state, records
/// it as valid, and precommits it.
pub open spec fn lock_and_precommit(state: State, value: Value, address: Address) -> Transition {
    let rv = RoundValue { value, round: state.round };
    cast_vote(
        State { locked: Some(rv), valid: Some(rv), ..state },
        Step::Precommit,
        VoteType::Precommit,
        NilOrVal::Val(value.id()),
        address,
    )
}

/// The transition that abandons the round of the state for `round`: the new
/// round is unstarted, and what was locked, valid or decided stays.
pub open spec fn skip_to(state: State, round: Round) -> Transition {
    Transition {
        next_state: State { round, step: Step::Unstarted, ..state },
        output: Some(Output::NewRound(round)),
        valid: true,
    }
}

/// The transition that decides the value, at the round given.
pub open spec fn decide(state: State, round: Round, value: Value) -> Transition {
    Transition {
        next_state: State { decision: Some(value), step: Step::Commit, ..state },
        output: Some(Output::Decision(RoundValue { value, round })),
        valid: true,
    }
}

/// Whether a node locked as in `state` may prevote a value proposed for the
/// first time: it is not locked, or locked on that very value.
pub open spec fn may_prevote_fresh(state: State, proposal: Proposal) -> bool {
    state.locked is None || state.locked->0.value == proposal.value
}

/// Whether a node locked as in `state` may prevote a value proposed again
/// with a proof-of-lock round: it is not locked, or locked on that very value
/// no later than the proof-of-lock round.
pub open spec fn may_prevote_again(state: State, proposal: Proposal) -> bool {
    state.locked is None || (state.locked->0.round.as_int() <= proposal.pol_round.as_int()
        && state.locked->0.value == proposal.value)
}

/// Whether `pol_round` can be the proof-of-lock round of a proposal made in
/// the round of the state: a defined round before it.
pub open spec fn valid_pol_round(state: State, pol_round: Round) -> bool {
    pol_round is Defined && pol_round.as_int() < state.round.as_int()
}

/// The transition function of the state machine.
///
/// An input is *for this round* when `info.input_round` is the round of the
/// state. An input that meets no rule leaves the state as it is, with no
/// output, and is reported as not valid. Nothing moves once the `Commit` step
/// is reached.
pub open spec fn transition(state: State, info: &Info, input: Input) -> Transition {
    let this_round = state.round == info.input_round;
    let me = *info.address;
    let in_step = |step: Step| state.step == step && this_round;
    if state.step is Commit {
        no_transition(state)
    } else {
        match input {
            // L11: a round begins, for its proposer (L14-L19) and for the others (L21).
            Input::NewRound(round) => if state.step is Unstarted {
                let started = State { round, ..state };
                if info.is_proposer() {
                    open_as_proposer(started)
                } else {
                    arm_timeout(started, Step::Propose, TimeoutStep::Propose)
                }
            } else {
                no_transition(state)
            },
            // L18: the proposer has its value.
            Input::ProposeValue(value) => if in_step(Step::Propose) && info.is_proposer() {
                Transition {
                    next_state: state,
                    output: Some(Output::Proposal { height: state.height, round: state.round, value, pol_round: Round::Nil }),
                    valid: true,
                }
            } else {
                no_transition(state)
            },
            // L22: a first-time proposal.
            Input::Proposal(proposal) => if in_step(Step::Propose) && proposal.pol_round is Nil {
                if may_prevote_fresh(state, proposal) {
                    cast_vote(state, Step::Prevote, VoteType::Prevote, NilOrVal::Val(proposal.value.id()), me)
                } else {
                    cast_vote(state, Step::Prevote, VoteType::Prevote, NilOrVal::Nil, me)
                }
            } else {
                no_transition(state)
            },
            // L28: a proposal with a polka from an earlier round.
            Input::ProposalAndPolkaPrevious(proposal) => if in_step(Step::Propose) && valid_pol_round(state, proposal.pol_round) {
                if may_prevote_again(state, proposal) {
                    cast_vote(state, Step::Prevote, VoteType::Prevote, NilOrVal::Val(proposal.value.id()), me)
                } else {
                    cast_vote(state, Step::Prevote, VoteType::Prevote, NilOrVal::Nil, me)
                }
            } else {
                no_transition(state)
            },
            // L26, L32, L57: nothing to prevote for.
            Input::InvalidProposalAndPolkaPrevious(_) | Input::InvalidProposal | Input::TimeoutPropose => if in_step(Step::Propose) {
                cast_vote(state, Step::Prevote, VoteType::Prevote, NilOrVal::Nil, me)
            } else {
                no_transition(state)
            },
            // L34
            Input::PolkaAny => if in_step(Step::Prevote) {
                arm_timeout(state, Step::Prevote, TimeoutStep::Prevote)
            } else {
                no_transition(state)
            },
            // L44, L61
            Input::PolkaNil | Input::TimeoutPrevote => if in_step(Step::Prevote) {
                cast_vote(state, Step::Precommit, VoteType::Precommit, NilOrVal::Nil, me)
            } else {
                no_transition(state)
            },
            // L36: a proposal with a polka in this round, before (L37-L41)
            // and after (L42-L43) this node has precommitted.
            Input::ProposalAndPolkaCurrent(proposal) => if in_step(Step::Prevote) {
                lock_and_precommit(state, proposal.value, me)
            } else if in_step(Step::Precommit) {
                Transition {
                    next_state: State { valid: Some(RoundValue { value: proposal.value, round: state.round }), ..state },
                    output: None,
                    valid: true,
                }
            } else {
                no_transition(state)
            },
            // L47
            Input::PrecommitAny => if this_round {
                arm_timeout(state, state.step, TimeoutStep::Precommit)
            } else {
                no_transition(state)
            },
            // L65
            Input::TimeoutPrecommit => if this_round && info.input_round.can_increment() {
                skip_to(state, info.input_round.successor())
            } else {
                no_transition(state)
            },
            // L55
            Input::SkipRound(round) => if state.round.as_int() < round.as_int() {
                skip_to(state, round)
            } else {
                no_transition(state)
            },
            // L49
            Input::ProposalAndPrecommitValue(proposal) => decide(state, info.input_round, proposal.value),
        }
    }
}

/// Whether `pol_round` can be the proof-of-lock round of a proposal made in
/// the round of the state.
fn is_valid_pol_round(state: &State, pol_round: Round) -> (b: bool)
    ensures
        b == valid_pol_round(*state, pol_round),
{
    pol_round.is_defined() && pol_round.lt(&state.round)
}

/// Apply an input to the state.
///
/// The result is the next state and, where the rule that matched has one, an
/// output for the driver to act on.
pub fn apply(state: State, info: &Info, input: Input) -> (t: Transition)
    ensures
        t == transition(state, info, input),
{
    let mut state = state;
    let this_round = state.round == info.input_round;

    match (state.step, input) {
        // No transition leaves the commit step.
        (Step::Commit, _) => Transition::invalid(state),

        // L18
        (Step::Unstarted, Input::NewRound(round)) => {
            state.round = round;
            if info.is_proposer() {
                propose_valid_or_get_value(state)
            } else {
                // L11/L20
                schedule_timeout_propose(state)
            }
        },

        // L11/L14
        (Step::Propose, Input::ProposeValue(value)) if this_round && info.is_proposer() => propose(state, value),

        // L22 with valid proposal
        (Step::Propose, Input::Proposal(proposal)) if this_round && proposal.pol_round.is_nil() => {
            let unlocked = match state.locked {
                Some(locked) => locked.value == proposal.value,
                None => true,
            };
            if unlocked {
                // L24
                prevote(state, info.address, &proposal)
            } else {
                // L26
                prevote_nil(state, info.address)
            }
        },

        // L28 with valid proposal
        (Step::Propose, Input::ProposalAndPolkaPrevious(proposal)) if this_round && is_valid_pol_round(&state, proposal.pol_round) => {
            let unlocked = match state.locked {
                Some(locked) => locked.round.le(&proposal.pol_round) && locked.value == proposal.value,
                None => true,
            };
            if unlocked {
                // L30
                prevote(state, info.address, &proposal)
            } else {
                // L32
                prevote_nil(state, info.address)
            }
        },

        // L28 with invalid proposal
        (Step::Propose, Input::InvalidProposalAndPolkaPrevious(_)) if this_round => prevote_nil(state, info.address),

        // L22/L25, L28/L31
        (Step::Propose, Input::InvalidProposal) if this_round => prevote_nil(state, info.address),

        // L57
        (Step::Propose, Input::TimeoutPropose) if this_round => prevote_nil(state, info.address),

        // L34
        (Step::Prevote, Input::PolkaAny) if this_round => schedule_timeout_prevote(state),

        // L45
        (Step::Prevote, Input::PolkaNil) if this_round => precommit_nil(state, info.address),

        // L36/L37
        (Step::Prevote, Input::ProposalAndPolkaCurrent(proposal)) if this_round => precommit(state, info.address, proposal),

        // L61
        (Step::Prevote, Input::TimeoutPrevote) if this_round => precommit_nil(state, info.address),

        // L36/L42
        (Step::Precommit, Input::ProposalAndPolkaCurrent(proposal)) if this_round => set_valid_value(state, &proposal),

        // L47
        (_, Input::PrecommitAny) if this_round => schedule_timeout_precommit(state),

        // L65
        (_, Input::TimeoutPrecommit) if this_round => {
            match info.input_round {
                Round::Defined(r) if r < u32::MAX => round_skip(state, info.input_round.increment()),
                _ => Transition::invalid(state),
            }
        },

        // L55
        (_, Input::SkipRound(round)) if state.round.lt(&round) => round_skip(state, round),

        // L49
        (_, Input::ProposalAndPrecommitValue(proposal)) => commit(state, info.input_round, proposal),

        // No rule matches.
        _ => Transition::invalid(state),
    }
}

//---------------------------------------------------------------------
// Propose
//---------------------------------------------------------------------

/// We are the proposer. Propose the valid value if present, otherwise ask
/// for a value and schedule the propose timeout.
///
/// L15-L18
pub fn propose_valid_or_get_value(state: State) -> (t: Transition)
    ensures
        t == open_as_proposer(state),
{
    match state.valid {
        Some(round_value) => {
            let pol_round = round_value.round;
            let proposal = Output::proposal(state.height, state.round, round_value.value, pol_round);
            Transition::to(state.with_step(Step::Propose)).with_output(proposal)
        },
        None => {
            let timeout = Output::get_value_and_schedule_timeout(state.round, TimeoutStep::Propose);
            Transition::to(state.with_step(Step::Propose)).with_output(timeout)
        },
    }
}

/// We are the proposer and have our value: propose it, as a first-time proposal.
///
/// L11/L14
pub fn propose(state: State, value: Value) -> (t: Transition)
    ensures
        t == (Transition {
            next_state: State { step: Step::Propose, ..state },
            output: Some(Output::Proposal { height: state.height, round: state.round, value, pol_round: Round::Nil }),
            valid: true,
        }),
{
    let proposal = Output::proposal(state.height, state.round, value, Round::Nil);
    Transition::to(state.with_step(Step::Propose)).with_output(proposal)
}

//---------------------------------------------------------------------
// Prevote
//---------------------------------------------------------------------

/// What a node locked as in `state` prevotes on a complete proposal: the
/// proposed value, unless it is locked on another value in a round after the
/// proposal's.
pub open spec fn prevote_value(state: State, proposal: Proposal) -> NilOrVal {
    if state.locked is Some && proposal.round.as_int() < state.locked->0.round.as_int()
        && state.locked->0.value.id() != proposal.value.id() {
        NilOrVal::Nil
    } else {
        NilOrVal::Val(proposal.value.id())
    }
}

/// Received a complete proposal; prevote the value, unless we are locked on
/// something else at a higher round.
///
/// L22/L28
pub fn prevote(state: State, address: &Address, proposal: &Proposal) -> (t: Transition)
    ensures
        t == cast_vote(state, Step::Prevote, VoteType::Prevote, prevote_value(state, *proposal), *address),
{
    let vr = proposal.round;
    let proposed = proposal.value.id();
    let value = match state.locked {
        Some(locked) => {
            if locked.round.le(&vr) {
                // unlock and prevote
                NilOrVal::Val(proposed)
            } else if locked.value.id() == proposed {
                // already locked on the value
                NilOrVal::Val(proposed)
            } else {
                // locked on a higher round with a different value
                NilOrVal::Nil
            }
        },
        // not locked, prevote the value
        None => NilOrVal::Val(proposed),
    };

    let output = Output::prevote(state.height, state.round, value, *address);
    Transition::to(state.with_step(Step::Prevote)).with_output(output)
}

/// Received a complete proposal for an empty or invalid value, or timed out;
/// prevote nil.
///
/// L22/L25, L28/L31, L57
pub fn prevote_nil(state: State, address: &Address) -> (t: Transition)
    ensures
        t == cast_vote(state, Step::Prevote, VoteType::Prevote, NilOrVal::Nil, *address),
{
    let output = Output::prevote(state.height, state.round, NilOrVal::Nil, *address);
    Transition::to(state.with_step(Step::Prevote)).with_output(output)
}

//---------------------------------------------------------------------
// Precommit
//---------------------------------------------------------------------

/// Received a polka for a value; lock on the value and precommit it. Outside
/// the prevote step nothing happens.
///
/// L36
pub fn precommit(state: State, address: &Address, proposal: Proposal) -> (t: Transition)
    ensures
        state.step is Prevote ==> t == lock_and_precommit(state, proposal.value, *address),
        !(state.step is Prevote) ==> t == (Transition { next_state: state, output: None, valid: true }),
{
    if state.step != Step::Prevote {
        return Transition::to(state);
    }
    let value = proposal.value;
    let output = Output::precommit(state.height, state.round, NilOrVal::Val(value.id()), *address);
    let next = state.set_locked(value).set_valid(value).with_step(Step::Precommit);
    Transition::to(next).with_output(output)
}

/// Received a polka for nil or timed out of prevote; precommit nil.
///
/// L44, L61
pub fn precommit_nil(state: State, address: &Address) -> (t: Transition)
    ensures
        t == cast_vote(state, Step::Precommit, VoteType::Precommit, NilOrVal::Nil, *address),
{
    let output = Output::precommit(state.height, state.round, NilOrVal::Nil, *address);
    Transition::to(state.with_step(Step::Precommit)).with_output(output)
}

//---------------------------------------------------------------------
// Schedule timeouts
//---------------------------------------------------------------------

/// We are not the proposer; schedule the propose timeout.
///
/// L11, L20
pub fn schedule_timeout_propose(state: State) -> (t: Transition)
    ensures
        t == arm_timeout(state, Step::Propose, TimeoutStep::Propose),
{
    let timeout = Output::schedule_timeout(state.round, TimeoutStep::Propose);
    Transition::to(state.with_step(Step::Propose)).with_output(timeout)
}

/// We received a polka for any; schedule the prevote timeout. Outside the
/// prevote step nothing happens.
///
/// L34
pub fn schedule_timeout_prevote(state: State) -> (t: Transition)
    ensures
        state.step is Prevote ==> t == arm_timeout(state, Step::Prevote, TimeoutStep::Prevote),
        !(state.step is Prevote) ==> t == (Transition { next_state: state, output: None, valid: true }),
{
    if state.step == Step::Prevote {
        let output = Output::schedule_timeout(state.round, TimeoutStep::Prevote);
        Transition::to(state).with_output(output)
    } else {
        Transition::to(state)
    }
}

/// We received a quorum of precommits for any; schedule the precommit timeout.
///
/// L47
pub fn schedule_timeout_precommit(state: State) -> (t: Transition)
    ensures
        t == arm_timeout(state, state.step, TimeoutStep::Precommit),
{
    let output = Output::schedule_timeout(state.round, TimeoutStep::Precommit);
    Transition::to(state).with_output(output)
}

//---------------------------------------------------------------------
// Set the valid value
//---------------------------------------------------------------------

/// We received a polka for a value after we already precommitted: record the
/// value as valid at the current round.
///
/// L36/L42
pub fn set_valid_value(state: State, proposal: &Proposal) -> (t: Transition)
    ensures
        t == (Transition {
            next_state: State { valid: Some(RoundValue { value: proposal.value, round: state.round }), ..state },
            output: None,
            valid: true,
        }),
{
    Transition::to(state.set_valid(proposal.value))
}

//---------------------------------------------------------------------
// New round or height
//---------------------------------------------------------------------

/// We finished a round (precommit timeout) or saw more than a third of the
/// voting power in a higher round: move to the higher round.
///
/// L65
pub fn round_skip(state: State, round: Round) -> (t: Transition)
    ensures
        t == skip_to(state, round),
{
    let new_state = state.with_round(round).with_step(Step::Unstarted);
    Transition::to(new_state).with_output(Output::NewRound(round))
}

/// We received a quorum of precommits for a value: commit and decide that value.
///
/// L49
pub fn commit(state: State, round: Round, proposal: Proposal) -> (t: Transition)
    ensures
        t == decide(state, round, proposal.value),
{
    let new_state = state.set_decision(proposal.value).with_step(Step::Commit);
    let output = Output::decision(round, proposal.value);
    Transition::to(new_state).with_output(output)
}

//---------------------------------------------------------------------
// What holds of every transition
//---------------------------------------------------------------------

/// Whether an input would take the state machine back to an earlier round:
/// the start of a round before the round of the state.
pub open spec fn starts_earlier_round(state: State, input: Input) -> bool {
    input is NewRound && input->NewRound_0.as_int() < state.round.as_int()
}

/// An input that no rule matches changes nothing and has no output.
pub proof fn lemma_unmatched_input_changes_nothing(state: State, info: &Info, input: Input)
    ensures
        !transition(state, info, input).valid ==> transition(state, info, input) == no_transition(state),
{
}

/// Once the state machine has decided, no input changes its state or makes
/// it ask for anything: the decision is never overwritten.
pub proof fn law_decision_is_final(state: State, info: &Info, input: Input)
    requires
        state.inv(),
        state.decision is Some,
    ensures
        transition(state, info, input).next_state == state,
        transition(state, info, input).output is None,
{
}

/// A decision is set in the one transition that reaches the commit step,
/// and that transition reports it.
pub proof fn law_decision_is_set_on_commit(state: State, info: &Info, input: Input)
    requires
        state.inv(),
    ensures
        ({
            let t = transition(state, info, input);
            t.next_state.decision != state.decision ==> {
                &&& state.decision is None
                &&& t.next_state.step is Commit
                &&& input is ProposalAndPrecommitValue
                &&& t.next_state.decision == Some(input->ProposalAndPrecommitValue_0.value)
                &&& t.output == Some(
                    Output::Decision(
                        RoundValue { value: input->ProposalAndPrecommitValue_0.value, round: info.input_round },
                    ),
                )
            }
        }),
{
}

/// Every transition keeps the invariant of the state, unless the input
/// starts a round before the current one. In particular the locked round
/// never comes to exceed the valid round.
pub proof fn law_transition_keeps_invariant(state: State, info: &Info, input: Input)
    requires
        state.inv(),
        !starts_earlier_round(state, input),
    ensures
        transition(state, info, input).next_state.inv(),
        ({
            let next = transition(state, info, input).next_state;
            next.locked is Some && next.valid is Some ==> next.locked->0.round.as_int() <= next.valid->0.round.as_int()
        }),
{
}

/// The round of the state never decreases, unless the input starts a round
/// before the current one.
pub proof fn law_round_never_decreases(state: State, info: &Info, input: Input)
    requires
        !starts_earlier_round(state, input),
    ensures
        state.round.as_int() <= transition(state, info, input).next_state.round.as_int(),
{
}

/// Within a round the steps are only taken forward, in the order
/// Unstarted, Propose, Prevote, Precommit, Commit.
pub proof fn law_step_never_regresses(state: State, info: &Info, input: Input)
    ensures
        ({
            let next = transition(state, info, input).next_state;
            next.round == state.round ==> state.step.rank() <= next.step.rank()
        }),
{
}

/// A transition leaves the height alone, and changes what is locked only by
/// locking, at the current round, on a value that it also records as valid.
pub proof fn law_lock_follows_polka(state: State, info: &Info, input: Input)
    ensures
        ({
            let next = transition(state, info, input).next_state;
            &&& next.height == state.height
            &&& next.locked != state.locked ==> {
                &&& state.step is Prevote
                &&& input is ProposalAndPolkaCurrent
                &&& next.locked == Some(RoundValue { value: input->ProposalAndPolkaCurrent_0.value, round: state.round })
                &&& next.valid == next.locked
            }
        }),
{
}

} // verus!
