//! The driver of the consensus state machine.
//!
//! The driver takes what the host hands it (proposals, votes, values to
//! propose, elapsed timeouts), keeps the votes and proposals of the height,
//! works out which inputs of the state machine they amount to, applies those,
//! and hands back what the host has to do next.

use vstd::prelude::*;
use crate::input::Input;
use crate::output::Output;
use crate::proposal_keeper::{record_proposal, ProposalKeeper, ProposalKeeperView};
use crate::proposer::{proposer_of, ProposerSelector};
use crate::round::Round;
use crate::state::{State, Step};
use crate::state_machine::{apply, transition, Info};
use crate::transition::Transition;
use crate::types::{Address, Height, Proposal, Timeout, TimeoutStep, Validity, Value, ValueId, Vote};
use crate::validator_set::{find_validator, Validator, ValidatorSet};
use crate::vote_keeper::{ThresholdEvent, VoteKeeper, VoteKeeperView};

verus! {

/// What the host hands to the driver.
#[derive(Clone, Copy, Debug, PartialEq, Eq, Structural)]
pub enum DriverInput {
    /// Start a round of the height. With a height under way, a later round
    /// is reached by skipping to it.
    NewRound(Height, Round),
    /// The value that the host built for this node to propose in the round.
    ProposeValue(Height, Round, Value),
    /// A proposal received, with the host's verdict on its value.
    Proposal(Proposal, Validity),
    /// A vote received.
    Vote(Vote),
    /// A timer that the driver asked for has elapsed.
    TimeoutElapsed(Timeout),
    /// Skip to a later round. The driver makes this input itself when the
    /// votes call for it; a host replaying a log may hand it in as well.
    SkipRound(Round),
}

/// What the driver asks of the host.
#[derive(Clone, Copy, Debug, PartialEq, Eq, Structural)]
pub enum DriverOutput {
    /// The driver has moved to the round.
    NewRound(Height, Round),
    /// Sign and broadcast the proposal.
    Propose(Proposal),
    /// Sign and broadcast the vote.
    Vote(Vote),
    /// Arm the timer.
    ScheduleTimeout(Timeout),
    /// Build a value to propose in the round, before the timer elapses.
    GetValue(Height, Round, Timeout),
    /// The value is decided, by a proposal of the round.
    Decide(Round, Value),
}

/// The input of the state machine that an elapsed timer stands for.
pub open spec fn timeout_input(step: TimeoutStep) -> Input {
    match step {
        TimeoutStep::Propose => Input::TimeoutPropose,
        TimeoutStep::Prevote => Input::TimeoutPrevote,
        TimeoutStep::Precommit => Input::TimeoutPrecommit,
    }
}

/// What a driver holds.
pub ghost struct DriverView {
    /// The height that is being decided.
    pub height: Height,
    /// The address of this node.
    pub address: Address,
    /// The validators of the height.
    pub validators: Seq<Validator>,
    /// How proposers are chosen.
    pub selector: ProposerSelector,
    /// The state of the state machine. Its round is the round of the driver.
    pub state: State,
    /// The votes of the height.
    pub votes: VoteKeeperView,
    /// The proposals of the height.
    pub proposals: ProposalKeeperView,
    /// The values that the host has found invalid.
    pub invalid: Set<ValueId>,
    /// An input of the state machine that waits to be applied, with its round.
    pub pending: Option<(Round, Input)>,
    /// The proposer of the round last started.
    pub proposer: Address,
}

impl DriverView {
    /// What holds of a driver between any two inputs: the state machine's
    /// invariant holds of its state, and no input waits to be applied.
    pub open spec fn inv(self) -> bool {
        &&& self.state.inv()
        &&& self.pending is None
        &&& self.proposals_filed_by_round()
        &&& self.votes.reports_hold()
    }

    /// The driver at the start of a height: no round started, no vote or
    /// proposal kept, and the proposer of round 0 at hand.
    pub open spec fn initial(
        height: Height,
        validators: Seq<Validator>,
        address: Address,
        selector: ProposerSelector,
    ) -> DriverView {
        DriverView {
            height,
            address,
            validators,
            selector,
            state: State {
                height,
                round: Round::Nil,
                step: Step::Unstarted,
                locked: None,
                valid: None,
                decision: None,
            },
            votes: VoteKeeperView::empty(crate::validator_set::total_power(validators)),
            proposals: ProposalKeeperView { validators, proposals: Map::empty(), evidence: Map::empty() },
            invalid: Set::empty(),
            pending: None,
            proposer: proposer_of(selector, height, Round::Defined(0), validators),
        }
    }

    /// Whether every proposal kept is kept under its own round.
    pub open spec fn proposals_filed_by_round(self) -> bool {
        forall|round: Round| #[trigger]
            self.proposals.proposals.contains_key(round) ==> self.proposals.proposals[round].round == round
    }

    /// Whether an input of the state machine that calls for a decision does
    /// so for the round of its proposal, with a quorum of precommits for the
    /// value reported in that round.
    pub open spec fn has_quorum_behind(self, input_round: Round, input: Input) -> bool {
        input is ProposalAndPrecommitValue ==> {
            let proposal = input->ProposalAndPrecommitValue_0;
            &&& input_round == proposal.round
            &&& self.votes.fired(ThresholdEvent::PrecommitValue(proposal.round, proposal.value.id()))
        }
    }

    /// Whether an output, where it is a decision, has a quorum of precommits
    /// for the value reported in the round of the decision.
    pub open spec fn backs(self, output: DriverOutput) -> bool {
        match output {
            DriverOutput::Decide(round, value) => self.votes.fired(
                ThresholdEvent::PrecommitValue(round, value.id()),
            ) && self.state.decision == Some(value),
            _ => true,
        }
    }

    /// Whether the host has found the proposal's value valid, as far as the
    /// driver knows.
    pub open spec fn validity_of(self, proposal: Proposal) -> Validity {
        if self.invalid.contains(proposal.value.id()) {
            Validity::Invalid
        } else {
            Validity::Valid
        }
    }

    /// The proposal recorded for the round, where it proposes the value with
    /// the given identifier and that value has not been found invalid.
    pub open spec fn matching_proposal(self, round: Round, id: ValueId) -> Option<Proposal> {
        if self.proposals.proposals.contains_key(round) && self.proposals.proposals[round].value.id() == id
            && !self.invalid.contains(id) {
            Some(self.proposals.proposals[round])
        } else {
            None
        }
    }

    /// The input of the state machine that a proposal amounts to, given the
    /// thresholds that the votes have crossed.
    ///
    /// A proposal of an invalid value can only lead to a prevote for nil. A
    /// valid one counts, in this order, as a proposal with a quorum of
    /// precommits for its value in its round; with a polka for its value in
    /// its round, which is the driver's; with a polka for its value in its
    /// proof-of-lock round; or as a plain proposal.
    pub open spec fn lift_proposal(self, proposal: Proposal, validity: Validity) -> Input {
        let id = proposal.value.id();
        let polka_previous = proposal.pol_round is Defined && self.votes.fired(
            ThresholdEvent::PolkaValue(proposal.pol_round, id),
        );
        if validity is Invalid {
            if polka_previous {
                Input::InvalidProposalAndPolkaPrevious(proposal)
            } else {
                Input::InvalidProposal
            }
        } else if self.votes.fired(ThresholdEvent::PrecommitValue(proposal.round, id)) {
            Input::ProposalAndPrecommitValue(proposal)
        } else if proposal.round == self.state.round && self.votes.fired(
            ThresholdEvent::PolkaValue(proposal.round, id),
        ) {
            Input::ProposalAndPolkaCurrent(proposal)
        } else if polka_previous {
            Input::ProposalAndPolkaPrevious(proposal)
        } else {
            Input::Proposal(proposal)
        }
    }

    /// The input of the state machine that a threshold event amounts to.
    ///
    /// A threshold on a value is combined with the proposal recorded for its
    /// round, where that proposes the value and the value is valid; without
    /// such a proposal it counts as the threshold on any vote. The other
    /// thresholds are inputs of their own.
    pub open spec fn lift_threshold(self, event: ThresholdEvent) -> Input {
        match event {
            ThresholdEvent::PolkaAny(_) => Input::PolkaAny,
            ThresholdEvent::PolkaNil(_) => Input::PolkaNil,
            ThresholdEvent::PolkaValue(round, id) => match self.matching_proposal(round, id) {
                Some(proposal) => self.lift_proposal(proposal, Validity::Valid),
                None => Input::PolkaAny,
            },
            ThresholdEvent::PrecommitAny(_) => Input::PrecommitAny,
            ThresholdEvent::PrecommitValue(round, id) => match self.matching_proposal(round, id) {
                Some(proposal) => self.lift_proposal(proposal, Validity::Valid),
                None => Input::PrecommitAny,
            },
            ThresholdEvent::SkipRound(round) => Input::SkipRound(round),
        }
    }

    /// What the driver takes up by itself when the state machine has reached
    /// a new step, from what arrived ahead of that step.
    ///
    /// On reaching the propose step: the proposal recorded for the round. On
    /// reaching the prevote step: a polka that the prevotes of the round
    /// already hold, for nil, else for the value of the recorded valid
    /// proposal, else for anything.
    pub open spec fn on_step_change(self) -> Option<(Round, Input)> {
        let round = self.state.round;
        let votes = self.votes.round_votes(round);
        let total = self.votes.total_weight;
        match self.state.step {
            Step::Propose => if self.proposals.proposals.contains_key(round) {
                let proposal = self.proposals.proposals[round];
                Some((round, self.lift_proposal(proposal, self.validity_of(proposal))))
            } else {
                None
            },
            Step::Prevote => if votes.meets(total, round, ThresholdEvent::PolkaNil(round)) {
                Some((round, Input::PolkaNil))
            } else if self.proposals.proposals.contains_key(round) && self.validity_of(
                self.proposals.proposals[round],
            ) is Valid && votes.meets(
                total,
                round,
                ThresholdEvent::PolkaValue(round, self.proposals.proposals[round].value.id()),
            ) {
                Some((round, Input::ProposalAndPolkaCurrent(self.proposals.proposals[round])))
            } else if votes.meets(total, round, ThresholdEvent::PolkaAny(round)) {
                Some((round, Input::PolkaAny))
            } else {
                None
            },
            _ => None,
        }
    }

    /// What the host is asked to do for an output of the state machine.
    pub open spec fn translate(self, output: Option<Output>) -> Seq<DriverOutput> {
        match output {
            None => Seq::empty(),
            Some(Output::NewRound(round)) => seq![DriverOutput::NewRound(self.height, round)],
            Some(Output::Proposal { height, round, value, pol_round }) => seq![
                DriverOutput::Propose(Proposal { height, round, value, pol_round, validator_address: self.address }),
            ],
            Some(Output::Vote(vote)) => seq![DriverOutput::Vote(vote)],
            Some(Output::ScheduleTimeout(timeout)) => seq![DriverOutput::ScheduleTimeout(timeout)],
            Some(Output::GetValueAndScheduleTimeout(round, timeout)) => seq![
                DriverOutput::GetValue(self.height, round, timeout),
                DriverOutput::ScheduleTimeout(timeout),
            ],
            Some(Output::Decision(decided)) => seq![DriverOutput::Decide(decided.round, decided.value)],
        }
    }

    /// The transition of the state machine on an input for a round.
    pub open spec fn transition_on(self, input_round: Round, input: Input) -> Transition {
        transition(self.state, &Info { input_round, address: &self.address, proposer: &self.proposer }, input)
    }

    /// The driver after one transition of the state machine: the state is the
    /// next state, and where the step has changed, what arrived ahead of the
    /// new step waits to be applied.
    pub open spec fn after(self, t: Transition) -> DriverView {
        let moved = DriverView { state: t.next_state, pending: None, ..self };
        if t.next_state.step != self.state.step {
            DriverView { pending: moved.on_step_change(), ..moved }
        } else {
            moved
        }
    }

    /// The driver after an input of the state machine, with what the host is
    /// asked to do.
    ///
    /// Where the state machine leaves its round for another, the driver
    /// reports the new round, selects its proposer, and starts it.
    pub open spec fn feed(self, input_round: Round, input: Input) -> (DriverView, Seq<DriverOutput>) {
        let t = self.transition_on(input_round, input);
        let moved = self.after(t);
        let outputs = self.translate(t.output);
        match t.output {
            Some(Output::NewRound(round)) => {
                let entered = DriverView {
                    proposer: proposer_of(self.selector, self.height, round, self.validators),
                    ..moved
                };
                let start = entered.transition_on(round, Input::NewRound(round));
                (entered.after(start), outputs + entered.translate(start.output))
            },
            _ => (moved, outputs),
        }
    }

    /// The driver once nothing waits to be applied any more, with what the
    /// host is asked to do on the way.
    pub open spec fn settle(self) -> (DriverView, Seq<DriverOutput>)
        decreases 4 - self.state.step.rank(),
    {
        match self.pending {
            None => (self, Seq::empty()),
            Some((round, input)) => {
                let (fed, outputs) = (DriverView { pending: None, ..self }).feed(round, input);
                if fed.state.step.rank() > self.state.step.rank() {
                    let (settled, more) = fed.settle();
                    (settled, outputs + more)
                } else {
                    (DriverView { pending: None, ..fed }, outputs)
                }
            },
        }
    }

    /// The first half of processing an input: whether the input is taken up,
    /// what it changes in the votes and proposals kept, and the input of the
    /// state machine that it amounts to, with its round.
    ///
    /// Not taken up are inputs for another height, proposals and votes of
    /// validators that are not in the validator set, and the start of a
    /// round that is not defined.
    pub open spec fn receive(self, input: DriverInput) -> (DriverView, Option<(Round, Input)>) {
        match input {
            DriverInput::NewRound(height, round) => {
                if height != self.height || round is Nil {
                    (self, None)
                } else if self.state.step is Unstarted && self.state.round.as_int() <= round.as_int() {
                    (
                        DriverView {
                            proposer: proposer_of(self.selector, self.height, round, self.validators),
                            ..self
                        },
                        Some((round, Input::NewRound(round))),
                    )
                } else {
                    (self, Some((round, Input::SkipRound(round))))
                }
            },
            DriverInput::ProposeValue(height, round, value) => {
                if height != self.height {
                    (self, None)
                } else {
                    (self, Some((round, Input::ProposeValue(value))))
                }
            },
            DriverInput::Proposal(proposal, validity) => {
                if proposal.height != self.height || find_validator(self.validators, proposal.validator_address)
                    is None {
                    (self, None)
                } else {
                    let stored = DriverView {
                        proposals: record_proposal(self.proposals, proposal),
                        invalid: if validity is Invalid {
                            self.invalid.insert(proposal.value.id())
                        } else {
                            self.invalid
                        },
                        ..self
                    };
                    (stored, Some((proposal.round, stored.lift_proposal(proposal, validity))))
                }
            },
            DriverInput::Vote(vote) => {
                let validator = find_validator(self.validators, vote.validator_address);
                if vote.height != self.height || validator is None {
                    (self, None)
                } else {
                    let (votes, event) = self.votes.apply_vote(vote, validator->0.voting_power, self.state.round);
                    let counted = DriverView { votes, ..self };
                    match event {
                        Some(e) => (counted, Some((e.round(), counted.lift_threshold(e)))),
                        None => (counted, None),
                    }
                }
            },
            DriverInput::TimeoutElapsed(timeout) => (self, Some((timeout.round, timeout_input(timeout.step)))),
            DriverInput::SkipRound(round) => (self, Some((round, Input::SkipRound(round)))),
        }
    }

    /// The driver after an input from the host, with what the host is asked
    /// to do, in the order in which it is to be done.
    pub open spec fn process(self, input: DriverInput) -> (DriverView, Seq<DriverOutput>) {
        let (received, lifted) = self.receive(input);
        match lifted {
            None => (received, Seq::empty()),
            Some((round, round_input)) => {
                let (fed, outputs) = received.feed(round, round_input);
                let (settled, more) = fed.settle();
                (settled, outputs + more)
            },
        }
    }
}

/// A validator set that is not empty: one that a proposer can be chosen from.
#[derive(Debug)]
struct Electorate {
    validator_set: ValidatorSet,
}

impl Electorate {
    #[verifier::type_invariant]
    closed spec fn has_validators(&self) -> bool {
        self.validator_set@.len() > 0
    }

    closed spec fn validators(&self) -> Seq<Validator> {
        self.validator_set@
    }

    fn new(validator_set: ValidatorSet) -> (r: Option<Electorate>)
        ensures
            r is Some <==> validator_set@.len() > 0,
            r is Some ==> r->0.validators() == validator_set@,
    {
        if validator_set.count() == 0 {
            None
        } else {
            Some(Electorate { validator_set })
        }
    }

    fn validator_set(&self) -> (vs: &ValidatorSet)
        ensures
            vs@ == self.validators(),
            vs@.len() > 0,
    {
        proof {
            use_type_invariant(self);
        }
        &self.validator_set
    }
}

/// Sequences the inputs of the host into inputs of the state machine, for
/// one height.
#[derive(Debug)]
pub struct Driver {
    height: Height,
    address: Address,
    electorate: Electorate,
    selector: ProposerSelector,
    round_state: State,
    vote_keeper: VoteKeeper,
    proposal_keeper: ProposalKeeper,
    invalid_values: Vec<ValueId>,
    pending_input: Option<(Round, Input)>,
    last_proposer: Address,
}

impl View for Driver {
    type V = DriverView;

    closed spec fn view(&self) -> DriverView {
        DriverView {
            height: self.height,
            address: self.address,
            validators: self.electorate.validators(),
            selector: self.selector,
            state: self.round_state,
            votes: self.vote_keeper@,
            proposals: self.proposal_keeper@,
            invalid: Set::new(|id: ValueId| self.invalid_values@.contains(id)),
            pending: self.pending_input,
            proposer: self.last_proposer,
        }
    }
}

impl Driver {
    /// The driver at the start of a height: no round started, no vote or
    /// proposal kept. There is none for an empty validator set.
    pub fn new(height: Height, validator_set: ValidatorSet, address: Address, selector: ProposerSelector) -> (r:
        Option<Driver>)
        ensures
            r is Some <==> validator_set@.len() > 0,
            r is Some ==> r->0@ == DriverView::initial(height, validator_set@, address, selector),
    {
        let vote_keeper = VoteKeeper::new(validator_set.total_voting_power());
        let proposal_keeper = ProposalKeeper::new(validator_set.clone());
        let electorate = match Electorate::new(validator_set) {
            Some(electorate) => electorate,
            None => {
                return None;
            },
        };
        let last_proposer = selector.select_proposer(height, Round::new(0), electorate.validator_set());
        let driver = Driver {
            height,
            address,
            electorate,
            selector,
            round_state: State::new(height, Round::Nil),
            vote_keeper,
            proposal_keeper,
            invalid_values: Vec::new(),
            pending_input: None,
            last_proposer,
        };
        proof {
            assert(driver@.invalid =~= Set::empty());
        }
        Some(driver)
    }

    /// The height that the driver decides.
    pub fn height(&self) -> (h: Height)
        ensures
            h == self@.height,
    {
        self.height
    }

    /// The round that the driver is in: the latest it has started or skipped to.
    pub fn round(&self) -> (r: Round)
        ensures
            r == self@.state.round,
    {
        self.round_state.round
    }

    /// The address of this node.
    pub fn address(&self) -> (a: Address)
        ensures
            a == self@.address,
    {
        self.address
    }

    /// The state of the state machine.
    pub fn round_state(&self) -> (s: State)
        ensures
            s == self@.state,
    {
        self.round_state
    }

    /// The proposer of the round last started.
    pub fn proposer(&self) -> (a: Address)
        ensures
            a == self@.proposer,
    {
        self.last_proposer
    }

    /// The validators of the height.
    pub fn validator_set(&self) -> (vs: &ValidatorSet)
        ensures
            vs@ == self@.validators,
    {
        self.electorate.validator_set()
    }

    /// The votes kept.
    pub fn vote_keeper(&self) -> (k: &VoteKeeper)
        ensures
            k@ == self@.votes,
    {
        &self.vote_keeper
    }

    /// The proposals kept.
    pub fn proposal_keeper(&self) -> (k: &ProposalKeeper)
        ensures
            k@ == self@.proposals,
    {
        &self.proposal_keeper
    }

    /// Whether the host has found the value with the identifier invalid.
    fn is_invalid(&self, id: ValueId) -> (b: bool)
        ensures
            b == self@.invalid.contains(id),
    {
        let mut i: usize = 0;
        while i < self.invalid_values.len()
            invariant
                0 <= i <= self.invalid_values.len(),
                forall|k: int| 0 <= k < i ==> self.invalid_values@[k] != id,
            decreases self.invalid_values.len() - i,
        {
            if self.invalid_values[i] == id {
                return true;
            }
            i += 1;
        }
        false
    }

    fn matching_proposal(&self, round: Round, id: ValueId) -> (r: Option<Proposal>)
        ensures
            r == self@.matching_proposal(round, id),
    {
        match self.proposal_keeper.get_proposal_for_round(round) {
            Some(proposal) => {
                if proposal.value.id() == id && !self.is_invalid(id) {
                    Some(*proposal)
                } else {
                    None
                }
            },
            None => None,
        }
    }

    fn lift_proposal(&self, proposal: Proposal, validity: Validity) -> (input: Input)
        ensures
            input == self@.lift_proposal(proposal, validity),
    {
        let id = proposal.value.id();
        let polka_previous = proposal.pol_round.is_defined() && self.vote_keeper.has_fired(
            &ThresholdEvent::PolkaValue(proposal.pol_round, id),
        );
        if !validity.is_valid() {
            if polka_previous {
                // L32
                Input::InvalidProposalAndPolkaPrevious(proposal)
            } else {
                // L26
                Input::InvalidProposal
            }
        } else if self.vote_keeper.has_fired(&ThresholdEvent::PrecommitValue(proposal.round, id)) {
            // L49
            Input::ProposalAndPrecommitValue(proposal)
        } else if proposal.round == self.round_state.round && self.vote_keeper.has_fired(
            &ThresholdEvent::PolkaValue(proposal.round, id),
        ) {
            // L36
            Input::ProposalAndPolkaCurrent(proposal)
        } else if polka_previous {
            // L28
            Input::ProposalAndPolkaPrevious(proposal)
        } else {
            // L22
            Input::Proposal(proposal)
        }
    }

    fn lift_threshold(&self, event: ThresholdEvent) -> (input: Input)
        ensures
            input == self@.lift_threshold(event),
    {
        match event {
            ThresholdEvent::PolkaAny(_) => Input::PolkaAny,
            ThresholdEvent::PolkaNil(_) => Input::PolkaNil,
            ThresholdEvent::PolkaValue(round, id) => match self.matching_proposal(round, id) {
                Some(proposal) => self.lift_proposal(proposal, Validity::Valid),
                None => Input::PolkaAny,
            },
            ThresholdEvent::PrecommitAny(_) => Input::PrecommitAny,
            ThresholdEvent::PrecommitValue(round, id) => match self.matching_proposal(round, id) {
                Some(proposal) => self.lift_proposal(proposal, Validity::Valid),
                None => Input::PrecommitAny,
            },
            ThresholdEvent::SkipRound(round) => Input::SkipRound(round),
        }
    }

    fn on_step_change(&self) -> (r: Option<(Round, Input)>)
        ensures
            r == self@.on_step_change(),
    {
        let round = self.round_state.round;
        match self.round_state.step {
            Step::Propose => match self.proposal_keeper.get_proposal_for_round(round) {
                Some(proposal) => {
                    let validity = if self.is_invalid(proposal.value.id()) {
                        Validity::Invalid
                    } else {
                        Validity::Valid
                    };
                    Some((round, self.lift_proposal(*proposal, validity)))
                },
                None => None,
            },
            Step::Prevote => {
                if self.vote_keeper.is_threshold_met(&ThresholdEvent::PolkaNil(round), round) {
                    return Some((round, Input::PolkaNil));
                }
                match self.proposal_keeper.get_proposal_for_round(round) {
                    Some(proposal) => {
                        if !self.is_invalid(proposal.value.id()) && self.vote_keeper.is_threshold_met(
                            &ThresholdEvent::PolkaValue(round, proposal.value.id()),
                            round,
                        ) {
                            return Some((round, Input::ProposalAndPolkaCurrent(*proposal)));
                        }
                    },
                    None => {},
                }
                if self.vote_keeper.is_threshold_met(&ThresholdEvent::PolkaAny(round), round) {
                    Some((round, Input::PolkaAny))
                } else {
                    None
                }
            },
            _ => None,
        }
    }

    fn translate(&self, output: Option<Output>, outputs: &mut Vec<DriverOutput>)
        ensures
            final(outputs)@ == old(outputs)@ + self@.translate(output),
    {
        match output {
            None => {},
            Some(Output::NewRound(round)) => {
                outputs.push(DriverOutput::NewRound(self.height, round));
            },
            Some(Output::Proposal { height, round, value, pol_round }) => {
                outputs.push(DriverOutput::Propose(Proposal::new(height, round, value, pol_round, self.address)));
            },
            Some(Output::Vote(vote)) => {
                outputs.push(DriverOutput::Vote(vote));
            },
            Some(Output::ScheduleTimeout(timeout)) => {
                outputs.push(DriverOutput::ScheduleTimeout(timeout));
            },
            Some(Output::GetValueAndScheduleTimeout(round, timeout)) => {
                outputs.push(DriverOutput::GetValue(self.height, round, timeout));
                outputs.push(DriverOutput::ScheduleTimeout(timeout));
            },
            Some(Output::Decision(decided)) => {
                outputs.push(DriverOutput::Decide(decided.round, decided.value));
            },
        }
        proof {
            assert(outputs@ =~= old(outputs)@ + self@.translate(output));
        }
    }

    /// Apply an input to the state machine and take over its next state.
    fn apply_input(&mut self, input_round: Round, input: Input) -> (t: Transition)
        ensures
            t == old(self)@.transition_on(input_round, input),
            final(self)@ == old(self)@.after(t),
    {
        let info = Info::new(input_round, &self.address, &self.last_proposer);
        let t = apply(self.round_state, &info, input);
        let changed = t.next_state.step != self.round_state.step;
        self.round_state = t.next_state;
        self.pending_input = None;
        if changed {
            self.pending_input = self.on_step_change();
        }
        t
    }

    fn feed(&mut self, input_round: Round, input: Input, outputs: &mut Vec<DriverOutput>)
        ensures
            final(self)@ == old(self)@.feed(input_round, input).0,
            final(outputs)@ == old(outputs)@ + old(self)@.feed(input_round, input).1,
    {
        let t = self.apply_input(input_round, input);
        self.translate(t.output, outputs);
        match t.output {
            Some(Output::NewRound(round)) => {
                self.last_proposer = self.selector.select_proposer(
                    self.height,
                    round,
                    self.electorate.validator_set(),
                );
                let start = self.apply_input(round, Input::NewRound(round));
                self.translate(start.output, outputs);
                proof {
                    let (_, expected) = old(self)@.feed(input_round, input);
                    assert(outputs@ =~= old(outputs)@ + expected);
                }
            },
            _ => {},
        }
    }

    fn settle(&mut self, outputs: &mut Vec<DriverOutput>)
        ensures
            final(self)@ == old(self)@.settle().0,
            final(outputs)@ == old(outputs)@ + old(self)@.settle().1,
        decreases 4 - old(self).round_state.step.rank(),
    {
        match self.pending_input {
            None => {
                proof {
                    assert(outputs@ =~= old(outputs)@ + Seq::<DriverOutput>::empty());
                }
            },
            Some((round, input)) => {
                let before = self.round_state.step.position();
                self.pending_input = None;
                self.feed(round, input, outputs);
                if self.round_state.step.position() > before {
                    self.settle(outputs);
                    proof {
                        assert(outputs@ =~= old(outputs)@ + old(self)@.settle().1);
                    }
                } else {
                    self.pending_input = None;
                }
            },
        }
    }

    /// Take up an input of the host: update the votes and proposals kept,
    /// and work out the input of the state machine that it amounts to.
    fn receive(&mut self, input: DriverInput) -> (lifted: Option<(Round, Input)>)
        ensures
            (final(self)@, lifted) == old(self)@.receive(input),
    {
        match input {
            DriverInput::NewRound(height, round) => {
                if height != self.height || round.is_nil() {
                    None
                } else if self.round_state.step == Step::Unstarted && self.round_state.round.le(&round) {
                    self.last_proposer = self.selector.select_proposer(
                        self.height,
                        round,
                        self.electorate.validator_set(),
                    );
                    Some((round, Input::NewRound(round)))
                } else {
                    Some((round, Input::SkipRound(round)))
                }
            },
            DriverInput::ProposeValue(height, round, value) => {
                if height != self.height {
                    None
                } else {
                    Some((round, Input::ProposeValue(value)))
                }
            },
            DriverInput::Proposal(proposal, validity) => {
                if proposal.height != self.height || self.electorate.validator_set().get_by_address(
                    &proposal.validator_address,
                ).is_none() {
                    None
                } else {
                    self.proposal_keeper.apply_proposal(proposal);
                    if !validity.is_valid() {
                        let id = proposal.value.id();
                        self.invalid_values.push(id);
                        proof {
                            assert forall|x: ValueId| old(self)@.invalid.insert(id).contains(x) implies self@.invalid.contains(
                                x,
                            ) by {
                                if x == id {
                                    assert(self.invalid_values@[self.invalid_values@.len() - 1] == id);
                                } else {
                                    let k = choose|k: int|
                                        0 <= k < old(self).invalid_values@.len() && old(self).invalid_values@[k] == x;
                                    assert(self.invalid_values@[k] == x);
                                }
                            }
                            assert(self@.invalid =~= old(self)@.invalid.insert(id));
                        }
                    }
                    Some((proposal.round, self.lift_proposal(proposal, validity)))
                }
            },
            DriverInput::Vote(vote) => {
                if vote.height != self.height {
                    return None;
                }
                match self.electorate.validator_set().get_by_address(&vote.validator_address) {
                    Some(validator) => {
                        let current_round = self.round_state.round;
                        match self.vote_keeper.apply_vote(vote, validator.voting_power, current_round) {
                            Some(event) => Some((event.round(), self.lift_threshold(event))),
                            None => None,
                        }
                    },
                    None => None,
                }
            },
            DriverInput::TimeoutElapsed(timeout) => {
                let input = match timeout.step {
                    TimeoutStep::Propose => Input::TimeoutPropose,
                    TimeoutStep::Prevote => Input::TimeoutPrevote,
                    TimeoutStep::Precommit => Input::TimeoutPrecommit,
                };
                Some((timeout.round, input))
            },
            DriverInput::SkipRound(round) => Some((round, Input::SkipRound(round))),
        }
    }

    /// Process an input of the host and return what the host has to do next,
    /// in the order in which it is to be done.
    ///
    /// An input for another height, and a proposal or vote of a validator
    /// that is not in the validator set, changes nothing and asks for nothing.
    pub fn process(&mut self, input: DriverInput) -> (outputs: Vec<DriverOutput>)
        ensures
            (final(self)@, outputs@) == old(self)@.process(input),
    {
        let mut outputs: Vec<DriverOutput> = Vec::new();
        match self.receive(input) {
            None => {},
            Some((round, round_input)) => {
                self.feed(round, round_input, &mut outputs);
                self.settle(&mut outputs);
                proof {
                    assert(outputs@ =~= old(self)@.process(input).1);
                }
            },
        }
        outputs
    }
}

//---------------------------------------------------------------------
// What holds of every driver
//---------------------------------------------------------------------

impl DriverInput {
    /// The height that the input is for, where it names one.
    pub open spec fn height(self) -> Option<Height> {
        match self {
            DriverInput::NewRound(height, _) => Some(height),
            DriverInput::ProposeValue(height, _, _) => Some(height),
            DriverInput::Proposal(proposal, _) => Some(proposal.height),
            DriverInput::Vote(vote) => Some(vote.height),
            DriverInput::TimeoutElapsed(_) => None,
            DriverInput::SkipRound(_) => None,
        }
    }

    /// The validator that the input is from, where it is a message of one.
    pub open spec fn sender(self) -> Option<Address> {
        match self {
            DriverInput::Proposal(proposal, _) => Some(proposal.validator_address),
            DriverInput::Vote(vote) => Some(vote.validator_address),
            _ => None,
        }
    }
}

/// An input for another height than the driver's yields no output and
/// changes nothing.
pub proof fn law_other_height_is_ignored(driver: DriverView, input: DriverInput)
    requires
        input.height() is Some,
        input.height() != Some(driver.height),
    ensures
        driver.process(input) == (driver, Seq::<DriverOutput>::empty()),
{
}

/// A proposal or vote of a validator that is not in the validator set
/// yields no output and changes nothing.
pub proof fn law_unknown_validator_is_ignored(driver: DriverView, input: DriverInput)
    requires
        input.sender() is Some,
        find_validator(driver.validators, input.sender()->0) is None,
    ensures
        driver.process(input) == (driver, Seq::<DriverOutput>::empty()),
{
}

/// What the driver takes up by itself on a change of step never starts a
/// round, and calls for a decision only with a quorum behind it.
proof fn lemma_step_change_starts_no_round(driver: DriverView)
    requires
        driver.proposals_filed_by_round(),
    ensures
        driver.on_step_change() is Some ==> {
            &&& !(driver.on_step_change().unwrap().1 is NewRound)
            &&& driver.has_quorum_behind(driver.on_step_change().unwrap().0, driver.on_step_change().unwrap().1)
        },
{
}

/// What one input of the state machine may change in a driver: the state,
/// the proposer and what waits to be applied. The state keeps its invariant
/// and its round does not decrease, unless the input starts an earlier round.
proof fn lemma_feed(driver: DriverView, input_round: Round, input: Input)
    requires
        driver.state.inv(),
        driver.proposals_filed_by_round(),
        driver.has_quorum_behind(input_round, input),
        !crate::state_machine::starts_earlier_round(driver.state, input),
    ensures
        ({
            let (fed, outputs) = driver.feed(input_round, input);
            &&& fed.state.inv()
            &&& driver.state.round.as_int() <= fed.state.round.as_int()
            &&& fed.pending is Some ==> !(fed.pending.unwrap().1 is NewRound) && fed.has_quorum_behind(
                fed.pending.unwrap().0,
                fed.pending.unwrap().1,
            )
            &&& forall|i: int| 0 <= i < outputs.len() ==> fed.backs(#[trigger] outputs[i])
            &&& fed == (DriverView { state: fed.state, proposer: fed.proposer, pending: fed.pending, ..driver })
            &&& driver.state.step is Commit ==> fed.state == driver.state && fed.pending is None && outputs
                =~= Seq::<DriverOutput>::empty() && fed.proposer == driver.proposer
        }),
{
    let t = driver.transition_on(input_round, input);
    let moved = driver.after(t);
    lemma_step_change_starts_no_round(DriverView { state: t.next_state, pending: None, ..driver });
    match t.output {
        Some(Output::NewRound(round)) => {
            let entered = DriverView {
                proposer: proposer_of(driver.selector, driver.height, round, driver.validators),
                ..moved
            };
            let start = entered.transition_on(round, Input::NewRound(round));
            lemma_step_change_starts_no_round(DriverView { state: start.next_state, pending: None, ..entered });
        },
        _ => {},
    }
}

/// What settling may change in a driver: as for one input, and in the end
/// nothing waits to be applied.
proof fn lemma_settle(driver: DriverView)
    requires
        driver.state.inv(),
        driver.proposals_filed_by_round(),
        driver.pending is Some ==> !(driver.pending.unwrap().1 is NewRound) && driver.has_quorum_behind(
            driver.pending.unwrap().0,
            driver.pending.unwrap().1,
        ),
    ensures
        ({
            let (settled, outputs) = driver.settle();
            &&& settled.state.inv()
            &&& settled.pending is None
            &&& forall|i: int| 0 <= i < outputs.len() ==> settled.backs(#[trigger] outputs[i])
            &&& driver.state.round.as_int() <= settled.state.round.as_int()
            &&& settled == (DriverView { state: settled.state, proposer: settled.proposer, pending: None, ..driver })
            &&& driver.state.step is Commit ==> settled.state == driver.state && outputs =~= Seq::<
                DriverOutput,
            >::empty() && settled.proposer == driver.proposer
        }),
    decreases 4 - driver.state.step.rank(),
{
    match driver.pending {
        None => {},
        Some((round, input)) => {
            let cleared = DriverView { pending: None, ..driver };
            lemma_feed(cleared, round, input);
            let (fed, outputs) = cleared.feed(round, input);
            if fed.state.step.rank() > driver.state.step.rank() {
                lemma_settle(fed);
                let (settled, more) = fed.settle();
                assert forall|i: int| 0 <= i < (outputs + more).len() implies settled.backs(
                    #[trigger] (outputs + more)[i],
                ) by {
                    if i < outputs.len() {
                        assert((outputs + more)[i] == outputs[i]);
                        assert(fed.backs(outputs[i]));
                    } else {
                        assert((outputs + more)[i] == more[i - outputs.len()]);
                    }
                }
            }
        },
    }
}

/// What taking up an input of the host may change in a driver: the votes
/// and proposals kept, the values known invalid and the proposer. The input
/// of the state machine that it amounts to starts no earlier round.
proof fn lemma_receive(driver: DriverView, input: DriverInput)
    ensures
        ({
            let (received, lifted) = driver.receive(input);
            &&& received.state == driver.state
            &&& received.pending == driver.pending
            &&& received.height == driver.height
            &&& received.address == driver.address
            &&& received.validators == driver.validators
            &&& received.selector == driver.selector
            &&& lifted is Some ==> !crate::state_machine::starts_earlier_round(driver.state, lifted.unwrap().1)
            &&& driver.proposals_filed_by_round() ==> received.proposals_filed_by_round()
            &&& driver.votes.reports_hold() ==> received.votes.reports_hold()
            &&& driver.proposals_filed_by_round() && lifted is Some ==> received.has_quorum_behind(
                lifted.unwrap().0,
                lifted.unwrap().1,
            )
            &&& lifted is None && driver.state.step is Commit ==> received.proposer == driver.proposer
        }),
{
    match input {
        DriverInput::Vote(vote) => {
            let validator = find_validator(driver.validators, vote.validator_address);
            if validator is Some && driver.votes.reports_hold() {
                crate::vote_keeper::law_reported_quorums_hold(
                    driver.votes,
                    vote,
                    validator->0.voting_power,
                    driver.state.round,
                );
            }
        },
        _ => {},
    }
}

/// Processing an input keeps the invariant of the driver: the state
/// machine's invariant holds of its state, so that the locked round never
/// exceeds the valid round, and nothing is left waiting to be applied.
pub proof fn law_process_keeps_invariant(driver: DriverView, input: DriverInput)
    requires
        driver.inv(),
    ensures
        driver.process(input).0.inv(),
        ({
            let state = driver.process(input).0.state;
            state.locked is Some && state.valid is Some ==> state.locked->0.round.as_int()
                <= state.valid->0.round.as_int()
        }),
{
    lemma_process(driver, input);
}

/// The round of the driver never decreases.
pub proof fn law_round_is_monotonic(driver: DriverView, input: DriverInput)
    requires
        driver.inv(),
    ensures
        driver.state.round.as_int() <= driver.process(input).0.state.round.as_int(),
{
    lemma_process(driver, input);
}

/// Once the driver has decided, its decision is never overwritten: no input
/// changes the state of the state machine, and nothing more is asked of the
/// host.
pub proof fn law_decision_is_never_overwritten(driver: DriverView, input: DriverInput)
    requires
        driver.inv(),
        driver.state.decision is Some,
    ensures
        driver.process(input).0.state == driver.state,
        driver.process(input).1 == Seq::<DriverOutput>::empty(),
{
    lemma_process(driver, input);
}

/// The driver decides only on what the votes bear out: whenever it asks the
/// host to decide a value at a round, the precommits counted for that value
/// in that round are a quorum, which the keeper has reported, and the value
/// is the decision that the state holds.
pub proof fn law_decision_has_quorum_of_precommits(driver: DriverView, input: DriverInput)
    requires
        driver.inv(),
    ensures
        ({
            let (after, outputs) = driver.process(input);
            forall|i: int|
                0 <= i < outputs.len() ==> match #[trigger] outputs[i] {
                    DriverOutput::Decide(round, value) => {
                        &&& after.state.decision == Some(value)
                        &&& after.votes.fired(ThresholdEvent::PrecommitValue(round, value.id()))
                        &&& crate::vote_keeper::is_quorum(
                            crate::vote_keeper::weight_for(
                                after.votes.round_votes(round).precommits,
                                crate::types::NilOrVal::Val(value.id()),
                            ),
                            after.votes.total_weight,
                        )
                    },
                    _ => true,
                }
        }),
{
    lemma_process(driver, input);
    let (after, outputs) = driver.process(input);
    assert forall|i: int| 0 <= i < outputs.len() implies match #[trigger] outputs[i] {
        DriverOutput::Decide(round, value) => {
            &&& after.state.decision == Some(value)
            &&& after.votes.fired(ThresholdEvent::PrecommitValue(round, value.id()))
            &&& crate::vote_keeper::is_quorum(
                crate::vote_keeper::weight_for(
                    after.votes.round_votes(round).precommits,
                    crate::types::NilOrVal::Val(value.id()),
                ),
                after.votes.total_weight,
            )
        },
        _ => true,
    } by {
        assert(after.backs(outputs[i]));
    }
}

/// Two drivers that decide at the same round decide the same value, where
/// the total voting power is `3f + 1` and no validator has precommitted
/// twice: the precommits that either driver has counted in that round are
/// among one pool of precommits that weighs no more than the total.
pub proof fn law_same_round_decisions_agree(
    one: DriverView,
    one_input: DriverInput,
    other: DriverView,
    other_input: DriverInput,
    round: Round,
    one_value: Value,
    other_value: Value,
    pool: Seq<crate::vote_keeper::Ballot>,
)
    requires
        one.inv(),
        other.inv(),
        one.process(one_input).1.contains(DriverOutput::Decide(round, one_value)),
        other.process(other_input).1.contains(DriverOutput::Decide(round, other_value)),
        one.votes.total_weight == other.votes.total_weight,
        one.votes.total_weight == 3 * crate::vote_keeper::max_faulty(one.votes.total_weight) + 1,
        crate::vote_keeper::weight_sum(pool) <= one.votes.total_weight,
        forall|value: crate::types::NilOrVal|
            crate::vote_keeper::weight_for(
                #[trigger] one.process(one_input).0.votes.round_votes(round).precommits,
                value,
            ) <= crate::vote_keeper::weight_for(pool, value),
        forall|value: crate::types::NilOrVal|
            crate::vote_keeper::weight_for(
                #[trigger] other.process(other_input).0.votes.round_votes(round).precommits,
                value,
            ) <= crate::vote_keeper::weight_for(pool, value),
    ensures
        one_value == other_value,
{
    let total = one.votes.total_weight;
    let (one_after, one_outputs) = one.process(one_input);
    let (other_after, other_outputs) = other.process(other_input);
    law_decision_has_quorum_of_precommits(one, one_input);
    law_decision_has_quorum_of_precommits(other, other_input);
    lemma_process(one, one_input);
    lemma_process(other, other_input);
    lemma_total_weight_is_kept(one, one_input);
    lemma_total_weight_is_kept(other, other_input);
    let i = choose|i: int| 0 <= i < one_outputs.len() && one_outputs[i] == DriverOutput::Decide(round, one_value);
    let j = choose|j: int|
        0 <= j < other_outputs.len() && other_outputs[j] == DriverOutput::Decide(round, other_value);
    assert(one_after.backs(one_outputs[i]));
    assert(other_after.backs(other_outputs[j]));
    let a = crate::types::NilOrVal::Val(one_value.id());
    let b = crate::types::NilOrVal::Val(other_value.id());
    assert(crate::vote_keeper::weight_for(one_after.votes.round_votes(round).precommits, a)
        <= crate::vote_keeper::weight_for(pool, a));
    assert(crate::vote_keeper::weight_for(other_after.votes.round_votes(round).precommits, b)
        <= crate::vote_keeper::weight_for(pool, b));
    crate::vote_keeper::law_quorums_agree(pool, total, a, b);
}

/// Processing an input leaves the total voting power as it is.
proof fn lemma_total_weight_is_kept(driver: DriverView, input: DriverInput)
    requires
        driver.inv(),
    ensures
        driver.process(input).0.votes.total_weight == driver.votes.total_weight,
{
    lemma_receive(driver, input);
    let (received, lifted) = driver.receive(input);
    match lifted {
        None => {},
        Some((round, round_input)) => {
            lemma_feed(received, round, round_input);
            let (fed, outputs) = received.feed(round, round_input);
            lemma_settle(fed);
        },
    }
}

/// A driver starts out with its invariant.
pub proof fn law_initial_driver_is_valid(
    height: Height,
    validators: Seq<Validator>,
    address: Address,
    selector: ProposerSelector,
)
    ensures
        DriverView::initial(height, validators, address, selector).inv(),
{
}

/// Processing an input leaves the height, the address of the node, the
/// validators and the way proposers are chosen as they are.
pub proof fn law_process_keeps_identity(driver: DriverView, input: DriverInput)
    requires
        driver.inv(),
    ensures
        ({
            let after = driver.process(input).0;
            &&& after.height == driver.height
            &&& after.address == driver.address
            &&& after.validators == driver.validators
            &&& after.selector == driver.selector
        }),
{
    lemma_process(driver, input);
}

proof fn lemma_process(driver: DriverView, input: DriverInput)
    requires
        driver.inv(),
    ensures
        ({
            let (after, outputs) = driver.process(input);
            &&& after.inv()
            &&& forall|i: int| 0 <= i < outputs.len() ==> after.backs(#[trigger] outputs[i])
            &&& driver.state.round.as_int() <= after.state.round.as_int()
            &&& after.height == driver.height
            &&& after.address == driver.address
            &&& after.validators == driver.validators
            &&& after.selector == driver.selector
            &&& driver.state.step is Commit ==> after.state == driver.state && outputs == Seq::<DriverOutput>::empty()
        }),
{
    lemma_receive(driver, input);
    let (received, lifted) = driver.receive(input);
    match lifted {
        None => {},
        Some((round, round_input)) => {
            lemma_feed(received, round, round_input);
            let (fed, outputs) = received.feed(round, round_input);
            lemma_settle(fed);
            let (settled, more) = fed.settle();
            if driver.state.step is Commit {
                assert(outputs + more =~= Seq::<DriverOutput>::empty());
            }
            assert forall|i: int| 0 <= i < (outputs + more).len() implies settled.backs(
                #[trigger] (outputs + more)[i],
            ) by {
                if i < outputs.len() {
                    assert((outputs + more)[i] == outputs[i]);
                    assert(fed.backs(outputs[i]));
                } else {
                    assert((outputs + more)[i] == more[i - outputs.len()]);
                }
            }
        },
    }
}

} // verus!
