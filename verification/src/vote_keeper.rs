//! For tallying votes and detecting when they cross a threshold.

use std::collections::BTreeMap;
use vstd::prelude::*;
use crate::proposal_keeper::round_key;
use crate::round::Round;
use crate::types::{Address, NilOrVal, ValueId, Vote, VoteType};

verus! {

broadcast use {vstd::std_specs::btree::group_btree_axioms, vstd::laws_cmp::group_laws_cmp};

/// A threshold that the votes of one round have crossed.
#[derive(Clone, Copy, Debug, PartialEq, Eq, Structural, Hash)]
pub enum ThresholdEvent {
    /// A quorum of prevotes in the round, for whatever value or nil.
    PolkaAny(Round),
    /// A quorum of prevotes for nil in the round.
    PolkaNil(Round),
    /// A quorum of prevotes for the value in the round.
    PolkaValue(Round, ValueId),
    /// A quorum of precommits in the round, for whatever value or nil.
    PrecommitAny(Round),
    /// A quorum of precommits for the value in the round.
    PrecommitValue(Round, ValueId),
    /// More than the tolerated faulty voting power has voted in the round,
    /// which lies after the current one.
    SkipRound(Round),
}

impl ThresholdEvent {
    pub open spec fn spec_round(self) -> Round {
        match self {
            ThresholdEvent::PolkaAny(r) => r,
            ThresholdEvent::PolkaNil(r) => r,
            ThresholdEvent::PolkaValue(r, _) => r,
            ThresholdEvent::PrecommitAny(r) => r,
            ThresholdEvent::PrecommitValue(r, _) => r,
            ThresholdEvent::SkipRound(r) => r,
        }
    }

    /// The round whose votes crossed the threshold.
    #[verifier::when_used_as_spec(spec_round)]
    pub fn round(self) -> (r: Round)
        ensures
            r == self.spec_round(),
    {
        match self {
            ThresholdEvent::PolkaAny(r) => r,
            ThresholdEvent::PolkaNil(r) => r,
            ThresholdEvent::PolkaValue(r, _) => r,
            ThresholdEvent::PrecommitAny(r) => r,
            ThresholdEvent::PrecommitValue(r, _) => r,
            ThresholdEvent::SkipRound(r) => r,
        }
    }
}

/// A vote as it is counted: with the voting power of its validator.
#[derive(Clone, Copy, Debug, PartialEq, Eq, Structural, Hash)]
pub struct Ballot {
    pub vote: Vote,
    pub weight: u64,
}

/// The voting power that tolerates being faulty out of a total:
/// the largest `f` with `3f + 1 <= total`.
pub open spec fn max_faulty(total: nat) -> nat {
    if total == 0 {
        0
    } else {
        ((total - 1) / 3) as nat
    }
}

/// Whether the weight is a quorum: more than twice the tolerated faulty power.
pub open spec fn is_quorum(weight: nat, total: nat) -> bool {
    weight > 2 * max_faulty(total)
}

/// Whether the weight holds at least one honest validator: more than the
/// tolerated faulty power.
pub open spec fn is_honest(weight: nat, total: nat) -> bool {
    weight > max_faulty(total)
}

/// The weight of the ballots cast for the value (or for nil).
pub open spec fn weight_for(ballots: Seq<Ballot>, value: NilOrVal) -> nat
    decreases ballots.len(),
{
    if ballots.len() == 0 {
        0
    } else {
        weight_for(ballots.drop_last(), value) + if ballots.last().vote.value == value {
            ballots.last().weight as nat
        } else {
            0
        }
    }
}

/// The weight of all the ballots.
pub open spec fn weight_sum(ballots: Seq<Ballot>) -> nat
    decreases ballots.len(),
{
    if ballots.len() == 0 {
        0
    } else {
        weight_sum(ballots.drop_last()) + ballots.last().weight as nat
    }
}

/// The first ballot of the validator among the ballots, if it has one.
pub open spec fn find_ballot(ballots: Seq<Ballot>, address: Address) -> Option<Ballot>
    decreases ballots.len(),
{
    if ballots.len() == 0 {
        None
    } else if ballots[0].vote.validator_address == address {
        Some(ballots[0])
    } else {
        find_ballot(ballots.drop_first(), address)
    }
}

/// Weights stay within what a 128-bit counter holds.
pub proof fn lemma_weight_bounds(ballots: Seq<Ballot>, value: NilOrVal)
    ensures
        weight_for(ballots, value) <= weight_sum(ballots),
        weight_sum(ballots) <= ballots.len() * u64::MAX,
    decreases ballots.len(),
{
    if ballots.len() > 0 {
        lemma_weight_bounds(ballots.drop_last(), value);
        let n = ballots.len() as int;
        let m = u64::MAX as int;
        assert((n - 1) * m + m == n * m) by (nonlinear_arith);
    }
}

/// The votes counted in one round.
pub ghost struct RoundVotesView {
    /// The prevotes counted: the first of each validator, in order of arrival.
    pub prevotes: Seq<Ballot>,
    /// The precommits counted: the first of each validator, in order of arrival.
    pub precommits: Seq<Ballot>,
    /// The first ballot, of either type, of each validator that voted in the round.
    pub seen: Seq<Ballot>,
    /// The thresholds that have been reported for the round.
    pub emitted: Set<ThresholdEvent>,
}

impl RoundVotesView {
    /// The round in which nobody has voted.
    pub open spec fn empty() -> RoundVotesView {
        RoundVotesView { prevotes: Seq::empty(), precommits: Seq::empty(), seen: Seq::empty(), emitted: Set::empty() }
    }

    /// The ballots counted of one type.
    pub open spec fn ballots(self, typ: VoteType) -> Seq<Ballot> {
        match typ {
            VoteType::Prevote => self.prevotes,
            VoteType::Precommit => self.precommits,
        }
    }

    /// The ballot of the validator that a vote conflicts with: one of the
    /// same type for another value.
    pub open spec fn conflict(self, vote: Vote) -> Option<Ballot> {
        match find_ballot(self.ballots(vote.typ), vote.validator_address) {
            Some(existing) => if existing.vote.value != vote.value {
                Some(existing)
            } else {
                None
            },
            None => None,
        }
    }

    /// The round once the vote has been counted. Only the first vote of a
    /// validator of each type counts; a validator enters `seen` with its
    /// first ballot of the round.
    pub open spec fn count(self, vote: Vote, weight: u64) -> RoundVotesView {
        let ballot = Ballot { vote, weight };
        if find_ballot(self.ballots(vote.typ), vote.validator_address) is Some {
            self
        } else {
            let seen = if find_ballot(self.seen, vote.validator_address) is Some {
                self.seen
            } else {
                self.seen.push(ballot)
            };
            match vote.typ {
                VoteType::Prevote => RoundVotesView { prevotes: self.prevotes.push(ballot), seen, ..self },
                VoteType::Precommit => RoundVotesView { precommits: self.precommits.push(ballot), seen, ..self },
            }
        }
    }

    /// Whether the votes counted meet the threshold, for a keeper with the
    /// given total voting power and a node in the given round.
    pub open spec fn meets(self, total: nat, current_round: Round, event: ThresholdEvent) -> bool {
        match event {
            ThresholdEvent::PolkaAny(_) => is_quorum(weight_sum(self.prevotes), total),
            ThresholdEvent::PolkaNil(_) => is_quorum(weight_for(self.prevotes, NilOrVal::Nil), total),
            ThresholdEvent::PolkaValue(_, id) => is_quorum(weight_for(self.prevotes, NilOrVal::Val(id)), total),
            ThresholdEvent::PrecommitAny(_) => is_quorum(weight_sum(self.precommits), total),
            ThresholdEvent::PrecommitValue(_, id) => is_quorum(
                weight_for(self.precommits, NilOrVal::Val(id)),
                total,
            ),
            ThresholdEvent::SkipRound(r) => is_honest(weight_sum(self.seen), total) && current_round.as_int()
                < r.as_int(),
        }
    }

    /// Whether the threshold is met and has not been reported yet.
    pub open spec fn due(self, total: nat, current_round: Round, event: ThresholdEvent) -> bool {
        self.meets(total, current_round, event) && !self.emitted.contains(event)
    }

    /// The threshold to report after a vote has been counted: the first that
    /// is due among the threshold for what the vote was cast for, the
    /// threshold for any vote of its type, and the round skip.
    pub open spec fn next_event(self, total: nat, current_round: Round, vote: Vote) -> Option<ThresholdEvent> {
        let specific = specific_event(vote);
        let any = any_event(vote);
        let skip = ThresholdEvent::SkipRound(vote.round);
        if specific is Some && self.due(total, current_round, specific->0) {
            specific
        } else if self.due(total, current_round, any) {
            Some(any)
        } else if self.due(total, current_round, skip) {
            Some(skip)
        } else {
            None
        }
    }

    /// The round with the event, if any, marked as reported.
    pub open spec fn mark(self, event: Option<ThresholdEvent>) -> RoundVotesView {
        match event {
            Some(e) => RoundVotesView { emitted: self.emitted.insert(e), ..self },
            None => self,
        }
    }
}

/// The threshold on the very thing a vote is cast for. Precommits for nil
/// have none.
pub open spec fn specific_event(vote: Vote) -> Option<ThresholdEvent> {
    match (vote.typ, vote.value) {
        (VoteType::Prevote, NilOrVal::Val(id)) => Some(ThresholdEvent::PolkaValue(vote.round, id)),
        (VoteType::Prevote, NilOrVal::Nil) => Some(ThresholdEvent::PolkaNil(vote.round)),
        (VoteType::Precommit, NilOrVal::Val(id)) => Some(ThresholdEvent::PrecommitValue(vote.round, id)),
        (VoteType::Precommit, NilOrVal::Nil) => None,
    }
}

/// The threshold on all votes of the type of the vote.
pub open spec fn any_event(vote: Vote) -> ThresholdEvent {
    match vote.typ {
        VoteType::Prevote => ThresholdEvent::PolkaAny(vote.round),
        VoteType::Precommit => ThresholdEvent::PrecommitAny(vote.round),
    }
}

/// Errors that can be yielded when recording a vote.
#[derive(Clone, Copy, Debug, PartialEq, Eq, Structural)]
pub enum RecordVoteError {
    /// Attempted to record a conflicting vote.
    ConflictingVote {
        /// The vote already recorded.
        existing: Vote,
        /// The conflicting vote.
        conflicting: Vote,
    },
}

/// The votes counted in one round, and the thresholds reported for it.
#[derive(Debug)]
pub struct RoundVotes {
    prevotes: Vec<Ballot>,
    precommits: Vec<Ballot>,
    seen: Vec<Ballot>,
    emitted: Vec<ThresholdEvent>,
}

impl View for RoundVotes {
    type V = RoundVotesView;

    closed spec fn view(&self) -> RoundVotesView {
        RoundVotesView {
            prevotes: self.prevotes@,
            precommits: self.precommits@,
            seen: self.seen@,
            emitted: Set::new(|e: ThresholdEvent| self.emitted@.contains(e)),
        }
    }
}

/// The first ballot of the validator among the ballots, if it has one.
fn first_ballot(ballots: &Vec<Ballot>, address: Address) -> (r: Option<Ballot>)
    ensures
        r == find_ballot(ballots@, address),
{
    let mut i: usize = 0;
    proof {
        assert(ballots@.skip(0) =~= ballots@);
    }
    while i < ballots.len()
        invariant
            0 <= i <= ballots.len(),
            find_ballot(ballots@, address) == find_ballot(ballots@.skip(i as int), address),
        decreases ballots.len() - i,
    {
        if ballots[i].vote.validator_address == address {
            return Some(ballots[i]);
        }
        proof {
            assert(ballots@.skip(i as int).drop_first() =~= ballots@.skip(i + 1));
        }
        i += 1;
    }
    None
}

/// The weight of the ballots cast for the value (or for nil).
fn tally_for(ballots: &Vec<Ballot>, value: NilOrVal) -> (w: u128)
    ensures
        w as nat == weight_for(ballots@, value),
{
    let mut w: u128 = 0;
    let mut i: usize = 0;
    while i < ballots.len()
        invariant
            0 <= i <= ballots.len(),
            w as nat == weight_for(ballots@.take(i as int), value),
        decreases ballots.len() - i,
    {
        proof {
            assert(ballots@.take(i + 1).drop_last() =~= ballots@.take(i as int));
            lemma_weight_bounds(ballots@.take(i + 1), value);
            assert((i + 1) * u64::MAX <= u128::MAX) by (nonlinear_arith)
                requires
                    0 <= i < usize::MAX,
                    usize::MAX <= u64::MAX,
            ;
        }
        if ballots[i].vote.value == value {
            w = w + ballots[i].weight as u128;
        }
        i += 1;
    }
    proof {
        assert(ballots@.take(i as int) =~= ballots@);
    }
    w
}

/// The weight of all the ballots.
fn tally_all(ballots: &Vec<Ballot>) -> (w: u128)
    ensures
        w as nat == weight_sum(ballots@),
{
    let mut w: u128 = 0;
    let mut i: usize = 0;
    while i < ballots.len()
        invariant
            0 <= i <= ballots.len(),
            w as nat == weight_sum(ballots@.take(i as int)),
        decreases ballots.len() - i,
    {
        proof {
            assert(ballots@.take(i + 1).drop_last() =~= ballots@.take(i as int));
            lemma_weight_bounds(ballots@.take(i + 1), NilOrVal::Nil);
            assert((i + 1) * u64::MAX <= u128::MAX) by (nonlinear_arith)
                requires
                    0 <= i < usize::MAX,
                    usize::MAX <= u64::MAX,
            ;
        }
        w = w + ballots[i].weight as u128;
        i += 1;
    }
    proof {
        assert(ballots@.take(i as int) =~= ballots@);
    }
    w
}

/// Whether the weight is a quorum of the total.
fn quorum_met(weight: u128, total: u64) -> (b: bool)
    ensures
        b == is_quorum(weight as nat, total as nat),
{
    let f: u128 = if total == 0 {
        0
    } else {
        ((total - 1) / 3) as u128
    };
    weight > 2 * f
}

/// Whether the weight is more than the tolerated faulty power of the total.
fn honest_met(weight: u128, total: u64) -> (b: bool)
    ensures
        b == is_honest(weight as nat, total as nat),
{
    let f: u128 = if total == 0 {
        0
    } else {
        ((total - 1) / 3) as u128
    };
    weight > f
}

impl RoundVotes {
    /// A round in which nobody has voted.
    pub fn new() -> (r: RoundVotes)
        ensures
            r@ == RoundVotesView::empty(),
    {
        let r = RoundVotes { prevotes: Vec::new(), precommits: Vec::new(), seen: Vec::new(), emitted: Vec::new() };
        proof {
            assert(r@.emitted =~= Set::empty());
        }
        r
    }

    /// Count a vote with the voting power of its validator.
    ///
    /// A second vote of a validator of the same type is not counted. Where it
    /// is for another value than the first, it is an equivocation, and both
    /// are handed back in the error.
    pub fn add(&mut self, vote: Vote, weight: u64) -> (r: Result<(), RecordVoteError>)
        ensures
            match old(self)@.conflict(vote) {
                Some(existing) => final(self)@ == old(self)@ && r == Err::<(), RecordVoteError>(
                    RecordVoteError::ConflictingVote { existing: existing.vote, conflicting: vote },
                ),
                None => final(self)@ == old(self)@.count(vote, weight) && r is Ok,
            },
    {
        let address = vote.validator_address;
        let existing = match vote.typ {
            VoteType::Prevote => first_ballot(&self.prevotes, address),
            VoteType::Precommit => first_ballot(&self.precommits, address),
        };
        match existing {
            Some(existing) => {
                if existing.vote.value != vote.value {
                    // This is an equivocating vote
                    return Err(RecordVoteError::ConflictingVote { existing: existing.vote, conflicting: vote });
                }
            },
            None => {
                let ballot = Ballot { vote, weight };
                if first_ballot(&self.seen, address).is_none() {
                    self.seen.push(ballot);
                }
                match vote.typ {
                    VoteType::Prevote => self.prevotes.push(ballot),
                    VoteType::Precommit => self.precommits.push(ballot),
                }
            },
        }
        Ok(())
    }

    /// Whether the threshold has been reported for the round.
    pub fn has_emitted(&self, event: &ThresholdEvent) -> (b: bool)
        ensures
            b == self@.emitted.contains(*event),
    {
        let mut i: usize = 0;
        while i < self.emitted.len()
            invariant
                0 <= i <= self.emitted.len(),
                forall|k: int| 0 <= k < i ==> self.emitted@[k] != *event,
            decreases self.emitted.len() - i,
        {
            if self.emitted[i] == *event {
                return true;
            }
            i += 1;
        }
        false
    }

    /// Whether the votes counted meet the threshold, for a keeper with the
    /// given total voting power and a node in the given round.
    pub fn is_met(&self, total: u64, current_round: Round, event: &ThresholdEvent) -> (b: bool)
        ensures
            b == self@.meets(total as nat, current_round, *event),
    {
        match event {
            ThresholdEvent::PolkaAny(_) => quorum_met(tally_all(&self.prevotes), total),
            ThresholdEvent::PolkaNil(_) => quorum_met(tally_for(&self.prevotes, NilOrVal::Nil), total),
            ThresholdEvent::PolkaValue(_, id) => quorum_met(tally_for(&self.prevotes, NilOrVal::Val(*id)), total),
            ThresholdEvent::PrecommitAny(_) => quorum_met(tally_all(&self.precommits), total),
            ThresholdEvent::PrecommitValue(_, id) => quorum_met(
                tally_for(&self.precommits, NilOrVal::Val(*id)),
                total,
            ),
            ThresholdEvent::SkipRound(r) => honest_met(tally_all(&self.seen), total) && current_round.lt(r),
        }
    }

    /// Whether the threshold is met and has not been reported yet.
    fn is_due(&self, total: u64, current_round: Round, event: &ThresholdEvent) -> (b: bool)
        ensures
            b == self@.due(total as nat, current_round, *event),
    {
        !self.has_emitted(event) && self.is_met(total, current_round, event)
    }

    /// Report the threshold that is due after the vote has been counted, if
    /// there is one, and mark it as reported.
    pub fn emit_next(&mut self, total: u64, current_round: Round, vote: &Vote) -> (event: Option<ThresholdEvent>)
        ensures
            event == old(self)@.next_event(total as nat, current_round, *vote),
            final(self)@ == old(self)@.mark(event),
    {
        let specific = match (vote.typ, vote.value) {
            (VoteType::Prevote, NilOrVal::Val(id)) => Some(ThresholdEvent::PolkaValue(vote.round, id)),
            (VoteType::Prevote, NilOrVal::Nil) => Some(ThresholdEvent::PolkaNil(vote.round)),
            (VoteType::Precommit, NilOrVal::Val(id)) => Some(ThresholdEvent::PrecommitValue(vote.round, id)),
            (VoteType::Precommit, NilOrVal::Nil) => None,
        };
        let any = match vote.typ {
            VoteType::Prevote => ThresholdEvent::PolkaAny(vote.round),
            VoteType::Precommit => ThresholdEvent::PrecommitAny(vote.round),
        };
        let skip = ThresholdEvent::SkipRound(vote.round);
        let specific_due = match &specific {
            Some(e) => self.is_due(total, current_round, e),
            None => false,
        };
        let event = if specific_due {
            specific
        } else if self.is_due(total, current_round, &any) {
            Some(any)
        } else if self.is_due(total, current_round, &skip) {
            Some(skip)
        } else {
            None
        };
        match event {
            Some(e) => {
                self.emitted.push(e);
                proof {
                    assert forall|x: ThresholdEvent| old(self)@.emitted.insert(e).contains(x) implies self@.emitted.contains(x) by {
                        if x == e {
                            assert(self.emitted@[self.emitted@.len() - 1] == e);
                        } else {
                            let k = choose|k: int| 0 <= k < old(self).emitted@.len() && old(self).emitted@[k] == x;
                            assert(self.emitted@[k] == x);
                        }
                    }
                    assert(self@.emitted =~= old(self)@.emitted.insert(e));
                }
            },
            None => {},
        }
        event
    }

    /// The weight of the votes of the type counted for the value (or for nil).
    pub fn weight(&self, typ: VoteType, value: NilOrVal) -> (w: u128)
        ensures
            w as nat == weight_for(self@.ballots(typ), value),
    {
        match typ {
            VoteType::Prevote => tally_for(&self.prevotes, value),
            VoteType::Precommit => tally_for(&self.precommits, value),
        }
    }

    /// The weight of all the votes of the type counted.
    pub fn total_weight(&self, typ: VoteType) -> (w: u128)
        ensures
            w as nat == weight_sum(self@.ballots(typ)),
    {
        match typ {
            VoteType::Prevote => tally_all(&self.prevotes),
            VoteType::Precommit => tally_all(&self.precommits),
        }
    }

    /// The weight of the validators that voted in the round, each counted once.
    pub fn combined_weight(&self) -> (w: u128)
        ensures
            w as nat == weight_sum(self@.seen),
    {
        tally_all(&self.seen)
    }
}

/// The evidence with one more pair of votes filed under the equivocator's address.
pub open spec fn add_vote_evidence(
    evidence: Map<Address, Seq<(Vote, Vote)>>,
    existing: Vote,
    conflicting: Vote,
) -> Map<Address, Seq<(Vote, Vote)>> {
    let address = conflicting.validator_address;
    if evidence.contains_key(address) {
        evidence.insert(address, evidence[address].push((existing, conflicting)))
    } else {
        evidence.insert(address, seq![(existing, conflicting)])
    }
}

/// Keeps track of evidence of equivocating votes.
#[derive(Debug)]
pub struct VoteEvidenceMap {
    map: BTreeMap<u64, Vec<(Vote, Vote)>>,
}

impl View for VoteEvidenceMap {
    type V = Map<Address, Seq<(Vote, Vote)>>;

    closed spec fn view(&self) -> Map<Address, Seq<(Vote, Vote)>> {
        Map::new(|a: Address| self.map@.contains_key(a.0), |a: Address| self.map@[a.0]@)
    }
}

impl VoteEvidenceMap {
    /// Create a new `VoteEvidenceMap` instance, with no evidence in it.
    pub fn new() -> (e: VoteEvidenceMap)
        ensures
            e@ == Map::<Address, Seq<(Vote, Vote)>>::empty(),
    {
        let e = VoteEvidenceMap { map: BTreeMap::new() };
        proof {
            assert(e@ =~= Map::empty());
        }
        e
    }

    /// Return whether or not there is any evidence of equivocation.
    pub fn is_empty(&self) -> (b: bool)
        ensures
            b == (self@ == Map::<Address, Seq<(Vote, Vote)>>::empty()),
    {
        let b = self.map.is_empty();
        proof {
            if b {
                assert(self@ =~= Map::empty());
            } else {
                let k = choose|k: u64| self.map@.contains_key(k);
                assert(self@.contains_key(Address(k)));
            }
        }
        b
    }

    /// Return the evidence of equivocation for a given address, if any.
    pub fn get(&self, address: &Address) -> (r: Option<&Vec<(Vote, Vote)>>)
        ensures
            match r {
                Some(pairs) => self@.contains_key(*address) && self@[*address] == pairs@,
                None => !self@.contains_key(*address),
            },
    {
        self.map.get(&address.0)
    }

    /// Add evidence of equivocation: a counted vote and a later one of the
    /// same validator that conflicts with it.
    pub fn add(&mut self, existing: Vote, vote: Vote)
        ensures
            final(self)@ == add_vote_evidence(old(self)@, existing, vote),
    {
        let key = vote.validator_address.0;
        let mut evidence = match self.map.remove(&key) {
            Some(evidence) => evidence,
            None => Vec::new(),
        };
        evidence.push((existing, vote));
        self.map.insert(key, evidence);
        proof {
            assert(self@ =~= add_vote_evidence(old(self)@, existing, vote));
        }
    }
}

/// What a vote keeper holds: the total voting power of the height, the votes
/// counted for each round in which a vote was counted, and for each validator
/// caught equivocating the pairs of votes that show it, oldest first.
pub ghost struct VoteKeeperView {
    pub total_weight: nat,
    pub rounds: Map<Round, RoundVotesView>,
    pub evidence: Map<Address, Seq<(Vote, Vote)>>,
}

impl VoteKeeperView {
    /// The votes counted in the round; none where no vote was counted in it.
    pub open spec fn round_votes(self, round: Round) -> RoundVotesView {
        if self.rounds.contains_key(round) {
            self.rounds[round]
        } else {
            RoundVotesView::empty()
        }
    }

    /// Whether the threshold has been reported.
    pub open spec fn fired(self, event: ThresholdEvent) -> bool {
        self.round_votes(event.round()).emitted.contains(event)
    }

    /// The keeper of a height with the given total voting power before any vote.
    pub open spec fn empty(total_weight: nat) -> VoteKeeperView {
        VoteKeeperView { total_weight, rounds: Map::empty(), evidence: Map::empty() }
    }

    /// Whether every quorum that has been reported is there: the votes
    /// counted in its round meet its threshold.
    pub open spec fn reports_hold(self) -> bool {
        forall|e: ThresholdEvent| #[trigger]
            self.fired(e) && !(e is SkipRound) ==> self.round_votes(e.round()).meets(
                self.total_weight,
                Round::Nil,
                e,
            )
    }

    /// What the keeper holds after a vote, and the threshold it reports.
    ///
    /// A vote that conflicts with a counted vote of its validator changes no
    /// tally and reports nothing: the pair (counted, new) goes to the
    /// evidence. Any other vote is counted, unless its validator has voted
    /// before, and then the first threshold that is due is reported and
    /// marked.
    pub open spec fn apply_vote(self, vote: Vote, weight: u64, current_round: Round) -> (
        VoteKeeperView,
        Option<ThresholdEvent>,
    ) {
        let before = self.round_votes(vote.round);
        match before.conflict(vote) {
            Some(existing) => (
                VoteKeeperView { evidence: add_vote_evidence(self.evidence, existing.vote, vote), ..self },
                None,
            ),
            None => {
                let counted = before.count(vote, weight);
                let event = counted.next_event(self.total_weight, current_round, vote);
                (VoteKeeperView { rounds: self.rounds.insert(vote.round, counted.mark(event)), ..self }, event)
            },
        }
    }
}

/// Keeps track of votes and emits a threshold event each time the votes of
/// a round cross a threshold for the first time.
#[derive(Debug)]
pub struct VoteKeeper {
    total_weight: u64,
    per_round: BTreeMap<i64, RoundVotes>,
    evidence: VoteEvidenceMap,
}

impl View for VoteKeeper {
    type V = VoteKeeperView;

    closed spec fn view(&self) -> VoteKeeperView {
        VoteKeeperView {
            total_weight: self.total_weight as nat,
            rounds: Map::new(
                |r: Round| self.per_round@.contains_key(round_key(r)),
                |r: Round| self.per_round@[round_key(r)]@,
            ),
            evidence: self.evidence@,
        }
    }
}

impl VoteKeeper {
    /// Create a new `VoteKeeper` instance for a validator set with the given
    /// total voting power, with no vote counted.
    pub fn new(total_weight: u64) -> (keeper: VoteKeeper)
        ensures
            keeper@ == VoteKeeperView::empty(total_weight as nat),
    {
        let keeper = VoteKeeper { total_weight, per_round: BTreeMap::new(), evidence: VoteEvidenceMap::new() };
        proof {
            assert(keeper@.rounds =~= Map::empty());
        }
        keeper
    }

    /// Return the total voting power of the validator set.
    pub fn total_weight(&self) -> (w: u64)
        ensures
            w as nat == self@.total_weight,
    {
        self.total_weight
    }

    /// Return the votes counted in the round, if any vote was.
    pub fn per_round(&self, round: Round) -> (r: Option<&RoundVotes>)
        ensures
            match r {
                Some(votes) => self@.rounds.contains_key(round) && self@.rounds[round] == votes@,
                None => !self@.rounds.contains_key(round),
            },
    {
        let key = round.as_i64();
        self.per_round.get(&key)
    }

    /// Return the evidence of equivocation.
    pub fn evidence(&self) -> (e: &VoteEvidenceMap)
        ensures
            e@ == self@.evidence,
    {
        &self.evidence
    }

    /// Whether the threshold has been reported.
    pub fn has_fired(&self, event: &ThresholdEvent) -> (b: bool)
        ensures
            b == self@.fired(*event),
    {
        match self.per_round(event.round()) {
            Some(votes) => votes.has_emitted(event),
            None => false,
        }
    }

    /// Whether the votes counted meet the threshold, for a node in
    /// `current_round`, whether or not it has been reported.
    pub fn is_threshold_met(&self, event: &ThresholdEvent, current_round: Round) -> (b: bool)
        ensures
            b == self@.round_votes(event.round()).meets(self@.total_weight, current_round, *event),
    {
        match self.per_round(event.round()) {
            Some(votes) => votes.is_met(self.total_weight, current_round, event),
            None => {
                let votes = RoundVotes::new();
                votes.is_met(self.total_weight, current_round, event)
            },
        }
    }

    /// Apply a vote with the voting power of its validator, for a node in
    /// `current_round`, and return the threshold that the vote brought about,
    /// if any. Each threshold is returned at most once.
    pub fn apply_vote(&mut self, vote: Vote, weight: u64, current_round: Round) -> (event: Option<ThresholdEvent>)
        ensures
            (final(self)@, event) == old(self)@.apply_vote(vote, weight, current_round),
    {
        let key = vote.round.as_i64();
        let mut round = match self.per_round.remove(&key) {
            Some(round) => round,
            None => RoundVotes::new(),
        };
        proof {
            assert(round@ == old(self)@.round_votes(vote.round));
            assert forall|r: Round| round_key(r) == key implies r == vote.round by {
                crate::round::lemma_round_as_int_injective(r, vote.round);
            }
        }
        match round.add(vote, weight) {
            Ok(()) => {
                let event = round.emit_next(self.total_weight, current_round, &vote);
                self.per_round.insert(key, round);
                proof {
                    assert(self@.rounds =~= old(self)@.apply_vote(vote, weight, current_round).0.rounds);
                }
                event
            },
            Err(RecordVoteError::ConflictingVote { existing, conflicting }) => {
                // This is an equivocating vote
                self.per_round.insert(key, round);
                self.evidence.add(existing, conflicting);
                proof {
                    assert(self@.rounds =~= old(self)@.rounds);
                }
                None
            },
        }
    }
}

//---------------------------------------------------------------------
// What holds of every vote keeper
//---------------------------------------------------------------------

/// A vote as it is handed to the keeper: with the voting power of its
/// validator and the round that the node is in.
pub type Cast = (Vote, u64, Round);

/// What the keeper holds after a sequence of votes, and what it reported
/// for each of them.
pub open spec fn apply_votes(keeper: VoteKeeperView, casts: Seq<Cast>) -> (
    VoteKeeperView,
    Seq<Option<ThresholdEvent>>,
)
    decreases casts.len(),
{
    if casts.len() == 0 {
        (keeper, Seq::empty())
    } else {
        let (before, events) = apply_votes(keeper, casts.drop_last());
        let (vote, weight, current_round) = casts.last();
        let (after, event) = before.apply_vote(vote, weight, current_round);
        (after, events.push(event))
    }
}

/// The number of pairs of conflicting votes on record against a validator.
pub open spec fn evidence_count(evidence: Map<Address, Seq<(Vote, Vote)>>, address: Address) -> nat {
    if evidence.contains_key(address) {
        evidence[address].len()
    } else {
        0
    }
}

/// A threshold that a vote makes the keeper report is one for the round of
/// the vote that had not been reported before, and is reported from then
/// on; and whatever had been reported stays reported.
pub proof fn law_report_is_new(keeper: VoteKeeperView, vote: Vote, weight: u64, current_round: Round)
    ensures
        ({
            let (after, event) = keeper.apply_vote(vote, weight, current_round);
            &&& event is Some ==> !keeper.fired(event->0) && after.fired(event->0) && event->0.round() == vote.round
            &&& forall|e: ThresholdEvent| keeper.fired(e) ==> after.fired(e)
            &&& after.total_weight == keeper.total_weight
        }),
{
    let (after, event) = keeper.apply_vote(vote, weight, current_round);
    assert forall|e: ThresholdEvent| keeper.fired(e) implies after.fired(e) by {
        if e.round() == vote.round {
        }
    }
}

/// Whatever votes arrive in whatever order, the keeper reports no threshold
/// twice, and none that had been reported before.
pub proof fn law_threshold_reported_at_most_once(keeper: VoteKeeperView, casts: Seq<Cast>)
    ensures
        ({
            let (after, events) = apply_votes(keeper, casts);
            &&& events.len() == casts.len()
            &&& forall|i: int, j: int|
                0 <= i < j < events.len() && events[i] is Some ==> events[j] != events[i]
            &&& forall|i: int|
                0 <= i < events.len() && events[i] is Some ==> !keeper.fired(events[i]->0) && after.fired(
                    events[i]->0,
                )
            &&& forall|e: ThresholdEvent| keeper.fired(e) ==> after.fired(e)
        }),
    decreases casts.len(),
{
    if casts.len() > 0 {
        let (before, events) = apply_votes(keeper, casts.drop_last());
        let (vote, weight, current_round) = casts.last();
        law_threshold_reported_at_most_once(keeper, casts.drop_last());
        law_report_is_new(before, vote, weight, current_round);
    }
}

/// The ballot that `find_ballot` finds is one of the ballots and is of the
/// validator asked for; where it finds none, the validator has none.
pub proof fn lemma_found_ballot(ballots: Seq<Ballot>, address: Address)
    ensures
        find_ballot(ballots, address) is Some ==> {
            &&& ballots.contains(find_ballot(ballots, address)->0)
            &&& find_ballot(ballots, address)->0.vote.validator_address == address
        },
        find_ballot(ballots, address) is None ==> forall|i: int|
            0 <= i < ballots.len() ==> (#[trigger] ballots[i]).vote.validator_address != address,
    decreases ballots.len(),
{
    if ballots.len() > 0 && ballots[0].vote.validator_address != address {
        let rest = ballots.drop_first();
        lemma_found_ballot(rest, address);
        if find_ballot(rest, address) is Some {
            let b = find_ballot(rest, address)->0;
            let k = choose|k: int| 0 <= k < rest.len() && rest[k] == b;
            assert(ballots[k + 1] == b);
        } else {
            assert forall|i: int| 0 <= i < ballots.len() implies (#[trigger] ballots[i]).vote.validator_address
                != address by {
                if i > 0 {
                    assert(rest[i - 1] == ballots[i]);
                }
            }
        }
    } else if ballots.len() > 0 {
        assert(ballots[0] == find_ballot(ballots, address)->0);
    }
}

/// The first ballot of a validator stays its first ballot when a ballot is
/// added at the end; a validator without one has the added ballot if that
/// is its own.
pub proof fn lemma_find_ballot_push(ballots: Seq<Ballot>, ballot: Ballot, address: Address)
    ensures
        find_ballot(ballots.push(ballot), address) == (if find_ballot(ballots, address) is Some {
            find_ballot(ballots, address)
        } else if ballot.vote.validator_address == address {
            Some(ballot)
        } else {
            None
        }),
    decreases ballots.len(),
{
    let pushed = ballots.push(ballot);
    if ballots.len() == 0 {
        assert(pushed.drop_first() =~= Seq::<Ballot>::empty());
        assert(pushed[0] == ballot);
        assert(find_ballot(pushed.drop_first(), address) is None);
    } else {
        assert(pushed.drop_first() =~= ballots.drop_first().push(ballot));
        assert(pushed[0] == ballots[0]);
        if ballots[0].vote.validator_address != address {
            lemma_find_ballot_push(ballots.drop_first(), ballot, address);
        }
    }
}

/// A vote that conflicts with a counted vote of its validator changes no
/// tally and no report, and is itself answered with no report: it only adds
/// the pair (counted, new) to the evidence against the validator.
pub proof fn law_equivocation_adds_evidence_only(keeper: VoteKeeperView, vote: Vote, weight: u64, current_round: Round)
    requires
        keeper.round_votes(vote.round).conflict(vote) is Some,
    ensures
        ({
            let existing = keeper.round_votes(vote.round).conflict(vote)->0;
            let (after, event) = keeper.apply_vote(vote, weight, current_round);
            &&& event is None
            &&& after == (VoteKeeperView {
                evidence: add_vote_evidence(keeper.evidence, existing.vote, vote),
                ..keeper
            })
            &&& existing.vote.validator_address == vote.validator_address
            &&& existing.vote.value != vote.value
            &&& evidence_count(after.evidence, vote.validator_address) == evidence_count(
                keeper.evidence,
                vote.validator_address,
            ) + 1
        }),
{
    lemma_found_ballot(keeper.round_votes(vote.round).ballots(vote.typ), vote.validator_address);
}

/// Two votes of one validator, of the same type and round, for different
/// values: once both have been applied the tallies are those after the
/// first alone, and the evidence against the validator has grown. Where the
/// validator had not voted before, the second vote is answered with no
/// report and adds exactly the pair (first, second) to the evidence.
pub proof fn law_equivocation_detected(
    keeper: VoteKeeperView,
    first: Vote,
    first_weight: u64,
    first_round: Round,
    second: Vote,
    second_weight: u64,
    second_round: Round,
)
    requires
        first.typ == second.typ,
        first.round == second.round,
        first.validator_address == second.validator_address,
        first.value != second.value,
    ensures
        ({
            let (one, _) = keeper.apply_vote(first, first_weight, first_round);
            let (both, event) = one.apply_vote(second, second_weight, second_round);
            let address = first.validator_address;
            &&& forall|round: Round|
                {
                    &&& (#[trigger] both.round_votes(round)).prevotes == one.round_votes(round).prevotes
                    &&& both.round_votes(round).precommits == one.round_votes(round).precommits
                    &&& both.round_votes(round).seen == one.round_votes(round).seen
                }
            &&& evidence_count(both.evidence, address) > evidence_count(keeper.evidence, address)
            &&& find_ballot(keeper.round_votes(first.round).ballots(first.typ), address) is None ==> {
                &&& event is None
                &&& both == (VoteKeeperView {
                    evidence: add_vote_evidence(one.evidence, first, second),
                    ..one
                })
            }
        }),
{
    let address = first.validator_address;
    let before = keeper.round_votes(first.round);
    let (one, _) = keeper.apply_vote(first, first_weight, first_round);
    let (both, event) = one.apply_vote(second, second_weight, second_round);
    lemma_find_ballot_push(before.ballots(first.typ), Ballot { vote: first, weight: first_weight }, address);
    lemma_found_ballot(before.ballots(first.typ), address);
    if before.conflict(first) is Some {
        law_equivocation_adds_evidence_only(keeper, first, first_weight, first_round);
    }
    if one.round_votes(second.round).conflict(second) is Some {
        law_equivocation_adds_evidence_only(one, second, second_weight, second_round);
    }
    assert forall|round: Round|
        {
            &&& (#[trigger] both.round_votes(round)).prevotes == one.round_votes(round).prevotes
            &&& both.round_votes(round).precommits == one.round_votes(round).precommits
            &&& both.round_votes(round).seen == one.round_votes(round).seen
        } by {
        if round == second.round {
        }
    }
}

/// The weights of the ballots for two different things add up to no more
/// than the weight of all the ballots.
pub proof fn lemma_weights_of_two_values(ballots: Seq<Ballot>, a: NilOrVal, b: NilOrVal)
    requires
        a != b,
    ensures
        weight_for(ballots, a) + weight_for(ballots, b) <= weight_sum(ballots),
    decreases ballots.len(),
{
    if ballots.len() > 0 {
        lemma_weights_of_two_values(ballots.drop_last(), a, b);
    }
}

/// Quorums intersect: where the total voting power is `3f + 1` and the
/// ballots counted weigh no more than the total, two quorums among them
/// are for the same thing. So no round has a polka, or a quorum of
/// precommits, for two values.
pub proof fn law_quorums_agree(ballots: Seq<Ballot>, total: nat, a: NilOrVal, b: NilOrVal)
    requires
        total == 3 * max_faulty(total) + 1,
        weight_sum(ballots) <= total,
        is_quorum(weight_for(ballots, a), total),
        is_quorum(weight_for(ballots, b), total),
    ensures
        a == b,
{
    if a != b {
        lemma_weights_of_two_values(ballots, a, b);
    }
}

/// Counting one more ballot takes no weight away.
pub proof fn lemma_weights_grow(ballots: Seq<Ballot>, ballot: Ballot, value: NilOrVal)
    ensures
        weight_for(ballots, value) <= weight_for(ballots.push(ballot), value),
        weight_sum(ballots) <= weight_sum(ballots.push(ballot)),
{
    assert(ballots.push(ballot).drop_last() =~= ballots);
}

/// A quorum that the keeper has reported is there, and stays: the keeper
/// reports none before any vote, and each vote keeps every reported quorum
/// met by the votes counted.
pub proof fn law_reported_quorums_hold(keeper: VoteKeeperView, vote: Vote, weight: u64, current_round: Round)
    requires
        keeper.reports_hold(),
    ensures
        keeper.apply_vote(vote, weight, current_round).0.reports_hold(),
        VoteKeeperView::empty(keeper.total_weight).reports_hold(),
{
    let (after, event) = keeper.apply_vote(vote, weight, current_round);
    let before = keeper.round_votes(vote.round);
    let ballot = Ballot { vote, weight };
    assert forall|e: ThresholdEvent| #[trigger] after.fired(e) && !(e is SkipRound) implies after.round_votes(
        e.round(),
    ).meets(after.total_weight, Round::Nil, e) by {
        if e.round() == vote.round && before.conflict(vote) is None {
            let counted = before.count(vote, weight);
            if keeper.fired(e) {
                assert(before.meets(keeper.total_weight, Round::Nil, e));
                match e {
                    ThresholdEvent::PolkaAny(_) => lemma_weights_grow(before.prevotes, ballot, NilOrVal::Nil),
                    ThresholdEvent::PolkaNil(_) => lemma_weights_grow(before.prevotes, ballot, NilOrVal::Nil),
                    ThresholdEvent::PolkaValue(_, id) => lemma_weights_grow(
                        before.prevotes,
                        ballot,
                        NilOrVal::Val(id),
                    ),
                    ThresholdEvent::PrecommitAny(_) => lemma_weights_grow(
                        before.precommits,
                        ballot,
                        NilOrVal::Nil,
                    ),
                    ThresholdEvent::PrecommitValue(_, id) => lemma_weights_grow(
                        before.precommits,
                        ballot,
                        NilOrVal::Val(id),
                    ),
                    ThresholdEvent::SkipRound(_) => {},
                }
            } else {
                assert(event == Some(e));
                assert(counted.due(keeper.total_weight, current_round, e));
            }
        } else {
            assert(keeper.fired(e));
        }
    }
}

} // verus!
