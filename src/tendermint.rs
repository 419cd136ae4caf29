use vstd::prelude::*;
use vstd::std_specs::cmp::PartialEqSpec;

use crate::contracts::{Contract, UserId};
use crate::hash;
use crate::hash::Hashable;
use crate::log::{MessageLog, Messages, LIMIT};
use crate::quorum::{tally, tally_of, Ballot, IdFilter, ValidatorSet};
use crate::timeout::{earliest_index, TimeoutManager, Timeouts};
use crate::types::{Broadcast, Message, Precommit, Prevote, Proposal, Step};

verus! {

/// How long each consensus timer runs, in milliseconds.
pub const TIMEOUT_MS: u64 = 1000;

/// A value together with the round in which a polka for it was seen.
pub struct Record<B> {
    pub value: B,
    pub round: u64,
}

/// Where this replica stands within the current height.
#[derive(PartialEq, Eq, Structural, Clone, Copy, Debug)]
pub struct RoundState {
    pub round: u64,
    pub step: Step,
    pub prevote_timeout_scheduled: bool,
    pub precommit_timeout_scheduled: bool,
}

impl RoundState {
    /// The start of `round`: step Propose, no timer scheduled.
    pub open spec fn initial(round: u64) -> RoundState {
        RoundState {
            round,
            step: Step::Propose,
            prevote_timeout_scheduled: false,
            precommit_timeout_scheduled: false,
        }
    }

    /// The start of `round`: step Propose, no timer scheduled.
    pub fn new(round: u64) -> (r: RoundState)
        ensures
            r == RoundState::initial(round),
    {
        RoundState {
            round,
            step: Step::Propose,
            prevote_timeout_scheduled: false,
            precommit_timeout_scheduled: false,
        }
    }
}

/// The application that consensus decides blocks for. Its spec functions name what
/// its methods return, so that the rules can be stated over them.
pub trait App<B: Hashable> {
    /// This replica's validator identity.
    spec fn id_spec(&self) -> Seq<u8>;

    /// The validator that proposes at (`height`, `round`).
    spec fn proposer_spec(&self, height: u64, round: u64) -> Seq<u8>;

    /// The weighted validators of the current height.
    spec fn validators_spec(&self) -> Seq<(Seq<u8>, u64)>;

    /// Whether a proposed block is acceptable.
    spec fn valid_spec(&self, block: &B) -> bool;

    /// The blocks delivered so far, in order.
    spec fn decisions(&self) -> Seq<B>;

    /// This replica's validator identity.
    fn id(&self) -> (r: UserId)
        ensures
            r@ == self.id_spec(),
    ;

    /// The weighted validators of the current height.
    fn validators(&self) -> (r: ValidatorSet)
        ensures
            r@ == self.validators_spec(),
    ;

    /// The validator that proposes at (`height`, `round`).
    fn proposer(&self, height: u64, round: u64) -> (r: UserId)
        ensures
            r@ == self.proposer_spec(height, round),
    ;

    /// A fresh block to propose.
    fn create_block(&self) -> B;

    /// Whether a proposed block is acceptable.
    fn validate_block(&self, block: &B) -> (r: bool)
        ensures
            r == self.valid_spec(block),
    ;

    /// Delivers a decided block.
    fn commit(&mut self, block: B)
        ensures
            final(self).decisions() == old(self).decisions().push(block),
    ;

    /// Signs `content` with this replica's key.
    fn sign<T: Hashable>(&self, content: T) -> (r: Contract<T>)
        ensures
            r.content == content,
    ;
}

/// Whether two optional digests name the same value, or are both nil.
pub open spec fn same_id<X, Y>(a: Option<hash::Hash<X>>, b: Option<hash::Hash<Y>>) -> bool {
    match (a, b) {
        (Some(x), Some(y)) => x@ == y@,
        (None, None) => true,
        _ => false,
    }
}

/// `b` is the ballot of a vote at (`height`, `round`) for `id`, signed by `signee`.
pub open spec fn is_ballot<T>(
    b: Ballot,
    signee: Seq<u8>,
    height: u64,
    round: u64,
    id: Option<hash::Hash<T>>,
) -> bool {
    &&& b.signer@ == hash::sha256_of(signee)
    &&& b.height == height
    &&& b.round == round
    &&& same_id(b.id, id)
}

/// What the rules read of the current height's messages, with the application's
/// judgement of each proposal.
pub struct Facts {
    /// The validators of the current height.
    pub validators: ValidatorSet,
    /// For each proposal: whether it is signed by the proposer of its round.
    pub from_proposer: Vec<bool>,
    /// For each proposal: whether the application accepts its block.
    pub valid: Vec<bool>,
    /// For each proposal: the digest of its block.
    pub ids: Vec<hash::Hash>,
    /// For each proposal: its signer, height and round, as a ballot for nil.
    pub proposal_ballots: Vec<Ballot>,
    /// The ballots of the prevotes, in arrival order.
    pub prevotes: Vec<Ballot>,
    /// The ballots of the precommits, in arrival order.
    pub precommits: Vec<Ballot>,
}

/// `(total / 3) * 2`: a weight above it is a quorum of more than two thirds.
pub open spec fn two_f_of(total: nat) -> nat {
    (total / 3) * 2
}

impl Facts {
    /// The facts were read from `m`: one entry per proposal and one ballot per vote,
    /// in order.
    pub open spec fn describes<B: Hashable>(&self, m: Messages<B>) -> bool {
        &&& self.from_proposer@.len() == m.proposals@.len()
        &&& self.valid@.len() == m.proposals@.len()
        &&& self.ids@.len() == m.proposals@.len()
        &&& forall|i: int|
            0 <= i < m.proposals@.len() ==> (#[trigger] self.ids@[i])@ == m.proposals@[i].content.proposal.digest()
        &&& self.proposal_ballots@.len() == m.proposals@.len()
        &&& forall|i: int|
            0 <= i < m.proposals@.len() ==> is_ballot::<()>(
                #[trigger] self.proposal_ballots@[i],
                m.proposals@[i].signee@,
                m.proposals@[i].content.height,
                m.proposals@[i].content.round,
                None,
            )
        &&& self.prevotes@.len() == m.prevotes@.len()
        &&& forall|i: int|
            0 <= i < m.prevotes@.len() ==> is_ballot(
                #[trigger] self.prevotes@[i],
                m.prevotes@[i].signee@,
                m.prevotes@[i].content.height,
                m.prevotes@[i].content.round,
                m.prevotes@[i].content.id,
            )
        &&& self.precommits@.len() == m.precommits@.len()
        &&& forall|i: int|
            0 <= i < m.precommits@.len() ==> is_ballot(
                #[trigger] self.precommits@[i],
                m.precommits@[i].signee@,
                m.precommits@[i].content.height,
                m.precommits@[i].content.round,
                m.precommits@[i].content.id,
            )
    }

    /// The application's answers for the proposals of `m` at `height`: the
    /// validators, whether each proposal is signed by the proposer of its round, and
    /// whether its block is valid.
    pub open spec fn from_app<B: Hashable, A: App<B>>(&self, app: &A, height: u64, m: Messages<B>) -> bool {
        &&& self.validators@ == app.validators_spec()
        &&& forall|i: int|
            0 <= i < m.proposals@.len() ==> (#[trigger] self.from_proposer@[i]) == (hash::sha256_of(
                m.proposals@[i].signee@,
            ) == app.proposer_spec(height, m.proposals@[i].content.round))
        &&& forall|i: int|
            0 <= i < m.proposals@.len() ==> (#[trigger] self.valid@[i]) == app.valid_spec(
                &m.proposals@[i].content.proposal,
            )
    }

    /// The weight of distinct signers of prevotes at (`height`, `round`) that `filter` admits.
    pub open spec fn prevote_weight(&self, height: u64, round: u64, filter: IdFilter) -> nat {
        tally_of(self.prevotes@, height, round, filter, self.validators@)
    }

    /// The weight of distinct signers of precommits at (`height`, `round`) that `filter` admits.
    pub open spec fn precommit_weight(&self, height: u64, round: u64, filter: IdFilter) -> nat {
        tally_of(self.precommits@, height, round, filter, self.validators@)
    }

    pub open spec fn two_f_spec(&self) -> nat {
        two_f_of(self.validators.total_spec())
    }

    /// The most weight that faulty validators may hold: a third of the total.
    pub fn f(&self) -> (r: u128)
        ensures
            r == self.validators.total_spec() / 3,
    {
        self.validators.total_votes() / 3
    }

    /// Every ballot of the height: proposals, then prevotes, then precommits.
    pub open spec fn all_ballots(&self) -> Seq<Ballot> {
        self.proposal_ballots@ + self.prevotes@ + self.precommits@
    }

    /// Twice `f`: more weight than this is a quorum.
    pub fn two_f(&self) -> (r: u128)
        ensures
            r == self.two_f_spec(),
    {
        let total = self.validators.total_votes();
        let f = total / 3;
        assert(f * 2 <= total) by (nonlinear_arith)
            requires
                f == total / 3,
        ;
        f * 2
    }
}

fn prevote_ballots<B: Hashable>(votes: &Vec<Contract<Prevote<B>>>) -> (r: Vec<Ballot>)
    ensures
        r@.len() == votes@.len(),
        forall|i: int|
            0 <= i < votes@.len() ==> is_ballot(
                #[trigger] r@[i],
                votes@[i].signee@,
                votes@[i].content.height,
                votes@[i].content.round,
                votes@[i].content.id,
            ),
{
    let mut out: Vec<Ballot> = Vec::new();
    let mut i: usize = 0;
    while i < votes.len()
        invariant
            i <= votes@.len(),
            out@.len() == i,
            forall|j: int|
                0 <= j < i ==> is_ballot(
                    #[trigger] out@[j],
                    votes@[j].signee@,
                    votes@[j].content.height,
                    votes@[j].content.round,
                    votes@[j].content.id,
                ),
        decreases votes@.len() - i,
    {
        let c = &votes[i];
        let id = match &c.content.id {
            Some(h) => Some(h.cast()),
            None => None,
        };
        out.push(Ballot { signer: c.signee.hash(), height: c.content.height, round: c.content.round, id });
        i = i + 1;
    }
    out
}

fn precommit_ballots<B: Hashable>(votes: &Vec<Contract<Precommit<B>>>) -> (r: Vec<Ballot>)
    ensures
        r@.len() == votes@.len(),
        forall|i: int|
            0 <= i < votes@.len() ==> is_ballot(
                #[trigger] r@[i],
                votes@[i].signee@,
                votes@[i].content.height,
                votes@[i].content.round,
                votes@[i].content.id,
            ),
{
    let mut out: Vec<Ballot> = Vec::new();
    let mut i: usize = 0;
    while i < votes.len()
        invariant
            i <= votes@.len(),
            out@.len() == i,
            forall|j: int|
                0 <= j < i ==> is_ballot(
                    #[trigger] out@[j],
                    votes@[j].signee@,
                    votes@[j].content.height,
                    votes@[j].content.round,
                    votes@[j].content.id,
                ),
        decreases votes@.len() - i,
    {
        let c = &votes[i];
        let id = match &c.content.id {
            Some(h) => Some(h.cast()),
            None => None,
        };
        out.push(Ballot { signer: c.signee.hash(), height: c.content.height, round: c.content.round, id });
        i = i + 1;
    }
    out
}

/// An index as an `int`.
pub open spec fn as_int(i: Option<usize>) -> Option<int> {
    match i {
        Some(k) => Some(k as int),
        None => None,
    }
}

/// The digests of an optional value, as bytes.
pub open spec fn opt_view<T>(h: Option<hash::Hash<T>>) -> Option<Seq<u8>> {
    match h {
        Some(x) => Some(x@),
        None => None,
    }
}

/// `m` is a prevote at (`height`, `round`) for `id`.
pub open spec fn is_prevote_msg<B: Hashable>(m: Message<B>, height: u64, round: u64, id: Option<Seq<u8>>) -> bool {
    match m {
        Message::Prevote(p) => p.height == height && p.round == round && opt_view(p.id) == id,
        _ => false,
    }
}

/// `m` is a precommit at (`height`, `round`) for `id`.
pub open spec fn is_precommit_msg<B: Hashable>(m: Message<B>, height: u64, round: u64, id: Option<Seq<u8>>) -> bool {
    match m {
        Message::Precommit(p) => p.height == height && p.round == round && opt_view(p.id) == id,
        _ => false,
    }
}

/// `b` is `m` signed: the same kind of message, with `m` as its content.
pub open spec fn signs<B: Hashable>(b: Broadcast<B>, m: Message<B>) -> bool {
    match (b, m) {
        (Broadcast::Proposal(c), Message::Proposal(p)) => c.content == p,
        (Broadcast::Prevote(c), Message::Prevote(p)) => c.content == p,
        (Broadcast::Precommit(c), Message::Precommit(p)) => c.content == p,
        _ => false,
    }
}

/// One replica of the Tendermint state machine.
///
/// The replica does no I/O: it takes
/// broadcasts and timer expiries, with the time in milliseconds, and queues the
/// messages it emits, unsigned, in `outgoing`; `take_outgoing` signs them for the
/// transport.
pub struct Tendermint<A: App<B>, B: Hashable + Clone + PartialEq> {
    pub app: A,
    pub height: u64,
    pub current: RoundState,
    pub locked: Option<Record<B>>,
    pub valid: Option<Record<B>>,
    pub log: MessageLog<B>,
    pub timeouts: TimeoutManager<Timeouts>,
    /// Messages emitted and not yet handed to the transport, oldest first.
    pub outgoing: Vec<Message<B>>,
}

impl<A: App<B>, B: Hashable + Clone + PartialEq> Tendermint<A, B> {
    /// Blocks compare as their `eq_spec` says; the log's window starts at the current
    /// height; `locked` and `valid` were recorded at or before the current round.
    pub open spec fn wf(&self) -> bool {
        &&& B::obeys_eq_spec()
        &&& self.log.wf()
        &&& self.log.height_spec() == self.height
        &&& (self.locked matches Some(rec) ==> rec.round <= self.current.round)
        &&& (self.valid matches Some(rec) ==> rec.round <= self.current.round)
    }

    /// The messages of the current height.
    pub open spec fn messages(&self) -> Messages<B> {
        self.log.slots()[0]
    }

    /// A polka was already recorded in the current round.
    pub open spec fn valid_this_round(&self) -> bool {
        self.valid matches Some(rec) && rec.round == self.current.round
    }

    /// A measure that every rule that fires lowers.
    pub open spec fn progress(&self) -> int {
        (u64::MAX - self.height) * 16 + (2 - self.current.step.index()) * 4 + (if self.current.precommit_timeout_scheduled {
            0int
        } else {
            2int
        }) + (if self.valid_this_round() {
            0int
        } else {
            1int
        })
    }

    /// Whether the lock permits a prevote for `v`: there is no lock, or it is on `v`.
    pub open spec fn locked_allows(&self, v: B) -> bool {
        match self.locked {
            None => true,
            Some(rec) => rec.value.eq_spec(&v),
        }
    }

    /// Everything but the round state and the outgoing messages is as in `other`.
    pub open spec fn same_besides_round(&self, other: &Self) -> bool {
        &&& self.app == other.app
        &&& self.height == other.height
        &&& self.locked == other.locked
        &&& self.valid == other.valid
        &&& self.log == other.log
        &&& self.timeouts == other.timeouts
    }

    /// A replica at height 0, round 0, with an empty log, that has not started.
    pub fn new(app: A) -> (r: Self)
        requires
            B::obeys_eq_spec(),
        ensures
            r.wf(),
            r.app == app,
            r.height == 0,
            r.current.round == 0,
            r.current.step == Step::Propose,
            !r.current.prevote_timeout_scheduled,
            !r.current.precommit_timeout_scheduled,
            r.locked is None,
            r.valid is None,
            r.timeouts.pending().len() == 0,
            r.outgoing@.len() == 0,
    {
        Tendermint {
            app,
            height: 0,
            current: RoundState::new(0),
            locked: None,
            valid: None,
            log: MessageLog::new(),
            timeouts: TimeoutManager::new(),
            outgoing: Vec::new(),
        }
    }

    /// Reads the current height's messages, and asks the application about each proposal.
    pub fn facts(&self) -> (r: Facts)
        requires
            self.wf(),
        ensures
            r.describes(self.messages()),
            r.from_app(&self.app, self.height, self.messages()),
    {
        let m = self.log.get_current();
        let validators = self.app.validators();
        let mut from_proposer: Vec<bool> = Vec::new();
        let mut valid: Vec<bool> = Vec::new();
        let mut ids: Vec<hash::Hash> = Vec::new();
        let mut proposal_ballots: Vec<Ballot> = Vec::new();
        let mut i: usize = 0;
        while i < m.proposals.len()
            invariant
                i <= m.proposals@.len(),
                from_proposer@.len() == i,
                valid@.len() == i,
                ids@.len() == i,
                proposal_ballots@.len() == i,
                validators@ == self.app.validators_spec(),
                *m == self.messages(),
                forall|j: int| 0 <= j < i ==> (#[trigger] ids@[j])@ == m.proposals@[j].content.proposal.digest(),
                forall|j: int|
                    0 <= j < i ==> (#[trigger] from_proposer@[j]) == (hash::sha256_of(m.proposals@[j].signee@)
                        == self.app.proposer_spec(self.height, m.proposals@[j].content.round)),
                forall|j: int| 0 <= j < i ==> (#[trigger] valid@[j]) == self.app.valid_spec(&m.proposals@[j].content.proposal),
                forall|j: int|
                    0 <= j < i ==> is_ballot::<()>(
                        #[trigger] proposal_ballots@[j],
                        m.proposals@[j].signee@,
                        m.proposals@[j].content.height,
                        m.proposals@[j].content.round,
                        None,
                    ),
            decreases m.proposals@.len() - i,
        {
            let c = &m.proposals[i];
            proposal_ballots.push(
                Ballot { signer: c.signee.hash(), height: c.content.height, round: c.content.round, id: None },
            );
            let proposer = self.app.proposer(self.height, c.content.round);
            from_proposer.push(c.signee.hash().same(&proposer));
            valid.push(self.app.validate_block(&c.content.proposal));
            ids.push(c.content.proposal.hash().cast());
            i = i + 1;
        }
        Facts {
            validators,
            from_proposer,
            valid,
            ids,
            proposal_ballots,
            prevotes: prevote_ballots(&m.prevotes),
            precommits: precommit_ballots(&m.precommits),
        }
    }

    /// Queues `msg` for the transport.
    pub fn broadcast(&mut self, msg: Message<B>)
        ensures
            final(self).outgoing@ == old(self).outgoing@.push(msg),
            final(self).same_besides_round(old(self)),
            final(self).current == old(self).current,
    {
        self.outgoing.push(msg);
    }

    /// This replica proposes at `round` of the current height.
    pub open spec fn is_proposer(&self, round: u64) -> bool {
        self.app.proposer_spec(self.height, round) == self.app.id_spec()
    }

    /// `next` is this replica after starting `round` at time `now`: the round state is
    /// reset; the round's proposer queues its proposal (the valid value with its
    /// round if there is one, a fresh block otherwise), any other replica schedules
    /// the propose timer.
    pub open spec fn started_round(&self, next: &Self, round: u64, now: u64) -> bool {
        self.started_round_from(next, round, now, self.timeouts.pending())
    }

    /// As `started_round`, from a replica whose pending timers are `pending`.
    pub open spec fn started_round_from(
        &self,
        next: &Self,
        round: u64,
        now: u64,
        pending: Seq<crate::timeout::Timeout<Timeouts>>,
    ) -> bool {
        &&& next.current == RoundState::initial(round)
        &&& next.app == self.app
        &&& next.height == self.height
        &&& next.locked == self.locked
        &&& next.valid == self.valid
        &&& next.log == self.log
        &&& if self.is_proposer(round) {
            &&& next.timeouts.pending() == pending
            &&& next.outgoing@.drop_last() == self.outgoing@
            &&& next.outgoing@.len() == self.outgoing@.len() + 1
            &&& next.outgoing@.last() matches Message::Proposal(p)
            &&& p.height == self.height
            &&& p.round == round
            &&& match self.valid {
                Some(rec) => p.valid_round == Some(rec.round) && cloned(rec.value, p.proposal),
                None => p.valid_round is None,
            }
        } else {
            &&& next.outgoing == self.outgoing
            &&& next.timeouts.pending() == pending.push(
                crate::timeout::Timeout {
                    time: (now as u128 + TIMEOUT_MS as u128) as u128,
                    value: Timeouts::Propose { height: self.height, round },
                },
            )
        }
    }

    /// Starts `round` of the current height: proposes if this replica is the
    /// round's proposer, and otherwise schedules the propose timeout.
    pub fn start_round(&mut self, round: u64, now: u64)
        requires
            old(self).wf(),
            old(self).locked matches Some(rec) ==> rec.round <= round,
            old(self).valid matches Some(rec) ==> rec.round <= round,
        ensures
            final(self).wf(),
            old(self).started_round(final(self), round, now),
    {
        self.current = RoundState::new(round);
        let proposer = self.app.proposer(self.height, round);
        let me = self.app.id();
        if proposer.same(&me) {
            let proposal = match &self.valid {
                Some(rec) => Proposal {
                    height: self.height,
                    round,
                    proposal: rec.value.clone(),
                    valid_round: Some(rec.round),
                },
                None => Proposal {
                    height: self.height,
                    round,
                    proposal: self.app.create_block(),
                    valid_round: None,
                },
            };
            self.broadcast(Message::Proposal(proposal));
            assert(self.outgoing@.drop_last() =~= old(self).outgoing@);
        } else {
            self.timeouts.add(Timeouts::Propose { height: self.height, round }, now, TIMEOUT_MS);
        }
    }

    /// Proposal `i` of the current height is a fresh proposal by the proposer for
    /// (height, round): its valid round is nil.
    pub open spec fn fresh_at(&self, facts: &Facts, i: int) -> bool {
        let p = self.messages().proposals@[i].content;
        &&& facts.from_proposer@[i]
        &&& p.height == self.height
        &&& p.round == self.current.round
        &&& p.valid_round is None
    }

    /// The first fresh proposal at index `lo` or later.
    pub open spec fn first_fresh(&self, facts: &Facts, lo: int) -> Option<int>
        decreases facts.from_proposer@.len() - lo,
    {
        if lo < 0 || lo >= facts.from_proposer@.len() {
            None
        } else if self.fresh_at(facts, lo) {
            Some(lo)
        } else {
            self.first_fresh(facts, lo + 1)
        }
    }

    /// The proposal that rule 22 acts on: the first fresh one, while in step Propose.
    pub open spec fn line22_pick(&self, facts: &Facts) -> Option<int> {
        if self.current.step == Step::Propose {
            self.first_fresh(facts, 0)
        } else {
            None
        }
    }

    /// The prevote of rules 22 and 28 for proposal `i`: its digest if the block is
    /// valid and `lock_ok` holds, nil otherwise.
    pub open spec fn vote_for(&self, facts: &Facts, i: int, lock_ok: bool) -> Option<Seq<u8>> {
        if facts.valid@[i] && lock_ok {
            Some(facts.ids@[i]@)
        } else {
            None
        }
    }

    /// Finds the proposal that rule 22 acts on.
    pub fn line22_check(&self, facts: &Facts) -> (r: Option<usize>)
        requires
            self.wf(),
            facts.describes(self.messages()),
        ensures
            as_int(r) == self.line22_pick(facts),
            r matches Some(k) ==> k < facts.ids@.len(),
    {
        if !self.current.step.is_propose() {
            return None;
        }
        let m = self.log.get_current();
        let mut i: usize = 0;
        while i < m.proposals.len()
            invariant
                i <= m.proposals@.len(),
                *m == self.messages(),
                self.current.step == Step::Propose,
                facts.describes(self.messages()),
                self.first_fresh(facts, 0) == self.first_fresh(facts, i as int),
            decreases m.proposals@.len() - i,
        {
            let c = &m.proposals[i];
            if facts.from_proposer[i] && c.content.height == self.height && c.content.round == self.current.round
                && c.content.valid_round.is_none() {
                assert(self.fresh_at(facts, i as int));
                assert(self.first_fresh(facts, i as int) == Some(i as int));
                return Some(i);
            }
            i = i + 1;
        }
        None
    }

    /// Rule 22: in step Propose, on a fresh proposal from the round's proposer,
    /// prevotes for it if it is valid and the lock allows it (nil otherwise), and
    /// moves to step Prevote.
    pub fn line22(&mut self, facts: &Facts) -> (r: bool)
        requires
            old(self).wf(),
            facts.describes(old(self).messages()),
        ensures
            final(self).wf(),
            r == old(self).line22_pick(facts) is Some,
            r ==> final(self).progress() < old(self).progress(),
            r ==> old(self).after_line22(final(self), facts),
            !r ==> *final(self) == *old(self),
    {
        match self.line22_check(facts) {
            None => false,
            Some(i) => {
                let id = facts.ids[i];
                let m = self.log.get_current();
                let allows = match &self.locked {
                    None => true,
                    Some(rec) => rec.value == m.proposals[i].content.proposal,
                };
                let vote = if facts.valid[i] && allows {
                    Some(id.cast())
                } else {
                    None
                };
                self.broadcast(Message::Prevote(Prevote::new(self.height, self.current.round, vote)));
                self.current.step = Step::Prevote;
                assert(self.outgoing@.drop_last() =~= old(self).outgoing@);
                true
            }
        }
    }

    /// Proposal `i` of the current height re-proposes, from the proposer for
    /// (height, round), a value with a polka at an earlier valid round.
    pub open spec fn repropose_at(&self, facts: &Facts, i: int) -> bool {
        let p = self.messages().proposals@[i].content;
        &&& facts.from_proposer@[i]
        &&& p.height == self.height
        &&& p.round == self.current.round
        &&& p.valid_round is Some
        &&& p.valid_round->0 < self.current.round
        &&& facts.prevote_weight(self.height, p.valid_round->0, IdFilter::Value(facts.ids@[i]))
            > facts.two_f_spec()
    }

    /// The first re-proposal at index `lo` or later.
    pub open spec fn first_repropose(&self, facts: &Facts, lo: int) -> Option<int>
        decreases facts.from_proposer@.len() - lo,
    {
        if lo < 0 || lo >= facts.from_proposer@.len() {
            None
        } else if self.repropose_at(facts, lo) {
            Some(lo)
        } else {
            self.first_repropose(facts, lo + 1)
        }
    }

    /// The proposal that rule 28 acts on: the first re-proposal, while in step Propose.
    pub open spec fn line28_pick(&self, facts: &Facts) -> Option<int> {
        if self.current.step == Step::Propose {
            self.first_repropose(facts, 0)
        } else {
            None
        }
    }

    /// Whether the lock allows a prevote for a re-proposal of `v` whose polka was at
    /// `vr`: there is no lock, it dates from `vr` or before, or it is on `v`.
    pub open spec fn locked_allows_since(&self, v: B, vr: u64) -> bool {
        match self.locked {
            None => true,
            Some(rec) => rec.round <= vr || rec.value.eq_spec(&v),
        }
    }

    /// Finds the proposal that rule 28 acts on.
    pub fn line28_check(&self, facts: &Facts) -> (r: Option<usize>)
        requires
            self.wf(),
            facts.describes(self.messages()),
        ensures
            as_int(r) == self.line28_pick(facts),
            r matches Some(k) ==> k < facts.ids@.len() && self.messages().proposals@[k as int].content.valid_round is Some,
    {
        if !self.current.step.is_propose() {
            return None;
        }
        let m = self.log.get_current();
        let two_f = facts.two_f();
        let mut i: usize = 0;
        while i < m.proposals.len()
            invariant
                i <= m.proposals@.len(),
                *m == self.messages(),
                self.current.step == Step::Propose,
                facts.describes(self.messages()),
                two_f == facts.two_f_spec(),
                self.first_repropose(facts, 0) == self.first_repropose(facts, i as int),
            decreases m.proposals@.len() - i,
        {
            let c = &m.proposals[i];
            let mut found = false;
            if facts.from_proposer[i] && c.content.height == self.height && c.content.round == self.current.round {
                if let Some(vr) = c.content.valid_round {
                    if vr < self.current.round {
                        let w = tally(&facts.prevotes, self.height, vr, &IdFilter::Value(facts.ids[i]), &facts.validators);
                        found = w > two_f;
                    }
                }
            }
            assert(found == self.repropose_at(facts, i as int));
            if found {
                assert(self.first_repropose(facts, i as int) == Some(i as int));
                return Some(i);
            }
            i = i + 1;
        }
        None
    }

    /// Rule 28: in step Propose, on a re-proposal whose polka at its valid round `vr`
    /// is in the log, prevotes for it if it is valid and the lock allows it (lock at
    /// or before `vr`, or on the same value), nil otherwise; moves to step Prevote.
    pub fn line28(&mut self, facts: &Facts) -> (r: bool)
        requires
            old(self).wf(),
            facts.describes(old(self).messages()),
        ensures
            final(self).wf(),
            r == old(self).line28_pick(facts) is Some,
            r ==> final(self).progress() < old(self).progress(),
            r ==> old(self).after_line28(final(self), facts),
            !r ==> *final(self) == *old(self),
    {
        match self.line28_check(facts) {
            None => false,
            Some(i) => {
                let m = self.log.get_current();
                let vr = match m.proposals[i].content.valid_round {
                    Some(vr) => vr,
                    None => 0,
                };
                let id = facts.ids[i];
                let allows = match &self.locked {
                    None => true,
                    Some(rec) => rec.round <= vr || rec.value == m.proposals[i].content.proposal,
                };
                let vote = if facts.valid[i] && allows {
                    Some(id.cast())
                } else {
                    None
                };
                self.broadcast(Message::Prevote(Prevote::new(self.height, self.current.round, vote)));
                self.current.step = Step::Prevote;
                assert(self.outgoing@.drop_last() =~= old(self).outgoing@);
                true
            }
        }
    }

    /// Rule 34 applies: in step Prevote with no prevote timer yet, prevotes of more
    /// than two thirds of the weight, for anything, are in for (height, round).
    pub open spec fn line34_fires(&self, facts: &Facts) -> bool {
        &&& self.current.step == Step::Prevote
        &&& !self.current.prevote_timeout_scheduled
        &&& facts.prevote_weight(self.height, self.current.round, IdFilter::Any) > facts.two_f_spec()
    }

    pub fn line34_check(&self, facts: &Facts) -> (r: bool)
        ensures
            r == self.line34_fires(facts),
    {
        if !self.current.step.is_prevote() || self.current.prevote_timeout_scheduled {
            return false;
        }
        tally(&facts.prevotes, self.height, self.current.round, &IdFilter::Any, &facts.validators) > facts.two_f()
    }

    /// Rule 34: schedules the prevote timeout for (height, round) once. It returns
    /// false: nothing else can fire from this change alone.
    pub fn line34(&mut self, facts: &Facts, now: u64) -> (r: bool)
        requires
            old(self).wf(),
        ensures
            final(self).wf(),
            !r,
            final(self).progress() == old(self).progress(),
            old(self).after_line34(final(self), facts, now),
    {
        if self.line34_check(facts) {
            self.timeouts.add(Timeouts::Prevote { height: self.height, round: self.current.round }, now, TIMEOUT_MS);
            self.current.prevote_timeout_scheduled = true;
        }
        false
    }

    /// Proposal `i` of the current height is from the proposer for (height, round),
    /// holds a valid block, and has a polka at (height, round).
    pub open spec fn polka_at(&self, facts: &Facts, i: int) -> bool {
        let p = self.messages().proposals@[i].content;
        &&& facts.from_proposer@[i]
        &&& p.height == self.height
        &&& p.round == self.current.round
        &&& facts.valid@[i]
        &&& facts.prevote_weight(self.height, self.current.round, IdFilter::Value(facts.ids@[i]))
            > facts.two_f_spec()
    }

    /// The first proposal with a polka at index `lo` or later.
    pub open spec fn first_polka(&self, facts: &Facts, lo: int) -> Option<int>
        decreases facts.from_proposer@.len() - lo,
    {
        if lo < 0 || lo >= facts.from_proposer@.len() {
            None
        } else if self.polka_at(facts, lo) {
            Some(lo)
        } else {
            self.first_polka(facts, lo + 1)
        }
    }

    /// The proposal that rule 36 acts on: the first with a polka, past step Propose,
    /// the first time in the round.
    pub open spec fn line36_pick(&self, facts: &Facts) -> Option<int> {
        if self.current.step != Step::Propose && !self.valid_this_round() {
            self.first_polka(facts, 0)
        } else {
            None
        }
    }

    /// Finds the proposal that rule 36 acts on.
    pub fn line36_check(&self, facts: &Facts) -> (r: Option<usize>)
        requires
            self.wf(),
            facts.describes(self.messages()),
        ensures
            as_int(r) == self.line36_pick(facts),
            r matches Some(k) ==> k < facts.ids@.len(),
    {
        if self.current.step.is_propose() {
            return None;
        }
        match &self.valid {
            Some(rec) => {
                if rec.round == self.current.round {
                    return None;
                }
            },
            None => {},
        }
        let m = self.log.get_current();
        let two_f = facts.two_f();
        let mut i: usize = 0;
        while i < m.proposals.len()
            invariant
                i <= m.proposals@.len(),
                *m == self.messages(),
                self.current.step != Step::Propose,
                !self.valid_this_round(),
                facts.describes(self.messages()),
                two_f == facts.two_f_spec(),
                self.first_polka(facts, 0) == self.first_polka(facts, i as int),
            decreases m.proposals@.len() - i,
        {
            let c = &m.proposals[i];
            let mut found = false;
            if facts.from_proposer[i] && c.content.height == self.height && c.content.round == self.current.round
                && facts.valid[i] {
                let w = tally(
                    &facts.prevotes,
                    self.height,
                    self.current.round,
                    &IdFilter::Value(facts.ids[i]),
                    &facts.validators,
                );
                found = w > two_f;
            }
            assert(found == self.polka_at(facts, i as int));
            if found {
                assert(self.first_polka(facts, i as int) == Some(i as int));
                return Some(i);
            }
            i = i + 1;
        }
        None
    }

    /// Rule 36: past step Propose, the first time a polka for a valid proposal of the
    /// round is seen: in step Prevote, locks on the value, precommits for it and moves
    /// to step Precommit; in either step, records the value as valid.
    pub fn line36(&mut self, facts: &Facts) -> (r: bool)
        requires
            old(self).wf(),
            facts.describes(old(self).messages()),
        ensures
            final(self).wf(),
            r == old(self).line36_pick(facts) is Some,
            r ==> final(self).progress() < old(self).progress(),
            r ==> old(self).after_line36(final(self), facts),
            !r ==> *final(self) == *old(self),
    {
        match self.line36_check(facts) {
            None => false,
            Some(i) => {
                let m = self.log.get_current();
                let v = m.proposals[i].content.proposal.clone();
                let lock = m.proposals[i].content.proposal.clone();
                let round = self.current.round;
                if self.current.step.is_prevote() {
                    self.locked = Some(Record { value: lock, round });
                    self.broadcast(Message::Precommit(Precommit::new(self.height, round, Some(facts.ids[i].cast()))));
                    self.current.step = Step::Precommit;
                    assert(self.outgoing@.drop_last() =~= old(self).outgoing@);
                }
                self.valid = Some(Record { value: v, round });
                true
            }
        }
    }

    /// Rule 44 applies: in step Prevote, prevotes for nil of more than two thirds of
    /// the weight are in for (height, round).
    pub open spec fn line44_fires(&self, facts: &Facts) -> bool {
        &&& self.current.step == Step::Prevote
        &&& facts.prevote_weight(self.height, self.current.round, IdFilter::Nil) > facts.two_f_spec()
    }

    pub fn line44_check(&self, facts: &Facts) -> (r: bool)
        ensures
            r == self.line44_fires(facts),
    {
        if !self.current.step.is_prevote() {
            return false;
        }
        tally(&facts.prevotes, self.height, self.current.round, &IdFilter::Nil, &facts.validators) > facts.two_f()
    }

    /// Rule 44: on a polka for nil in step Prevote, precommits nil and moves to step
    /// Precommit.
    pub fn line44(&mut self, facts: &Facts) -> (r: bool)
        requires
            old(self).wf(),
        ensures
            final(self).wf(),
            r == old(self).line44_fires(facts),
            r ==> final(self).progress() < old(self).progress(),
            r ==> old(self).after_line44(final(self)),
            !r ==> *final(self) == *old(self),
    {
        if self.line44_check(facts) {
            self.broadcast(Message::Precommit(Precommit::new(self.height, self.current.round, None)));
            self.current.step = Step::Precommit;
            assert(self.outgoing@.drop_last() =~= old(self).outgoing@);
            true
        } else {
            false
        }
    }

    /// Rule 47 applies: with no precommit timer yet, precommits of more than two
    /// thirds of the weight, for anything, are in for (height, round).
    pub open spec fn line47_fires(&self, facts: &Facts) -> bool {
        &&& !self.current.precommit_timeout_scheduled
        &&& facts.precommit_weight(self.height, self.current.round, IdFilter::Any) > facts.two_f_spec()
    }

    pub fn line47_check(&self, facts: &Facts) -> (r: bool)
        ensures
            r == self.line47_fires(facts),
    {
        if self.current.precommit_timeout_scheduled {
            return false;
        }
        tally(&facts.precommits, self.height, self.current.round, &IdFilter::Any, &facts.validators) > facts.two_f()
    }

    /// Rule 47: schedules the precommit timeout for (height, round) once.
    pub fn line47(&mut self, facts: &Facts, now: u64) -> (r: bool)
        requires
            old(self).wf(),
        ensures
            final(self).wf(),
            r == old(self).line47_fires(facts),
            r ==> final(self).progress() < old(self).progress(),
            r ==> old(self).after_line47(final(self), now),
            !r ==> *final(self) == *old(self),
    {
        if self.line47_check(facts) {
            self.timeouts.add(Timeouts::Precommit { height: self.height, round: self.current.round }, now, TIMEOUT_MS);
            self.current.precommit_timeout_scheduled = true;
            true
        } else {
            false
        }
    }

    /// Proposal `i` of the current height is from the proposer of its round, holds a
    /// valid block, and precommits of more than two thirds of the weight for it are
    /// in for its round.
    pub open spec fn decided_at(&self, facts: &Facts, i: int) -> bool {
        let p = self.messages().proposals@[i].content;
        &&& facts.from_proposer@[i]
        &&& p.height == self.height
        &&& facts.valid@[i]
        &&& facts.precommit_weight(self.height, p.round, IdFilter::Value(facts.ids@[i])) > facts.two_f_spec()
    }

    /// Among the first `n` proposals, the decided one of the lowest round; among
    /// those of one round, the first.
    pub open spec fn best_decision(&self, facts: &Facts, n: int) -> Option<int>
        decreases n,
    {
        if n <= 0 {
            None
        } else {
            let b = self.best_decision(facts, n - 1);
            let proposals = self.messages().proposals@;
            if self.decided_at(facts, n - 1) && (b is None || proposals[n - 1].content.round
                < proposals[b->0].content.round) {
                Some(n - 1)
            } else {
                b
            }
        }
    }

    /// The proposal that rule 49 commits. A replica whose log window reaches the
    /// last representable height commits no more.
    pub open spec fn line49_pick(&self, facts: &Facts) -> Option<int> {
        if self.height + LIMIT < u64::MAX {
            self.best_decision(facts, facts.from_proposer@.len() as int)
        } else {
            None
        }
    }

    /// Finds the proposal that rule 49 commits.
    pub fn line49_check(&self, facts: &Facts) -> (r: Option<usize>)
        requires
            self.wf(),
            facts.describes(self.messages()),
        ensures
            as_int(r) == self.line49_pick(facts),
            r matches Some(k) ==> k < facts.ids@.len(),
    {
        if self.height >= u64::MAX - LIMIT {
            return None;
        }
        let m = self.log.get_current();
        let two_f = facts.two_f();
        let mut best: Option<usize> = None;
        let mut i: usize = 0;
        while i < m.proposals.len()
            invariant
                i <= m.proposals@.len(),
                *m == self.messages(),
                facts.describes(self.messages()),
                two_f == facts.two_f_spec(),
                as_int(best) == self.best_decision(facts, i as int),
                best matches Some(k) ==> k < i,
            decreases m.proposals@.len() - i,
        {
            let c = &m.proposals[i];
            let mut found = false;
            if facts.from_proposer[i] && c.content.height == self.height && facts.valid[i] {
                let w = tally(
                    &facts.precommits,
                    self.height,
                    c.content.round,
                    &IdFilter::Value(facts.ids[i]),
                    &facts.validators,
                );
                found = w > two_f;
            }
            assert(found == self.decided_at(facts, i as int));
            if found {
                match best {
                    None => {
                        best = Some(i);
                    },
                    Some(b) => {
                        if c.content.round < m.proposals[b].content.round {
                            best = Some(i);
                        }
                    },
                }
            }
            i = i + 1;
        }
        best
    }

    /// Rule 49: on a decided proposal, commits its block, moves to the next height
    /// (clearing the lock, the valid value and the oldest height of the log) and
    /// starts its round 0.
    pub fn line49(&mut self, facts: &Facts, now: u64) -> (r: bool)
        requires
            old(self).wf(),
            facts.describes(old(self).messages()),
        ensures
            final(self).wf(),
            r == old(self).line49_pick(facts) is Some,
            r ==> final(self).progress() < old(self).progress(),
            r ==> old(self).after_line49(final(self), facts, now),
            !r ==> *final(self) == *old(self),
    {
        match self.line49_check(facts) {
            None => false,
            Some(i) => {
                let v = self.log.get_current().proposals[i].content.proposal.clone();
                self.app.commit(v);
                self.height = self.height + 1;
                self.locked = None;
                self.valid = None;
                self.log.increment_height();
                self.start_round(0, now);
                proof {
                    assert(self.log.slots().drop_last() =~= old(self).log.slots().drop_first());
                    assert(self.app.decisions().drop_last() =~= old(self).app.decisions());
                }
                true
            }
        }
    }

    /// On the propose timer for (`height`, `round`): if that is still the current
    /// round and step Propose, prevotes nil and moves to step Prevote.
    pub fn propose_timeout(&mut self, height: u64, round: u64) -> (r: bool)
        requires
            old(self).wf(),
        ensures
            final(self).wf(),
            r == (height == old(self).height && round == old(self).current.round && old(self).current.step
                == Step::Propose),
            old(self).after_propose_timeout(final(self), height, round),
            final(self).timeouts == old(self).timeouts,
            !r ==> *final(self) == *old(self),
    {
        if self.height == height && self.current.round == round && self.current.step.is_propose() {
            self.broadcast(Message::Prevote(Prevote::new(height, round, None)));
            self.current.step = Step::Prevote;
            assert(self.outgoing@.drop_last() =~= old(self).outgoing@);
            true
        } else {
            false
        }
    }

    /// On the prevote timer for (`height`, `round`): if that is still the current
    /// round and step Prevote, precommits nil and moves to step Precommit.
    pub fn prevote_timeout(&mut self, height: u64, round: u64) -> (r: bool)
        requires
            old(self).wf(),
        ensures
            final(self).wf(),
            r == (height == old(self).height && round == old(self).current.round && old(self).current.step
                == Step::Prevote),
            old(self).after_prevote_timeout(final(self), height, round),
            final(self).timeouts == old(self).timeouts,
            !r ==> *final(self) == *old(self),
    {
        if self.height == height && self.current.round == round && self.current.step.is_prevote() {
            self.broadcast(Message::Precommit(Precommit::new(height, round, None)));
            self.current.step = Step::Precommit;
            assert(self.outgoing@.drop_last() =~= old(self).outgoing@);
            true
        } else {
            false
        }
    }

    /// On the precommit timer for (`height`, `round`): if that is still the current
    /// round, whatever the step, starts the next round. The last representable round
    /// has no next one.
    pub fn precommit_timeout(&mut self, height: u64, round: u64, now: u64) -> (r: bool)
        requires
            old(self).wf(),
        ensures
            final(self).wf(),
            r == (height == old(self).height && round == old(self).current.round && round < u64::MAX),
            old(self).after_precommit_timeout(final(self), height, round, now, old(self).timeouts.pending()),
            !r ==> *final(self) == *old(self),
    {
        if self.height == height && self.current.round == round && round < u64::MAX {
            self.start_round(round + 1, now);
            true
        } else {
            false
        }
    }

    /// `next` is this replica after rule 22 fired.
    pub open spec fn after_line22(&self, next: &Self, facts: &Facts) -> bool {
        let i = self.line22_pick(facts)->0;
        &&& next.same_besides_round(self)
        &&& next.current == (RoundState { step: Step::Prevote, ..self.current })
        &&& next.outgoing@.drop_last() == self.outgoing@
        &&& next.outgoing@.len() == self.outgoing@.len() + 1
        &&& is_prevote_msg(
            next.outgoing@.last(),
            self.height,
            self.current.round,
            self.vote_for(facts, i, self.locked_allows(self.messages().proposals@[i].content.proposal)),
        )
    }

    /// `next` is this replica after rule 28 fired.
    pub open spec fn after_line28(&self, next: &Self, facts: &Facts) -> bool {
        let i = self.line28_pick(facts)->0;
        let vr = self.messages().proposals@[i].content.valid_round->0;
        &&& next.same_besides_round(self)
        &&& next.current == (RoundState { step: Step::Prevote, ..self.current })
        &&& next.outgoing@.drop_last() == self.outgoing@
        &&& next.outgoing@.len() == self.outgoing@.len() + 1
        &&& is_prevote_msg(
            next.outgoing@.last(),
            self.height,
            self.current.round,
            self.vote_for(
                facts,
                i,
                self.locked_allows_since(self.messages().proposals@[i].content.proposal, vr),
            ),
        )
    }

    /// `next` is this replica after rule 34 was evaluated: the prevote timer is
    /// scheduled if the rule applies; nothing changes otherwise.
    pub open spec fn after_line34(&self, next: &Self, facts: &Facts, now: u64) -> bool {
        if self.line34_fires(facts) {
            &&& next.app == self.app
            &&& next.height == self.height
            &&& next.locked == self.locked
            &&& next.valid == self.valid
            &&& next.log == self.log
            &&& next.outgoing == self.outgoing
            &&& next.current == (RoundState { prevote_timeout_scheduled: true, ..self.current })
            &&& next.timeouts.pending() == self.timeouts.pending().push(
                crate::timeout::Timeout {
                    time: (now as u128 + TIMEOUT_MS as u128) as u128,
                    value: Timeouts::Prevote { height: self.height, round: self.current.round },
                },
            )
        } else {
            *next == *self
        }
    }

    /// `next` is this replica after rule 36 fired.
    pub open spec fn after_line36(&self, next: &Self, facts: &Facts) -> bool {
        let i = self.line36_pick(facts)->0;
        let v = self.messages().proposals@[i].content.proposal;
        let round = self.current.round;
        &&& next.app == self.app
        &&& next.height == self.height
        &&& next.log == self.log
        &&& next.timeouts == self.timeouts
        &&& next.valid matches Some(rec) && rec.round == round && cloned(v, rec.value)
        &&& if self.current.step == Step::Prevote {
            &&& next.locked matches Some(rec) && rec.round == round && cloned(v, rec.value)
            &&& next.current == (RoundState { step: Step::Precommit, ..self.current })
            &&& next.outgoing@.drop_last() == self.outgoing@
            &&& next.outgoing@.len() == self.outgoing@.len() + 1
            &&& is_precommit_msg(next.outgoing@.last(), self.height, round, Some(facts.ids@[i]@))
        } else {
            &&& next.locked == self.locked
            &&& next.current == self.current
            &&& next.outgoing == self.outgoing
        }
    }

    /// `next` is this replica after rule 44 fired.
    pub open spec fn after_line44(&self, next: &Self) -> bool {
        &&& next.same_besides_round(self)
        &&& next.current == (RoundState { step: Step::Precommit, ..self.current })
        &&& next.outgoing@.drop_last() == self.outgoing@
        &&& next.outgoing@.len() == self.outgoing@.len() + 1
        &&& is_precommit_msg(next.outgoing@.last(), self.height, self.current.round, None)
    }

    /// `next` is this replica after rule 47 fired.
    pub open spec fn after_line47(&self, next: &Self, now: u64) -> bool {
        &&& next.app == self.app
        &&& next.height == self.height
        &&& next.locked == self.locked
        &&& next.valid == self.valid
        &&& next.log == self.log
        &&& next.outgoing == self.outgoing
        &&& next.current == (RoundState { precommit_timeout_scheduled: true, ..self.current })
        &&& next.timeouts.pending() == self.timeouts.pending().push(
            crate::timeout::Timeout {
                time: (now as u128 + TIMEOUT_MS as u128) as u128,
                value: Timeouts::Precommit { height: self.height, round: self.current.round },
            },
        )
    }

    /// `next` is this replica after rule 49 fired: the decided block is delivered to
    /// the application, the replica moves to the next height (lock, valid value and
    /// oldest log height cleared) and starts its round 0.
    pub open spec fn after_line49(&self, next: &Self, facts: &Facts, now: u64) -> bool {
        let i = self.line49_pick(facts)->0;
        let v = self.messages().proposals@[i].content.proposal;
        &&& next.app.decisions().len() == self.app.decisions().len() + 1
        &&& next.app.decisions().drop_last() == self.app.decisions()
        &&& cloned(v, next.app.decisions().last())
        &&& next.height == self.height + 1
        &&& next.locked is None
        &&& next.valid is None
        &&& next.current == RoundState::initial(0)
        &&& next.log.height_spec() == self.log.height_spec() + 1
        &&& next.log.slots().drop_last() == self.log.slots().drop_first()
        &&& next.log.slots().last().is_empty()
        &&& if next.app.proposer_spec(next.height, 0) == next.app.id_spec() {
            &&& next.timeouts.pending() == self.timeouts.pending()
            &&& next.outgoing@.drop_last() == self.outgoing@
            &&& next.outgoing@.len() == self.outgoing@.len() + 1
            &&& next.outgoing@.last() matches Message::Proposal(p)
            &&& p.height == next.height
            &&& p.round == 0
            &&& p.valid_round is None
        } else {
            &&& next.outgoing == self.outgoing
            &&& next.timeouts.pending() == self.timeouts.pending().push(
                crate::timeout::Timeout {
                    time: (now as u128 + TIMEOUT_MS as u128) as u128,
                    value: Timeouts::Propose { height: next.height, round: 0 },
                },
            )
        }
    }

    /// Which rule the rule pass applies after rule 34: the first of 22, 28, 36, 44,
    /// 47 and 49 that applies, or 0 for none.
    pub open spec fn first_rule(&self, facts: &Facts) -> int {
        if self.line22_pick(facts) is Some {
            22
        } else if self.line28_pick(facts) is Some {
            28
        } else if self.line36_pick(facts) is Some {
            36
        } else if self.line44_fires(facts) {
            44
        } else if self.line47_fires(facts) {
            47
        } else if self.line49_pick(facts) is Some {
            49
        } else {
            0
        }
    }

    /// `next` is this replica after the rule pass: rule 34 was evaluated, then the
    /// first other rule that applies fired.
    pub open spec fn after_rules(&self, mid: &Self, next: &Self, facts: &Facts, now: u64) -> bool {
        &&& self.after_line34(mid, facts, now)
        &&& (mid.first_rule(facts) == 0 ==> *next == *mid)
        &&& (mid.first_rule(facts) == 22 ==> mid.after_line22(next, facts))
        &&& (mid.first_rule(facts) == 28 ==> mid.after_line28(next, facts))
        &&& (mid.first_rule(facts) == 36 ==> mid.after_line36(next, facts))
        &&& (mid.first_rule(facts) == 44 ==> mid.after_line44(next))
        &&& (mid.first_rule(facts) == 47 ==> mid.after_line47(next, now))
        &&& (mid.first_rule(facts) == 49 ==> mid.after_line49(next, facts, now))
    }

    /// No rule applies: for the application's facts about the current messages, none
    /// of the rules 22 to 49 applies.
    pub open spec fn is_settled(&self) -> bool {
        exists|f: Facts|
            {
                &&& f.describes(self.messages())
                &&& f.from_app(&self.app, self.height, self.messages())
                &&& self.first_rule(&f) == 0
                &&& !self.line34_fires(&f)
            }
    }

    /// `next` is this replica after running the rules to a fixpoint: no rule applies,
    /// the height never went down, one block was delivered per height gained, and
    /// the log is untouched unless the height moved.
    pub open spec fn settled_into(&self, next: &Self) -> bool {
        &&& next.wf()
        &&& next.is_settled()
        &&& next.height >= self.height
        &&& next.app.decisions().len() + self.height == self.app.decisions().len() + next.height
        &&& next.app.decisions().subrange(0, self.app.decisions().len() as int) == self.app.decisions()
        &&& (next.height == self.height ==> next.log == self.log)
    }

    /// Evaluates rule 34, then fires the first of rules 22, 28, 36, 44, 47 and 49 that
    /// applies to `facts`. Returns whether one fired.
    pub fn check_rules(&mut self, facts: &Facts, now: u64) -> (r: bool)
        requires
            old(self).wf(),
            facts.describes(old(self).messages()),
        ensures
            final(self).wf(),
            final(self).height >= old(self).height,
            final(self).progress() <= old(self).progress(),
            r ==> final(self).progress() < old(self).progress(),
            exists|mid: Self|
                {
                    &&& old(self).after_rules(&mid, final(self), facts, now)
                    &&& r == (mid.first_rule(facts) != 0)
                },
    {
        self.line34(facts, now);
        let ghost mid = *self;
        let fired = if self.line22(facts) {
            true
        } else if self.line28(facts) {
            true
        } else if self.line36(facts) {
            true
        } else if self.line44(facts) {
            true
        } else if self.line47(facts, now) {
            true
        } else {
            self.line49(facts, now)
        };
        assert(old(self).after_rules(&mid, self, facts, now));
        fired
    }

    /// Runs the rules until none applies. Returns the facts on which none does.
    pub fn settle(&mut self, now: u64) -> (f: Facts)
        requires
            old(self).wf(),
        ensures
            old(self).settled_into(final(self)),
            f.describes(final(self).messages()),
            f.from_app(&final(self).app, final(self).height, final(self).messages()),
            final(self).first_rule(&f) == 0,
            !final(self).line34_fires(&f),
    {
        loop
            invariant
                self.wf(),
                self.height >= old(self).height,
                self.app.decisions().len() + old(self).height == old(self).app.decisions().len() + self.height,
                self.app.decisions().subrange(0, old(self).app.decisions().len() as int)
                    == old(self).app.decisions(),
                self.height == old(self).height ==> self.log == old(self).log,
            decreases self.progress(),
        {
            let facts = self.facts();
            let ghost before = *self;
            let fired = self.check_rules(&facts, now);
            proof {
                let mid = choose|mid: Self| before.after_rules(&mid, self, &facts, now) && fired == (mid.first_rule(&facts) != 0);
                if mid.first_rule(&facts) == 49 {
                    assert(self.app.decisions().subrange(0, old(self).app.decisions().len() as int)
                        =~= old(self).app.decisions());
                }
                if !fired {
                    assert(!self.line34_fires(&facts));
                    assert(self.is_settled());
                }
            }
            if !fired {
                return facts;
            }
        }
    }

    /// Starts round 0 of the first height.
    pub fn start(&mut self, now: u64)
        requires
            old(self).wf(),
            old(self).locked is None,
            old(self).valid is None,
        ensures
            final(self).wf(),
            old(self).started_round(final(self), 0, now),
    {
        self.start_round(0, now);
    }

    /// `next` is this replica with `broadcast` added to its log.
    pub open spec fn received(&self, next: &Self, broadcast: Broadcast<B>) -> bool {
        &&& next.log.is_add_of(&self.log, broadcast)
        &&& next.same_besides_log(self)
    }

    /// Everything but the log is as in `other`.
    pub open spec fn same_besides_log(&self, other: &Self) -> bool {
        &&& self.app == other.app
        &&& self.height == other.height
        &&& self.current == other.current
        &&& self.locked == other.locked
        &&& self.valid == other.valid
        &&& self.timeouts == other.timeouts
        &&& self.outgoing == other.outgoing
    }

    /// Takes in a broadcast: one whose signature fails is dropped; otherwise it is
    /// logged and the rules run until none applies. Returns whether it was taken in.
    pub fn on_broadcast(&mut self, broadcast: Broadcast<B>, now: u64) -> (r: bool)
        requires
            old(self).wf(),
        ensures
            final(self).wf(),
            final(self).height >= old(self).height,
            r == match broadcast {
                Broadcast::Proposal(c) => c.verify_spec(),
                Broadcast::Prevote(c) => c.verify_spec(),
                Broadcast::Precommit(c) => c.verify_spec(),
            },
            !r ==> *final(self) == *old(self),
            r ==> exists|mid: Self| old(self).received(&mid, broadcast) && mid.settled_into(final(self)),
    {
        if !broadcast.verify() {
            return false;
        }
        let ghost b = broadcast;
        self.log.add(broadcast);
        let ghost mid = *self;
        self.settle(now);
        assert(old(self).received(&mid, b) && mid.settled_into(self));
        true
    }

    /// `next` is this replica after the propose timer for (`height`, `round`), its
    /// timers aside: if that is still the current round and step Propose, it prevotes
    /// nil and moves to step Prevote; otherwise nothing changes.
    pub open spec fn after_propose_timeout(&self, next: &Self, height: u64, round: u64) -> bool {
        if height == self.height && round == self.current.round && self.current.step == Step::Propose {
            &&& next.same_besides_timers(self)
            &&& next.current == (RoundState { step: Step::Prevote, ..self.current })
            &&& next.outgoing@.drop_last() == self.outgoing@
            &&& next.outgoing@.len() == self.outgoing@.len() + 1
            &&& is_prevote_msg(next.outgoing@.last(), height, round, None)
        } else {
            &&& next.same_besides_timers(self)
            &&& next.current == self.current
            &&& next.outgoing == self.outgoing
        }
    }

    /// `next` is this replica after the prevote timer for (`height`, `round`), its
    /// timers aside: if that is still the current round and step Prevote, it
    /// precommits nil and moves to step Precommit; otherwise nothing changes.
    pub open spec fn after_prevote_timeout(&self, next: &Self, height: u64, round: u64) -> bool {
        if height == self.height && round == self.current.round && self.current.step == Step::Prevote {
            &&& next.same_besides_timers(self)
            &&& next.current == (RoundState { step: Step::Precommit, ..self.current })
            &&& next.outgoing@.drop_last() == self.outgoing@
            &&& next.outgoing@.len() == self.outgoing@.len() + 1
            &&& is_precommit_msg(next.outgoing@.last(), height, round, None)
        } else {
            &&& next.same_besides_timers(self)
            &&& next.current == self.current
            &&& next.outgoing == self.outgoing
        }
    }

    /// `next` is this replica after the precommit timer for (`height`, `round`), with
    /// `pending` the timers left: if that is still the current round, it starts the
    /// next one; otherwise nothing changes.
    pub open spec fn after_precommit_timeout(
        &self,
        next: &Self,
        height: u64,
        round: u64,
        now: u64,
        pending: Seq<crate::timeout::Timeout<Timeouts>>,
    ) -> bool {
        if height == self.height && round == self.current.round && round < u64::MAX {
            self.started_round_from(next, (round + 1) as u64, now, pending)
        } else {
            &&& next.same_besides_timers(self)
            &&& next.current == self.current
            &&& next.outgoing == self.outgoing
            &&& next.timeouts.pending() == pending
        }
    }

    /// The application, height, lock, valid value and log are as in `other`.
    pub open spec fn same_besides_timers(&self, other: &Self) -> bool {
        &&& self.app == other.app
        &&& self.height == other.height
        &&& self.locked == other.locked
        &&& self.valid == other.valid
        &&& self.log == other.log
    }

    /// `next` is this replica after the timer `tag`, its earliest, fired at `now`.
    pub open spec fn fired_timer(&self, next: &Self, tag: Timeouts, now: u64) -> bool {
        let s = self.timeouts.pending();
        let rest = s.remove(earliest_index(s));
        match tag {
            Timeouts::Propose { height, round } => self.after_propose_timeout(next, height, round)
                && next.timeouts.pending() == rest,
            Timeouts::Prevote { height, round } => self.after_prevote_timeout(next, height, round)
                && next.timeouts.pending() == rest,
            Timeouts::Precommit { height, round } => self.after_precommit_timeout(
                next,
                height,
                round,
                now,
                rest,
            ),
        }
    }

    /// A timer is due at `now`: the earliest deadline has passed.
    pub open spec fn timer_due(&self, now: u64) -> bool {
        let s = self.timeouts.pending();
        s.len() > 0 && s[earliest_index(s)].time <= now
    }

    /// Removes the earliest timer if it is due at `now` and runs its handler.
    /// Returns its tag.
    pub fn fire_timer(&mut self, now: u64) -> (r: Option<Timeouts>)
        requires
            old(self).wf(),
        ensures
            final(self).wf(),
            (r is Some) == old(self).timer_due(now),
            r is None ==> *final(self) == *old(self),
            r matches Some(tag) ==> {
                &&& tag == old(self).timeouts.pending()[earliest_index(old(self).timeouts.pending())].value
                &&& old(self).fired_timer(final(self), tag, now)
            },
    {
        let tag = self.timeouts.pop_due(now as u128);
        match tag {
            None => {},
            Some(Timeouts::Propose { height, round }) => {
                self.propose_timeout(height, round);
            },
            Some(Timeouts::Prevote { height, round }) => {
                self.prevote_timeout(height, round);
            },
            Some(Timeouts::Precommit { height, round }) => {
                self.precommit_timeout(height, round, now);
            },
        }
        tag
    }

    /// Fires the earliest timer if it is due at `now`, then runs the rules until none
    /// applies. Returns whether a timer fired.
    pub fn on_timer(&mut self, now: u64) -> (r: bool)
        requires
            old(self).wf(),
        ensures
            final(self).wf(),
            final(self).height >= old(self).height,
            r == old(self).timer_due(now),
            !r ==> *final(self) == *old(self),
            r ==> exists|mid: Self, tag: Timeouts| old(self).fired_timer(&mid, tag, now) && mid.settled_into(final(self)),
    {
        match self.fire_timer(now) {
            None => false,
            Some(tag) => {
                let ghost mid = *self;
                self.settle(now);
                assert(old(self).fired_timer(&mid, tag, now) && mid.settled_into(self));
                true
            },
        }
    }

    /// Signs the queued messages with the application's key and hands them over,
    /// oldest first.
    pub fn take_outgoing(&mut self) -> (r: Vec<Broadcast<B>>)
        requires
            old(self).wf(),
        ensures
            final(self).wf(),
            r@.len() == old(self).outgoing@.len(),
            forall|i: int| 0 <= i < r@.len() ==> signs(#[trigger] r@[i], old(self).outgoing@[i]),
            final(self).outgoing@.len() == 0,
            final(self).same_besides_round(old(self)),
            final(self).current == old(self).current,
    {
        let mut queued: Vec<Message<B>> = Vec::new();
        std::mem::swap(&mut queued, &mut self.outgoing);
        let ghost all = queued@;
        let mut out: Vec<Broadcast<B>> = Vec::new();
        while queued.len() > 0
            invariant
                out@.len() + queued@.len() == all.len(),
                queued@ == all.subrange(out@.len() as int, all.len() as int),
                forall|i: int| 0 <= i < out@.len() ==> signs(#[trigger] out@[i], all[i]),
            decreases queued@.len(),
        {
            let ghost k = out@.len() as int;
            let msg = queued.remove(0);
            let signed = match msg {
                Message::Proposal(p) => Broadcast::Proposal(self.app.sign(p)),
                Message::Prevote(p) => Broadcast::Prevote(self.app.sign(p)),
                Message::Precommit(p) => Broadcast::Precommit(self.app.sign(p)),
            };
            out.push(signed);
            assert(queued@ =~= all.subrange(out@.len() as int, all.len() as int));
        }
        out
    }

    /// Ballot `i` of the height is from a later round of the current height in which
    /// messages from more than a third of the weight are in.
    pub open spec fn skip_at(&self, facts: &Facts, i: int) -> bool {
        let b = facts.all_ballots()[i];
        &&& b.height == self.height
        &&& b.round > self.current.round
        &&& tally_of(facts.all_ballots(), self.height, b.round, IdFilter::Any, facts.validators@)
            > facts.validators.total_spec() / 3
    }

    /// The first ballot at index `lo` or later that calls for a round skip.
    pub open spec fn first_skip(&self, facts: &Facts, lo: int) -> Option<int>
        decreases facts.all_ballots().len() - lo,
    {
        if lo < 0 || lo >= facts.all_ballots().len() {
            None
        } else if self.skip_at(facts, lo) {
            Some(lo)
        } else {
            self.first_skip(facts, lo + 1)
        }
    }

    /// The round that rule 55 moves to: that of the first message, in log order, from
    /// a later round with messages from more than a third of the weight.
    pub open spec fn line55_pick(&self, facts: &Facts) -> Option<u64> {
        match self.first_skip(facts, 0) {
            Some(i) => Some(facts.all_ballots()[i].round),
            None => None,
        }
    }

    /// Finds the round that rule 55 moves to.
    pub fn line55_check(&self, facts: &Facts) -> (r: Option<u64>)
        ensures
            r == self.line55_pick(facts),
    {
        let mut all: Vec<Ballot> = Vec::new();
        let mut k: usize = 0;
        while k < facts.proposal_ballots.len()
            invariant
                k <= facts.proposal_ballots@.len(),
                all@ == facts.proposal_ballots@.subrange(0, k as int),
            decreases facts.proposal_ballots@.len() - k,
        {
            all.push(facts.proposal_ballots[k]);
            k = k + 1;
            assert(all@ =~= facts.proposal_ballots@.subrange(0, k as int));
        }
        assert(facts.proposal_ballots@.subrange(0, k as int) =~= facts.proposal_ballots@);
        k = 0;
        while k < facts.prevotes.len()
            invariant
                k <= facts.prevotes@.len(),
                all@ == facts.proposal_ballots@ + facts.prevotes@.subrange(0, k as int),
            decreases facts.prevotes@.len() - k,
        {
            all.push(facts.prevotes[k]);
            k = k + 1;
            assert(all@ =~= facts.proposal_ballots@ + facts.prevotes@.subrange(0, k as int));
        }
        assert(facts.prevotes@.subrange(0, k as int) =~= facts.prevotes@);
        k = 0;
        while k < facts.precommits.len()
            invariant
                k <= facts.precommits@.len(),
                all@ == facts.proposal_ballots@ + facts.prevotes@ + facts.precommits@.subrange(0, k as int),
            decreases facts.precommits@.len() - k,
        {
            all.push(facts.precommits[k]);
            k = k + 1;
            assert(all@ =~= facts.proposal_ballots@ + facts.prevotes@ + facts.precommits@.subrange(0, k as int));
        }
        assert(facts.precommits@.subrange(0, k as int) =~= facts.precommits@);
        assert(all@ == facts.all_ballots());
        let f = facts.f();
        let mut i: usize = 0;
        while i < all.len()
            invariant
                i <= all@.len(),
                all@ == facts.all_ballots(),
                f == facts.validators.total_spec() / 3,
                self.first_skip(facts, 0) == self.first_skip(facts, i as int),
            decreases all@.len() - i,
        {
            let b = &all[i];
            let mut found = false;
            if b.height == self.height && b.round > self.current.round {
                found = tally(&all, self.height, b.round, &IdFilter::Any, &facts.validators) > f;
            }
            assert(found == self.skip_at(facts, i as int));
            if found {
                assert(self.first_skip(facts, i as int) == Some(i as int));
                return Some(b.round);
            }
            i = i + 1;
        }
        None
    }

    /// Rule 55: on messages from more than a third of the weight at a later round of
    /// the current height, starts that round. It is not part of the rules that
    /// `check_rules` evaluates.
    pub fn line55(&mut self, facts: &Facts, now: u64) -> (r: bool)
        requires
            old(self).wf(),
        ensures
            final(self).wf(),
            r == old(self).line55_pick(facts) is Some,
            match old(self).line55_pick(facts) {
                Some(round) => {
                    &&& final(self).current == RoundState::initial(round)
                    &&& final(self).app == old(self).app
                    &&& final(self).height == old(self).height
                    &&& final(self).locked == old(self).locked
                    &&& final(self).valid == old(self).valid
                    &&& final(self).log == old(self).log
                },
                None => *final(self) == *old(self),
            },
    {
        match self.line55_check(facts) {
            Some(round) => {
                proof {
                    self.lemma_first_skip(facts, 0);
                }
                self.start_round(round, now);
                true
            },
            None => false,
        }
    }

    proof fn lemma_first_skip(&self, facts: &Facts, lo: int)
        ensures
            self.first_skip(facts, lo) matches Some(i) ==> self.skip_at(facts, i) && 0 <= i < facts.all_ballots().len(),
        decreases facts.all_ballots().len() - lo,
    {
        if 0 <= lo < facts.all_ballots().len() && !self.skip_at(facts, lo) {
            self.lemma_first_skip(facts, lo + 1);
        }
    }
}

} // verus!
