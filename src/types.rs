use vstd::prelude::*;

use crate::contracts::Contract;
use crate::hash;
use crate::hash::{composite_digest, int_digest, Hashable};

verus! {

/// The step of a round.
#[derive(PartialEq, Eq, Structural, Clone, Copy, Debug)]
pub enum Step {
    Propose,
    Prevote,
    Precommit,
}

impl Step {
    pub fn is_propose(&self) -> (r: bool)
        ensures
            r == (*self == Step::Propose),
    {
        matches!(self, Step::Propose)
    }

    pub fn is_prevote(&self) -> (r: bool)
        ensures
            r == (*self == Step::Prevote),
    {
        matches!(self, Step::Prevote)
    }

    pub fn is_precommit(&self) -> (r: bool)
        ensures
            r == (*self == Step::Precommit),
    {
        matches!(self, Step::Precommit)
    }

    /// The step's position in a round: 0, 1 or 2.
    pub open spec fn index(self) -> nat {
        match self {
            Step::Propose => 0,
            Step::Prevote => 1,
            Step::Precommit => 2,
        }
    }
}

/// A step hashes as the `i32` 0, 1 or 2.
impl Hashable for Step {
    open spec fn digest(&self) -> Seq<u8> {
        int_digest(self.index(), 4)
    }

    fn hash(&self) -> (r: hash::Hash<Step>) {
        let n: i32 = match self {
            Step::Propose => 0,
            Step::Prevote => 1,
            Step::Precommit => 2,
        };
        n.hash().cast()
    }
}

/// A proposed value for (`height`, `round`); `valid_round` is the round of the polka
/// that makes it a re-proposal, if it is one.
#[derive(Clone)]
pub struct Proposal<T: Hashable> {
    pub height: u64,
    pub round: u64,
    pub proposal: T,
    pub valid_round: Option<u64>,
}

impl<T: Hashable> Hashable for Proposal<T> {
    open spec fn digest(&self) -> Seq<u8> {
        composite_digest(
            seq![
                int_digest(self.height as nat, 8),
                int_digest(self.round as nat, 8),
                self.proposal.digest(),
                self.valid_round.digest(),
            ],
        )
    }

    fn hash(&self) -> (r: hash::Hash<Proposal<T>>) {
        let parts = [
            self.height.hash().cast(),
            self.round.hash().cast(),
            self.proposal.hash().cast(),
            self.valid_round.hash().cast(),
        ];
        let r = hash::Hash::combine(&parts);
        assert(parts@.map_values(|h: hash::Hash| h@) =~= seq![
            int_digest(self.height as nat, 8),
            int_digest(self.round as nat, 8),
            self.proposal.digest(),
            self.valid_round.digest(),
        ]);
        r.cast()
    }
}

/// A prevote at (`height`, `round`) for the value with digest `id`, or for nil.
#[derive(Clone)]
pub struct Prevote<T> {
    pub height: u64,
    pub round: u64,
    pub id: Option<hash::Hash<T>>,
}

impl<T> Prevote<T> {
    pub fn new(height: u64, round: u64, id: Option<hash::Hash<T>>) -> (r: Prevote<T>)
        ensures
            r.height == height,
            r.round == round,
            r.id == id,
    {
        Prevote { height, round, id }
    }
}

/// A precommit at (`height`, `round`) for the value with digest `id`, or for nil.
#[derive(Clone)]
pub struct Precommit<T> {
    pub height: u64,
    pub round: u64,
    pub id: Option<hash::Hash<T>>,
}

impl<T> Precommit<T> {
    pub fn new(height: u64, round: u64, id: Option<hash::Hash<T>>) -> (r: Precommit<T>)
        ensures
            r.height == height,
            r.round == round,
            r.id == id,
    {
        Precommit { height, round, id }
    }
}

/// The digest of a vote: the composite of its height, round and id.
pub open spec fn vote_digest<T>(height: u64, round: u64, id: Option<hash::Hash<T>>) -> Seq<u8> {
    composite_digest(seq![int_digest(height as nat, 8), int_digest(round as nat, 8), id.digest()])
}

fn hash_vote<T, V>(height: u64, round: u64, id: &Option<hash::Hash<T>>) -> (r: hash::Hash<V>)
    ensures
        r@ == vote_digest(height, round, *id),
{
    let parts = [height.hash().cast(), round.hash().cast(), id.hash().cast()];
    let r = hash::Hash::combine(&parts);
    assert(parts@.map_values(|h: hash::Hash| h@) =~= seq![
        int_digest(height as nat, 8),
        int_digest(round as nat, 8),
        id.digest(),
    ]);
    r.cast()
}

impl<T> Hashable for Prevote<T> {
    open spec fn digest(&self) -> Seq<u8> {
        vote_digest(self.height, self.round, self.id)
    }

    fn hash(&self) -> (r: hash::Hash<Prevote<T>>) {
        hash_vote(self.height, self.round, &self.id)
    }
}

impl<T> Hashable for Precommit<T> {
    open spec fn digest(&self) -> Seq<u8> {
        vote_digest(self.height, self.round, self.id)
    }

    fn hash(&self) -> (r: hash::Hash<Precommit<T>>) {
        hash_vote(self.height, self.round, &self.id)
    }
}

/// A signed consensus message as it travels between replicas.
#[derive(Clone)]
pub enum Broadcast<B: Hashable> {
    Proposal(Contract<Proposal<B>>),
    Prevote(Contract<Prevote<B>>),
    Precommit(Contract<Precommit<B>>),
}

impl<B: Hashable> Broadcast<B> {
    /// The height the message is about.
    pub open spec fn height_spec(&self) -> u64 {
        match self {
            Broadcast::Proposal(c) => c.content.height,
            Broadcast::Prevote(c) => c.content.height,
            Broadcast::Precommit(c) => c.content.height,
        }
    }

    /// Whether the message's signature checks out.
    pub fn verify(&self) -> (r: bool)
        ensures
            r == match self {
                Broadcast::Proposal(c) => c.verify_spec(),
                Broadcast::Prevote(c) => c.verify_spec(),
                Broadcast::Precommit(c) => c.verify_spec(),
            },
    {
        match self {
            Broadcast::Proposal(c) => c.verify(),
            Broadcast::Prevote(c) => c.verify(),
            Broadcast::Precommit(c) => c.verify(),
        }
    }
}

/// A consensus message this replica emits, before it is signed.
#[derive(Clone)]
pub enum Message<B: Hashable> {
    Proposal(Proposal<B>),
    Prevote(Prevote<B>),
    Precommit(Precommit<B>),
}

/// Why the driver stops.
#[derive(PartialEq, Eq, Structural, Clone, Copy, Debug)]
pub enum Error {
    /// The channel of outgoing broadcasts was closed.
    OutgoingClosed,
    /// The channel of incoming broadcasts was closed.
    IncomingClosed,
}

} // verus!
