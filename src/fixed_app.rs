use vstd::prelude::*;

use crate::contracts::{ed25519_public_of, Contract, PrivateKey, UserId};
use crate::hash;
use crate::hash::Hashable;
use crate::quorum::ValidatorSet;
use crate::tendermint::App;

verus! {

/// An application over `u64` blocks with a fixed validator set: proposers take turns
/// in the order of `order`, a fresh block is `base` plus the number of blocks decided
/// so far, and a block is valid when it is at least `min_valid`.
pub struct FixedApp {
    key: PrivateKey,
    validators: ValidatorSet,
    order: Vec<UserId>,
    base: u64,
    min_valid: u64,
    decided: Vec<u64>,
}

impl FixedApp {
    /// An application that signs with `key`, has decided nothing yet, and whose
    /// validators propose in the order of `order`.
    pub fn new(key: PrivateKey, validators: ValidatorSet, order: Vec<UserId>, base: u64, min_valid: u64) -> (r: FixedApp)
        ensures
            r.decisions().len() == 0,
            r.id_spec() == hash::sha256_of(ed25519_public_of(key@)),
            r.validators_spec() == validators@,
    {
        FixedApp { key, validators, order, base, min_valid, decided: Vec::new() }
    }

    /// The blocks decided so far, in order.
    pub fn decided(&self) -> (r: &Vec<u64>)
        ensures
            r@ == self.decisions(),
    {
        &self.decided
    }
}

impl App<u64> for FixedApp {
    closed spec fn id_spec(&self) -> Seq<u8> {
        hash::sha256_of(ed25519_public_of(self.key@))
    }

    closed spec fn proposer_spec(&self, height: u64, round: u64) -> Seq<u8> {
        if self.order@.len() == 0 {
            self.id_spec()
        } else {
            self.order@[((height + round) % (self.order@.len() as int))]@
        }
    }

    closed spec fn validators_spec(&self) -> Seq<(Seq<u8>, u64)> {
        self.validators@
    }

    closed spec fn valid_spec(&self, block: &u64) -> bool {
        *block >= self.min_valid
    }

    closed spec fn decisions(&self) -> Seq<u64> {
        self.decided@
    }

    fn id(&self) -> (r: UserId) {
        self.key.get_public().hash()
    }

    fn validators(&self) -> (r: ValidatorSet) {
        self.validators.copy()
    }

    fn proposer(&self, height: u64, round: u64) -> (r: UserId) {
        if self.order.len() == 0 {
            return self.id();
        }
        let n = self.order.len() as u128;
        let k = ((height as u128 + round as u128) % n) as usize;
        self.order[k]
    }

    fn create_block(&self) -> u64 {
        self.base.wrapping_add(self.decided.len() as u64)
    }

    fn validate_block(&self, block: &u64) -> (r: bool) {
        *block >= self.min_valid
    }

    fn commit(&mut self, block: u64) {
        self.decided.push(block);
    }

    fn sign<T: Hashable>(&self, content: T) -> (r: Contract<T>) {
        self.key.sign(content)
    }
}

} // verus!
