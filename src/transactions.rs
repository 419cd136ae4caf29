use vstd::prelude::*;

use crate::contracts::{Contract, UserId};
use crate::hash;
use crate::hash::{composite_digest, int_digest, Hashable};

verus! {

/// Creates a license from a seed.
pub struct UnsignedLicenseCreation {
    pub seed: u64,
}

/// Moves currency to `recipient`.
pub struct UnsignedCurrencyTransfer {
    pub amount: u64,
    pub recipient: UserId,
}

/// Sets the price at which the signer sells licenses.
pub struct UnsignedSelfListing {
    pub price: u64,
}

/// Orders a license from `seller` at `price`.
pub struct UnsignedLicenseOrder {
    pub seller: UserId,
    pub price: u64,
}

/// Offers an owned license for resale at `price`.
pub struct UnsignedLicenseListing {
    pub license: LicenseId,
    pub price: u64,
}

/// Buys a listed license from `seller` at `price`.
pub struct UnsignedLicensePurchase {
    pub seller: UserId,
    pub license: LicenseId,
    pub price: u64,
}

/// Gives an owned license to `recipient`.
pub struct UnsignedLicenseTransfer {
    pub license: LicenseId,
    pub recipient: UserId,
}

pub type LicenseCreation = Contract<UnsignedLicenseCreation>;

pub type CurrencyTransfer = Contract<UnsignedCurrencyTransfer>;

pub type SelfListing = Contract<UnsignedSelfListing>;

pub type LicenseOrder = Contract<UnsignedLicenseOrder>;

pub type LicenseListing = Contract<UnsignedLicenseListing>;

pub type LicensePurchase = Contract<UnsignedLicensePurchase>;

pub type LicenseTransfer = Contract<UnsignedLicenseTransfer>;

/// A license is named by the digest of the order that created it.
pub type LicenseId = hash::Hash<LicenseOrder>;

/// A signed ledger transaction.
pub enum Transaction {
    CurrencyTransfer(CurrencyTransfer),
    SelfListing(SelfListing),
    LicenseOrder(LicenseOrder),
    LicenseListing(LicenseListing),
    LicensePurchase(LicensePurchase),
    LicenseTransfer(LicenseTransfer),
}

fn combine2<T>(a: hash::Hash, b: hash::Hash) -> (r: hash::Hash<T>)
    ensures
        r@ == composite_digest(seq![a@, b@]),
{
    let parts = [a, b];
    let r = hash::Hash::combine(&parts);
    assert(parts@.map_values(|h: hash::Hash| h@) =~= seq![a@, b@]);
    r.cast()
}

fn combine3<T>(a: hash::Hash, b: hash::Hash, c: hash::Hash) -> (r: hash::Hash<T>)
    ensures
        r@ == composite_digest(seq![a@, b@, c@]),
{
    let parts = [a, b, c];
    let r = hash::Hash::combine(&parts);
    assert(parts@.map_values(|h: hash::Hash| h@) =~= seq![a@, b@, c@]);
    r.cast()
}

impl Hashable for UnsignedLicenseCreation {
    open spec fn digest(&self) -> Seq<u8> {
        int_digest(self.seed as nat, 8)
    }

    fn hash(&self) -> (r: hash::Hash<UnsignedLicenseCreation>) {
        self.seed.hash().cast()
    }
}

impl Hashable for UnsignedCurrencyTransfer {
    open spec fn digest(&self) -> Seq<u8> {
        composite_digest(seq![int_digest(self.amount as nat, 8), self.recipient@])
    }

    fn hash(&self) -> (r: hash::Hash<UnsignedCurrencyTransfer>) {
        combine2(self.amount.hash().cast(), self.recipient.cast())
    }
}

impl Hashable for UnsignedSelfListing {
    open spec fn digest(&self) -> Seq<u8> {
        int_digest(self.price as nat, 8)
    }

    fn hash(&self) -> (r: hash::Hash<UnsignedSelfListing>) {
        self.price.hash().cast()
    }
}

impl Hashable for UnsignedLicenseOrder {
    open spec fn digest(&self) -> Seq<u8> {
        composite_digest(seq![self.seller@, int_digest(self.price as nat, 8)])
    }

    fn hash(&self) -> (r: hash::Hash<UnsignedLicenseOrder>) {
        combine2(self.seller.cast(), self.price.hash().cast())
    }
}

impl Hashable for UnsignedLicenseListing {
    open spec fn digest(&self) -> Seq<u8> {
        composite_digest(seq![self.license@, int_digest(self.price as nat, 8)])
    }

    fn hash(&self) -> (r: hash::Hash<UnsignedLicenseListing>) {
        combine2(self.license.cast(), self.price.hash().cast())
    }
}

impl Hashable for UnsignedLicensePurchase {
    open spec fn digest(&self) -> Seq<u8> {
        composite_digest(seq![self.seller@, self.license@, int_digest(self.price as nat, 8)])
    }

    fn hash(&self) -> (r: hash::Hash<UnsignedLicensePurchase>) {
        combine3(self.seller.cast(), self.license.cast(), self.price.hash().cast())
    }
}

impl Hashable for UnsignedLicenseTransfer {
    open spec fn digest(&self) -> Seq<u8> {
        composite_digest(seq![self.license@, self.recipient@])
    }

    fn hash(&self) -> (r: hash::Hash<UnsignedLicenseTransfer>) {
        combine2(self.license.cast(), self.recipient.cast())
    }
}

} // verus!
