use ed25519_dalek::Signer;
use ed25519_dalek::Verifier;
use vstd::prelude::*;

use crate::bytes::{append_bytes, be_bytes, be_encode};
use crate::hash;
use crate::hash::{composite_digest, int_digest, sha256_of, Hashable};

verus! {

/// The Ed25519 public key that belongs to a 32-byte secret key.
pub uninterp spec fn ed25519_public_of(secret: Seq<u8>) -> Seq<u8>;

/// The Ed25519 signature of `msg` under a 32-byte secret key.
pub uninterp spec fn ed25519_signature(secret: Seq<u8>, msg: Seq<u8>) -> Seq<u8>;

/// Whether Ed25519 accepts `sig` as a signature of `msg` under the public key `key`.
pub uninterp spec fn ed25519_accepts(key: Seq<u8>, msg: Seq<u8>, sig: Seq<u8>) -> bool;

/// Relies on ed25519_dalek's `PublicKey::from(&SecretKey)`: the public half of a
/// secret key. `SecretKey::from_bytes` fails only on a length other than 32.
#[verifier::external_body]
fn public_of(secret: &[u8; 32]) -> (r: [u8; 32])
    ensures
        r@ == ed25519_public_of(secret@),
{
    let secret = ed25519_dalek::SecretKey::from_bytes(secret).unwrap();
    ed25519_dalek::PublicKey::from(&secret).to_bytes()
}

/// Relies on ed25519_dalek's `Keypair::sign`: the deterministic Ed25519 signature of
/// `msg`, with the public key derived from the secret one; `PublicKey::verify` accepts
/// it under that public key.
#[verifier::external_body]
fn sign_with(secret: &[u8; 32], msg: &[u8]) -> (r: [u8; 64])
    ensures
        r@ == ed25519_signature(secret@, msg@),
        ed25519_accepts(ed25519_public_of(secret@), msg@, r@),
{
    let secret = ed25519_dalek::SecretKey::from_bytes(secret).unwrap();
    let public = ed25519_dalek::PublicKey::from(&secret);
    ed25519_dalek::Keypair { secret, public }.sign(msg).to_bytes()
}

/// Relies on ed25519_dalek's `PublicKey::verify`; bytes that do not decode as a key
/// or a signature are rejected.
#[verifier::external_body]
fn verify_with(key: &[u8; 32], msg: &[u8], sig: &[u8; 64]) -> (r: bool)
    ensures
        r == ed25519_accepts(key@, msg@, sig@),
{
    match (ed25519_dalek::PublicKey::from_bytes(key), ed25519_dalek::Signature::from_bytes(sig)) {
        (Ok(key), Ok(sig)) => key.verify(msg, &sig).is_ok(),
        _ => false,
    }
}

/// Relies on rand's `random`, drawn from the thread-local CSPRNG; nothing is known
/// of the value.
pub assume_specification<T>[ rand::random::<T> ]() -> (r: T)
    where
        rand::distributions::Standard: rand::distributions::Distribution<T>,
;

/// Relies on std's `SystemTime::elapsed` of `UNIX_EPOCH`: milliseconds since the
/// epoch, or 0 for a clock set before it. Nothing is known of the value.
#[verifier::external_body]
fn now_millis() -> (r: u128) {
    match std::time::UNIX_EPOCH.elapsed() {
        Ok(d) => d.as_millis(),
        Err(_) => 0,
    }
}

/// An Ed25519 public key, as its 32 encoded bytes.
pub struct PublicKey {
    key: [u8; 32],
}

/// A validator's identity: the digest of its public key.
pub type UserId = hash::Hash<PublicKey>;

impl View for PublicKey {
    type V = Seq<u8>;

    closed spec fn view(&self) -> Seq<u8> {
        self.key@
    }
}

impl PublicKey {
    /// The key with the given encoding.
    pub fn from_bytes(key: [u8; 32]) -> (r: PublicKey)
        ensures
            r@ == key@,
    {
        PublicKey { key }
    }

    /// The encoding of the key.
    pub fn to_bytes(&self) -> (r: [u8; 32])
        ensures
            r@ == self@,
    {
        self.key
    }

    fn verify_bytes(&self, msg: &[u8], sig: &Signature) -> (r: bool)
        ensures
            r == ed25519_accepts(self@, msg@, sig@),
    {
        verify_with(&self.key, msg, &sig.bytes)
    }
}

impl Clone for PublicKey {
    fn clone(&self) -> (r: Self)
        ensures
            r@ == self@,
    {
        PublicKey { key: self.key }
    }
}

impl Hashable for PublicKey {
    open spec fn digest(&self) -> Seq<u8> {
        sha256_of(self@)
    }

    fn hash(&self) -> (r: hash::Hash<PublicKey>) {
        hash::Hash::from_bytes(&self.key).cast()
    }
}

/// An Ed25519 signature, as its 64 encoded bytes.
pub struct Signature {
    bytes: [u8; 64],
}

impl View for Signature {
    type V = Seq<u8>;

    closed spec fn view(&self) -> Seq<u8> {
        self.bytes@
    }
}

impl Signature {
    /// The signature with the given encoding.
    pub fn from_bytes(bytes: [u8; 64]) -> (r: Signature)
        ensures
            r@ == bytes@,
    {
        Signature { bytes }
    }

    /// The encoding of the signature.
    pub fn to_bytes(&self) -> (r: [u8; 64])
        ensures
            r@ == self@,
    {
        self.bytes
    }
}

impl Clone for Signature {
    fn clone(&self) -> (r: Self)
        ensures
            r@ == self@,
    {
        Signature { bytes: self.bytes }
    }
}

impl Hashable for Signature {
    open spec fn digest(&self) -> Seq<u8> {
        sha256_of(self@)
    }

    fn hash(&self) -> (r: hash::Hash<Signature>) {
        hash::Hash::from_bytes(&self.bytes).cast()
    }
}

/// An Ed25519 secret key, as its 32 bytes.
pub struct PrivateKey {
    secret: [u8; 32],
}

impl View for PrivateKey {
    type V = Seq<u8>;

    closed spec fn view(&self) -> Seq<u8> {
        self.secret@
    }
}

/// The bytes that a contract's signature covers: the content's digest followed by
/// the 16-byte big-endian timestamp.
pub open spec fn signed_message(content_digest: Seq<u8>, timestamp: u128) -> Seq<u8> {
    content_digest + be_bytes(timestamp as nat, 16)
}

fn message_to_sign(content: &hash::Hash<()>, timestamp: u128) -> (r: Vec<u8>)
    ensures
        r@ == signed_message(content@, timestamp),
{
    let mut msg: Vec<u8> = Vec::new();
    append_bytes(&mut msg, content.get_bytes());
    let stamp = be_encode(timestamp, 16);
    append_bytes(&mut msg, stamp.as_slice());
    msg
}

impl PrivateKey {
    /// A fresh secret key from the thread-local CSPRNG.
    pub fn generate() -> PrivateKey {
        PrivateKey { secret: rand::random() }
    }

    /// The key with the given 32 secret bytes.
    pub fn from_bytes(secret: [u8; 32]) -> (r: PrivateKey)
        ensures
            r@ == secret@,
    {
        PrivateKey { secret }
    }

    /// The public key that verifies this key's signatures.
    pub fn get_public(&self) -> (r: PublicKey)
        ensures
            r@ == ed25519_public_of(self@),
    {
        PublicKey { key: public_of(&self.secret) }
    }

    fn sign_bytes(&self, msg: &[u8]) -> (r: Signature)
        ensures
            r@ == ed25519_signature(self@, msg@),
            ed25519_accepts(ed25519_public_of(self@), msg@, r@),
    {
        Signature { bytes: sign_with(&self.secret, msg) }
    }

    /// Signs `content`, stamped with the current wall-clock time in milliseconds.
    pub fn sign<T: Hashable>(&self, content: T) -> (r: Contract<T>)
        ensures
            r.is_signed_by(self@, content),
            r.verify_spec(),
    {
        let timestamp = now_millis();
        self.sign_at(content, timestamp)
    }

    /// Signs `content` with the given timestamp.
    pub fn sign_at<T: Hashable>(&self, content: T, timestamp: u128) -> (r: Contract<T>)
        ensures
            r.is_signed_by(self@, content),
            r.timestamp == timestamp,
            r.verify_spec(),
    {
        let digest = content.hash().cast();
        let msg = message_to_sign(&digest, timestamp);
        Contract {
            signee: self.get_public(),
            signature: self.sign_bytes(msg.as_slice()),
            timestamp,
            content,
        }
    }
}

/// A signed, timestamped envelope around a hashable payload.
#[derive(Clone)]
pub struct Contract<T: Hashable> {
    pub signee: PublicKey,
    pub signature: Signature,
    pub timestamp: u128,
    pub content: T,
}

impl<T: Hashable> Contract<T> {
    /// This contract holds `content`, was made by the secret key `secret`, and
    /// carries that key's signature of its content digest and timestamp.
    pub open spec fn is_signed_by(&self, secret: Seq<u8>, content: T) -> bool {
        &&& self.content == content
        &&& self.signee@ == ed25519_public_of(secret)
        &&& self.signature@ == ed25519_signature(
            secret,
            signed_message(content.digest(), self.timestamp),
        )
    }

    /// Whether Ed25519 accepts the signature of the content digest and timestamp
    /// under `signee`.
    pub open spec fn verify_spec(&self) -> bool {
        ed25519_accepts(self.signee@, signed_message(self.content.digest(), self.timestamp), self.signature@)
    }

    /// Whether the signature covers the content digest and timestamp under `signee`.
    pub fn verify(&self) -> (r: bool)
        ensures
            r == self.verify_spec(),
    {
        let digest = self.content.hash().cast();
        let msg = message_to_sign(&digest, self.timestamp);
        self.signee.verify_bytes(msg.as_slice(), &self.signature)
    }
}

impl<T: Hashable> Hashable for Contract<T> {
    open spec fn digest(&self) -> Seq<u8> {
        composite_digest(
            seq![
                self.signee.digest(),
                sha256_of(self.signature@),
                int_digest(self.timestamp as nat, 16),
                self.content.digest(),
            ],
        )
    }

    fn hash(&self) -> (r: hash::Hash<Contract<T>>) {
        let parts = [
            self.signee.hash().cast(),
            self.signature.hash().cast(),
            self.timestamp.hash().cast(),
            self.content.hash().cast(),
        ];
        let r = hash::Hash::combine(&parts);
        assert(parts@.map_values(|h: hash::Hash| h@) =~= seq![
            self.signee.digest(),
            sha256_of(self.signature@),
            int_digest(self.timestamp as nat, 16),
            self.content.digest(),
        ]);
        r.cast()
    }
}

} // verus!
