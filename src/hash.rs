use core::marker::PhantomData;
use sha2::Digest;
use vstd::prelude::*;

use crate::bytes::{append_bytes, be_bytes, be_encode};

verus! {

/// The SHA-256 digest of a byte string.
pub uninterp spec fn sha256_of(msg: Seq<u8>) -> Seq<u8>;

/// Relies on sha2's `Sha256`: the 32-byte digest of `msg`, a function of `msg` alone.
#[verifier::external_body]
fn sha256(msg: &[u8]) -> (r: [u8; 32])
    ensures
        r@ == sha256_of(msg@),
{
    let mut hasher = sha2::Sha256::new();
    hasher.update(msg);
    let mut out = [0u8; 32];
    out.copy_from_slice(&hasher.finalize());
    out
}

/// A 256-bit content digest, tagged with the type of the value it was taken of.
#[derive(Debug)]
pub struct Hash<T = ()> {
    bytes: [u8; 32],
    kind: PhantomData<T>,
}

impl<T> View for Hash<T> {
    type V = Seq<u8>;

    closed spec fn view(&self) -> Seq<u8> {
        self.bytes@
    }
}

impl<T> Clone for Hash<T> {
    fn clone(&self) -> (r: Self)
        ensures
            r@ == self@,
    {
        Hash { bytes: self.bytes, kind: PhantomData }
    }
}

impl<T> Copy for Hash<T> {
}

impl Hash {
    /// The digest of a byte string.
    pub fn from_bytes(msg: &[u8]) -> (r: Hash<Vec<u8>>)
        ensures
            r@ == sha256_of(msg@),
    {
        Hash { bytes: sha256(msg), kind: PhantomData }
    }
}

impl<T> Hash<T> {
    /// The digest of the empty byte string.
    pub fn empty() -> (r: Hash<T>)
        ensures
            r@ == sha256_of(Seq::empty()),
    {
        let none: Vec<u8> = Vec::new();
        assert(none@ == Seq::<u8>::empty());
        Hash::from_bytes(none.as_slice()).cast()
    }

    /// The digest with the given raw bytes.
    pub fn from_digest(bytes: [u8; 32]) -> (r: Hash<T>)
        ensures
            r@ == bytes@,
    {
        Hash { bytes, kind: PhantomData }
    }

    /// The raw 32 bytes of the digest.
    pub fn get_bytes(&self) -> (r: &[u8; 32])
        ensures
            r@ == self@,
    {
        &self.bytes
    }

    /// The same digest, tagged with another type.
    pub fn cast<H>(&self) -> (r: Hash<H>)
        ensures
            r@ == self@,
    {
        Hash { bytes: self.bytes, kind: PhantomData }
    }

    /// Whether two digests hold the same bytes.
    pub fn same(&self, other: &Hash<T>) -> (r: bool)
        ensures
            r == (self@ == other@),
    {
        let mut i: usize = 0;
        while i < 32
            invariant
                i <= 32,
                self@.len() == 32,
                other@.len() == 32,
                forall|j: int| 0 <= j < i ==> self@[j] == other@[j],
            decreases 32 - i,
        {
            if self.bytes[i] != other.bytes[i] {
                return false;
            }
            i = i + 1;
        }
        assert(self@ =~= other@);
        true
    }

    /// The digest in upper-case hexadecimal.
    pub fn to_hex(&self) -> (r: String)
        ensures
            r@ == hex_upper(self@),
    {
        hex_encode(&self.bytes)
    }
}

impl Hash {
    /// The digest of the concatenation of two digests.
    pub fn concat(lhs: &Hash, rhs: &Hash) -> (r: Hash)
        ensures
            r@ == sha256_of(lhs@ + rhs@),
    {
        let mut msg: Vec<u8> = Vec::new();
        append_bytes(&mut msg, &lhs.bytes);
        append_bytes(&mut msg, &rhs.bytes);
        Hash::from_bytes(msg.as_slice()).cast()
    }

    /// The digest of a composite: SHA-256 over its parts' digests, in order.
    pub fn combine(parts: &[Hash]) -> (r: Hash)
        ensures
            r@ == composite_digest(parts@.map_values(|h: Hash| h@)),
    {
        let ghost views = parts@.map_values(|h: Hash| h@);
        let mut msg: Vec<u8> = Vec::new();
        let mut i: usize = 0;
        while i < parts.len()
            invariant
                i <= parts@.len(),
                views == parts@.map_values(|h: Hash| h@),
                msg@ == views.subrange(0, i as int).flatten_alt(),
            decreases parts@.len() - i,
        {
            append_bytes(&mut msg, &parts[i].bytes);
            i = i + 1;
            assert(views.subrange(0, i as int).drop_last() == views.subrange(0, i - 1 as int));
        }
        assert(views.subrange(0, parts@.len() as int) == views);
        Hash::from_bytes(msg.as_slice()).cast()
    }
}

impl<T> PartialEq for Hash<T> {
    fn eq(&self, other: &Hash<T>) -> (r: bool) {
        self.same(other)
    }
}

impl<T> vstd::std_specs::cmp::PartialEqSpecImpl for Hash<T> {
    open spec fn obeys_eq_spec() -> bool {
        true
    }

    open spec fn eq_spec(&self, other: &Hash<T>) -> bool {
        self@ == other@
    }
}

impl<T> Eq for Hash<T> {
}

/// The digest of a composite whose parts have the given digests.
pub open spec fn composite_digest(parts: Seq<Seq<u8>>) -> Seq<u8> {
    sha256_of(parts.flatten_alt())
}

/// One hexadecimal digit, upper case.
pub open spec fn hex_digit(n: int) -> char {
    seq!['0', '1', '2', '3', '4', '5', '6', '7', '8', '9', 'A', 'B', 'C', 'D', 'E', 'F'][n]
}

/// Two upper-case hexadecimal digits per byte, high nibble first.
pub open spec fn hex_upper(b: Seq<u8>) -> Seq<char>
    decreases b.len(),
{
    if b.len() == 0 {
        Seq::empty()
    } else {
        seq![hex_digit(b[0] as int / 16), hex_digit(b[0] as int % 16)] + hex_upper(b.drop_first())
    }
}

/// Relies on data_encoding's `HEXUPPER.encode`: two upper-case hex digits per byte.
#[verifier::external_body]
fn hex_encode(b: &[u8]) -> (r: String)
    ensures
        r@ == hex_upper(b@),
{
    data_encoding::HEXUPPER.encode(b)
}

/// A value with a content digest.
pub trait Hashable: Sized {
    /// The digest that `hash` returns.
    spec fn digest(&self) -> Seq<u8>;

    fn hash(&self) -> (r: Hash<Self>)
        ensures
            r@ == self.digest(),
    ;
}

impl<T> Hashable for Hash<T> {
    open spec fn digest(&self) -> Seq<u8> {
        self@
    }

    fn hash(&self) -> (r: Hash<Hash<T>>) {
        self.cast()
    }
}

impl Hashable for Vec<u8> {
    open spec fn digest(&self) -> Seq<u8> {
        sha256_of(self@)
    }

    fn hash(&self) -> (r: Hash<Vec<u8>>) {
        Hash::from_bytes(self.as_slice())
    }
}

/// The digest of an unsigned integer: SHA-256 over its `n`-byte big-endian encoding.
pub open spec fn int_digest(x: nat, n: nat) -> Seq<u8> {
    sha256_of(be_bytes(x, n))
}

fn int_hash<T>(x: u128, n: usize) -> (r: Hash<T>)
    ensures
        r@ == int_digest(x as nat, n as nat),
{
    let enc = be_encode(x, n);
    Hash::from_bytes(enc.as_slice()).cast()
}

impl Hashable for u8 {
    open spec fn digest(&self) -> Seq<u8> {
        int_digest(*self as nat, 1)
    }

    fn hash(&self) -> (r: Hash<u8>) {
        int_hash(*self as u128, 1)
    }
}

impl Hashable for u64 {
    open spec fn digest(&self) -> Seq<u8> {
        int_digest(*self as nat, 8)
    }

    fn hash(&self) -> (r: Hash<u64>) {
        int_hash(*self as u128, 8)
    }
}

impl Hashable for u128 {
    open spec fn digest(&self) -> Seq<u8> {
        int_digest(*self as nat, 16)
    }

    fn hash(&self) -> (r: Hash<u128>) {
        int_hash(*self, 16)
    }
}

impl Hashable for u16 {
    open spec fn digest(&self) -> Seq<u8> {
        int_digest(*self as nat, 2)
    }

    fn hash(&self) -> (r: Hash<u16>) {
        int_hash(*self as u128, 2)
    }
}

impl Hashable for u32 {
    open spec fn digest(&self) -> Seq<u8> {
        int_digest(*self as nat, 4)
    }

    fn hash(&self) -> (r: Hash<u32>) {
        int_hash(*self as u128, 4)
    }
}

/// An `i8` hashes as the big-endian encoding of its two's complement bits.
impl Hashable for i8 {
    open spec fn digest(&self) -> Seq<u8> {
        int_digest((*self as u8) as nat, 1)
    }

    fn hash(&self) -> (r: Hash<i8>) {
        int_hash((*self as u8) as u128, 1)
    }
}

/// An `i16` hashes as the big-endian encoding of its two's complement bits.
impl Hashable for i16 {
    open spec fn digest(&self) -> Seq<u8> {
        int_digest((*self as u16) as nat, 2)
    }

    fn hash(&self) -> (r: Hash<i16>) {
        int_hash((*self as u16) as u128, 2)
    }
}

/// An `i64` hashes as the big-endian encoding of its two's complement bits.
impl Hashable for i64 {
    open spec fn digest(&self) -> Seq<u8> {
        int_digest((*self as u64) as nat, 8)
    }

    fn hash(&self) -> (r: Hash<i64>) {
        int_hash((*self as u64) as u128, 8)
    }
}

/// An `i128` hashes as the big-endian encoding of its two's complement bits.
impl Hashable for i128 {
    open spec fn digest(&self) -> Seq<u8> {
        int_digest((*self as u128) as nat, 16)
    }

    fn hash(&self) -> (r: Hash<i128>) {
        int_hash((*self as u128) as u128, 16)
    }
}

/// An `isize` hashes as the 8-byte big-endian encoding of its two's complement bits
/// on every platform.
impl Hashable for isize {
    open spec fn digest(&self) -> Seq<u8> {
        int_digest((*self as i64 as u64) as nat, 8)
    }

    fn hash(&self) -> (r: Hash<isize>) {
        int_hash((*self as i64 as u64) as u128, 8)
    }
}

/// A `usize` hashes as its 8-byte big-endian encoding on every platform.
impl Hashable for usize {
    open spec fn digest(&self) -> Seq<u8> {
        int_digest(*self as nat, 8)
    }

    fn hash(&self) -> (r: Hash<usize>) {
        int_hash(*self as u128, 8)
    }
}

/// An `i32` hashes as the big-endian encoding of its two's complement bits.
impl Hashable for i32 {
    open spec fn digest(&self) -> Seq<u8> {
        int_digest((*self as u32) as nat, 4)
    }

    fn hash(&self) -> (r: Hash<i32>) {
        int_hash((*self as u32) as u128, 4)
    }
}

/// A `bool` hashes as the byte 1 or 0.
impl Hashable for bool {
    open spec fn digest(&self) -> Seq<u8> {
        int_digest(if *self { 1 } else { 0 }, 1)
    }

    fn hash(&self) -> (r: Hash<bool>) {
        int_hash(if *self { 1 } else { 0 }, 1)
    }
}

/// `Some(x)` hashes as the composite `[true, x]`, `None` as `[false, empty]`.
impl<T: Hashable> Hashable for Option<T> {
    open spec fn digest(&self) -> Seq<u8> {
        match self {
            Some(x) => composite_digest(seq![true.digest(), x.digest()]),
            None => composite_digest(seq![false.digest(), sha256_of(Seq::empty())]),
        }
    }

    fn hash(&self) -> (r: Hash<Option<T>>) {
        let parts = match self {
            Some(x) => [true.hash().cast(), x.hash().cast()],
            None => [false.hash().cast(), Hash::<T>::empty().cast()],
        };
        let r = Hash::combine(&parts);
        assert(parts@.map_values(|h: Hash| h@) =~= match self {
            Some(x) => seq![true.digest(), x.digest()],
            None => seq![false.digest(), sha256_of(Seq::empty())],
        });
        r.cast()
    }
}

} // verus!
