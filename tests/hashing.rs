use blockkey::hash;
use blockkey::hash::Hashable;

fn composite(parts: &[hash::Hash]) -> hash::Hash {
    hash::Hash::combine(parts)
}

fn three(a: i32, b: i32, c: i32) -> hash::Hash {
    composite(&[a.hash().cast(), b.hash().cast(), c.hash().cast()])
}

#[test]
fn equality() {
    let x: hash::Hash = three(1, 2, 3);
    let y: hash::Hash = three(1, 2, 3);
    assert_eq!(x, y);
}

#[test]
fn hash_transparency() {
    let x: hash::Hash = three(1, 2, 3);
    let two: hash::Hash<i32> = 2.hash();
    assert_eq!(x, composite(&[1.hash().cast(), two.hash().cast(), 3.hash().cast()]));
}

#[test]
fn nested_hashing() {
    let x: hash::Hash = three(1, 2, 3);
    let y: hash::Hash = composite(&[2.hash().cast(), 3.hash().cast()]);
    assert_ne!(x, composite(&[1.hash().cast(), y]));
}

#[test]
fn hash_is_deterministic() {
    assert_eq!(7u64.hash(), 7u64.hash());
    assert_ne!(7u64.hash(), 8u64.hash().cast());
}

#[test]
fn empty_digest_is_sha256_of_nothing() {
    let e: hash::Hash = hash::Hash::empty();
    assert_eq!(e.to_hex(), "E3B0C44298FC1C149AFBF4C8996FB92427AE41E4649B934CA495991B7852B855");
}

#[test]
fn hex_is_upper_case_two_digits_per_byte() {
    let h = hash::Hash::from_bytes(b"abc");
    assert_eq!(h.to_hex(), "BA7816BF8F01CFEA414140DE5DAE2223B00361A396177A9CB410FF61F20015AD");
    assert_eq!(h.get_bytes()[0], 0xBA);
}

#[test]
fn integers_hash_as_big_endian_bytes() {
    let n: u64 = 0x0102030405060708;
    assert_eq!(n.hash().cast::<()>(), hash::Hash::from_bytes(&[1, 2, 3, 4, 5, 6, 7, 8]).cast());
    assert_eq!((-1i32).hash().cast::<()>(), hash::Hash::from_bytes(&[0xff, 0xff, 0xff, 0xff]).cast());
    assert_eq!(true.hash().cast::<()>(), hash::Hash::from_bytes(&[1]).cast());
    assert_eq!(300usize.hash().cast::<()>(), hash::Hash::from_bytes(&[0, 0, 0, 0, 0, 0, 1, 44]).cast());
}

#[test]
fn some_and_none_differ() {
    let some: Option<u64> = Some(0);
    let none: Option<u64> = None;
    assert_ne!(some.hash().cast::<()>(), none.hash().cast());
    let expected = composite(&[true.hash().cast(), 0u64.hash().cast()]);
    assert_eq!(some.hash().cast::<()>(), expected);
    let expected_none = composite(&[false.hash().cast(), hash::Hash::<u64>::empty().cast()]);
    assert_eq!(none.hash().cast::<()>(), expected_none);
}

#[test]
fn concat_is_the_digest_of_both_digests() {
    let a: hash::Hash = 1u8.hash().cast();
    let b: hash::Hash = 2u8.hash().cast();
    assert_eq!(hash::Hash::concat(&a, &b), composite(&[a, b]));
    assert_ne!(hash::Hash::concat(&a, &b), hash::Hash::concat(&b, &a));
}

#[test]
fn signed_integers_hash_their_twos_complement() {
    assert_eq!((-2i64).hash().cast::<()>(), hash::Hash::from_bytes(&[0xff, 0xff, 0xff, 0xff, 0xff, 0xff, 0xff, 0xfe]).cast());
    assert_eq!((-1i8).hash().cast::<()>(), hash::Hash::from_bytes(&[0xff]).cast());
    assert_eq!(258u16.hash().cast::<()>(), hash::Hash::from_bytes(&[1, 2]).cast());
    assert_eq!((-3isize).hash().cast::<()>(), (-3i64).hash().cast());
}
