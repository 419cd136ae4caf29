use blockkey::hash;
use blockkey::hash::Hashable;
use blockkey::merkle::{left_child_size, MerkleNode, MerkleTree};

#[test]
fn merkle_tree_construction() {
    MerkleTree::new(&Vec::<u8>::new());
    MerkleTree::new::<u8>(&[1]);
    MerkleTree::new::<u8>(&[1, 2]);
    MerkleTree::new::<u8>(&[1, 2, 3]);
    MerkleTree::new::<u8>(&[1, 2, 3, 4]);
    MerkleTree::new::<u8>(&[1, 2, 3, 4, 5]);
}

#[test]
fn child_size() {
    assert_eq!(left_child_size(0), 0);
    assert_eq!(left_child_size(1), 0);
    assert_eq!(left_child_size(2), 1);
    assert_eq!(left_child_size(3), 2);
    assert_eq!(left_child_size(4), 2);
    assert_eq!(left_child_size(5), 4);
    assert_eq!(left_child_size(32), 16);
    assert_eq!(left_child_size(33), 32);
    assert_eq!(left_child_size(64), 32);
    assert_eq!(left_child_size(65), 64);
}

#[test]
fn proof_test() {
    const SIZE: usize = 23;
    let elements: Vec<i32> = (0..SIZE as i32).collect();
    let tree = MerkleTree::new(&elements);
    let tree_hash: hash::Hash = tree.hash().cast();
    for (index, item) in elements.iter().enumerate() {
        let proof = tree.construct_proof(index);
        assert!(MerkleTree::verify_proof(index, SIZE, *item, tree_hash, &proof));
    }
}

#[test]
fn proof_for_another_leaf_fails() {
    let elements: Vec<i32> = (0..5).collect();
    let tree = MerkleTree::new(&elements);
    let tree_hash: hash::Hash = tree.hash().cast();
    let proof = tree.construct_proof(1);
    assert!(!MerkleTree::verify_proof(1, 5, 2i32, tree_hash, &proof));
    assert!(!MerkleTree::verify_proof(2, 5, 1i32, tree_hash, &proof));
    assert!(!MerkleTree::verify_proof(1, 5, 1i32, tree_hash, &proof[1..]));
}

#[test]
fn root_of_two_leaves_combines_them() {
    let tree = MerkleTree::new::<u8>(&[1, 2]);
    let expected = hash::Hash::combine(&[1u8.hash().cast(), 2u8.hash().cast()]);
    assert_eq!(tree.get_root_hash(), expected);
    assert_eq!(tree.size(), 2);
    let single = MerkleTree::new::<u8>(&[9]);
    assert_eq!(single.get_root_hash(), 9u8.hash().cast());
    assert_eq!(single.construct_proof(0).len(), 0);
}

#[test]
fn three_leaves_split_two_and_one() {
    let tree = MerkleTree::new::<u8>(&[1, 2, 3]);
    let left = hash::Hash::combine(&[1u8.hash().cast(), 2u8.hash().cast()]);
    let root = hash::Hash::combine(&[left, 3u8.hash().cast()]);
    assert_eq!(tree.get_root_hash(), root);
    let proof = tree.construct_proof(2);
    assert_eq!(proof, vec![left]);
    let proof0 = tree.construct_proof(0);
    assert_eq!(proof0, vec![3u8.hash().cast(), 2u8.hash().cast()]);
}

#[test]
fn nodes_merge_sizes_and_digests() {
    let nodes = vec![MerkleNode::new(&1u8), MerkleNode::new(&2u8), MerkleNode::empty()];
    assert_eq!(nodes[2].size, 0);
    let parent = MerkleNode::merge(&nodes, 0, 1);
    assert_eq!(parent.size, 2);
    assert_eq!(parent.children, Some((0, 1)));
    assert_eq!(parent.value, hash::Hash::combine(&[1u8.hash().cast(), 2u8.hash().cast()]));
}

#[test]
fn empty_tree_hashes_its_empty_root() {
    let tree = MerkleTree::new(&Vec::<u8>::new());
    assert_eq!(tree.size(), 0);
    assert_eq!(tree.get_root_hash(), hash::Hash::empty());
}

#[test]
fn trees_are_equal_when_their_digests_are() {
    let a = MerkleTree::new::<u8>(&[1, 2, 3]);
    let b = MerkleTree::new::<u8>(&[1, 2, 3]);
    let c = MerkleTree::new::<u8>(&[1, 2, 4]);
    assert!(a == b);
    assert!(a != c);
}
