use vstd::prelude::*;

use crate::hash;
use crate::hash::{composite_digest, int_digest, Hashable};

verus! {

/// A node of a Merkle tree: a leaf's digest, or the digest of its two children.
pub struct MerkleNode {
    pub value: hash::Hash,
    pub children: Option<(usize, usize)>,
    /// The number of leaves below the node.
    pub size: usize,
}

impl MerkleNode {
    /// A leaf holding the digest of `x`.
    pub fn new<H: Hashable>(x: &H) -> (r: MerkleNode)
        ensures
            r.value@ == x.digest(),
            r.children is None,
            r.size == 1,
    {
        MerkleNode { value: x.hash().cast(), children: None, size: 1 }
    }

    /// The node of the empty tree.
    pub fn empty() -> (r: MerkleNode)
        ensures
            r.value@ == hash::sha256_of(Seq::empty()),
            r.children is None,
            r.size == 0,
    {
        MerkleNode { value: hash::Hash::empty(), children: None, size: 0 }
    }

    /// The parent of `tree[left]` and `tree[right]`.
    pub fn merge(tree: &[MerkleNode], left: usize, right: usize) -> (r: MerkleNode)
        requires
            left < tree@.len(),
            right < tree@.len(),
            tree@[left as int].size + tree@[right as int].size <= usize::MAX,
        ensures
            r.value@ == composite_digest(seq![tree@[left as int].value@, tree@[right as int].value@]),
            r.children == Some((left, right)),
            r.size == tree@[left as int].size + tree@[right as int].size,
    {
        let size = tree[left].size + tree[right].size;
        let parts = [tree[left].value, tree[right].value];
        let value = hash::Hash::combine(&parts);
        assert(parts@.map_values(|h: hash::Hash| h@) =~= seq![tree@[left as int].value@, tree@[right as int].value@]);
        MerkleNode { value, children: Some((left, right)), size }
    }
}

impl Hashable for MerkleNode {
    open spec fn digest(&self) -> Seq<u8> {
        self.value@
    }

    fn hash(&self) -> (r: hash::Hash<MerkleNode>) {
        self.value.cast()
    }
}

/// Node `k` is a leaf with at most one leaf below it, or the parent of two earlier
/// nodes whose digests and leaf counts it combines.
pub open spec fn node_ok(nodes: Seq<MerkleNode>, k: int) -> bool {
    let n = nodes[k];
    match n.children {
        Some((l, r)) => {
            &&& l < k
            &&& r < k
            &&& n.size == nodes[l as int].size + nodes[r as int].size
            &&& n.value@ == composite_digest(seq![nodes[l as int].value@, nodes[r as int].value@])
        },
        None => n.size <= 1,
    }
}

/// The number of leaves below the nodes of a layer.
pub open spec fn layer_size(nodes: Seq<MerkleNode>, layer: Seq<usize>) -> nat
    decreases layer.len(),
{
    if layer.len() == 0 {
        0
    } else {
        layer_size(nodes, layer.drop_last()) + nodes[layer.last() as int].size as nat
    }
}

proof fn lemma_layer_size_prefix(nodes: Seq<MerkleNode>, more: Seq<MerkleNode>, layer: Seq<usize>)
    requires
        nodes.len() <= more.len(),
        forall|j: int| 0 <= j < nodes.len() ==> more[j] == nodes[j],
        forall|j: int| 0 <= j < layer.len() ==> layer[j] < nodes.len(),
    ensures
        layer_size(more, layer) == layer_size(nodes, layer),
    decreases layer.len(),
{
    if layer.len() > 0 {
        lemma_layer_size_prefix(nodes, more, layer.drop_last());
    }
}

/// The digests along the path from node `k` down to its leaf `index`: at each
/// level, the sibling of the child the path takes.
pub open spec fn siblings(nodes: Seq<MerkleNode>, k: int, index: int) -> Seq<Seq<u8>>
    decreases k,
{
    if k < 0 || k >= nodes.len() || nodes[k].size <= 1 {
        Seq::empty()
    } else {
        match nodes[k].children {
            Some((l, r)) => if l < k && r < k {
                if index < nodes[l as int].size {
                    seq![nodes[r as int].value@] + siblings(nodes, l as int, index)
                } else {
                    seq![nodes[l as int].value@] + siblings(nodes, r as int, index - nodes[l as int].size)
                }
            } else {
                Seq::empty()
            },
            None => Seq::empty(),
        }
    }
}

/// A Merkle tree over a list of leaves, stored as a list of nodes.
pub struct MerkleTree {
    nodes: Vec<MerkleNode>,
    root: usize,
    /// The number of leaves.
    size: usize,
}

impl MerkleTree {
    /// Every node is well formed and the root spans all leaves.
    #[verifier::type_invariant]
    spec fn inv(&self) -> bool {
        &&& self.root < self.nodes@.len()
        &&& self.nodes@[self.root as int].size == self.size
        &&& forall|k: int| 0 <= k < self.nodes@.len() ==> node_ok(self.nodes@, k)
    }

    /// The nodes, leaves first.
    pub closed spec fn node_seq(&self) -> Seq<MerkleNode> {
        self.nodes@
    }

    /// The index of the root node.
    pub closed spec fn root_index(&self) -> int {
        self.root as int
    }

    /// The number of leaves.
    pub closed spec fn leaf_count(&self) -> nat {
        self.size as nat
    }

    /// The tree is built over leaves with these digests: its root spans them all in
    /// order, each inner node split as `left_size` says.
    pub open spec fn is_tree_of(&self, leaves: Seq<Seq<u8>>) -> bool {
        &&& self.leaf_count() == leaves.len()
        &&& 0 <= self.root_index() < self.node_seq().len()
        &&& self.node_seq()[self.root_index()].size == leaves.len()
        &&& forall|k: int| 0 <= k < self.node_seq().len() ==> node_ok(self.node_seq(), k)
        &&& canonical(self.node_seq(), self.root_index(), 0, leaves)
    }

    /// The number of leaves.
    pub fn size(&self) -> (r: usize)
        ensures
            r == self.leaf_count(),
    {
        self.size
    }

    /// The tree over `leaves`: leaf `i` is node `i`; pairs of neighbouring nodes are
    /// merged layer by layer, an odd node out moving up unchanged, until one is left.
    pub fn new<H: Hashable>(leaves: &[H]) -> (r: MerkleTree)
        ensures
            r.leaf_count() == leaves@.len(),
            0 <= r.root_index() < r.node_seq().len(),
            forall|k: int| 0 <= k < r.node_seq().len() ==> node_ok(r.node_seq(), k),
            r.node_seq()[r.root_index()].size == leaves@.len(),
            forall|i: int| 0 <= i < leaves@.len() ==> (#[trigger] r.node_seq()[i]).value@ == leaves@[i].digest(),
            leaves@.len() > 0 ==> r.is_tree_of(leaf_digests(leaves@)),
            leaves@.len() == 0 ==> r.node_seq().len() == 1 && r.node_seq()[0].value@ == hash::sha256_of(Seq::empty())
                && r.node_seq()[0].children is None,
    {
        if leaves.len() == 0 {
            let nodes = vec![MerkleNode::empty()];
            return MerkleTree { nodes, root: 0, size: 0 };
        }
        let n = leaves.len();
        let ghost ld = leaf_digests(leaves@);
        let mut nodes: Vec<MerkleNode> = Vec::new();
        let mut current_layer: Vec<usize> = Vec::new();
        let mut i: usize = 0;
        while i < n
            invariant
                n == leaves@.len(),
                ld == leaf_digests(leaves@),
                i <= n,
                nodes@.len() == i,
                current_layer@.len() == i,
                forall|j: int| 0 <= j < i ==> (#[trigger] current_layer@[j]) == j,
                forall|j: int| 0 <= j < i ==> (#[trigger] nodes@[j]).value@ == leaves@[j].digest(),
                forall|j: int| 0 <= j < i ==> (#[trigger] nodes@[j]).size == 1,
                forall|j: int| 0 <= j < i ==> (#[trigger] nodes@[j]).children is None,
                forall|j: int| 0 <= j < i ==> #[trigger] canonical(nodes@, j, j, ld),
                layer_size(nodes@, current_layer@) == i,
            decreases n - i,
        {
            let ghost before = nodes@;
            let ghost old_layer = current_layer@;
            nodes.push(MerkleNode::new(&leaves[i]));
            current_layer.push(i);
            proof {
                assert(current_layer@.drop_last() =~= old_layer);
                lemma_layer_size_prefix(before, nodes@, old_layer);
                assert forall|j: int| 0 <= j < i + 1 implies #[trigger] canonical(nodes@, j, j, ld) by {
                    if j < i {
                        lemma_canonical_prefix(before, nodes@, j, j, ld);
                    }
                }
            }
            i = i + 1;
        }
        let ghost mut p: nat = 1;
        proof {
            assert forall|j: int| 0 <= j < current_layer@.len() implies canonical(
                nodes@,
                #[trigger] current_layer@[j] as int,
                j * p,
                ld,
            ) by {
                assert(j * p == j);
            }
        }
        while current_layer.len() != 1
            invariant
                n == leaves@.len(),
                ld == leaf_digests(leaves@),
                n >= 1,
                current_layer@.len() >= 1,
                nodes@.len() >= n,
                forall|j: int| 0 <= j < current_layer@.len() ==> (#[trigger] current_layer@[j]) < nodes@.len(),
                forall|j: int| 0 <= j < n ==> (#[trigger] nodes@[j]).value@ == leaves@[j].digest(),
                forall|k: int| 0 <= k < nodes@.len() ==> node_ok(nodes@, k),
                layer_size(nodes@, current_layer@) == n,
                is_pow2(p),
                p >= 1,
                forall|j: int|
                    0 <= j < current_layer@.len() ==> canonical(nodes@, #[trigger] current_layer@[j] as int, j * p, ld),
                forall|j: int|
                    0 <= j < current_layer@.len() - 1 ==> nodes@[#[trigger] current_layer@[j] as int].size == p,
                forall|j: int|
                    0 <= j < current_layer@.len() ==> 1 <= nodes@[#[trigger] current_layer@[j] as int].size <= p,
            decreases current_layer@.len(),
        {
            let prev_layer = current_layer;
            current_layer = Vec::new();
            let ghost start = nodes@;
            let ghost m = prev_layer@.len() as int;
            let mut j: usize = 0;
            while j + 1 < prev_layer.len()
                invariant
                    n == leaves@.len(),
                    ld == leaf_digests(leaves@),
                    m == prev_layer@.len(),
                    prev_layer@.len() >= 2,
                    j <= prev_layer@.len(),
                    j % 2 == 0,
                    current_layer@.len() == j / 2,
                    nodes@.len() >= start.len(),
                    forall|k: int| 0 <= k < start.len() ==> nodes@[k] == start[k],
                    forall|k: int| 0 <= k < prev_layer@.len() ==> (#[trigger] prev_layer@[k]) < start.len(),
                    forall|k: int| 0 <= k < current_layer@.len() ==> (#[trigger] current_layer@[k]) < nodes@.len(),
                    forall|k: int| 0 <= k < nodes@.len() ==> node_ok(nodes@, k),
                    start.len() >= n,
                    forall|k: int| 0 <= k < n ==> (#[trigger] nodes@[k]).value@ == leaves@[k].digest(),
                    layer_size(nodes@, current_layer@) == layer_size(start, prev_layer@.subrange(0, j as int)),
                    layer_size(start, prev_layer@) == n,
                    is_pow2(p),
                    p >= 1,
                    forall|k: int| 0 <= k < m ==> canonical(start, #[trigger] prev_layer@[k] as int, k * p, ld),
                    forall|k: int| 0 <= k < m - 1 ==> start[#[trigger] prev_layer@[k] as int].size == p,
                    forall|k: int| 0 <= k < m ==> 1 <= start[#[trigger] prev_layer@[k] as int].size <= p,
                    forall|t: int|
                        0 <= t < current_layer@.len() ==> canonical(
                            nodes@,
                            #[trigger] current_layer@[t] as int,
                            t * (2 * p),
                            ld,
                        ),
                    forall|t: int|
                        0 <= t < current_layer@.len() && 2 * t + 1 < m - 1 ==> nodes@[#[trigger] current_layer@[t] as int].size
                            == 2 * p,
                    forall|t: int|
                        0 <= t < current_layer@.len() ==> 1 <= nodes@[#[trigger] current_layer@[t] as int].size <= 2 * p,
                decreases prev_layer@.len() - j,
            {
                let left = prev_layer[j];
                let right = prev_layer[j + 1];
                proof {
                    let s2 = prev_layer@.subrange(0, j as int + 2);
                    assert(s2.drop_last() =~= prev_layer@.subrange(0, j as int + 1));
                    assert(s2.drop_last().drop_last() =~= prev_layer@.subrange(0, j as int));
                    assert(s2.last() == right);
                    assert(s2.drop_last().last() == left);
                    lemma_layer_size_prefix_bound(start, prev_layer@, j as int + 2);
                    assert(layer_size(start, s2.drop_last()) == layer_size(start, prev_layer@.subrange(0, j as int))
                        + start[left as int].size);
                    assert(layer_size(start, s2) == layer_size(start, prev_layer@.subrange(0, j as int))
                        + start[left as int].size + start[right as int].size);
                    assert(nodes@[left as int] == start[left as int]);
                    assert(nodes@[right as int] == start[right as int]);
                }
                let node = MerkleNode::merge(nodes.as_slice(), left, right);
                let ghost before = nodes@;
                let ghost old_layer = current_layer@;
                nodes.push(node);
                current_layer.push(nodes.len() - 1);
                proof {
                    let jj = j as int;
                    let t = jj / 2;
                    let k = before.len() as int;
                    assert(current_layer@.drop_last() =~= old_layer);
                    lemma_layer_size_prefix(before, nodes@, old_layer);
                    assert forall|q: int| 0 <= q < nodes@.len() implies node_ok(nodes@, q) by {
                        if q < before.len() {
                            assert(node_ok(before, q));
                        }
                    }
                    // The new node spans the leaves of `left` and `right`.
                    assert(canonical(start, prev_layer@[jj] as int, jj * p, ld));
                    assert(canonical(start, prev_layer@[jj + 1] as int, (jj + 1) * p, ld));
                    lemma_canonical_prefix(start, nodes@, left as int, jj * p, ld);
                    lemma_canonical_prefix(start, nodes@, right as int, (jj + 1) * p, ld);
                    assert(start[left as int].size == p);
                    let s = start[right as int].size;
                    assert(1 <= s <= p);
                    assert(nodes@[k].size == p + s);
                    lemma_left_size_of_pow2(p, (p + s) as nat);
                    assert((jj + 1) * p == jj * p + p) by (nonlinear_arith);
                    assert(t * (2 * p) == jj * p) by (nonlinear_arith)
                        requires
                            jj == 2 * t,
                    ;
                    assert(canonical(nodes@, k, t * (2 * p), ld));
                    assert(current_layer@[t] == k);
                    assert forall|u: int| 0 <= u < current_layer@.len() implies canonical(
                        nodes@,
                        #[trigger] current_layer@[u] as int,
                        u * (2 * p),
                        ld,
                    ) by {
                        if u < t {
                            assert(current_layer@[u] == old_layer[u]);
                            lemma_canonical_prefix(before, nodes@, old_layer[u] as int, u * (2 * p), ld);
                        }
                    }
                    assert forall|u: int| 0 <= u < current_layer@.len() && 2 * u + 1 < m - 1
                        implies nodes@[#[trigger] current_layer@[u] as int].size == 2 * p by {
                        if u < t {
                            assert(current_layer@[u] == old_layer[u]);
                        } else {
                            assert(jj + 1 < m - 1);
                            assert(start[right as int].size == p);
                        }
                    }
                    assert forall|u: int| 0 <= u < current_layer@.len()
                        implies 1 <= nodes@[#[trigger] current_layer@[u] as int].size <= 2 * p by {
                        if u < t {
                            assert(current_layer@[u] == old_layer[u]);
                        }
                    }
                }
                j = j + 2;
            }
            if prev_layer.len() % 2 == 1 {
                let last = prev_layer[prev_layer.len() - 1];
                let ghost old_layer = current_layer@;
                current_layer.push(last);
                proof {
                    assert(j == prev_layer@.len() - 1);
                    assert(prev_layer@.drop_last() =~= prev_layer@.subrange(0, j as int));
                    assert(current_layer@.drop_last() =~= old_layer);
                    assert(nodes@[last as int] == start[last as int]);
                    assert(layer_size(start, prev_layer@) == layer_size(start, prev_layer@.subrange(0, j as int))
                        + start[last as int].size);
                    let t = (j / 2) as int;
                    assert(canonical(start, prev_layer@[m - 1] as int, (m - 1) * p, ld));
                    lemma_canonical_prefix(start, nodes@, last as int, (m - 1) * p, ld);
                    assert(t * (2 * p) == (m - 1) * p) by (nonlinear_arith)
                        requires
                            m - 1 == 2 * t,
                    ;
                    assert forall|u: int| 0 <= u < current_layer@.len() implies canonical(
                        nodes@,
                        #[trigger] current_layer@[u] as int,
                        u * (2 * p),
                        ld,
                    ) by {
                        if u < t {
                            assert(current_layer@[u] == old_layer[u]);
                        }
                    }
                    assert forall|u: int| 0 <= u < current_layer@.len() && 2 * u + 1 < m - 1
                        implies nodes@[#[trigger] current_layer@[u] as int].size == 2 * p by {
                        if u < t {
                            assert(current_layer@[u] == old_layer[u]);
                        }
                    }
                    assert forall|u: int| 0 <= u < current_layer@.len()
                        implies 1 <= nodes@[#[trigger] current_layer@[u] as int].size <= 2 * p by {
                        if u < t {
                            assert(current_layer@[u] == old_layer[u]);
                        }
                    }
                }
            } else {
                assert(prev_layer@.subrange(0, j as int) =~= prev_layer@);
            }
            proof {
                assert forall|u: int| 0 <= u < current_layer@.len() - 1
                    implies nodes@[#[trigger] current_layer@[u] as int].size == 2 * p by {
                    assert(2 * u + 1 < m - 1);
                }
                assert(is_pow2(2 * p)) by {
                    assert((2 * p) as nat / 2 == p);
                }
                p = 2 * p;
            }
        }
        let root = current_layer[0];
        proof {
            assert(current_layer@.drop_last() =~= Seq::<usize>::empty());
            assert(layer_size(nodes@, current_layer@.drop_last()) == 0);
            assert(layer_size(nodes@, current_layer@) == nodes@[root as int].size);
            assert(0 * p == 0);
        }
        MerkleTree { nodes, root, size: n }
    }

    /// The digest at the root.
    pub fn get_root_hash(&self) -> (r: hash::Hash)
        ensures
            r@ == self.node_seq()[self.root_index()].value@,
    {
        proof {
            use_type_invariant(self);
        }
        self.nodes[self.root].value
    }

    /// The proof that leaf `index` is in the tree: the sibling digests along the
    /// path from the root down to it.
    pub fn construct_proof(&self, index: usize) -> (r: Vec<hash::Hash>)
        requires
            index < self.leaf_count(),
        ensures
            r@.map_values(|h: hash::Hash| h@) == siblings(self.node_seq(), self.root_index(), index as int),
    {
        proof {
            use_type_invariant(self);
        }
        let mut proof: Vec<hash::Hash> = Vec::new();
        let mut relative_index = index;
        let mut k = self.root;
        while self.nodes[k].size > 1
            invariant
                self.root < self.nodes@.len(),
                forall|k: int| 0 <= k < self.nodes@.len() ==> node_ok(self.nodes@, k),
                k < self.nodes@.len(),
                relative_index < self.nodes@[k as int].size,
                proof@.map_values(|h: hash::Hash| h@) + siblings(self.nodes@, k as int, relative_index as int)
                    == siblings(self.nodes@, self.root as int, index as int),
            decreases k,
        {
            assert(node_ok(self.nodes@, k as int));
            let (left, right) = match self.nodes[k].children {
                Some(c) => c,
                None => (0, 0),
            };
            let ghost before = proof@.map_values(|h: hash::Hash| h@);
            if relative_index < self.nodes[left].size {
                proof.push(self.nodes[right].value);
                k = left;
            } else {
                relative_index = relative_index - self.nodes[left].size;
                proof.push(self.nodes[left].value);
                k = right;
            }
            assert(proof@.map_values(|h: hash::Hash| h@) =~= before.push(proof@.last()@));
        }
        assert(siblings(self.nodes@, k as int, relative_index as int) =~= Seq::empty());
        assert(proof@.map_values(|h: hash::Hash| h@) + Seq::<Seq<u8>>::empty() =~= proof@.map_values(|h: hash::Hash| h@));
        proof
    }
}

/// A power of two.
pub open spec fn is_pow2(p: nat) -> bool
    decreases p,
{
    if p == 1 {
        true
    } else if p == 0 || p % 2 == 1 {
        false
    } else {
        is_pow2(p / 2)
    }
}

/// The number of leaves in the left subtree of a tree with `size` leaves: the
/// largest power of two below `size`, or 0 for a tree of at most one leaf.
pub open spec fn left_size(size: nat) -> nat
    decreases size,
{
    if size <= 1 {
        0
    } else if size == 2 {
        1
    } else {
        2 * left_size(((size + 1) / 2) as nat)
    }
}

/// The number of leaves in the left subtree of a tree with `size` leaves.
pub fn left_child_size(size: usize) -> (r: usize)
    ensures
        r == left_size(size as nat),
        size >= 2 ==> is_pow2(r as nat) && r < size <= 2 * r,
    decreases size,
{
    if size <= 1 {
        0
    } else if size == 2 {
        1
    } else {
        let half = size / 2 + size % 2;
        assert(half == (size + 1) / 2);
        let l = left_child_size(half);
        assert(2 * l < size && size <= 4 * l) by (nonlinear_arith)
            requires
                l < half,
                half <= 2 * l,
                half == size / 2 + size % 2,
                size >= 3,
        ;
        assert(is_pow2((2 * l) as nat)) by {
            assert((2 * l) as nat / 2 == l as nat);
        }
        2 * l
    }
}

/// The digest that a proof for leaf `index` of a tree with `size` leaves leads up
/// to: at each level the running digest is combined with the next sibling, on the
/// side that `index` falls on; `None` where the proof is too short.
pub open spec fn proof_root(index: nat, size: nat, leaf: Seq<u8>, proof: Seq<Seq<u8>>) -> Option<Seq<u8>>
    decreases proof.len(),
{
    let l = left_size(size);
    if size == 1 {
        Some(leaf)
    } else if proof.len() == 0 {
        None
    } else if index < l {
        match proof_root(index, l, leaf, proof.drop_first()) {
            Some(x) => Some(composite_digest(seq![x, proof[0]])),
            None => None,
        }
    } else {
        match proof_root((index - l) as nat, (size - l) as nat, leaf, proof.drop_first()) {
            Some(x) => Some(composite_digest(seq![proof[0], x])),
            None => None,
        }
    }
}

/// The digests, as bytes.
pub open spec fn views(hs: Seq<hash::Hash>) -> Seq<Seq<u8>> {
    hs.map_values(|h: hash::Hash| h@)
}

fn combine_pair(a: &hash::Hash, b: &hash::Hash) -> (r: hash::Hash)
    ensures
        r@ == composite_digest(seq![a@, b@]),
{
    let parts = [*a, *b];
    let r = hash::Hash::combine(&parts);
    assert(parts@.map_values(|h: hash::Hash| h@) =~= seq![a@, b@]);
    r
}

fn fold_proof(index: usize, size: usize, leaf: hash::Hash, proof: &[hash::Hash], from: usize) -> (r: Option<hash::Hash>)
    requires
        from <= proof@.len(),
    ensures
        match r {
            Some(h) => proof_root(index as nat, size as nat, leaf@, views(proof@).subrange(from as int, proof@.len() as int))
                == Some(h@),
            None => proof_root(index as nat, size as nat, leaf@, views(proof@).subrange(from as int, proof@.len() as int))
                is None,
        },
    decreases proof@.len() - from,
{
    let ghost rest = views(proof@).subrange(from as int, proof@.len() as int);
    let left_size = left_child_size(size);
    if size == 1 {
        Some(leaf)
    } else if from == proof.len() {
        None
    } else {
        proof {
            assert(rest.drop_first() =~= views(proof@).subrange(from as int + 1, proof@.len() as int));
            assert(rest[0] == proof@[from as int]@);
        }
        if index < left_size {
            match fold_proof(index, left_size, leaf, proof, from + 1) {
                Some(left) => Some(combine_pair(&left, &proof[from])),
                None => None,
            }
        } else {
            match fold_proof(index - left_size, size - left_size, leaf, proof, from + 1) {
                Some(right) => Some(combine_pair(&proof[from], &right)),
                None => None,
            }
        }
    }
}

/// The digest that `proof` leads up to from `leaf` at `index` in a tree with `size`
/// leaves, or `None` where the proof is too short.
pub fn verify_proof_rec(index: usize, size: usize, leaf: hash::Hash, proof: &[hash::Hash]) -> (r: Option<hash::Hash>)
    ensures
        match r {
            Some(h) => proof_root(index as nat, size as nat, leaf@, views(proof@)) == Some(h@),
            None => proof_root(index as nat, size as nat, leaf@, views(proof@)) is None,
        },
{
    assert(views(proof@).subrange(0, proof@.len() as int) =~= views(proof@));
    fold_proof(index, size, leaf, proof, 0)
}

/// The digest of a tree whose root has digest `root` and which has `size` leaves.
pub open spec fn tree_digest(root: Seq<u8>, size: nat) -> Seq<u8> {
    composite_digest(seq![root, int_digest(size, 8)])
}

impl MerkleTree {
    /// Whether `proof` shows that `leaf` is leaf `index` of a tree with `size` leaves
    /// and digest `tree_hash`.
    pub fn verify_proof<T: Hashable>(
        index: usize,
        size: usize,
        leaf: T,
        tree_hash: hash::Hash,
        proof: &[hash::Hash],
    ) -> (r: bool)
        ensures
            r == match proof_root(index as nat, size as nat, leaf.digest(), views(proof@)) {
                Some(root) => tree_digest(root, size as nat) == tree_hash@,
                None => false,
            },
    {
        match verify_proof_rec(index, size, leaf.hash().cast(), proof) {
            Some(found) => {
                let parts = [found, size.hash().cast()];
                let h = hash::Hash::combine(&parts);
                assert(parts@.map_values(|h: hash::Hash| h@) =~= seq![found@, int_digest(size as nat, 8)]);
                h.same(&tree_hash)
            },
            None => false,
        }
    }
}

impl Hashable for MerkleTree {
    open spec fn digest(&self) -> Seq<u8> {
        tree_digest(self.node_seq()[self.root_index()].value@, self.leaf_count())
    }

    fn hash(&self) -> (r: hash::Hash<MerkleTree>) {
        let root = self.get_root_hash();
        let parts = [root, self.size.hash().cast()];
        let h = hash::Hash::combine(&parts);
        assert(parts@.map_values(|h: hash::Hash| h@) =~= seq![root@, int_digest(self.size as nat, 8)]);
        h.cast()
    }
}

/// Node `k` is the root of a tree over the leaf digests `leaves[a .. a + size)`,
/// with each inner node's left subtree holding `left_size` of its leaves.
pub open spec fn canonical(nodes: Seq<MerkleNode>, k: int, a: int, leaves: Seq<Seq<u8>>) -> bool
    decreases k,
{
    if k < 0 || k >= nodes.len() {
        false
    } else if nodes[k].size == 1 {
        &&& nodes[k].children is None
        &&& 0 <= a < leaves.len()
        &&& nodes[k].value@ == leaves[a]
    } else {
        match nodes[k].children {
            Some((l, r)) => {
                &&& l < k
                &&& r < k
                &&& nodes[k].size >= 2
                &&& nodes[l as int].size == left_size(nodes[k].size as nat)
                &&& canonical(nodes, l as int, a, leaves)
                &&& canonical(nodes, r as int, a + nodes[l as int].size, leaves)
            },
            None => false,
        }
    }
}

proof fn lemma_canonical_prefix(nodes: Seq<MerkleNode>, more: Seq<MerkleNode>, k: int, a: int, leaves: Seq<Seq<u8>>)
    requires
        nodes.len() <= more.len(),
        forall|j: int| 0 <= j < nodes.len() ==> more[j] == nodes[j],
        canonical(nodes, k, a, leaves),
    ensures
        canonical(more, k, a, leaves),
    decreases k,
{
    if nodes[k].size != 1 {
        let (l, r) = nodes[k].children->0;
        lemma_canonical_prefix(nodes, more, l as int, a, leaves);
        lemma_canonical_prefix(nodes, more, r as int, a + nodes[l as int].size, leaves);
    }
}

proof fn lemma_canonical_round_trip(nodes: Seq<MerkleNode>, k: int, a: int, leaves: Seq<Seq<u8>>, i: int)
    requires
        canonical(nodes, k, a, leaves),
        forall|j: int| 0 <= j < nodes.len() ==> node_ok(nodes, j),
        0 <= i < nodes[k].size,
    ensures
        0 <= a + i < leaves.len(),
        proof_root(i as nat, nodes[k].size as nat, leaves[a + i], siblings(nodes, k, i)) == Some(nodes[k].value@),
    decreases k,
{
    let n = nodes[k];
    if n.size != 1 {
        let (l, r) = n.children->0;
        assert(node_ok(nodes, k));
        let sl = nodes[l as int].size;
        let rest = siblings(nodes, k, i);
        if i < sl {
            lemma_canonical_round_trip(nodes, l as int, a, leaves, i);
            assert(rest.drop_first() =~= siblings(nodes, l as int, i));
        } else {
            lemma_canonical_round_trip(nodes, r as int, a + sl, leaves, i - sl);
            assert(rest.drop_first() =~= siblings(nodes, r as int, i - sl));
        }
    }
}

proof fn lemma_left_size_of_pow2(p: nat, m: nat)
    requires
        is_pow2(p),
        p < m <= 2 * p,
    ensures
        left_size(m) == p,
    decreases p,
{
    if p > 1 {
        let q = p / 2;
        assert(p == 2 * q);
        assert(is_pow2(q));
        let h = ((m + 1) / 2) as nat;
        assert(q < h <= 2 * q);
        assert(m >= 3);
        lemma_left_size_of_pow2(q, h);
    }
}

/// The digests of a list of leaves.
pub open spec fn leaf_digests<H: Hashable>(leaves: Seq<H>) -> Seq<Seq<u8>> {
    leaves.map_values(|h: H| h.digest())
}

/// Every proof that a tree constructs verifies: for a tree built over `leaves`, the
/// sibling digests on the path to leaf `index` lead from that leaf's digest up to
/// the root, so `verify_proof` accepts them against the tree's digest.
pub proof fn lemma_proof_round_trip(tree: MerkleTree, leaves: Seq<Seq<u8>>, index: int)
    requires
        tree.is_tree_of(leaves),
        0 <= index < leaves.len(),
    ensures
        ({
            let root = tree.node_seq()[tree.root_index()].value@;
            &&& proof_root(
                index as nat,
                leaves.len(),
                leaves[index],
                siblings(tree.node_seq(), tree.root_index(), index),
            ) == Some(root)
            &&& tree_digest(root, leaves.len()) == tree.digest()
        }),
{
    lemma_canonical_round_trip(tree.node_seq(), tree.root_index(), 0, leaves, index);
}

/// Two trees are equal when their digests are.
impl PartialEq for MerkleTree {
    fn eq(&self, rhs: &MerkleTree) -> (r: bool) {
        self.hash().same(&rhs.hash())
    }
}

impl vstd::std_specs::cmp::PartialEqSpecImpl for MerkleTree {
    open spec fn obeys_eq_spec() -> bool {
        true
    }

    open spec fn eq_spec(&self, rhs: &MerkleTree) -> bool {
        self.digest() == rhs.digest()
    }
}

impl Eq for MerkleTree {
}

proof fn lemma_layer_size_prefix_bound(nodes: Seq<MerkleNode>, layer: Seq<usize>, m: int)
    requires
        0 <= m <= layer.len(),
        forall|k: int| 0 <= k < layer.len() ==> (#[trigger] layer[k]) < nodes.len(),
    ensures
        layer_size(nodes, layer.subrange(0, m)) <= layer_size(nodes, layer),
    decreases layer.len(),
{
    if m < layer.len() {
        assert(layer.drop_last().subrange(0, m) =~= layer.subrange(0, m));
        lemma_layer_size_prefix_bound(nodes, layer.drop_last(), m);
    } else {
        assert(layer.subrange(0, m) =~= layer);
    }
}

} // verus!
