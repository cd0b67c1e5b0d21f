//! Merkle trees over 32-byte leaves: building the layers, reading the root, and
//! producing inclusion proofs that fold back to the root.
use vstd::prelude::*;
use crate::hashing::{sha256, sha256_of};
use vstd::arithmetic::power2::pow2;

verus! {

/// The all-zero hash used for padding and for missing values.
pub open spec fn zero_hash() -> [u8; 32] {
    [0u8; 32usize]
}

/// Parent of two sibling nodes: SHA-256 of left || right.
pub open spec fn hash_pair(left: [u8; 32], right: [u8; 32]) -> [u8; 32] {
    sha256_of(left@ + right@)
}

/// The layer above `layer`: node `i` hashes children `2i` and `2i + 1` (zero if missing).
pub open spec fn parent_layer(layer: Seq<[u8; 32]>) -> Seq<[u8; 32]> {
    Seq::new(
        ((layer.len() + 1) / 2) as nat,
        |i: int|
            hash_pair(
                layer[2 * i],
                if 2 * i + 1 < layer.len() {
                    layer[2 * i + 1]
                } else {
                    zero_hash()
                },
            ),
    )
}

/// `layer` followed by every layer above it, up to the single-node root layer.
pub open spec fn layers_above(layer: Seq<[u8; 32]>) -> Seq<Seq<[u8; 32]>>
    decreases layer.len(),
{
    if layer.len() <= 1 {
        seq![layer]
    } else {
        seq![layer] + layers_above(parent_layer(layer))
    }
}

/// The least power of two that is at least `n`, searching upward from `p`.
pub open spec fn pow2_from(p: nat, n: nat) -> nat
    decreases (if p < n { n - p } else { 0 }),
{
    if p == 0 || p >= n {
        p
    } else {
        pow2_from(2 * p, n)
    }
}

/// The least power of two that is at least `n` (1 for `n == 0`).
pub open spec fn next_pow2(n: nat) -> nat {
    pow2_from(1, n)
}

pub open spec fn is_pow2(n: nat) -> bool
    decreases n,
{
    if n == 1 {
        true
    } else if n == 0 || n % 2 == 1 {
        false
    } else {
        is_pow2(n / 2)
    }
}

/// The leaves padded with zero hashes up to the next power of two.
pub open spec fn padded_leaves(leaves: Seq<[u8; 32]>) -> Seq<[u8; 32]> {
    Seq::new(
        next_pow2(leaves.len()),
        |i: int|
            if i < leaves.len() {
                leaves[i]
            } else {
                zero_hash()
            },
    )
}

/// All layers of the Merkle tree over `leaves`: layer 0 is the padded leaves, the last
/// layer is the root alone. No leaves give the single layer `[zero]`.
pub open spec fn merkle_layers(leaves: Seq<[u8; 32]>) -> Seq<Seq<[u8; 32]>> {
    if leaves.len() == 0 {
        seq![seq![zero_hash()]]
    } else {
        layers_above(padded_leaves(leaves))
    }
}

/// The root of a list of layers: the first node of the last layer, zero if there is none.
pub open spec fn root_of(layers: Seq<Seq<[u8; 32]>>) -> [u8; 32] {
    if layers.len() > 0 && layers.last().len() > 0 {
        layers.last()[0]
    } else {
        zero_hash()
    }
}

/// The inclusion proof of the node at `idx` of the first layer: for every layer but the
/// last, the sibling (if it exists) and whether the current node is the right child.
pub open spec fn proof_of(layers: Seq<Seq<[u8; 32]>>, idx: nat) -> (Seq<[u8; 32]>, Seq<bool>)
    decreases layers.len(),
{
    if layers.len() <= 1 {
        (Seq::empty(), Seq::empty())
    } else {
        let layer = layers[0];
        let is_right = idx % 2 == 1;
        let sib: int = if is_right {
            idx - 1
        } else {
            idx + 1int
        };
        let rest = proof_of(layers.drop_first(), idx / 2);
        if sib < layer.len() {
            (seq![layer[sib]] + rest.0, seq![is_right] + rest.1)
        } else {
            rest
        }
    }
}

/// Fold a proof from a leaf upward: the node reached at the top.
pub open spec fn fold_proof(cur: [u8; 32], siblings: Seq<[u8; 32]>, positions: Seq<bool>) -> [u8; 32]
    decreases siblings.len(),
{
    if siblings.len() == 0 || positions.len() == 0 {
        cur
    } else {
        let next = if positions[0] {
            hash_pair(siblings[0], cur)
        } else {
            hash_pair(cur, siblings[0])
        };
        fold_proof(next, siblings.drop_first(), positions.drop_first())
    }
}

/// The view of a vector of layers.
pub open spec fn layers_view(layers: Seq<Vec<[u8; 32]>>) -> Seq<Seq<[u8; 32]>> {
    layers.map_values(|l: Vec<[u8; 32]>| l@)
}

proof fn lemma_pow2_from(p: nat, n: nat)
    requires
        p >= 1,
        is_pow2(p),
    ensures
        pow2_from(p, n) >= n,
        pow2_from(p, n) >= p,
        is_pow2(pow2_from(p, n)),
    decreases (if p < n { n - p } else { 0 }),
{
    if p < n {
        assert((2 * p) % 2 == 0);
        assert((2 * p) / 2 == p);
        lemma_pow2_from(2 * p, n);
    }
}

/// A power of two above 1 is even and halves to a power of two.
proof fn lemma_pow2_half(n: nat)
    requires
        is_pow2(n),
        n >= 2,
    ensures
        n % 2 == 0,
        is_pow2(n / 2),
        n / 2 >= 1,
        (n + 1) / 2 == n / 2,
{
}

/// Folding the proof of node `idx` of a power-of-two layer gives the root above it.
proof fn lemma_fold_layers_above(layer: Seq<[u8; 32]>, idx: nat)
    requires
        is_pow2(layer.len()),
        idx < layer.len(),
    ensures
        ({
            let layers = layers_above(layer);
            let p = proof_of(layers, idx);
            fold_proof(layer[idx as int], p.0, p.1) == root_of(layers)
        }),
    decreases layer.len(),
{
    let layers = layers_above(layer);
    if layer.len() <= 1 {
        assert(layers == seq![layer]);
        assert(idx == 0);
    } else {
        lemma_pow2_half(layer.len());
        let parent = parent_layer(layer);
        let j = idx / 2;
        assert(layers.drop_first() =~= layers_above(parent));
        lemma_fold_layers_above(parent, j);
        let is_right = idx % 2 == 1;
        let sib: int = if is_right {
            idx - 1
        } else {
            idx + 1int
        };
        assert(sib < layer.len());
        let rest = proof_of(layers_above(parent), j);
        let p = proof_of(layers, idx);
        assert(p.0 == seq![layer[sib]] + rest.0);
        assert(p.1 == seq![is_right] + rest.1);
        assert(p.0.drop_first() =~= rest.0);
        assert(p.1.drop_first() =~= rest.1);
        if is_right {
            assert(2 * j + 1 == idx);
            assert(parent[j as int] == hash_pair(layer[sib], layer[idx as int]));
        } else {
            assert(2 * j == idx);
            assert(parent[j as int] == hash_pair(layer[idx as int], layer[sib]));
        }
        assert(root_of(layers) == root_of(layers_above(parent)));
    }
}

/// Every leaf's inclusion proof, folded from the leaf, reproduces the Merkle root.
pub proof fn lemma_merkle_proof_verifies(leaves: Seq<[u8; 32]>, i: nat)
    requires
        i < leaves.len(),
    ensures
        ({
            let layers = merkle_layers(leaves);
            let p = proof_of(layers, i);
            fold_proof(leaves[i as int], p.0, p.1) == root_of(layers)
        }),
{
    lemma_pow2_from(1, leaves.len());
    let padded = padded_leaves(leaves);
    assert(padded[i as int] == leaves[i as int]);
    lemma_fold_layers_above(padded, i);
}

proof fn lemma_proof_shape_layers_above(layer: Seq<[u8; 32]>, idx: nat)
    requires
        is_pow2(layer.len()),
        idx < layer.len(),
    ensures
        ({
            let layers = layers_above(layer);
            let p = proof_of(layers, idx);
            &&& p.0.len() == layers.len() - 1
            &&& p.1.len() == layers.len() - 1
            &&& forall|k: int|
                0 <= k < p.1.len() ==> #[trigger] p.1[k] == ((idx as int / pow2(k as nat) as int)
                    % 2 == 1)
        }),
    decreases layer.len(),
{
    let layers = layers_above(layer);
    if layer.len() > 1 {
        lemma_pow2_half(layer.len());
        let parent = parent_layer(layer);
        let j = idx / 2;
        assert(layers.drop_first() =~= layers_above(parent));
        lemma_proof_shape_layers_above(parent, j);
        let is_right = idx % 2 == 1;
        let rest = proof_of(layers_above(parent), j);
        let p = proof_of(layers, idx);
        assert(p.1 == seq![is_right] + rest.1);
        assert forall|k: int| 0 <= k < p.1.len() implies #[trigger] p.1[k] == ((idx as int / pow2(
            k as nat,
        ) as int) % 2 == 1) by {
            if k == 0 {
                assert(pow2(0) == 1) by {
                    vstd::arithmetic::power2::lemma_pow2(0);
                    vstd::arithmetic::power::lemma_pow0(2);
                }
                assert(p.1[0] == is_right);
                assert(idx as int / 1 == idx as int);
            } else {
                assert(p.1[k] == rest.1[k - 1]);
                let q = pow2((k - 1) as nat) as int;
                assert(rest.1[k - 1] == ((j as int / q) % 2 == 1));
                vstd::arithmetic::power2::lemma_pow2_unfold(k as nat);
                vstd::arithmetic::power2::lemma_pow2_pos((k - 1) as nat);
                assert(pow2(k as nat) as int == 2 * q);
                vstd::arithmetic::div_mod::lemma_div_denominator(idx as int, 2, q);
                assert(j as int == idx as int / 2);
                assert((idx as int / 2) / q == idx as int / (2 * q));
            }
        }
    }
}

/// The inclusion proof of leaf `i` has one sibling per layer below the root, and its
/// position flags are the bits of `i`, lowest first (set: the node is a right child).
pub proof fn lemma_merkle_proof_shape(leaves: Seq<[u8; 32]>, i: nat)
    requires
        i < leaves.len(),
    ensures
        ({
            let layers = merkle_layers(leaves);
            let p = proof_of(layers, i);
            &&& p.0.len() == layers.len() - 1
            &&& p.1.len() == layers.len() - 1
            &&& forall|k: int|
                0 <= k < p.1.len() ==> #[trigger] p.1[k] == ((i as int / pow2(k as nat) as int) % 2
                    == 1)
        }),
{
    lemma_pow2_from(1, leaves.len());
    lemma_proof_shape_layers_above(padded_leaves(leaves), i);
}

/// A tree above a layer of `2^k` nodes has `k + 1` layers: the layer, and `k` above it up
/// to the root.
pub proof fn lemma_layers_above_len(layer: Seq<[u8; 32]>, k: nat)
    requires
        layer.len() == pow2(k),
    ensures
        layers_above(layer).len() == k + 1,
    decreases k,
{
    vstd::arithmetic::power2::lemma_pow2_pos(k);
    if k == 0 {
        vstd::arithmetic::power2::lemma2_to64();
    } else {
        vstd::arithmetic::power2::lemma_pow2_unfold(k);
        vstd::arithmetic::power2::lemma_pow2_pos((k - 1) as nat);
        let parent = parent_layer(layer);
        assert(parent.len() == pow2((k - 1) as nat));
        lemma_layers_above_len(parent, (k - 1) as nat);
        assert(layers_above(layer) == seq![layer] + layers_above(parent));
    }
}

/// A tree over leaves padded to `2^k` has `k + 1` layers, so each proof has `k` siblings.
pub proof fn lemma_merkle_height(leaves: Seq<[u8; 32]>, k: nat)
    requires
        leaves.len() > 0,
        next_pow2(leaves.len()) == pow2(k),
    ensures
        merkle_layers(leaves).len() == k + 1,
{
    lemma_layers_above_len(padded_leaves(leaves), k);
}

/// A tree over fifty leaves (a chunk's seeds) has seven layers: the leaves padded to 64,
/// and six above them.
pub proof fn lemma_fifty_leaf_tree_height(leaves: Seq<[u8; 32]>)
    requires
        leaves.len() == 50,
    ensures
        merkle_layers(leaves).len() == 7,
{
    assert(next_pow2(50) == 64) by {
        reveal_with_fuel(pow2_from, 8);
    }
    vstd::arithmetic::power2::lemma2_to64();
    lemma_layers_above_len(padded_leaves(leaves), 6);
}

/// The position flags of a leaf's proof are the bits of its index, lowest first: flag `k`
/// is bit `k` of `i` (`(i >> k) & 1 == 1`), for every flag of the proof.
pub proof fn lemma_merkle_proof_bits(leaves: Seq<[u8; 32]>, i: u64)
    requires
        i < leaves.len(),
    ensures
        ({
            let p = proof_of(merkle_layers(leaves), i as nat);
            forall|k: int|
                0 <= k < p.1.len() && k < 64 ==> #[trigger] p.1[k] == ((i >> (k as u64)) & 1u64
                    == 1u64)
        }),
{
    let p = proof_of(merkle_layers(leaves), i as nat);
    lemma_merkle_proof_shape(leaves, i as nat);
    assert forall|k: int| 0 <= k < p.1.len() && k < 64 implies #[trigger] p.1[k] == ((i >> (
    k as u64)) & 1u64 == 1u64) by {
        let sh = i >> (k as u64);
        vstd::bits::lemma_u64_shr_is_div(i, k as u64);
        assert(sh & 1u64 == sh % 2) by (bit_vector);
        assert(sh as int == i as int / pow2(k as nat) as int);
    }
}

/// Both children concatenated, left first.
fn concat_pair(left: &[u8; 32], right: &[u8; 32]) -> (r: [u8; 64])
    ensures
        r@ == left@ + right@,
{
    let mut buf = [0u8; 64];
    let mut i: usize = 0;
    while i < 32
        invariant
            0 <= i <= 32,
            buf@.len() == 64,
            forall|j: int| 0 <= j < i ==> buf@[j] == left@[j] && buf@[32 + j] == right@[j],
        decreases 32 - i,
    {
        buf[i] = left[i];
        buf[32 + i] = right[i];
        i = i + 1;
    }
    assert(buf@ =~= left@ + right@);
    buf
}

/// SHA-256 of left || right.
pub fn hash_children(left: &[u8; 32], right: &[u8; 32]) -> (r: [u8; 32])
    ensures
        r == hash_pair(*left, *right),
{
    let buf = concat_pair(left, right);
    sha256(buf.as_slice())
}

/// The layer above `layer`.
fn build_parent_layer(layer: &Vec<[u8; 32]>) -> (next: Vec<[u8; 32]>)
    ensures
        next@ == parent_layer(layer@),
{
    let n = layer.len();
    let half = n / 2 + n % 2;
    let mut next: Vec<[u8; 32]> = Vec::new();
    let mut i: usize = 0;
    while i < half
        invariant
            n == layer@.len(),
            half == (n + 1) / 2,
            0 <= i <= half,
            next@.len() == i,
            forall|j: int| 0 <= j < i ==> next@[j] == parent_layer(layer@)[j],
        decreases half - i,
    {
        let left = layer[2 * i];
        let right = if 2 * i + 1 < n {
            layer[2 * i + 1]
        } else {
            [0u8; 32]
        };
        let h = hash_children(&left, &right);
        next.push(h);
        i = i + 1;
    }
    assert(next@ =~= parent_layer(layer@));
    next
}

/// The least power of two at least `n` (1 for `n == 0`).
fn next_power_of_two(n: usize) -> (p: usize)
    requires
        n <= usize::MAX / 2,
    ensures
        p == next_pow2(n as nat),
{
    let mut p: usize = 1;
    while p < n
        invariant
            1 <= p,
            n <= usize::MAX / 2,
            p < n ==> p <= usize::MAX / 2,
            pow2_from(p as nat, n as nat) == next_pow2(n as nat),
        decreases (if p < n { n - p } else { 0 }),
    {
        p = p * 2;
    }
    p
}

/// Build a Merkle tree from leaves. Returns all layers (layer 0 = leaves padded with zero
/// hashes to the next power of two, last layer = [root]). No leaves give `[[zero]]`.
pub fn build_merkle_tree(leaves: &[[u8; 32]]) -> (layers: Vec<Vec<[u8; 32]>>)
    requires
        leaves@.len() <= usize::MAX / 2,
    ensures
        layers_view(layers@) == merkle_layers(leaves@),
{
    if leaves.len() == 0 {
        let mut layers: Vec<Vec<[u8; 32]>> = Vec::new();
        let mut root_layer: Vec<[u8; 32]> = Vec::new();
        root_layer.push([0u8; 32]);
        layers.push(root_layer);
        assert(layers_view(layers@) =~= merkle_layers(leaves@));
        return layers;
    }
    let n = next_power_of_two(leaves.len());
    proof {
        lemma_pow2_from(1, leaves@.len());
    }
    let mut layer: Vec<[u8; 32]> = Vec::new();
    let mut i: usize = 0;
    while i < n
        invariant
            n == next_pow2(leaves@.len() as nat),
            0 <= i <= n,
            layer@.len() == i,
            forall|j: int| 0 <= j < i ==> layer@[j] == padded_leaves(leaves@)[j],
        decreases n - i,
    {
        if i < leaves.len() {
            layer.push(leaves[i]);
        } else {
            layer.push([0u8; 32]);
        }
        i = i + 1;
    }
    assert(layer@ =~= padded_leaves(leaves@));
    let ghost target = merkle_layers(leaves@);
    let mut layers: Vec<Vec<[u8; 32]>> = Vec::new();
    assert(layers_view(layers@) + layers_above(layer@) =~= target);
    loop
        invariant
            target == merkle_layers(leaves@),
            layers_view(layers@) + layers_above(layer@) == target,
        decreases layer@.len(),
    {
        if layer.len() <= 1 {
            let ghost before = layers@;
            let ghost cur = layer@;
            assert(layers_above(cur) == seq![cur]);
            layers.push(layer);
            assert(layers_view(layers@) =~= layers_view(before) + seq![cur]);
            return layers;
        }
        let next = build_parent_layer(&layer);
        let ghost before = layers@;
        let ghost cur = layer@;
        layers.push(layer);
        assert(layers_view(layers@) =~= layers_view(before) + seq![cur]);
        assert(layers_view(layers@) + layers_above(next@) =~= layers_view(before) + layers_above(cur));
        layer = next;
    }
}

/// Merkle root: the first node of the last layer, zero if there is none.
pub fn get_merkle_root(layers: &[Vec<[u8; 32]>]) -> (root: [u8; 32])
    ensures
        root == root_of(layers_view(layers@)),
{
    let n = layers.len();
    if n > 0 && layers[n - 1].len() > 0 {
        layers[n - 1][0]
    } else {
        [0u8; 32]
    }
}

/// Generate the Merkle proof of the leaf at `leaf_index`: sibling hashes from the leaf up
/// to the root, and for each whether the current node is the right child.
pub fn generate_merkle_proof(layers: &[Vec<[u8; 32]>], leaf_index: usize) -> (r: (
    Vec<[u8; 32]>,
    Vec<bool>,
))
    ensures
        (r.0@, r.1@) == proof_of(layers_view(layers@), leaf_index as nat),
{
    let ghost lv = layers_view(layers@);
    let n = layers.len();
    let top = if n > 0 {
        n - 1
    } else {
        0
    };
    let mut siblings: Vec<[u8; 32]> = Vec::new();
    let mut positions: Vec<bool> = Vec::new();
    let mut idx = leaf_index;
    let mut k: usize = 0;
    assert(lv.skip(0) =~= lv);
    while k < top
        invariant
            n == layers@.len(),
            lv == layers_view(layers@),
            top == if n > 0 {
                (n - 1) as usize
            } else {
                0usize
            },
            0 <= k <= top,
            ({
                let rest = proof_of(lv.skip(k as int), idx as nat);
                (siblings@ + rest.0, positions@ + rest.1) == proof_of(lv, leaf_index as nat)
            }),
        decreases top - k,
    {
        let ghost rest_before = proof_of(lv.skip(k as int), idx as nat);
        assert(lv.skip(k as int).drop_first() =~= lv.skip(k + 1));
        let layer = &layers[k];
        assert(lv.skip(k as int)[0] == layer@);
        let is_right = idx % 2 == 1;
        let sibling_idx = if is_right {
            idx - 1
        } else {
            idx + 1
        };
        if sibling_idx < layer.len() {
            let ghost s0 = siblings@;
            let ghost p0 = positions@;
            siblings.push(layer[sibling_idx]);
            positions.push(is_right);
            let ghost rest = proof_of(lv.skip(k + 1), (idx / 2) as nat);
            assert(siblings@ + rest.0 =~= s0 + rest_before.0);
            assert(positions@ + rest.1 =~= p0 + rest_before.1);
        }
        idx = idx / 2;
        k = k + 1;
    }
    assert(lv.skip(k as int).len() <= 1);
    assert(siblings@ =~= siblings@ + Seq::<[u8; 32]>::empty());
    assert(positions@ =~= positions@ + Seq::<bool>::empty());
    (siblings, positions)
}

} // verus!
