//! The Merkle audit gadget: recompute a leaf-to-root hash along a fixed-depth
//! sibling path, deciding left/right order by the leaf-index bits.

use vstd::prelude::*;
use crate::encode::be32;
use crate::encode::push_be32;
use crate::field::is_fr;
use crate::hash::digest_to_fr;
use crate::hash::fr_of_digest;
use crate::hash::sha256_digest;
use crate::hash::sha256_of;

verus! {

/// The configured tree depth, known to prover and verifier alike; every
/// audit path must have exactly this many siblings.
pub const TREE_DEPTH: usize = 4;

/// The inner-node hash: the digest of the two children's canonical
/// encodings, read back as a field element.
pub open spec fn node_hash(left: u64, right: u64) -> u64 {
    fr_of_digest(sha256_of(be32(left) + be32(right)))
}

/// The root recomputed from a leaf along a sibling path; bit `i` of the leaf
/// index picks the concatenation order at level `i`, least significant bit
/// at the leaf level.
pub open spec fn merkle_root(leaf: u64, siblings: Seq<u64>, index: nat) -> u64
    decreases siblings.len(),
{
    if siblings.len() == 0 {
        leaf
    } else {
        let parent = if index % 2 == 0 {
            node_hash(leaf, siblings[0])
        } else {
            node_hash(siblings[0], leaf)
        };
        merkle_root(parent, siblings.skip(1), index / 2)
    }
}

/// Hash two children into their parent node.
pub fn hash_nodes(left: u64, right: u64) -> (h: u64)
    ensures
        h == node_hash(left, right),
        is_fr(h),
{
    let mut data: Vec<u8> = Vec::new();
    push_be32(&mut data, left);
    push_be32(&mut data, right);
    let digest = sha256_digest(&data);
    digest_to_fr(&digest)
}

/// Recompute the root from a leaf value along a sibling path.
pub fn compute_merkle_root(leaf: u64, siblings: &Vec<u64>, index: u64) -> (r: u64)
    requires
        is_fr(leaf),
    ensures
        r == merkle_root(leaf, siblings@, index as nat),
        is_fr(r),
{
    let mut cur = leaf;
    let mut idx = index;
    let mut i: usize = 0;
    proof {
        assert(siblings@.skip(0) =~= siblings@);
    }
    while i < siblings.len()
        invariant
            i <= siblings@.len(),
            is_fr(cur),
            merkle_root(cur, siblings@.skip(i as int), idx as nat) == merkle_root(
                leaf,
                siblings@,
                index as nat,
            ),
        decreases siblings@.len() - i,
    {
        let sib = siblings[i];
        proof {
            assert(siblings@.skip(i as int)[0] == siblings@[i as int]);
            assert(siblings@.skip(i as int).skip(1) =~= siblings@.skip(i as int + 1));
        }
        if idx % 2 == 0 {
            cur = hash_nodes(cur, sib);
        } else {
            cur = hash_nodes(sib, cur);
        }
        idx = idx / 2;
        i = i + 1;
    }
    proof {
        assert(siblings@.skip(siblings@.len() as int) =~= Seq::<u64>::empty());
    }
    cur
}

/// The root of a complete tree over a sequence of `2^depth` leaves.
pub open spec fn tree_root(leaves: Seq<u64>, depth: nat) -> u64
    decreases depth,
{
    if depth == 0 {
        leaves[0]
    } else {
        let half = leaves.len() as int / 2;
        node_hash(
            tree_root(leaves.take(half), (depth - 1) as nat),
            tree_root(leaves.skip(half), (depth - 1) as nat),
        )
    }
}

/// Updates of two distinct leaves commute: applying them in either order
/// yields the same leaf sequence, hence the same root. This is the sense in
/// which two transactions touching disjoint accounts may be swapped without
/// changing the final root.
pub proof fn lemma_disjoint_updates_commute(
    leaves: Seq<u64>,
    depth: nat,
    i: int,
    j: int,
    a: u64,
    b: u64,
)
    requires
        0 <= i < leaves.len(),
        0 <= j < leaves.len(),
        i != j,
    ensures
        tree_root(leaves.update(i, a).update(j, b), depth) == tree_root(
            leaves.update(j, b).update(i, a),
            depth,
        ),
{
    assert(leaves.update(i, a).update(j, b) =~= leaves.update(j, b).update(i, a));
}

/// 2^k.
pub open spec fn pow2(k: nat) -> nat
    decreases k,
{
    if k == 0 {
        1
    } else {
        2 * pow2((k - 1) as nat)
    }
}

pub proof fn lemma_pow2_pos(k: nat)
    ensures
        pow2(k) >= 1,
    decreases k,
{
    if k > 0 {
        lemma_pow2_pos((k - 1) as nat);
    }
}

/// The sibling path of leaf `idx` in a complete tree: the leaf-level sibling
/// first, the other half's root last.
pub open spec fn tree_siblings(leaves: Seq<u64>, depth: nat, idx: nat) -> Seq<u64>
    decreases depth,
{
    if depth == 0 {
        Seq::<u64>::empty()
    } else {
        let half = leaves.len() as int / 2;
        if idx < pow2((depth - 1) as nat) {
            tree_siblings(leaves.take(half), (depth - 1) as nat, idx).push(
                tree_root(leaves.skip(half), (depth - 1) as nat),
            )
        } else {
            tree_siblings(
                leaves.skip(half),
                (depth - 1) as nat,
                (idx - pow2((depth - 1) as nat)) as nat,
            ).push(tree_root(leaves.take(half), (depth - 1) as nat))
        }
    }
}

/// The recomputed root depends on the leaf index only through its low
/// `siblings.len()` bits.
pub proof fn lemma_merkle_root_mod(leaf: u64, siblings: Seq<u64>, i1: nat, i2: nat)
    requires
        i1 % pow2(siblings.len()) == i2 % pow2(siblings.len()),
    ensures
        merkle_root(leaf, siblings, i1) == merkle_root(leaf, siblings, i2),
    decreases siblings.len(),
{
    if siblings.len() > 0 {
        let rest = pow2((siblings.len() - 1) as nat);
        lemma_pow2_pos((siblings.len() - 1) as nat);
        vstd::arithmetic::div_mod::lemma_mod_breakdown(i1 as int, 2, rest as int);
        vstd::arithmetic::div_mod::lemma_mod_breakdown(i2 as int, 2, rest as int);
        assert(pow2(siblings.len()) == 2 * rest);
        assert(2 * ((i1 as int / 2) % rest as int) + i1 as int % 2 == 2 * ((i2 as int / 2)
            % rest as int) + i2 as int % 2);
        assert(i1 % 2 == i2 % 2);
        assert((i1 / 2) % rest == (i2 / 2) % rest);
        let parent = if i1 % 2 == 0 {
            node_hash(leaf, siblings[0])
        } else {
            node_hash(siblings[0], leaf)
        };
        lemma_merkle_root_mod(parent, siblings.skip(1), i1 / 2, i2 / 2);
    }
}

/// Appending one sibling at the top of a path hashes the recomputed root
/// with it, on the side that the next index bit picks.
pub proof fn lemma_merkle_root_push(leaf: u64, siblings: Seq<u64>, sib: u64, idx: nat)
    ensures
        merkle_root(leaf, siblings.push(sib), idx) == if (idx / pow2(siblings.len())) % 2 == 0 {
            node_hash(merkle_root(leaf, siblings, idx), sib)
        } else {
            node_hash(sib, merkle_root(leaf, siblings, idx))
        },
    decreases siblings.len(),
{
    if siblings.len() == 0 {
        assert(siblings.push(sib)[0] == sib);
        assert(siblings.push(sib).len() == 1);
        assert(siblings.push(sib).skip(1) =~= Seq::<u64>::empty());
        assert(pow2(0) == 1);
        vstd::arithmetic::div_mod::lemma_div_basics(idx as int);
        assert(idx / pow2(0) == idx);
        let parent = if idx % 2 == 0 {
            node_hash(leaf, sib)
        } else {
            node_hash(sib, leaf)
        };
        assert(merkle_root(parent, Seq::<u64>::empty(), idx / 2) == parent);
        assert(merkle_root(leaf, siblings.push(sib), idx) == merkle_root(
            parent,
            siblings.push(sib).skip(1),
            idx / 2,
        ));
        assert((idx / pow2(0)) % 2 == idx % 2);
    } else {
        let rest = pow2((siblings.len() - 1) as nat);
        lemma_pow2_pos((siblings.len() - 1) as nat);
        assert(siblings.push(sib)[0] == siblings[0]);
        assert(siblings.push(sib).skip(1) =~= siblings.skip(1).push(sib));
        let parent = if idx % 2 == 0 {
            node_hash(leaf, siblings[0])
        } else {
            node_hash(siblings[0], leaf)
        };
        lemma_merkle_root_push(parent, siblings.skip(1), sib, idx / 2);
        vstd::arithmetic::div_mod::lemma_div_denominator(idx as int, 2, rest as int);
        assert(pow2(siblings.len()) == 2 * rest);
        assert((idx / 2) / rest == idx / pow2(siblings.len()));
    }
}

/// The audit-path recomputation agrees with the complete-tree root: for a
/// tree of `2^depth` leaves, rehashing leaf `idx` along its sibling path
/// yields exactly the tree's root. Together with the commutation of
/// disjoint leaf updates this is why swapping two transactions on distinct
/// accounts leaves the final root unchanged.
pub proof fn lemma_audit_path_of_tree(leaves: Seq<u64>, depth: nat, idx: nat)
    requires
        leaves.len() == pow2(depth),
        idx < pow2(depth),
    ensures
        tree_siblings(leaves, depth, idx).len() == depth,
        merkle_root(leaves[idx as int], tree_siblings(leaves, depth, idx), idx) == tree_root(
            leaves,
            depth,
        ),
    decreases depth,
{
    if depth == 0 {
    } else {
        let half = pow2((depth - 1) as nat);
        lemma_pow2_pos((depth - 1) as nat);
        assert(leaves.len() as int / 2 == half as int);
        let left = leaves.take(half as int);
        let right = leaves.skip(half as int);
        if idx < half {
            lemma_audit_path_of_tree(left, (depth - 1) as nat, idx);
            assert(left[idx as int] == leaves[idx as int]);
            let sibs = tree_siblings(left, (depth - 1) as nat, idx);
            let top = tree_root(right, (depth - 1) as nat);
            lemma_merkle_root_push(leaves[idx as int], sibs, top, idx);
            assert(idx / pow2((depth - 1) as nat) == 0) by {
                vstd::arithmetic::div_mod::lemma_basic_div(idx as int, half as int);
            }
        } else {
            let idx2 = (idx - half) as nat;
            lemma_audit_path_of_tree(right, (depth - 1) as nat, idx2);
            assert(right[idx2 as int] == leaves[idx as int]);
            let sibs = tree_siblings(right, (depth - 1) as nat, idx2);
            let top = tree_root(left, (depth - 1) as nat);
            assert(idx2 % pow2((depth - 1) as nat) == idx % pow2((depth - 1) as nat)) by {
                vstd::arithmetic::div_mod::lemma_mod_multiples_vanish(
                    1,
                    idx2 as int,
                    half as int,
                );
                vstd::arithmetic::div_mod::lemma_small_mod(idx2, half);
            }
            lemma_merkle_root_mod(leaves[idx as int], sibs, idx2, idx);
            lemma_merkle_root_push(leaves[idx as int], sibs, top, idx);
            assert(idx / pow2((depth - 1) as nat) == 1) by {
                vstd::arithmetic::div_mod::lemma_fundamental_div_mod_converse(
                    idx as int,
                    half as int,
                    1,
                    idx2 as int,
                );
            }
        }
    }
}

} // verus!
