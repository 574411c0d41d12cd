//! The hash-chain commitment builder: folds the block's public fields and
//! the accumulated public byte stream into one field element.

use vstd::prelude::*;
use crate::encode::be32;
use crate::encode::push_be32;
use crate::encode::push_bytes;
use crate::field::is_fr;
use crate::hash::digest_to_fr;
use crate::hash::fr_of_digest;
use crate::hash::sha256_digest;
use crate::hash::sha256_of;

verus! {

/// The commitment of a block: the chain
/// `H1 = Hash(old_root || final_root)`, `H2 = Hash(H1 || fee_address)`,
/// `H3 = Hash(H2 || block_timestamp)`, `H4 = Hash(H3 || public_bytes)`,
/// with `H4` reinterpreted as a field element through its low capacity bits.
pub open spec fn spec_commitment(
    old_root: u64,
    final_root: u64,
    fee_address: u64,
    block_timestamp: u64,
    public_bytes: Seq<u8>,
) -> u64 {
    let h1 = sha256_of(be32(old_root) + be32(final_root));
    let h2 = sha256_of(h1 + be32(fee_address));
    let h3 = sha256_of(h2 + be32(block_timestamp));
    let h4 = sha256_of(h3 + public_bytes);
    fr_of_digest(h4)
}

/// Fold the block's public data into its commitment. A deterministic pure
/// function: the result depends on the five arguments alone.
pub fn compute_commitment(
    old_root: u64,
    final_root: u64,
    fee_address: u64,
    block_timestamp: u64,
    public_bytes: &Vec<u8>,
) -> (c: u64)
    ensures
        c == spec_commitment(old_root, final_root, fee_address, block_timestamp, public_bytes@),
        is_fr(c),
{
    let mut d1: Vec<u8> = Vec::new();
    push_be32(&mut d1, old_root);
    push_be32(&mut d1, final_root);
    let h1 = sha256_digest(&d1);
    let mut d2 = h1;
    push_be32(&mut d2, fee_address);
    let h2 = sha256_digest(&d2);
    let mut d3 = h2;
    push_be32(&mut d3, block_timestamp);
    let h3 = sha256_digest(&d3);
    let mut d4 = h3;
    push_bytes(&mut d4, public_bytes);
    let h4 = sha256_digest(&d4);
    digest_to_fr(&h4)
}

/// Commitment computation is deterministic: identical inputs always yield
/// an identical commitment, on every machine and in every evaluation order.
pub proof fn lemma_commitment_deterministic(
    old_root: u64,
    final_root: u64,
    fee_address: u64,
    block_timestamp: u64,
    public_bytes: Seq<u8>,
    other_bytes: Seq<u8>,
)
    requires
        public_bytes == other_bytes,
    ensures
        spec_commitment(old_root, final_root, fee_address, block_timestamp, public_bytes)
            == spec_commitment(old_root, final_root, fee_address, block_timestamp, other_bytes),
{
}

} // verus!
