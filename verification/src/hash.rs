//! The circuit's hash primitive: SHA-256, and the rule that reinterprets a
//! digest as a field element.

use vstd::prelude::*;
use crate::field::is_fr;

verus! {

/// The 32-byte SHA-256 digest of a byte sequence, a function of the input
/// bytes alone.
pub uninterp spec fn sha256_of(data: Seq<u8>) -> Seq<u8>;

/// Relies on sha2::Sha256::digest: the SHA-256 digest of the input, 32 bytes,
/// depending on the input bytes alone.
#[verifier::external_body]
pub fn sha256_digest(data: &Vec<u8>) -> (r: Vec<u8>)
    ensures
        r@ == sha256_of(data@),
        r@.len() == 32,
{
    <sha2::Sha256 as sha2::Digest>::digest(data.as_slice()).to_vec()
}

/// A digest, read as a 256-bit big-endian integer, reduced to its low
/// `FIELD_CAPACITY` (20) bits. This is the same value as reversing the
/// digest's bit order, truncating to the capacity, and packing the remaining
/// bits with the first as the least significant: the field element that the
/// circuit derives from a hash block.
pub open spec fn fr_of_digest(d: Seq<u8>) -> u64 {
    (((d[29] as nat % 16) * 65536 + (d[30] as nat) * 256 + (d[31] as nat)) as u64)
}

pub proof fn lemma_fr_of_digest_is_fr(d: Seq<u8>)
    ensures
        is_fr(fr_of_digest(d)),
{
    assert((d[29] as nat % 16) * 65536 <= 15 * 65536);
}

/// Read the low capacity bits of a 32-byte digest as a field element.
pub fn digest_to_fr(d: &Vec<u8>) -> (r: u64)
    requires
        d@.len() == 32,
    ensures
        r == fr_of_digest(d@),
        is_fr(r),
{
    let hi = (d[29] % 16) as u64;
    let mid = d[30] as u64;
    let lo = d[31] as u64;
    proof {
        lemma_fr_of_digest_is_fr(d@);
    }
    hi * 65536 + mid * 256 + lo
}

} // verus!
