//! Canonical byte layout: every field element is encoded as 256 bits (32
//! bytes) big-endian; a transaction's signing message and its public byte
//! contribution are fixed-order concatenations of such encodings.

use vstd::prelude::*;
use crate::field::is_fr;

verus! {

/// 256^k.
pub open spec fn pow256(k: nat) -> nat
    decreases k,
{
    if k == 0 {
        1
    } else {
        256 * pow256((k - 1) as nat)
    }
}

/// Byte `i` of the 32-byte big-endian encoding of `x`: the first 24 bytes
/// pad with zero, the last 8 carry the value, most significant first.
pub open spec fn be32_byte(x: u64, i: int) -> u8 {
    if 24 <= i < 32 {
        (((x as nat / pow256((31 - i) as nat)) % 256) as u8)
    } else {
        0u8
    }
}

/// The canonical 256-bit big-endian encoding of a field element.
pub open spec fn be32(x: u64) -> Seq<u8> {
    Seq::new(32, |i: int| be32_byte(x, i))
}

/// The signing message of a transaction: all seven fields, fixed width, in
/// canonical order.
pub open spec fn tx_message(
    from: u64,
    to: u64,
    amount: u64,
    fee: u64,
    nonce: u64,
    valid_from: u64,
    valid_until: u64,
) -> Seq<u8> {
    be32(from) + be32(to) + be32(amount) + be32(fee) + be32(nonce) + be32(valid_from) + be32(
        valid_until,
    )
}

/// The transaction's public byte contribution: the five fields published
/// on chain, validity-window bounds excluded.
pub open spec fn tx_public_bytes(from: u64, to: u64, amount: u64, fee: u64, nonce: u64) -> Seq<
    u8,
> {
    be32(from) + be32(to) + be32(amount) + be32(fee) + be32(nonce)
}

/// Append the canonical encoding of `x` to a byte stream.
pub fn push_be32(out: &mut Vec<u8>, x: u64) -> (nothing: ())
    ensures
        final(out)@ == old(out)@ + be32(x),
{
    let ghost start = out@;
    let mut k: usize = 0;
    while k < 24
        invariant
            k <= 24,
            out@ == start + be32(x).take(k as int),
        decreases 24 - k,
    {
        proof {
            assert(be32(x).take(k + 1) =~= be32(x).take(k as int).push(0u8));
        }
        out.push(0u8);
        k = k + 1;
    }
    let mut d: u64 = 0x100000000000000;
    let mut j: usize = 0;
    proof {
        lemma_pow256_small();
        assert(pow256(3) == 0x1000000);
        assert(pow256(4) == 0x100000000);
        assert(pow256(5) == 0x10000000000);
        assert(pow256(6) == 0x1000000000000);
        assert(pow256(7) == 0x100000000000000);
    }
    while j < 8
        invariant
            j <= 8,
            d >= 1,
            j < 8 ==> d as nat == pow256((7 - j) as nat),
            out@ == start + be32(x).take(24 + j),
        decreases 8 - j,
    {
        let b = ((x / d) % 256) as u8;
        proof {
            assert(be32_byte(x, 24 + j) == b);
            assert(be32(x).take(24 + j + 1) =~= be32(x).take(24 + j).push(b));
        }
        out.push(b);
        if j < 7 {
            proof {
                assert(d as nat == 256 * pow256((6 - j) as nat));
                assert(256 * pow256((6 - j) as nat) / 256 == pow256((6 - j) as nat))
                    by (nonlinear_arith);
                lemma_pow256_pos((6 - j) as nat);
            }
            d = d / 256;
        }
        j = j + 1;
    }
    proof {
        assert(be32(x).take(32) =~= be32(x));
    }
}

/// Append a whole byte sequence to a byte stream.
pub fn push_bytes(out: &mut Vec<u8>, src: &Vec<u8>) -> (nothing: ())
    ensures
        final(out)@ == old(out)@ + src@,
{
    let ghost start = out@;
    let mut i: usize = 0;
    while i < src.len()
        invariant
            i <= src@.len(),
            out@ == start + src@.take(i as int),
        decreases src@.len() - i,
    {
        proof {
            assert(src@.take(i + 1) =~= src@.take(i as int).push(src@[i as int]));
        }
        let b = src[i];
        out.push(b);
        i = i + 1;
    }
    proof {
        assert(src@.take(src@.len() as int) =~= src@);
    }
}

pub proof fn lemma_pow256_pos(k: nat)
    ensures
        pow256(k) >= 1,
    decreases k,
{
    if k > 0 {
        lemma_pow256_pos((k - 1) as nat);
    }
}

/// 256^2 and 256^1, spelled out for the byte-recovery argument below.
pub proof fn lemma_pow256_small()
    ensures
        pow256(0) == 1,
        pow256(1) == 256,
        pow256(2) == 65536,
{
}

/// The signing message binds every transaction field: two range-checked
/// field tuples with the same canonical message agree on all seven fields,
/// so mutating any single field changes the message that the signature
/// gadget verifies.
pub proof fn lemma_message_binds_fields(
    from1: u64,
    to1: u64,
    amount1: u64,
    fee1: u64,
    nonce1: u64,
    valid_from1: u64,
    valid_until1: u64,
    from2: u64,
    to2: u64,
    amount2: u64,
    fee2: u64,
    nonce2: u64,
    valid_from2: u64,
    valid_until2: u64,
)
    requires
        is_fr(from1) && is_fr(to1) && is_fr(amount1) && is_fr(fee1) && is_fr(nonce1) && is_fr(
            valid_from1,
        ) && is_fr(valid_until1),
        is_fr(from2) && is_fr(to2) && is_fr(amount2) && is_fr(fee2) && is_fr(nonce2) && is_fr(
            valid_from2,
        ) && is_fr(valid_until2),
        tx_message(from1, to1, amount1, fee1, nonce1, valid_from1, valid_until1) == tx_message(
            from2,
            to2,
            amount2,
            fee2,
            nonce2,
            valid_from2,
            valid_until2,
        ),
    ensures
        from1 == from2,
        to1 == to2,
        amount1 == amount2,
        fee1 == fee2,
        nonce1 == nonce2,
        valid_from1 == valid_from2,
        valid_until1 == valid_until2,
{
    let m1 = tx_message(from1, to1, amount1, fee1, nonce1, valid_from1, valid_until1);
    let m2 = tx_message(from2, to2, amount2, fee2, nonce2, valid_from2, valid_until2);
    assert(m1.subrange(0, 32) =~= be32(from1) && m2.subrange(0, 32) =~= be32(from2));
    assert(m1.subrange(32, 64) =~= be32(to1) && m2.subrange(32, 64) =~= be32(to2));
    assert(m1.subrange(64, 96) =~= be32(amount1) && m2.subrange(64, 96) =~= be32(amount2));
    assert(m1.subrange(96, 128) =~= be32(fee1) && m2.subrange(96, 128) =~= be32(fee2));
    assert(m1.subrange(128, 160) =~= be32(nonce1) && m2.subrange(128, 160) =~= be32(nonce2));
    assert(m1.subrange(160, 192) =~= be32(valid_from1) && m2.subrange(160, 192) =~= be32(
        valid_from2,
    ));
    assert(m1.subrange(192, 224) =~= be32(valid_until1) && m2.subrange(192, 224) =~= be32(
        valid_until2,
    ));
    lemma_be32_injective(from1, from2);
    lemma_be32_injective(to1, to2);
    lemma_be32_injective(amount1, amount2);
    lemma_be32_injective(fee1, fee2);
    lemma_be32_injective(nonce1, nonce2);
    lemma_be32_injective(valid_from1, valid_from2);
    lemma_be32_injective(valid_until1, valid_until2);
}

/// The canonical encoding binds the value: two field elements with the same
/// encoding are the same element.
pub proof fn lemma_be32_injective(a: u64, b: u64)
    requires
        is_fr(a),
        is_fr(b),
        be32(a) == be32(b),
    ensures
        a == b,
{
    lemma_pow256_small();
    assert(be32(a)[29] == be32_byte(a, 29) && be32(b)[29] == be32_byte(b, 29));
    assert(be32(a)[30] == be32_byte(a, 30) && be32(b)[30] == be32_byte(b, 30));
    assert(be32(a)[31] == be32_byte(a, 31) && be32(b)[31] == be32_byte(b, 31));
    assert(be32_byte(a, 29) == be32_byte(b, 29));
    assert(be32_byte(a, 30) == be32_byte(b, 30));
    assert(be32_byte(a, 31) == be32_byte(b, 31));
    let a29: nat = (a as nat / 65536) % 256;
    let b29: nat = (b as nat / 65536) % 256;
    let a30: nat = (a as nat / 256) % 256;
    let b30: nat = (b as nat / 256) % 256;
    let a31: nat = (a as nat) % 256;
    let b31: nat = (b as nat) % 256;
    assert(be32_byte(a, 29) == a29 as u8 && be32_byte(b, 29) == b29 as u8);
    assert(be32_byte(a, 30) == a30 as u8 && be32_byte(b, 30) == b30 as u8);
    assert(a as nat / 1 == a as nat && b as nat / 1 == b as nat);
    assert(be32_byte(a, 31) == a31 as u8 && be32_byte(b, 31) == b31 as u8);
    assert(a29 < 256 && b29 < 256 && a30 < 256 && b30 < 256 && a31 < 256 && b31 < 256);
    assert(a29 as u8 as nat == a29 && b29 as u8 as nat == b29);
    assert(a30 as u8 as nat == a30 && b30 as u8 as nat == b30);
    assert(a31 as u8 as nat == a31 && b31 as u8 as nat == b31);
    assert(a29 == b29 && a30 == b30 && a31 == b31);
    assert((a / 65536) % 256 == (b / 65536) % 256 && (a / 256) % 256 == (b / 256) % 256 && a % 256
        == b % 256);
    assert(a == b) by (bit_vector)
        requires
            a < 0x200000,
            b < 0x200000,
            (a / 65536) % 256 == (b / 65536) % 256,
            (a / 256) % 256 == (b / 256) % 256,
            a % 256 == b % 256,
    ;
}

} // verus!
