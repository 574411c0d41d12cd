//! The signature gadget: a Schnorr-style verification equation over the
//! twisted Edwards curve, with SHA-256 as the hash-to-scalar step.

use vstd::prelude::*;
use crate::curve::base_point;
use crate::curve::point_add;
use crate::curve::point_mul;
use crate::curve::point_on_curve;
use crate::curve::pt_add;
use crate::curve::pt_mul;
use crate::curve::pt_on_curve;
use crate::curve::Point;
use crate::curve::BASE_X;
use crate::curve::BASE_Y;
use crate::curve::SUBGROUP_ORDER;
use crate::encode::be32;
use crate::encode::push_be32;
use crate::field::is_fr;
use crate::hash::digest_to_fr;
use crate::hash::fr_of_digest;
use crate::hash::sha256_digest;
use crate::hash::sha256_of;

verus! {

/// A transaction's signature witness: the commitment point `R` and the
/// scalar response `s`. All parts are assigned together or the signature is
/// malformed.
pub struct CircuitSignature {
    pub r_x: Option<u64>,
    pub r_y: Option<u64>,
    pub s: Option<u64>,
}

pub open spec fn sig_assigned(sig: CircuitSignature) -> bool {
    sig.r_x is Some && sig.r_y is Some && sig.s is Some
}

/// The challenge scalar: the hash of the commitment point, the authorized
/// key, and the message, reduced below the subgroup order.
pub open spec fn sig_challenge(r: Point, a: Point, msg: Seq<u8>) -> u64 {
    fr_of_digest(sha256_of(be32(r.x) + be32(r.y) + be32(a.x) + be32(a.y) + msg))
        % SUBGROUP_ORDER
}

/// The authorized public key for a sender: the sender's scalar applied to
/// the base point. Resolving the key through the account-tree leaf instead
/// is an open protocol question; until it is settled the key is derived from
/// the sender witness itself.
pub open spec fn authorized_key(signer: u64) -> Point {
    pt_mul(signer as nat, base_point())
}

/// The verification equation: `R` is on the curve, `s` is a canonical
/// scalar, and `s * B == R + challenge * A` for the authorized key `A`.
pub open spec fn sig_valid(msg: Seq<u8>, r_x: u64, r_y: u64, s: u64, signer: u64) -> bool {
    let r = Point { x: r_x, y: r_y };
    let a = authorized_key(signer);
    &&& pt_on_curve(r)
    &&& s < SUBGROUP_ORDER
    &&& pt_mul(s as nat, base_point()) == pt_add(r, pt_mul(sig_challenge(r, a, msg) as nat, a))
}

/// Compute the challenge scalar for a commitment point, a key, and a
/// message.
pub fn compute_challenge(r: &Point, a: &Point, msg: &Vec<u8>) -> (c: u64)
    ensures
        c == sig_challenge(*r, *a, msg@),
        c < SUBGROUP_ORDER,
{
    let mut data: Vec<u8> = Vec::new();
    push_be32(&mut data, r.x);
    push_be32(&mut data, r.y);
    push_be32(&mut data, a.x);
    push_be32(&mut data, a.y);
    let mut i: usize = 0;
    while i < msg.len()
        invariant
            i <= msg@.len(),
            data@ == be32(r.x) + be32(r.y) + be32(a.x) + be32(a.y) + msg@.take(i as int),
        decreases msg@.len() - i,
    {
        proof {
            assert(msg@.take(i + 1) =~= msg@.take(i as int).push(msg@[i as int]));
        }
        let b = msg[i];
        data.push(b);
        i = i + 1;
    }
    proof {
        assert(msg@.take(msg@.len() as int) =~= msg@);
    }
    let digest = sha256_digest(&data);
    let h = digest_to_fr(&digest);
    h % SUBGROUP_ORDER
}

/// Evaluate the signature verification equation over a message, a signature
/// witness, and the sender it must authorize.
pub fn verify_signature(msg: &Vec<u8>, r_x: u64, r_y: u64, s: u64, signer: u64) -> (ok: bool)
    ensures
        ok == sig_valid(msg@, r_x, r_y, s, signer),
{
    let r = Point { x: r_x, y: r_y };
    if !point_on_curve(&r) {
        return false;
    }
    if s >= SUBGROUP_ORDER {
        return false;
    }
    let base = Point { x: BASE_X, y: BASE_Y };
    let a = point_mul(signer, &base);
    let c = compute_challenge(&r, &a, msg);
    let lhs = point_mul(s, &base);
    let rhs = point_add(&r, &point_mul(c, &a));
    lhs.x == rhs.x && lhs.y == rhs.y
}

} // verus!
