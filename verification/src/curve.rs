//! The signature group: a twisted Edwards curve paired with the proving
//! field, with a base point of prime order.

use vstd::prelude::*;
use crate::field::fadd;
use crate::field::finv;
use crate::field::fmul;
use crate::field::fsub;
use crate::field::is_fr;
use crate::field::add_mod;
use crate::field::inv_mod;
use crate::field::mul_mod;
use crate::field::sub_mod;
use crate::field::FIELD_MODULUS;

verus! {

/// The curve is `-x^2 + y^2 = 1 + d x^2 y^2` over the proving field, with
/// `a = -1` a square (the modulus is 1 mod 4) and `d` a non-square, so the
/// addition law below is complete.
pub const CURVE_D: u64 = 38;

/// The prime order of the subgroup generated by the base point; scalars are
/// canonical below this bound.
pub const SUBGROUP_ORDER: u64 = 262153;

/// x-coordinate of the base point.
pub const BASE_X: u64 = 12389;

/// y-coordinate of the base point.
pub const BASE_Y: u64 = 669658;

/// An affine point of the curve; the identity is (0, 1).
#[derive(Clone, Copy, PartialEq, Eq, Structural, Debug)]
pub struct Point {
    pub x: u64,
    pub y: u64,
}

pub open spec fn pt_wf(p: Point) -> bool {
    is_fr(p.x) && is_fr(p.y)
}

pub open spec fn pt_identity() -> Point {
    Point { x: 0, y: 1 }
}

pub open spec fn base_point() -> Point {
    Point { x: BASE_X, y: BASE_Y }
}

/// Whether a point satisfies the curve equation.
pub open spec fn pt_on_curve(p: Point) -> bool {
    pt_wf(p) && fsub(fmul(p.y, p.y), fmul(p.x, p.x)) == fadd(
        1,
        fmul(CURVE_D, fmul(fmul(p.x, p.x), fmul(p.y, p.y))),
    )
}

/// The complete twisted Edwards addition law with `a = -1`:
/// `x3 = (x1 y2 + y1 x2) / (1 + d x1 x2 y1 y2)`,
/// `y3 = (y1 y2 + x1 x2) / (1 - d x1 x2 y1 y2)`.
pub open spec fn pt_add(p: Point, q: Point) -> Point {
    let t = fmul(fmul(p.x, q.x), fmul(p.y, q.y));
    let num_x = fadd(fmul(p.x, q.y), fmul(p.y, q.x));
    let num_y = fadd(fmul(p.y, q.y), fmul(p.x, q.x));
    Point {
        x: fmul(num_x, finv(fadd(1, fmul(CURVE_D, t)))),
        y: fmul(num_y, finv(fsub(1, fmul(CURVE_D, t)))),
    }
}

/// Scalar multiplication by double-and-add.
pub open spec fn pt_mul(k: nat, p: Point) -> Point
    decreases k,
{
    if k == 0 {
        pt_identity()
    } else {
        let rest = pt_mul(k / 2, pt_add(p, p));
        if k % 2 == 1 {
            pt_add(p, rest)
        } else {
            rest
        }
    }
}

/// Add two points with the complete addition law.
pub fn point_add(p: &Point, q: &Point) -> (r: Point)
    requires
        pt_wf(*p),
        pt_wf(*q),
    ensures
        r == pt_add(*p, *q),
        pt_wf(r),
{
    let t = mul_mod(mul_mod(p.x, q.x), mul_mod(p.y, q.y));
    let num_x = add_mod(mul_mod(p.x, q.y), mul_mod(p.y, q.x));
    let num_y = add_mod(mul_mod(p.y, q.y), mul_mod(p.x, q.x));
    let den_x = add_mod(1, mul_mod(CURVE_D, t));
    let den_y = sub_mod(1, mul_mod(CURVE_D, t));
    Point { x: mul_mod(num_x, inv_mod(den_x)), y: mul_mod(num_y, inv_mod(den_y)) }
}

/// Multiply a point by a scalar, double-and-add.
pub fn point_mul(k: u64, p: &Point) -> (r: Point)
    requires
        pt_wf(*p),
    ensures
        r == pt_mul(k as nat, *p),
        pt_wf(r),
    decreases k,
{
    if k == 0 {
        Point { x: 0, y: 1 }
    } else {
        let dbl = point_add(p, p);
        let rest = point_mul(k / 2, &dbl);
        if k % 2 == 1 {
            point_add(p, &rest)
        } else {
            rest
        }
    }
}

/// Test whether a point satisfies the curve equation.
pub fn point_on_curve(p: &Point) -> (r: bool)
    ensures
        r == pt_on_curve(*p),
{
    if p.x >= FIELD_MODULUS || p.y >= FIELD_MODULUS {
        return false;
    }
    let lhs = sub_mod(mul_mod(p.y, p.y), mul_mod(p.x, p.x));
    let rhs = add_mod(1, mul_mod(CURVE_D, mul_mod(mul_mod(p.x, p.x), mul_mod(p.y, p.y))));
    lhs == rhs
}

} // verus!
