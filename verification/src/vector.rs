//! Vectors of two and of three fixed-point components.

use vstd::prelude::*;
use crate::fixed::{
    Fixed, ONE, int_sqrt, is_sqrt, isqrt, lemma_isqrt, lemma_isqrt_at_least, lemma_isqrt_below,
    lemma_isqrt_bounds, lemma_product_fits, lemma_square_monotone, magnitude, quot, saturate,
};

verus! {

/// A vector in space.
#[derive(Clone, Copy, Debug, PartialEq, Eq, Structural)]
pub struct Vector3 {
    pub x: Fixed,
    pub y: Fixed,
    pub z: Fixed,
}

/// The square of `t`.
pub open spec fn square(t: int) -> nat {
    (t * t) as nat
}

/// A square is never negative, and the square of an `i64` fits an `i128`.
pub proof fn lemma_square_bounds(t: int)
    ensures
        t * t >= 0,
        i64::MIN <= t <= i64::MAX ==> t * t <= 0x4000_0000_0000_0000_0000_0000_0000_0000,
{
    assert(t * t >= 0) by (nonlinear_arith);
    if i64::MIN <= t <= i64::MAX {
        lemma_product_fits(t, t);
    }
}

impl Vector3 {
    /// The zero vector.
    pub open spec fn spec_zero() -> Vector3 {
        Vector3 { x: Fixed { raw: 0 }, y: Fixed { raw: 0 }, z: Fixed { raw: 0 } }
    }

    /// The sum of the squares of the raw components.
    pub open spec fn norm_sq(self) -> nat {
        square(self.x.raw as int) + square(self.y.raw as int) + square(self.z.raw as int)
    }

    /// The Euclidean length in raw units, rounded down.
    pub open spec fn norm(self) -> nat {
        isqrt(self.norm_sq())
    }

    /// The length as a number: the norm, saturated.
    pub open spec fn spec_len(self) -> Fixed {
        Fixed { raw: saturate(self.norm() as int) as i64 }
    }

    /// The component-wise sum.
    pub open spec fn spec_add(self, other: Vector3) -> Vector3 {
        Vector3 {
            x: self.x.spec_add(other.x),
            y: self.y.spec_add(other.y),
            z: self.z.spec_add(other.z),
        }
    }

    /// The component-wise difference.
    pub open spec fn spec_sub(self, other: Vector3) -> Vector3 {
        Vector3 {
            x: self.x.spec_sub(other.x),
            y: self.y.spec_sub(other.y),
            z: self.z.spec_sub(other.z),
        }
    }

    /// Every component multiplied by `k`.
    pub open spec fn spec_scale(self, k: Fixed) -> Vector3 {
        Vector3 { x: self.x.spec_mul(k), y: self.y.spec_mul(k), z: self.z.spec_mul(k) }
    }

    /// Every component divided by `k`.
    pub open spec fn spec_div(self, k: Fixed) -> Vector3
        recommends
            k.raw != 0,
    {
        Vector3 { x: self.x.spec_div(k), y: self.y.spec_div(k), z: self.z.spec_div(k) }
    }

    /// The vector of the same direction and length one; the zero-length
    /// vector is its own normalisation.
    pub open spec fn spec_normalized(self) -> Vector3 {
        let l = self.norm();
        if l == 0 {
            self
        } else {
            Vector3 { x: self.x.spec_over(l), y: self.y.spec_over(l), z: self.z.spec_over(l) }
        }
    }

    /// The vector itself where it is shorter than `max`, else the vector of
    /// the same direction and length `max`.
    pub open spec fn spec_clamped(self, max: Fixed) -> Vector3 {
        if self.spec_len().raw < max.raw {
            self
        } else {
            self.spec_normalized().spec_scale(max)
        }
    }

    /// The sum of the squared differences of the raw components.
    pub open spec fn dist_sq(self, other: Vector3) -> nat {
        square(other.x.raw - self.x.raw) + square(other.y.raw - self.y.raw) + square(
            other.z.raw - self.z.raw,
        )
    }

    /// The Euclidean distance, rounded down and saturated.
    pub open spec fn spec_dist(self, other: Vector3) -> Fixed {
        Fixed { raw: saturate(isqrt(self.dist_sq(other)) as int) as i64 }
    }

    /// The dot product.
    pub open spec fn spec_dot(self, other: Vector3) -> Fixed {
        self.x.spec_mul(other.x).spec_add(self.y.spec_mul(other.y)).spec_add(
            self.z.spec_mul(other.z),
        )
    }

    /// The cosine of the angle between two vectors: their dot product
    /// divided by the product of their lengths.
    pub open spec fn spec_cos_angle(self, other: Vector3) -> Fixed
        recommends
            self.spec_len().spec_mul(other.spec_len()).raw != 0,
    {
        self.spec_dot(other).spec_div(self.spec_len().spec_mul(other.spec_len()))
    }

    /// The vector with the given components.
    pub fn new(x: Fixed, y: Fixed, z: Fixed) -> (v: Vector3)
        ensures
            v == (Vector3 { x, y, z }),
    {
        Vector3 { x, y, z }
    }

    /// The zero vector.
    pub fn zero() -> (v: Vector3)
        ensures
            v == Vector3::spec_zero(),
    {
        Vector3 { x: Fixed::zero(), y: Fixed::zero(), z: Fixed::zero() }
    }

    /// The norm of the vector.
    pub fn norm_raw(&self) -> (l: u64)
        ensures
            l as nat == self.norm(),
    {
        proof {
            lemma_square_bounds(self.x.raw as int);
            lemma_square_bounds(self.y.raw as int);
            lemma_square_bounds(self.z.raw as int);
        }
        let x: i128 = self.x.raw as i128;
        let y: i128 = self.y.raw as i128;
        let z: i128 = self.z.raw as i128;
        let s: u128 = (x * x) as u128 + (y * y) as u128 + (z * z) as u128;
        int_sqrt(s)
    }

    /// The length of the vector.
    pub fn len(&self) -> (l: Fixed)
        ensures
            l == self.spec_len(),
    {
        let n: u64 = self.norm_raw();
        if n > i64::MAX as u64 {
            Fixed { raw: i64::MAX }
        } else {
            Fixed { raw: n as i64 }
        }
    }

    /// Scales the vector to length one. A vector of length zero stays as it
    /// is.
    pub fn normalize(&mut self)
        ensures
            *final(self) == old(self).spec_normalized(),
            old(self).spec_len().raw == 0 ==> *final(self) == *old(self),
    {
        let l: u64 = self.norm_raw();
        if l == 0 {
            return ;
        }
        self.x = self.x.over(l);
        self.y = self.y.over(l);
        self.z = self.z.over(l);
    }

    /// The vector scaled to length one.
    pub fn normalized(&self) -> (v: Vector3)
        ensures
            v == self.spec_normalized(),
    {
        let mut v = *self;
        v.normalize();
        v
    }

    /// Limits the length of the vector to `max`.
    pub fn clamp(&mut self, max: Fixed)
        ensures
            *final(self) == old(self).spec_clamped(max),
            max.raw >= 0 ==> final(self).spec_len().raw <= max.raw,
    {
        proof {
            if max.raw >= 0 {
                lemma_clamped_norm(*self, max);
            }
        }
        if self.len().raw < max.raw {
            return ;
        }
        self.normalize();
        self.x = self.x.mul(max);
        self.y = self.y.mul(max);
        self.z = self.z.mul(max);
    }

    /// The distance between two points.
    pub fn dist(&self, other: Vector3) -> (d: Fixed)
        ensures
            d == self.spec_dist(other),
            d == other.spec_dist(*self),
            d.raw >= 0,
    {
        proof {
            lemma_dist_symmetric(*self, other);
        }
        let dx: u128 = gap(self.x.raw, other.x.raw);
        let dy: u128 = gap(self.y.raw, other.y.raw);
        let dz: u128 = gap(self.z.raw, other.z.raw);
        proof {
            lemma_gap_square(dx as int);
            lemma_gap_square(dy as int);
            lemma_gap_square(dz as int);
        }
        let sx: u128 = dx * dx;
        let sy: u128 = dy * dy;
        let sz: u128 = dz * dz;
        if sx > u128::MAX - sy || sx + sy > u128::MAX - sz {
            proof {
                assert(0x8000_0000_0000_0000nat * 0x8000_0000_0000_0000nat <= self.dist_sq(other))
                    by (nonlinear_arith)
                    requires
                        self.dist_sq(other) > u128::MAX,
                ;
                lemma_isqrt_at_least(self.dist_sq(other), 0x8000_0000_0000_0000nat);
            }
            return Fixed { raw: i64::MAX };
        }
        let n: u64 = int_sqrt(sx + sy + sz);
        if n > i64::MAX as u64 {
            Fixed { raw: i64::MAX }
        } else {
            Fixed { raw: n as i64 }
        }
    }

    /// The dot product of two vectors.
    pub fn dot(&self, other: Vector3) -> (d: Fixed)
        ensures
            d == self.spec_dot(other),
    {
        self.x.mul(other.x).add(self.y.mul(other.y)).add(self.z.mul(other.z))
    }

    /// The cosine of the angle between two vectors. Neither vector is so
    /// short that the product of the lengths is zero.
    pub fn cos_angle(&self, other: Vector3) -> (c: Fixed)
        requires
            self.spec_len().spec_mul(other.spec_len()).raw != 0,
        ensures
            c == self.spec_cos_angle(other),
    {
        self.dot(other).div(self.len().mul(other.len()))
    }

    /// The sum of two vectors.
    pub fn add(self, other: Vector3) -> (v: Vector3)
        ensures
            v == self.spec_add(other),
    {
        Vector3 { x: self.x.add(other.x), y: self.y.add(other.y), z: self.z.add(other.z) }
    }

    /// The difference of two vectors.
    pub fn sub(self, other: Vector3) -> (v: Vector3)
        ensures
            v == self.spec_sub(other),
    {
        Vector3 { x: self.x.sub(other.x), y: self.y.sub(other.y), z: self.z.sub(other.z) }
    }

    /// The vector multiplied by the number `k`.
    pub fn scale(self, k: Fixed) -> (v: Vector3)
        ensures
            v == self.spec_scale(k),
    {
        Vector3 { x: self.x.mul(k), y: self.y.mul(k), z: self.z.mul(k) }
    }

    /// The vector divided by the number `k`, which is not zero.
    pub fn div(self, k: Fixed) -> (v: Vector3)
        requires
            k.raw != 0,
        ensures
            v == self.spec_div(k),
    {
        Vector3 { x: self.x.div(k), y: self.y.div(k), z: self.z.div(k) }
    }
}

/// The distance between two raw coordinates.
fn gap(a: i64, b: i64) -> (d: u128)
    ensures
        d <= 0xffff_ffff_ffff_ffff,
        d * d == square(b - a),
{
    let t: i128 = b as i128 - a as i128;
    assert(t * t == (-t) * (-t)) by (nonlinear_arith);
    proof {
        lemma_square_bounds(t as int);
    }
    if t < 0 {
        (-t) as u128
    } else {
        t as u128
    }
}

/// The square of a distance between two raw coordinates fits a `u128`.
proof fn lemma_gap_square(d: int)
    requires
        0 <= d <= 0xffff_ffff_ffff_ffff,
    ensures
        0 <= d * d <= u128::MAX,
{
    assert(0 <= d * d <= 0xffff_ffff_ffff_ffff_ffff_ffff_ffff_ffff) by (nonlinear_arith)
        requires
            0 <= d <= 0xffff_ffff_ffff_ffff,
    ;
}

/// The zero vector has norm zero and is its own normalisation.
pub proof fn lemma_zero_norm()
    ensures
        Vector3::spec_zero().norm() == 0,
        Vector3::spec_zero().spec_normalized() == Vector3::spec_zero(),
{
    assert(square(0) == 0);
    assert(is_sqrt(0, 0)) by (nonlinear_arith);
    lemma_isqrt(0, 0);
}

/// A vector of norm zero is the zero vector.
pub proof fn lemma_norm_zero(v: Vector3)
    requires
        v.norm() == 0,
    ensures
        v == Vector3::spec_zero(),
{
    lemma_isqrt_bounds(v.norm_sq());
    assert((0nat + 1) * (0nat + 1) == 1) by (nonlinear_arith);
    let x = v.x.raw as int;
    let y = v.y.raw as int;
    let z = v.z.raw as int;
    assert(x * x >= 0 && (x != 0 ==> x * x >= 1)) by (nonlinear_arith);
    assert(y * y >= 0 && (y != 0 ==> y * y >= 1)) by (nonlinear_arith);
    assert(z * z >= 0 && (z != 0 ==> z * z >= 1)) by (nonlinear_arith);
}

/// No component of a vector is longer than the vector.
pub proof fn lemma_component_within_norm(v: Vector3)
    ensures
        magnitude(v.x.raw as int) <= v.norm(),
        magnitude(v.y.raw as int) <= v.norm(),
        magnitude(v.z.raw as int) <= v.norm(),
{
    let x = v.x.raw as int;
    let y = v.y.raw as int;
    let z = v.z.raw as int;
    assert(x * x >= 0 && magnitude(x) * magnitude(x) == x * x) by (nonlinear_arith);
    assert(y * y >= 0 && magnitude(y) * magnitude(y) == y * y) by (nonlinear_arith);
    assert(z * z >= 0 && magnitude(z) * magnitude(z) == z * z) by (nonlinear_arith);
    lemma_isqrt_at_least(v.norm_sq(), magnitude(x) as nat);
    lemma_isqrt_at_least(v.norm_sq(), magnitude(y) as nat);
    lemma_isqrt_at_least(v.norm_sq(), magnitude(z) as nat);
}

/// No component of a normalised vector exceeds one.
pub proof fn lemma_normalized_within_unit(v: Vector3)
    ensures
        magnitude(v.spec_normalized().x.raw as int) <= ONE,
        magnitude(v.spec_normalized().y.raw as int) <= ONE,
        magnitude(v.spec_normalized().z.raw as int) <= ONE,
{
    let l = v.norm() as int;
    if l == 0 {
        lemma_norm_zero(v);
    } else {
        lemma_component_within_norm(v);
        lemma_clamped_component(v.x.raw as int, l, 0);
        lemma_clamped_component(v.y.raw as int, l, 0);
        lemma_clamped_component(v.z.raw as int, l, 0);
    }
}

/// One component `c` of a vector of norm `l`, normalised and then scaled by
/// `m`: the result `q` satisfies `|q| * l <= |c| * m`.
proof fn lemma_clamped_component(c: int, l: int, m: int)
    requires
        magnitude(c) <= l,
        0 < l,
        0 <= m <= l,
        m <= i64::MAX,
    ensures
        ({
            let n = saturate(quot(c * ONE, l));
            let q = saturate(quot(n * m, ONE as int));
            &&& magnitude(n) <= ONE
            &&& magnitude(q) <= m
            &&& (q * q) * (l * l) <= (c * c) * (m * m)
        }),
{
    let a = magnitude(c);
    let na = (a * ONE) / l;
    assert(magnitude(c * ONE) == a * ONE);
    assert(0 <= na <= ONE && na * l <= a * ONE) by (nonlinear_arith)
        requires
            na == (a * ONE) / l,
            0 <= a <= l,
            0 < l,
            ONE == 65536,
    ;
    let n = saturate(quot(c * ONE, l));
    assert(magnitude(n) == na);
    assert(magnitude(n * m) == na * m && ((n * m < 0) ==> n < 0) && (n < 0 && m > 0 ==> n * m
        < 0)) by (nonlinear_arith)
        requires
            magnitude(n) == na,
            0 <= m,
    ;
    let qa = (na * m) / (ONE as int);
    assert(0 <= qa <= m && qa * ONE <= na * m) by (nonlinear_arith)
        requires
            qa == (na * m) / (ONE as int),
            0 <= na <= ONE,
            0 <= m,
            ONE == 65536,
    ;
    let q = saturate(quot(n * m, ONE as int));
    assert(magnitude(q) == qa);
    assert(qa * l <= a * m) by (nonlinear_arith)
        requires
            qa * ONE <= na * m,
            na * l <= a * ONE,
            0 <= qa,
            0 <= na,
            0 <= a,
            0 <= m,
            0 < l,
            ONE == 65536,
    ;
    assert((qa * qa) * (l * l) <= (a * a) * (m * m)) by (nonlinear_arith)
        requires
            qa * l <= a * m,
            0 <= qa,
            0 <= a,
            0 <= m,
            0 < l,
    ;
    assert(q * q == qa * qa) by (nonlinear_arith)
        requires
            magnitude(q) == qa,
    ;
    assert(c * c == a * a) by (nonlinear_arith)
        requires
            magnitude(c) == a,
    ;
}

/// With `qs * l^2 <= ns * m^2`, `ns < (l + 1)^2` and `m <= l`, the number
/// `qs` stays below `(m + 1)^2`.
proof fn lemma_clamped_sum(qs: int, ns: int, l: int, m: int)
    requires
        0 <= qs,
        0 <= ns < (l + 1) * (l + 1),
        0 < l,
        0 <= m <= l,
        qs * (l * l) <= ns * (m * m),
    ensures
        qs < (m + 1) * (m + 1),
{
    let a = (l + 1) * m;
    let b = l * (m + 1);
    assert(0 <= a <= b) by (nonlinear_arith)
        requires
            a == (l + 1) * m,
            b == l * (m + 1),
            0 < l,
            0 <= m <= l,
    ;
    lemma_square_monotone(a as nat, b as nat);
    assert(ns * (m * m) <= a * a - m * m) by (nonlinear_arith)
        requires
            a == (l + 1) * m,
            0 <= ns <= (l + 1) * (l + 1) - 1,
            0 <= m,
    ;
    if qs >= (m + 1) * (m + 1) {
        assert(qs * (l * l) >= b * b) by (nonlinear_arith)
            requires
                qs >= (m + 1) * (m + 1),
                b == l * (m + 1),
                0 < l,
                0 <= m,
        ;
        assert(b * b <= a * a - m * m);
        assert(m == 0) by (nonlinear_arith)
            requires
                m * m <= 0,
        ;
        assert(qs * (l * l) >= 1) by (nonlinear_arith)
            requires
                qs >= (m + 1) * (m + 1),
                m == 0,
                l >= 1,
        ;
        assert(ns * (m * m) == 0) by (nonlinear_arith)
            requires
                m == 0,
        ;
    }
}

/// A vector clamped to a limit that is not negative is no longer than the
/// limit.
pub proof fn lemma_clamped_norm(v: Vector3, max: Fixed)
    requires
        max.raw >= 0,
    ensures
        v.spec_clamped(max).norm() <= max.raw,
        v.spec_clamped(max).spec_len().raw <= max.raw,
{
    let l = v.norm() as int;
    let m = max.raw as int;
    let w = v.spec_clamped(max);
    lemma_isqrt_bounds(v.norm_sq());
    if v.spec_len().raw < max.raw {
    } else if l == 0 {
        lemma_norm_zero(v);
        assert(m == 0);
        assert(quot(0int * 0int, ONE as int) == 0);
        assert(w == Vector3::spec_zero());
        assert(square(0) == 0);
        assert(is_sqrt(0, 0)) by (nonlinear_arith);
        lemma_isqrt(0, 0);
    } else {
        lemma_component_within_norm(v);
        lemma_clamped_component(v.x.raw as int, l, m);
        lemma_clamped_component(v.y.raw as int, l, m);
        lemma_clamped_component(v.z.raw as int, l, m);
        let qx = w.x.raw as int;
        let qy = w.y.raw as int;
        let qz = w.z.raw as int;
        let cx = v.x.raw as int;
        let cy = v.y.raw as int;
        let cz = v.z.raw as int;
        lemma_square_bounds(qx);
        lemma_square_bounds(qy);
        lemma_square_bounds(qz);
        lemma_square_bounds(cx);
        lemma_square_bounds(cy);
        lemma_square_bounds(cz);
        let qs = qx * qx + qy * qy + qz * qz;
        let ns = cx * cx + cy * cy + cz * cz;
        assert(qs * (l * l) <= ns * (m * m)) by (nonlinear_arith)
            requires
                qs == qx * qx + qy * qy + qz * qz,
                ns == cx * cx + cy * cy + cz * cz,
                (qx * qx) * (l * l) <= (cx * cx) * (m * m),
                (qy * qy) * (l * l) <= (cy * cy) * (m * m),
                (qz * qz) * (l * l) <= (cz * cz) * (m * m),
        ;
        assert(ns == v.norm_sq());
        assert(qs == w.norm_sq());
        lemma_clamped_sum(qs, ns, l, m);
        lemma_isqrt_below(w.norm_sq(), (m + 1) as nat);
    }
}

/// The distance from `a` to `b` is the distance from `b` to `a`.
pub proof fn lemma_dist_symmetric(a: Vector3, b: Vector3)
    ensures
        a.spec_dist(b) == b.spec_dist(a),
        a.dist_sq(b) == b.dist_sq(a),
{
    let dx = b.x.raw - a.x.raw;
    let dy = b.y.raw - a.y.raw;
    let dz = b.z.raw - a.z.raw;
    assert(dx * dx == (-dx) * (-dx)) by (nonlinear_arith);
    assert(dy * dy == (-dy) * (-dy)) by (nonlinear_arith);
    assert(dz * dz == (-dz) * (-dz)) by (nonlinear_arith);
}

/// A vector in the plane. It measures as the vector in space with the same
/// `x` and `y` and no height.
#[derive(Clone, Copy, Debug, PartialEq, Eq, Structural)]
pub struct Vector2 {
    pub x: Fixed,
    pub y: Fixed,
}

impl Vector2 {
    /// The vector in space with the same `x` and `y` and `z` zero.
    pub open spec fn lift(self) -> Vector3 {
        Vector3 { x: self.x, y: self.y, z: Fixed { raw: 0 } }
    }

    /// The vector in the plane below `v`.
    pub open spec fn flat(v: Vector3) -> Vector2 {
        Vector2 { x: v.x, y: v.y }
    }

    /// The length as a number: the Euclidean length in raw units, rounded
    /// down and saturated.
    pub open spec fn spec_len(self) -> Fixed {
        self.lift().spec_len()
    }

    /// The vector of the same direction and length one; the zero-length
    /// vector is its own normalisation.
    pub open spec fn spec_normalized(self) -> Vector2 {
        Vector2::flat(self.lift().spec_normalized())
    }

    /// The vector itself where it is shorter than `max`, else the vector of
    /// the same direction and length `max`.
    pub open spec fn spec_clamped(self, max: Fixed) -> Vector2 {
        Vector2::flat(self.lift().spec_clamped(max))
    }

    /// The Euclidean distance, rounded down and saturated.
    pub open spec fn spec_dist(self, other: Vector2) -> Fixed {
        self.lift().spec_dist(other.lift())
    }

    /// The component-wise sum.
    pub open spec fn spec_add(self, other: Vector2) -> Vector2 {
        Vector2 { x: self.x.spec_add(other.x), y: self.y.spec_add(other.y) }
    }

    /// The component-wise difference.
    pub open spec fn spec_sub(self, other: Vector2) -> Vector2 {
        Vector2 { x: self.x.spec_sub(other.x), y: self.y.spec_sub(other.y) }
    }

    /// Every component multiplied by `k`.
    pub open spec fn spec_scale(self, k: Fixed) -> Vector2 {
        Vector2 { x: self.x.spec_mul(k), y: self.y.spec_mul(k) }
    }

    /// Every component divided by `k`.
    pub open spec fn spec_div(self, k: Fixed) -> Vector2
        recommends
            k.raw != 0,
    {
        Vector2 { x: self.x.spec_div(k), y: self.y.spec_div(k) }
    }

    /// The vector with the given components.
    pub fn new(x: Fixed, y: Fixed) -> (v: Vector2)
        ensures
            v == (Vector2 { x, y }),
    {
        Vector2 { x: x, y: y }
    }

    /// The same vector in space.
    fn lifted(&self) -> (v: Vector3)
        ensures
            v == self.lift(),
    {
        Vector3 { x: self.x, y: self.y, z: Fixed::zero() }
    }

    /// The length of the vector.
    pub fn len(&self) -> (l: Fixed)
        ensures
            l == self.spec_len(),
    {
        self.lifted().len()
    }

    /// Scales the vector to length one. A vector of length zero stays as it
    /// is.
    pub fn normalize(&mut self)
        ensures
            *final(self) == old(self).spec_normalized(),
            old(self).spec_len().raw == 0 ==> *final(self) == *old(self),
    {
        let n = self.lifted().normalized();
        self.x = n.x;
        self.y = n.y;
    }

    /// Limits the length of the vector to `max`.
    pub fn clamp(&mut self, max: Fixed)
        ensures
            *final(self) == old(self).spec_clamped(max),
            max.raw >= 0 ==> final(self).spec_len().raw <= max.raw,
    {
        proof {
            lemma_clamped_stays_flat(*self, max);
        }
        let mut c = self.lifted();
        c.clamp(max);
        self.x = c.x;
        self.y = c.y;
    }

    /// The distance between two points.
    pub fn dist(&self, other: Vector2) -> (d: Fixed)
        ensures
            d == self.spec_dist(other),
            d == other.spec_dist(*self),
            d.raw >= 0,
    {
        self.lifted().dist(other.lifted())
    }

    /// The sum of two vectors.
    pub fn add(self, other: Vector2) -> (v: Vector2)
        ensures
            v == self.spec_add(other),
    {
        Vector2 { x: self.x.add(other.x), y: self.y.add(other.y) }
    }

    /// The difference of two vectors.
    pub fn sub(self, other: Vector2) -> (v: Vector2)
        ensures
            v == self.spec_sub(other),
    {
        Vector2 { x: self.x.sub(other.x), y: self.y.sub(other.y) }
    }

    /// The vector multiplied by the number `k`.
    pub fn scale(self, k: Fixed) -> (v: Vector2)
        ensures
            v == self.spec_scale(k),
    {
        Vector2 { x: self.x.mul(k), y: self.y.mul(k) }
    }

    /// The vector divided by the number `k`, which is not zero.
    pub fn div(self, k: Fixed) -> (v: Vector2)
        requires
            k.raw != 0,
        ensures
            v == self.spec_div(k),
    {
        Vector2 { x: self.x.div(k), y: self.y.div(k) }
    }
}

/// A vector without height has none after it is clamped.
pub proof fn lemma_clamped_stays_flat(v: Vector2, max: Fixed)
    ensures
        v.lift().spec_clamped(max) == v.spec_clamped(max).lift(),
{
    let l = v.lift().norm() as int;
    if l != 0 {
        assert(0int / l == 0) by (nonlinear_arith)
            requires
                l > 0,
        ;
        assert(quot(0int * (ONE as int), l) == 0);
    }
    assert(0int * (max.raw as int) == 0) by (nonlinear_arith);
    assert(quot(0int, ONE as int) == 0);
}

} // verus!
