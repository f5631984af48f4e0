//! Three-component fixed-point vectors: the points, directions and RGB
//! colours of the kernel.

use vstd::prelude::*;
use crate::fx::{fx_div, fx_div_s, fx_mul, fx_mul_s, mag, sqrt_fx, sqrt_fx_s, FX_ONE};
use crate::fx::{lemma_fx_div_mag, lemma_fx_mul_mag, lemma_fx_square_nonneg};

verus! {

#[derive(Clone, Copy, Debug, PartialEq, Eq, Structural)]
pub struct Vec3 {
    pub x: i64,
    pub y: i64,
    pub z: i64,
}

/// Every component within `[-b, b]`.
pub open spec fn v3_in_bound(v: Vec3, b: int) -> bool {
    &&& mag(v.x as int) <= b
    &&& mag(v.y as int) <= b
    &&& mag(v.z as int) <= b
}

pub open spec fn v3_zero() -> Vec3 {
    Vec3 { x: 0, y: 0, z: 0 }
}

pub open spec fn v3_plus_s(a: Vec3, b: Vec3) -> Vec3 {
    Vec3 { x: (a.x + b.x) as i64, y: (a.y + b.y) as i64, z: (a.z + b.z) as i64 }
}

pub open spec fn v3_minus_s(a: Vec3, b: Vec3) -> Vec3 {
    Vec3 { x: (a.x - b.x) as i64, y: (a.y - b.y) as i64, z: (a.z - b.z) as i64 }
}

pub open spec fn v3_neg_s(a: Vec3) -> Vec3 {
    Vec3 { x: (-a.x) as i64, y: (-a.y) as i64, z: (-a.z) as i64 }
}

/// Scaling by a fixed-point factor, component by component.
pub open spec fn v3_scale_s(k: i64, v: Vec3) -> Vec3 {
    Vec3 {
        x: fx_mul_s(k as int, v.x as int) as i64,
        y: fx_mul_s(k as int, v.y as int) as i64,
        z: fx_mul_s(k as int, v.z as int) as i64,
    }
}

/// Component-wise product: the attenuation of one colour by another.
pub open spec fn v3_cmul_s(a: Vec3, b: Vec3) -> Vec3 {
    Vec3 {
        x: fx_mul_s(a.x as int, b.x as int) as i64,
        y: fx_mul_s(a.y as int, b.y as int) as i64,
        z: fx_mul_s(a.z as int, b.z as int) as i64,
    }
}

/// The dot product, as an unbounded integer.
pub open spec fn v3_dot_s(a: Vec3, b: Vec3) -> int {
    fx_mul_s(a.x as int, b.x as int) + fx_mul_s(a.y as int, b.y as int) + fx_mul_s(
        a.z as int,
        b.z as int,
    )
}

pub open spec fn v3_cross_s(a: Vec3, b: Vec3) -> Vec3 {
    Vec3 {
        x: (fx_mul_s(a.y as int, b.z as int) - fx_mul_s(a.z as int, b.y as int)) as i64,
        y: (fx_mul_s(a.z as int, b.x as int) - fx_mul_s(a.x as int, b.z as int)) as i64,
        z: (fx_mul_s(a.x as int, b.y as int) - fx_mul_s(a.y as int, b.x as int)) as i64,
    }
}

/// The fixed-point length of a vector.
pub open spec fn v3_len_s(v: Vec3) -> int {
    sqrt_fx_s(v3_dot_s(v, v))
}

/// The normalized direction.  A vector whose squared length truncates to
/// zero, or whose quotient escapes the unit-scale bound through rounding, is
/// treated as the zero vector instead of dividing by a degenerate length.
#[verifier::opaque]
pub open spec fn unit_s(v: Vec3) -> Vec3 {
    let q: int = v3_dot_s(v, v);
    if q <= 0 {
        v3_zero()
    } else {
        let l: int = sqrt_fx_s(q);
        let u: Vec3 = Vec3 {
            x: fx_div_s(v.x as int, l) as i64,
            y: fx_div_s(v.y as int, l) as i64,
            z: fx_div_s(v.z as int, l) as i64,
        };
        if v3_in_bound(u, 2 * (FX_ONE as int)) {
            u
        } else {
            v3_zero()
        }
    }
}

/// Mirror reflection about a normal: `v - 2 (v . n) n`.
pub open spec fn reflect_s(v: Vec3, n: Vec3) -> Vec3 {
    v3_minus_s(v, v3_scale_s((2 * v3_dot_s(v, n)) as i64, n))
}

impl Vec3 {
    pub fn new(x: i64, y: i64, z: i64) -> (r: Vec3)
        ensures
            r == (Vec3 { x, y, z }),
    {
        Vec3 { x, y, z }
    }

    pub fn plus(self, o: Vec3) -> (r: Vec3)
        requires
            v3_in_bound(self, 0x2000000000000000),
            v3_in_bound(o, 0x2000000000000000),
        ensures
            r == v3_plus_s(self, o),
    {
        Vec3 { x: self.x + o.x, y: self.y + o.y, z: self.z + o.z }
    }

    pub fn minus(self, o: Vec3) -> (r: Vec3)
        requires
            v3_in_bound(self, 0x2000000000000000),
            v3_in_bound(o, 0x2000000000000000),
        ensures
            r == v3_minus_s(self, o),
    {
        Vec3 { x: self.x - o.x, y: self.y - o.y, z: self.z - o.z }
    }

    pub fn neg(self) -> (r: Vec3)
        requires
            v3_in_bound(self, 0x2000000000000000),
        ensures
            r == v3_neg_s(self),
    {
        Vec3 { x: -self.x, y: -self.y, z: -self.z }
    }

    pub fn scale(self, k: i64) -> (r: Vec3)
        requires
            mag(k as int) <= 0x8000000000,
            v3_in_bound(self, 0x8000000000),
        ensures
            r == v3_scale_s(k, self),
    {
        Vec3 { x: fx_mul(k, self.x), y: fx_mul(k, self.y), z: fx_mul(k, self.z) }
    }

    pub fn cmul(self, o: Vec3) -> (r: Vec3)
        requires
            v3_in_bound(self, 0x8000000000),
            v3_in_bound(o, 0x8000000000),
        ensures
            r == v3_cmul_s(self, o),
    {
        Vec3 { x: fx_mul(self.x, o.x), y: fx_mul(self.y, o.y), z: fx_mul(self.z, o.z) }
    }

    pub fn dot(self, o: Vec3) -> (r: i64)
        requires
            v3_in_bound(self, 0x40000000),
            v3_in_bound(o, 0x40000000),
        ensures
            r as int == v3_dot_s(self, o),
            mag(r as int) <= 0x300000000000,
    {
        proof {
            lemma_fx_mul_mag(self.x as int, o.x as int, 0x40000000, 0x40000000);
            lemma_fx_mul_mag(self.y as int, o.y as int, 0x40000000, 0x40000000);
            lemma_fx_mul_mag(self.z as int, o.z as int, 0x40000000, 0x40000000);
        }
        fx_mul(self.x, o.x) + fx_mul(self.y, o.y) + fx_mul(self.z, o.z)
    }

    pub fn cross(self, o: Vec3) -> (r: Vec3)
        requires
            v3_in_bound(self, 0x40000000),
            v3_in_bound(o, 0x40000000),
        ensures
            r == v3_cross_s(self, o),
    {
        proof {
            lemma_fx_mul_mag(self.y as int, o.z as int, 0x40000000, 0x40000000);
            lemma_fx_mul_mag(self.z as int, o.y as int, 0x40000000, 0x40000000);
            lemma_fx_mul_mag(self.z as int, o.x as int, 0x40000000, 0x40000000);
            lemma_fx_mul_mag(self.x as int, o.z as int, 0x40000000, 0x40000000);
            lemma_fx_mul_mag(self.x as int, o.y as int, 0x40000000, 0x40000000);
            lemma_fx_mul_mag(self.y as int, o.x as int, 0x40000000, 0x40000000);
        }
        Vec3 {
            x: fx_mul(self.y, o.z) - fx_mul(self.z, o.y),
            y: fx_mul(self.z, o.x) - fx_mul(self.x, o.z),
            z: fx_mul(self.x, o.y) - fx_mul(self.y, o.x),
        }
    }

    pub fn length_squared(self) -> (r: i64)
        requires
            v3_in_bound(self, 0x40000000),
        ensures
            r as int == v3_dot_s(self, self),
            r >= 0,
            mag(r as int) <= 0x300000000000,
    {
        proof {
            lemma_fx_square_nonneg(self.x as int);
            lemma_fx_square_nonneg(self.y as int);
            lemma_fx_square_nonneg(self.z as int);
        }
        self.dot(self)
    }

    pub fn length(self) -> (r: i64)
        requires
            v3_in_bound(self, 0x40000000),
        ensures
            r as int == v3_len_s(self),
            r >= 0,
    {
        let q: i64 = self.length_squared();
        sqrt_fx(q)
    }
}

/// The direction of `v` scaled to unit length (zero for degenerate input).
pub fn unit_vector(v: Vec3) -> (r: Vec3)
    requires
        v3_in_bound(v, 0x40000000),
    ensures
        r == unit_s(v),
        v3_in_bound(r, 2 * (FX_ONE as int)),
{
    proof {
        reveal(unit_s);
    }
    let q: i64 = v.length_squared();
    if q <= 0 {
        Vec3 { x: 0, y: 0, z: 0 }
    } else {
        let l: i64 = sqrt_fx(q);
        proof {
            crate::fx::lemma_isqrt_bounds((q * (FX_ONE as int)) as nat);
            if l == 0 {
                assert((0nat + 1) * (0nat + 1) == 1) by (nonlinear_arith);
                assert(((q * (FX_ONE as int)) as nat) < 1);
            }
            lemma_fx_div_mag(v.x as int, l as int, 0x40000000);
            lemma_fx_div_mag(v.y as int, l as int, 0x40000000);
            lemma_fx_div_mag(v.z as int, l as int, 0x40000000);
        }
        let u: Vec3 = Vec3 { x: fx_div(v.x, l), y: fx_div(v.y, l), z: fx_div(v.z, l) };
        let b: i64 = 2 * FX_ONE;
        if u.x <= b && -b <= u.x && u.y <= b && -b <= u.y && u.z <= b && -b <= u.z {
            u
        } else {
            Vec3 { x: 0, y: 0, z: 0 }
        }
    }
}

/// Mirror reflection of `v` about the normal `n`.
pub fn reflect(v: Vec3, n: Vec3) -> (r: Vec3)
    requires
        v3_in_bound(v, 0x10000000),
        v3_in_bound(n, 0x200000),
    ensures
        r == reflect_s(v, n),
        v3_in_bound(r, 0x40000000000),
{
    let d: i64 = v.dot(n);
    proof {
        assert(0x10000000 * 0x200000 == 0x2000000000000int) by (nonlinear_arith);
        assert(0x1000000000 * 0x200000 == 0x200000000000000int) by (nonlinear_arith);
        lemma_fx_mul_mag(v.x as int, n.x as int, 0x10000000, 0x200000);
        lemma_fx_mul_mag(v.y as int, n.y as int, 0x10000000, 0x200000);
        lemma_fx_mul_mag(v.z as int, n.z as int, 0x10000000, 0x200000);
        lemma_fx_mul_mag(2 * d as int, n.x as int, 0x1000000000, 0x200000);
        lemma_fx_mul_mag(2 * d as int, n.y as int, 0x1000000000, 0x200000);
        lemma_fx_mul_mag(2 * d as int, n.z as int, 0x1000000000, 0x200000);
    }
    let k: i64 = 2 * d;
    v.minus(n.scale(k))
}

/// Component-wise clamping into `[-bound, bound]`.
pub open spec fn clamp3_s(v: Vec3, bound: int) -> Vec3 {
    Vec3 {
        x: crate::fx::clamp_s(v.x as int, bound) as i64,
        y: crate::fx::clamp_s(v.y as int, bound) as i64,
        z: crate::fx::clamp_s(v.z as int, bound) as i64,
    }
}

/// Clamp each component of `v` into `[-bound, bound]`.
pub fn clamp3(v: Vec3, bound: i64) -> (r: Vec3)
    requires
        bound > 0,
    ensures
        r == clamp3_s(v, bound as int),
        v3_in_bound(r, bound as int),
{
    Vec3 {
        x: crate::fx::clamp_fx(v.x, bound),
        y: crate::fx::clamp_fx(v.y, bound),
        z: crate::fx::clamp_fx(v.z, bound),
    }
}

/// A reflection of unit-scale vectors stays small: with both inputs within
/// twice unit scale, every component of the mirror image is within `2^23`.
pub proof fn lemma_reflect_unit_mag(v: Vec3, n: Vec3)
    requires
        v3_in_bound(v, 0x20000),
        v3_in_bound(n, 0x20000),
    ensures
        v3_in_bound(reflect_s(v, n), 0x800000),
{
    assert(0x20000 * 0x20000 == 0x400000000int) by (nonlinear_arith);
    assert(0x200000 * 0x20000 == 0x4000000000int) by (nonlinear_arith);
    lemma_fx_mul_mag(v.x as int, n.x as int, 0x20000, 0x20000);
    lemma_fx_mul_mag(v.y as int, n.y as int, 0x20000, 0x20000);
    lemma_fx_mul_mag(v.z as int, n.z as int, 0x20000, 0x20000);
    let d: int = v3_dot_s(v, n);
    lemma_fx_mul_mag(2 * d, n.x as int, 0x200000, 0x20000);
    lemma_fx_mul_mag(2 * d, n.y as int, 0x200000, 0x20000);
    lemma_fx_mul_mag(2 * d, n.z as int, 0x200000, 0x20000);
}

} // verus!
