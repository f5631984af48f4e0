//! Fixed-point scalar arithmetic: signed values with 16 fractional bits held
//! in `i64`, with truncating (round-toward-zero) multiplication and division
//! and an exact integer square root.

use vstd::prelude::*;

verus! {

/// The fixed-point unit: the representation of 1.0.
pub const FX_ONE: i64 = 65536;

/// Bound on every stored coordinate, colour channel and distance of the
/// kernel (4096.0 in world units).  Keeping all stored values inside this
/// bound is what makes every intermediate product fit in `i64`.
pub const FX_BOUND: i64 = 0x10000000;

/// Magnitude of an integer.
pub open spec fn mag(a: int) -> int {
    if a >= 0 {
        a
    } else {
        -a
    }
}

/// Division truncated toward zero, for a positive divisor.
pub open spec fn div_trunc(a: int, d: int) -> int {
    if a >= 0 {
        a / d
    } else {
        -((-a) / d)
    }
}

/// The mathematical value of a fixed-point product, before the cast back to
/// `i64`.
pub open spec fn fx_mul_s(a: int, b: int) -> int {
    div_trunc(a * b, FX_ONE as int)
}

/// The mathematical value of a fixed-point quotient, before the cast back to
/// `i64`.  Meaningful only for `b != 0`.
pub open spec fn fx_div_s(a: int, b: int) -> int {
    if b >= 0 {
        div_trunc(a * (FX_ONE as int), b)
    } else {
        div_trunc(-(a * (FX_ONE as int)), -b)
    }
}

/// Integer square root: the greatest `r` with `r * r <= n`.
#[verifier::opaque]
pub open spec fn isqrt_s(n: nat) -> nat
    decreases n,
{
    if n == 0 {
        0
    } else {
        let r: nat = isqrt_s((n - 1) as nat);
        if (r + 1) * (r + 1) <= n {
            r + 1
        } else {
            r
        }
    }
}

/// The fixed-point square root of a non-negative fixed-point value.
pub open spec fn sqrt_fx_s(x: int) -> int {
    isqrt_s((x * (FX_ONE as int)) as nat) as int
}

/// Clamping a value into `[-bound, bound]`.
pub open spec fn clamp_s(v: int, bound: int) -> int {
    if v > bound {
        bound
    } else if v < -bound {
        -bound
    } else {
        v
    }
}

pub proof fn lemma_isqrt_bounds(n: nat)
    ensures
        isqrt_s(n) * isqrt_s(n) <= n,
        n < (isqrt_s(n) + 1) * (isqrt_s(n) + 1),
    decreases n,
{
    reveal(isqrt_s);
    if n == 0 {
        assert(isqrt_s(n) * isqrt_s(n) <= n) by (nonlinear_arith)
            requires
                isqrt_s(n) == 0,
                n == 0nat,
        ;
        assert(n < (isqrt_s(n) + 1) * (isqrt_s(n) + 1)) by (nonlinear_arith)
            requires
                isqrt_s(n) == 0,
                n == 0nat,
        ;
    } else {
        let m: nat = (n - 1) as nat;
        lemma_isqrt_bounds(m);
        let r: nat = isqrt_s(m);
        if (r + 1) * (r + 1) <= n {
            assert(isqrt_s(n) == r + 1);
            assert(n < ((r + 1) + 1) * ((r + 1) + 1)) by (nonlinear_arith)
                requires
                    m < (r + 1) * (r + 1),
                    n == m + 1,
            ;
        } else {
            assert(isqrt_s(n) == r);
            assert(r * r <= m);
        }
    }
}

pub proof fn lemma_isqrt_unique(n: nat, r: nat)
    requires
        r * r <= n,
        n < (r + 1) * (r + 1),
    ensures
        r == isqrt_s(n),
{
    let q: nat = isqrt_s(n);
    lemma_isqrt_bounds(n);
    if r < q {
        assert((r + 1) * (r + 1) <= q * q) by (nonlinear_arith)
            requires
                r + 1 <= q,
        ;
    }
    if q < r {
        assert((q + 1) * (q + 1) <= r * r) by (nonlinear_arith)
            requires
                q + 1 <= r,
        ;
    }
}

pub proof fn lemma_isqrt_mono(m: nat, n: nat)
    requires
        m <= n,
    ensures
        isqrt_s(m) <= isqrt_s(n),
{
    lemma_isqrt_bounds(m);
    lemma_isqrt_bounds(n);
    if isqrt_s(n) < isqrt_s(m) {
        assert((isqrt_s(n) + 1) * (isqrt_s(n) + 1) <= isqrt_s(m) * isqrt_s(m))
            by (nonlinear_arith)
            requires
                isqrt_s(n) + 1 <= isqrt_s(m),
        ;
    }
}

pub proof fn lemma_isqrt_square(k: nat)
    ensures
        isqrt_s(k * k) == k,
{
    assert(k * k < (k + 1) * (k + 1)) by (nonlinear_arith);
    lemma_isqrt_unique(k * k, k);
}

/// `div_trunc` keeps magnitudes: `|a / d| <= |a| / d` exactly.
pub proof fn lemma_div_trunc_mag(a: int, d: int)
    requires
        d > 0,
    ensures
        mag(div_trunc(a, d)) == mag(a) / d,
{
    if a >= 0 {
        vstd::arithmetic::div_mod::lemma_div_pos_is_pos(a, d);
    } else {
        vstd::arithmetic::div_mod::lemma_div_pos_is_pos(-a, d);
    }
}

/// Magnitude bound for the fixed-point product.
pub proof fn lemma_fx_mul_mag(a: int, b: int, aa: int, bb: int)
    requires
        mag(a) <= aa,
        mag(b) <= bb,
    ensures
        mag(fx_mul_s(a, b)) <= aa * bb / (FX_ONE as int),
{
    assert(mag(a * b) <= aa * bb) by (nonlinear_arith)
        requires
            mag(a) <= aa,
            mag(b) <= bb,
    ;
    lemma_div_trunc_mag(a * b, FX_ONE as int);
    vstd::arithmetic::div_mod::lemma_div_is_ordered(mag(a * b), aa * bb, FX_ONE as int);
}

/// Magnitude bound for the fixed-point quotient with `|b| >= 1`.
pub proof fn lemma_fx_div_mag(a: int, b: int, aa: int)
    requires
        mag(a) <= aa,
        b != 0,
    ensures
        mag(fx_div_s(a, b)) <= aa * (FX_ONE as int),
{
    let s: int = FX_ONE as int;
    if b >= 0 {
        lemma_div_trunc_mag(a * s, b);
        assert(mag(a * s) <= aa * s) by (nonlinear_arith)
            requires
                mag(a) <= aa,
                s > 0,
        ;
        vstd::arithmetic::div_mod::lemma_div_is_ordered(mag(a * s), aa * s, b);
        vstd::arithmetic::div_mod::lemma_div_nonincreasing(aa * s, b);
    } else {
        lemma_div_trunc_mag(-(a * s), -b);
        assert(mag(-(a * s)) <= aa * s) by (nonlinear_arith)
            requires
                mag(a) <= aa,
                s > 0,
        ;
        vstd::arithmetic::div_mod::lemma_div_is_ordered(mag(-(a * s)), aa * s, -b);
        vstd::arithmetic::div_mod::lemma_div_nonincreasing(aa * s, -b);
    }
}


/// Denominator-aware bound for a non-negative fixed-point quotient.
pub proof fn lemma_fx_div_denom(a: int, b: int, aa: int, bmin: int)
    requires
        0 <= a <= aa,
        0 < bmin <= b,
    ensures
        0 <= fx_div_s(a, b) <= aa * (FX_ONE as int) / bmin,
{
    let s: int = FX_ONE as int;
    vstd::arithmetic::div_mod::lemma_div_pos_is_pos(a * s, b);
    vstd::arithmetic::div_mod::lemma_div_is_ordered(a * s, aa * s, b);
    vstd::arithmetic::div_mod::lemma_div_is_ordered_by_denominator(aa * s, bmin, b);
}


/// Fixed-point pi and its multiples, truncated.
pub const PI_FX: i64 = 205887;

pub const TWO_PI_FX: i64 = 411774;

pub const HALF_PI_FX: i64 = 102943;

/// Bhaskara's rational approximation of the sine on `[0, pi]`:
/// `16 x (pi - x) / (5 pi^2 - 4 x (pi - x))`, clamped into `[-1, 1]`.
#[verifier::opaque]
pub open spec fn sin_bh_s(x: int) -> int {
    let t: int = fx_mul_s(x, PI_FX as int - x);
    let den: int = 5 * fx_mul_s(PI_FX as int, PI_FX as int) - 4 * t;
    if den <= 0 {
        0
    } else {
        clamp_s(fx_div_s(16 * t, den), FX_ONE as int)
    }
}

/// The sine of any fixed-point angle: reduce modulo `2 pi`, apply the
/// approximation on each half period.
#[verifier::opaque]
pub open spec fn sin_fx_s(x: int) -> int {
    let m: int = x % (TWO_PI_FX as int);
    if m <= PI_FX as int {
        sin_bh_s(m)
    } else {
        -sin_bh_s(m - PI_FX as int)
    }
}

/// The cosine, as the sine shifted by a quarter period.
#[verifier::opaque]
pub open spec fn cos_fx_s(x: int) -> int {
    sin_fx_s(x + HALF_PI_FX as int)
}

/// Bhaskara's sine approximation on `[0, pi]`.
fn sin_bh(x: i64) -> (r: i64)
    requires
        0 <= x <= PI_FX,
    ensures
        r as int == sin_bh_s(x as int),
        0 <= r <= FX_ONE,
{
    proof {
        reveal(sin_bh_s);
        assert((x as int) * (PI_FX as int - x as int) >= 0) by (nonlinear_arith)
            requires
                0 <= x <= PI_FX,
        ;
        assert(mag((x as int) * (PI_FX as int - x as int)) <= 0x40000 * 0x40000)
            by (nonlinear_arith)
            requires
                0 <= x <= PI_FX,
                PI_FX == 205887i64,
        ;
        assert(0x40000 * 0x40000 == 0x1000000000int) by (nonlinear_arith);
        vstd::arithmetic::div_mod::lemma_div_pos_is_pos(
            (x as int) * (PI_FX as int - x as int),
            FX_ONE as int,
        );
        vstd::arithmetic::div_mod::lemma_div_is_ordered(
            (x as int) * (PI_FX as int - x as int),
            0x1000000000,
            FX_ONE as int,
        );
        lemma_fx_mul_mag(PI_FX as int, PI_FX as int, 0x40000, 0x40000);
    }
    let t: i64 = fx_mul(x, PI_FX - x);
    let pp: i64 = fx_mul(PI_FX, PI_FX);
    let den: i64 = 5 * pp - 4 * t;
    if den <= 0 {
        0
    } else {
        clamp_fx(fx_div(16 * t, den), FX_ONE)
    }
}

/// The remainder of `x` modulo `2 pi`, as the Euclidean (non-negative)
/// remainder.
fn rem_two_pi(x: i64) -> (r: i64)
    requires
        mag(x as int) <= 0x200000000000,  // 2^45
    ensures
        r as int == (x as int) % (TWO_PI_FX as int),
        0 <= r < TWO_PI_FX,
{
    let p: i64 = TWO_PI_FX;
    if x >= 0 {
        ((x as u64) % (p as u64)) as i64
    } else {
        let m: u64 = ((-x) as u64) % (p as u64);
        proof {
            let xi: int = x as int;
            let pi_: int = p as int;
            vstd::arithmetic::div_mod::lemma_fundamental_div_mod(-xi, pi_);
            if m == 0 {
                vstd::arithmetic::div_mod::lemma_fundamental_div_mod_converse_mod(
                    xi,
                    pi_,
                    -((-xi) / pi_),
                    0,
                );
            } else {
                vstd::arithmetic::div_mod::lemma_fundamental_div_mod_converse_mod(
                    xi,
                    pi_,
                    -((-xi) / pi_) - 1,
                    pi_ - ((-xi) % pi_),
                );
            }
        }
        if m == 0 {
            0
        } else {
            p - (m as i64)
        }
    }
}

/// The sine of a fixed-point angle in radians.
pub fn sin_fx(x: i64) -> (r: i64)
    requires
        mag(x as int) <= 0x200000000000,
    ensures
        r as int == sin_fx_s(x as int),
        mag(r as int) <= FX_ONE as int,
{
    proof {
        reveal(sin_fx_s);
    }
    let m: i64 = rem_two_pi(x);
    if m <= PI_FX {
        sin_bh(m)
    } else {
        -sin_bh(m - PI_FX)
    }
}

/// The cosine of a fixed-point angle in radians.
pub fn cos_fx(x: i64) -> (r: i64)
    requires
        mag(x as int) <= 0x100000000000,
    ensures
        r as int == cos_fx_s(x as int),
        mag(r as int) <= FX_ONE as int,
{
    proof {
        reveal(cos_fx_s);
    }
    sin_fx(x + HALF_PI_FX)
}


/// Truncating division is monotone in the numerator.
pub proof fn lemma_div_trunc_ordered(x: int, y: int, d: int)
    requires
        x <= y,
        d > 0,
    ensures
        div_trunc(x, d) <= div_trunc(y, d),
{
    if x >= 0 {
        vstd::arithmetic::div_mod::lemma_div_is_ordered(x, y, d);
    } else if y >= 0 {
        vstd::arithmetic::div_mod::lemma_div_pos_is_pos(-x, d);
        vstd::arithmetic::div_mod::lemma_div_pos_is_pos(y, d);
    } else {
        vstd::arithmetic::div_mod::lemma_div_is_ordered(-y, -x, d);
    }
}

/// A square is never negative.
pub proof fn lemma_fx_square_nonneg(a: int)
    ensures
        fx_mul_s(a, a) >= 0,
{
    assert(a * a >= 0) by (nonlinear_arith);
    vstd::arithmetic::div_mod::lemma_div_pos_is_pos(a * a, FX_ONE as int);
}

/// Integer square root over `u128`, by binary search.
fn isqrt_u128(n: u128) -> (r: u128)
    requires
        n < 0x100000000000000000000,  // 2^80
    ensures
        r == isqrt_s(n as nat),
        r < 0x10000000000,  // 2^40
{
    let mut lo: u128 = 0;
    let mut hi: u128 = 0x10000000000;  // 2^40
    proof {
        assert(0x10000000000u128 * 0x10000000000u128 == 0x100000000000000000000) by (nonlinear_arith);
    }
    while lo + 1 < hi
        invariant
            lo < hi <= 0x10000000000,
            lo * lo <= n,
            n < hi * hi,
        decreases hi - lo,
    {
        let mid: u128 = lo + (hi - lo) / 2;
        proof {
            assert(mid * mid <= 0x10000000000u128 * 0x10000000000u128) by (nonlinear_arith)
                requires
                    mid <= 0x10000000000u128,
            ;
        }
        if mid * mid <= n {
            lo = mid;
        } else {
            hi = mid;
        }
    }
    proof {
        assert(hi == lo + 1);
        lemma_isqrt_unique(n as nat, lo as nat);
    }
    lo
}

/// Fixed-point multiplication, truncating toward zero.
pub fn fx_mul(a: i64, b: i64) -> (r: i64)
    requires
        mag(a as int) <= 0x8000000000,  // 2^39
        mag(b as int) <= 0x8000000000,
    ensures
        r as int == fx_mul_s(a as int, b as int),
{
    proof {
        assert(mag((a as int) * (b as int)) <= 0x8000000000i128 * 0x8000000000i128)
            by (nonlinear_arith)
            requires
                mag(a as int) <= 0x8000000000,
                mag(b as int) <= 0x8000000000,
        ;
    }
    let p: i128 = (a as i128) * (b as i128);
    let neg: bool = p < 0;
    let pm: u128 = if neg {
        (-p) as u128
    } else {
        p as u128
    };
    let q: u128 = pm / 65536;
    proof {
        vstd::arithmetic::div_mod::lemma_div_is_ordered(
            pm as int,
            0x8000000000i128 * 0x8000000000i128,
            65536,
        );
        assert(0x8000000000i128 * 0x8000000000i128 / 65536 < 0x8000000000000000i128)
 by (nonlinear_arith);
    }
    if neg {
        -(q as i64)
    } else {
        q as i64
    }
}

/// Fixed-point division, truncating toward zero.
pub fn fx_div(a: i64, b: i64) -> (r: i64)
    requires
        b != 0,
        mag(a as int) <= 0x400000000000,  // 2^46
    ensures
        r as int == fx_div_s(a as int, b as int),
{
    let neg: bool = (a < 0) != (b < 0);
    let am: u128 = if a < 0 {
        (-(a as i128)) as u128
    } else {
        a as u128
    };
    let bm: u128 = if b < 0 {
        (-(b as i128)) as u128
    } else {
        b as u128
    };
    let q: u128 = (am * 65536) / bm;
    proof {
        vstd::arithmetic::div_mod::lemma_div_is_ordered(
            (am * 65536) as int,
            0x400000000000i128 * 65536,
            bm as int,
        );
        vstd::arithmetic::div_mod::lemma_div_nonincreasing(0x400000000000i128 * 65536, bm as int);
        assert(0x400000000000i128 * 65536 < 0x8000000000000000i128) by (nonlinear_arith);
        let s: int = FX_ONE as int;
        assert(am as int * 65536 == mag(a as int * s)) by (nonlinear_arith)
            requires
                am == mag(a as int),
                s == 65536,
        ;
        if b >= 0 {
            lemma_div_trunc_mag(a as int * s, b as int);
        } else {
            lemma_div_trunc_mag(-(a as int * s), -(b as int));
        }
    }
    if neg {
        -(q as i64)
    } else {
        q as i64
    }
}

/// Fixed-point square root of a non-negative value.
pub fn sqrt_fx(x: i64) -> (r: i64)
    requires
        x >= 0,
    ensures
        r as int == sqrt_fx_s(x as int),
        0 <= r < 0x10000000000,
{
    let n: u128 = (x as u128) * 65536;
    proof {
        assert((x as u128) * 65536 < 0x100000000000000000000) by (nonlinear_arith)
            requires
                (x as u128) < 0x8000000000000000u128,
        ;
    }
    let r: u128 = isqrt_u128(n);
    r as i64
}

/// Clamp a value into `[-bound, bound]`.
pub fn clamp_fx(v: i64, bound: i64) -> (r: i64)
    requires
        bound > 0,
    ensures
        r as int == clamp_s(v as int, bound as int),
        mag(r as int) <= bound,
{
    if v > bound {
        bound
    } else if v < -bound {
        -bound
    } else {
        v
    }
}

} // verus!
