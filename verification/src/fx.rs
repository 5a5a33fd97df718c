use vstd::prelude::*;

verus! {

/// All world-space quantities are fixed-point numbers: an `i64` counts
/// thousandths of a world unit. `FX_ONE` is the raw value of one unit.
pub const FX_ONE: i64 = 1000;

/// Division that truncates toward zero, as Rust's `/` does, stated over `int`
/// (where `/` alone is Euclidean).
pub open spec fn div_trunc(a: int, b: int) -> int
    recommends
        b > 0,
{
    if a >= 0 {
        a / b
    } else {
        -((-a) / b)
    }
}

/// Product of two fixed-point values: `(a * b) / FX_ONE`, truncated toward zero.
pub open spec fn fx_mul_spec(a: int, b: int) -> int {
    div_trunc(a * b, FX_ONE as int)
}

/// Quotient of two fixed-point values: `(a * FX_ONE) / b`, truncated toward zero.
pub open spec fn fx_div_spec(a: int, b: int) -> int
    recommends
        b > 0,
{
    div_trunc(a * FX_ONE, b)
}

/// The integer square root of a nonnegative number: the greatest `r` with
/// `r * r <= n`.
pub open spec fn sqrt_floor(n: int) -> int {
    choose|r: int| 0 <= r && r * r <= n && #[trigger] ((r + 1) * (r + 1)) > n
}

/// Any value with the square-root property is the square root: the property
/// picks exactly one integer.
pub proof fn lemma_sqrt_floor_is(n: int, r: int)
    requires
        0 <= r,
        r * r <= n,
        (r + 1) * (r + 1) > n,
    ensures
        sqrt_floor(n) == r,
{
    assert(exists|x: int| 0 <= x && x * x <= n && #[trigger] ((x + 1) * (x + 1)) > n) by {
        assert(0 <= r && r * r <= n && ((r + 1) * (r + 1)) > n);
    }
    let s = sqrt_floor(n);
    assert(0 <= s && s * s <= n && (s + 1) * (s + 1) > n);
    assert(s == r) by (nonlinear_arith)
        requires
            0 <= s,
            s * s <= n,
            (s + 1) * (s + 1) > n,
            0 <= r,
            r * r <= n,
            (r + 1) * (r + 1) > n,
    ;
}

/// Scaling by a fixed-point one is the identity.
pub proof fn lemma_fx_mul_one(a: int)
    ensures
        fx_mul_spec(a, FX_ONE as int) == a,
{
    if a >= 0 {
        vstd::arithmetic::div_mod::lemma_div_multiples_vanish(a, FX_ONE as int);
        assert(a * 1000 == 1000 * a) by (nonlinear_arith);
    } else {
        vstd::arithmetic::div_mod::lemma_div_multiples_vanish(-a, FX_ONE as int);
        assert(-(a * 1000) == 1000 * (-a)) by (nonlinear_arith);
    }
}

/// Magnitude of an integer.
pub open spec fn abs_i(a: int) -> int {
    if a >= 0 {
        a
    } else {
        -a
    }
}

/// The voxel index whose cell `[v * FX_ONE, (v + 1) * FX_ONE)` contains the
/// fixed-point coordinate `a`: the floor of `a / FX_ONE`.
pub open spec fn vox_floor(a: int) -> int {
    a / (FX_ONE as int)
}

pub proof fn lemma_div_trunc_mag(a: int, b: int)
    requires
        b > 0,
    ensures
        abs_i(div_trunc(a, b)) == abs_i(a) / b,
        abs_i(a) / b <= abs_i(a),
        a >= 0 ==> div_trunc(a, b) >= 0,
        a <= 0 ==> div_trunc(a, b) <= 0,
{
    if a >= 0 {
        vstd::arithmetic::div_mod::lemma_div_pos_is_pos(a, b);
        vstd::arithmetic::div_mod::lemma_div_nonincreasing(a, b);
    } else {
        vstd::arithmetic::div_mod::lemma_div_pos_is_pos(-a, b);
        vstd::arithmetic::div_mod::lemma_div_nonincreasing(-a, b);
    }
}

/// Truncating fixed-point division shrinks with its arguments: a bound on the
/// numerator magnitude gives a bound on the quotient magnitude.
pub proof fn lemma_div_trunc_bound(a: int, b: int, bound: int)
    requires
        b > 0,
        abs_i(a) <= bound,
    ensures
        abs_i(div_trunc(a, b)) <= bound / b,
        abs_i(div_trunc(a, b)) <= bound,
{
    lemma_div_trunc_mag(a, b);
    vstd::arithmetic::div_mod::lemma_div_is_ordered(abs_i(a), bound, b);
    vstd::arithmetic::div_mod::lemma_div_nonincreasing(bound, b);
}

/// The product magnitude is bounded by the product of the bounds.
pub proof fn lemma_mul_mag_bound(a: int, b: int, ab: int, bb: int)
    requires
        abs_i(a) <= ab,
        abs_i(b) <= bb,
    ensures
        abs_i(a * b) <= ab * bb,
{
    assert(abs_i(a * b) <= ab * bb) by (nonlinear_arith)
        requires
            abs_i(a) <= ab,
            abs_i(b) <= bb,
    ;
}

/// Magnitude bound for a fixed-point product: `|a| <= ab` and `|b| <= bb`
/// give `|fx_mul_spec(a, b)| <= ab * bb / FX_ONE`.
pub proof fn lemma_fx_mul_bound(a: int, b: int, ab: int, bb: int)
    requires
        abs_i(a) <= ab,
        abs_i(b) <= bb,
    ensures
        abs_i(fx_mul_spec(a, b)) <= ab * bb / (FX_ONE as int),
        abs_i(fx_mul_spec(a, b)) <= ab * bb,
{
    lemma_mul_mag_bound(a, b, ab, bb);
    lemma_div_trunc_bound(a * b, FX_ONE as int, ab * bb);
}

/// Magnitude bound for a fixed-point quotient with divisor at least `bl`:
/// `|a| <= ab` gives `|fx_div_spec(a, b)| <= ab * FX_ONE / bl`.
pub proof fn lemma_fx_div_bound(a: int, b: int, ab: int, bl: int)
    requires
        abs_i(a) <= ab,
        b >= bl,
        bl > 0,
    ensures
        abs_i(fx_div_spec(a, b)) <= ab * (FX_ONE as int) / bl,
{
    lemma_mul_mag_bound(a, FX_ONE as int, ab, FX_ONE as int);
    lemma_div_trunc_mag(a * FX_ONE, b);
    assert(abs_i(a * FX_ONE) / b <= abs_i(a * FX_ONE) / bl) by {
        vstd::arithmetic::div_mod::lemma_div_is_ordered_by_denominator(abs_i(a * FX_ONE), bl, b);
    }
    vstd::arithmetic::div_mod::lemma_div_is_ordered(abs_i(a * FX_ONE), ab * FX_ONE, bl);
}

/// A fixed-point product grows with the magnitude of its left factor, for a
/// nonnegative right factor.
pub proof fn lemma_fx_mul_mono(a: int, b: int, m: int)
    requires
        abs_i(a) <= abs_i(b),
        m >= 0,
    ensures
        abs_i(fx_mul_spec(a, m)) <= abs_i(fx_mul_spec(b, m)),
{
    assert(abs_i(a * m) <= abs_i(b * m)) by (nonlinear_arith)
        requires
            abs_i(a) <= abs_i(b),
            m >= 0,
    ;
    lemma_div_trunc_mag(a * m, FX_ONE as int);
    lemma_div_trunc_mag(b * m, FX_ONE as int);
    vstd::arithmetic::div_mod::lemma_div_is_ordered(abs_i(a * m), abs_i(b * m), FX_ONE as int);
}

/// Truncating division of a nonnegative `u128` by a positive divisor.
fn udiv(a: u128, b: u128) -> (r: u128)
    requires
        b > 0,
    ensures
        r == (a as int) / (b as int),
{
    a / b
}

/// Fixed-point multiply: `(a * b) / FX_ONE` truncated toward zero.
pub fn fx_mul(a: i64, b: i64) -> (r: i64)
    requires
        abs_i(fx_mul_spec(a as int, b as int)) <= i64::MAX,
    ensures
        r == fx_mul_spec(a as int, b as int),
{
    let neg: bool = (a < 0) != (b < 0);
    let am: u128 = if a >= 0 {
        a as u128
    } else {
        (-(a as i128)) as u128
    };
    let bm: u128 = if b >= 0 {
        b as u128
    } else {
        (-(b as i128)) as u128
    };
    proof {
        assert(am * bm == abs_i((a as int) * (b as int))) by (nonlinear_arith)
            requires
                am == abs_i(a as int),
                bm == abs_i(b as int),
        ;
    }
    let m: u128 = udiv(am * bm, FX_ONE as u128);
    proof {
        lemma_div_trunc_mag((a as int) * (b as int), FX_ONE as int);
        assert((a as int) * (b as int) >= 0 <==> !neg || am * bm == 0) by (nonlinear_arith)
            requires
                am == abs_i(a as int),
                bm == abs_i(b as int),
                neg == ((a < 0) != (b < 0)),
        ;
    }
    if neg {
        (-(m as i128)) as i64
    } else {
        m as i64
    }
}

/// Fixed-point divide: `(a * FX_ONE) / b` truncated toward zero, for a
/// positive divisor.
pub fn fx_div(a: i64, b: i64) -> (r: i64)
    requires
        b > 0,
        abs_i(fx_div_spec(a as int, b as int)) <= i64::MAX,
    ensures
        r == fx_div_spec(a as int, b as int),
{
    let am: u128 = if a >= 0 {
        a as u128
    } else {
        (-(a as i128)) as u128
    };
    proof {
        assert(am * (FX_ONE as u128) == abs_i((a as int) * (FX_ONE as int))) by (nonlinear_arith)
            requires
                am == abs_i(a as int),
        ;
    }
    let m: u128 = udiv(am * (FX_ONE as u128), b as u128);
    proof {
        lemma_div_trunc_mag((a as int) * (FX_ONE as int), b as int);
        assert((a as int) * (FX_ONE as int) >= 0 <==> a >= 0) by (nonlinear_arith);
    }
    if a < 0 {
        (-(m as i128)) as i64
    } else {
        m as i64
    }
}

/// Flooring division of a fixed-point value by a positive divisor, exact also
/// for negative dividends (as spec-level `/` is).
pub fn floor_div(a: i64, b: i64) -> (r: i64)
    requires
        1 <= b,
    ensures
        r == a as int / b as int,
{
    if a >= 0 {
        proof {
            assert(a as int / (b as int) <= a) by {
                vstd::arithmetic::div_mod::lemma_div_nonincreasing(a as int, b as int);
            }
            vstd::arithmetic::div_mod::lemma_div_pos_is_pos(a as int, b as int);
        }
        (a as u64 / b as u64) as i64
    } else {
        let neg: u128 = (-(a as i128)) as u128;
        let q: u128 = udiv(neg + (b - 1) as u128, b as u128);
        proof {
            let num = (neg + (b - 1) as u128) as int;
            let qi = num / (b as int);
            vstd::arithmetic::div_mod::lemma_fundamental_div_mod(num, b as int);
            vstd::arithmetic::div_mod::lemma_fundamental_div_mod(a as int, b as int);
            vstd::arithmetic::div_mod::lemma_div_pos_is_pos(num, b as int);
            assert(num % (b as int) < b as int) by {
                vstd::arithmetic::div_mod::lemma_remainder_upper(num, b as int);
            }
            assert(-qi == (a as int) / (b as int) && 0 <= qi <= neg) by (nonlinear_arith)
                requires
                    neg == -(a as int),
                    neg >= 1,
                    num == neg + b - 1,
                    b >= 1,
                    qi >= 0,
                    (b as int) * qi + (num % (b as int)) == num,
                    0 <= num % (b as int) < b as int,
                    (b as int) * ((a as int) / (b as int)) + ((a as int) % (b as int)) == a as int,
                    0 <= (a as int) % (b as int) < b as int,
            ;
        }
        (-(q as i128)) as i64
    }
}

/// The voxel index containing the fixed-point coordinate `a`:
/// the floor of `a / FX_ONE`, exact also for negative coordinates.
pub fn vox_of(a: i64) -> (r: i64)
    ensures
        r == vox_floor(a as int),
{
    floor_div(a, FX_ONE)
}

/// Integer square root: the greatest `r` with `r * r <= n`.
pub fn isqrt(n: u128) -> (r: u64)
    ensures
        (r as int) * (r as int) <= n as int,
        (r as int + 1) * (r as int + 1) > n as int,
        r == sqrt_floor(n as int),
{
    let mut lo: u128 = 0;
    let mut hi: u128 = if n < 0xffff_ffff_ffff_ffff {
        n
    } else {
        0xffff_ffff_ffff_ffff
    };
    proof {
        assert((hi as int + 1) * (hi as int + 1) > n as int) by (nonlinear_arith)
            requires
                hi == if n < 0xffff_ffff_ffff_ffff {
                    n as int
                } else {
                    0xffff_ffff_ffff_ffff
                },
        ;
    }
    while lo < hi
        invariant
            lo <= hi,
            hi <= 0xffff_ffff_ffff_ffff,
            (lo as int) * (lo as int) <= n as int,
            (hi as int + 1) * (hi as int + 1) > n as int,
        decreases hi - lo,
    {
        let mid: u128 = lo + (hi - lo + 1) / 2;
        proof {
            assert(lo < mid <= hi);
            assert((mid as int) * (mid as int) <= 0xffff_ffff_ffff_ffff * 0xffff_ffff_ffff_ffff)
                by (nonlinear_arith)
                requires
                    0 <= mid <= 0xffff_ffff_ffff_ffff,
            ;
        }
        let sq: u128 = mid * mid;
        if sq <= n {
            lo = mid;
        } else {
            proof {
                assert((mid as int - 1 + 1) * (mid as int - 1 + 1) > n as int);
            }
            hi = mid - 1;
        }
    }
    proof {
        lemma_sqrt_floor_is(n as int, lo as int);
    }
    lo as u64
}

} // verus!
