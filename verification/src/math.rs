//! Integer arithmetic helpers for the simulation: rounded division,
//! saturation, and an integer square root.
//!
//! The engine stores every quantity as a fixed-point `i64`. Where the
//! physics calls for an exact ratio, the executable code divides and
//! rounds; the spec functions here pin down the rounding exactly, so
//! every contract in the crate speaks of precise integer values.

use vstd::prelude::*;

verus! {

use vstd::arithmetic::div_mod::lemma_fundamental_div_mod;

/// Saturation bound for stored positions and velocities.
pub const SAT: i64 = 8_000_000;

/// Truncating (round-toward-zero) quotient of `n` by a positive divisor `d`,
/// stated over mathematical integers. Matches hardware signed division.
pub open spec fn div_t(n: int, d: int) -> int
    recommends
        d > 0,
{
    if n >= 0 {
        n / d
    } else {
        -((-n) / d)
    }
}

/// Quotient of `n` by a positive divisor `d`, rounded away from zero.
/// Used by the separation step so that a quantized push always makes
/// progress instead of stalling one unit short.
pub open spec fn div_away(n: int, d: int) -> int
    recommends
        d > 0,
{
    if n >= 0 {
        if n % d == 0 {
            n / d
        } else {
            n / d + 1
        }
    } else {
        if (-n) % d == 0 {
            -((-n) / d)
        } else {
            -((-n) / d + 1)
        }
    }
}

/// Clamp an integer into `[-SAT, SAT]`.
pub open spec fn sat_i(x: int) -> int {
    if x < -SAT {
        -SAT as int
    } else if x > SAT {
        SAT as int
    } else {
        x
    }
}

/// `r` is the floor of the square root of `n`.
pub open spec fn is_sqrt_floor(n: int, r: int) -> bool {
    0 <= r && r * r <= n && n < (r + 1) * (r + 1)
}

/// Floor of the square root of a non-negative integer.
pub open spec fn sqrt_floor(n: int) -> int
    recommends
        0 <= n,
{
    choose|r: int| is_sqrt_floor(n, r)
}

/// The floor square root is unique, so `sqrt_floor` agrees with any witness.
pub proof fn lemma_sqrt_floor_unique(n: int, r: int)
    requires
        is_sqrt_floor(n, r),
    ensures
        sqrt_floor(n) == r,
{
    let s = sqrt_floor(n);
    assert(is_sqrt_floor(n, s));
    assert(r < s ==> (r + 1) * (r + 1) <= s * s) by (nonlinear_arith)
        requires
            0 <= r,
            0 <= s,
    ;
    assert(s < r ==> (s + 1) * (s + 1) <= r * r) by (nonlinear_arith)
        requires
            0 <= r,
            0 <= s,
    ;
}

/// Truncating division on `i128`, with a positive divisor.
pub fn div_trunc_i128(n: i128, d: i128) -> (q: i128)
    requires
        d > 0,
        n > i128::MIN,
    ensures
        q == div_t(n as int, d as int),
        n >= 0 ==> 0 <= q <= n,
        n < 0 ==> n <= q <= 0,
{
    proof {
        if n > 0 {
            vstd::arithmetic::div_mod::lemma_div_nonincreasing(n as int, d as int);
            vstd::arithmetic::div_mod::lemma_div_pos_is_pos(n as int, d as int);
        }
        if n < 0 {
            vstd::arithmetic::div_mod::lemma_div_nonincreasing(-n as int, d as int);
            vstd::arithmetic::div_mod::lemma_div_pos_is_pos(-n as int, d as int);
        }
    }
    if n >= 0 {
        ((n as u128) / (d as u128)) as i128
    } else {
        -((((-n) as u128) / (d as u128)) as i128)
    }
}

/// For a non-negative dividend, the away-rounded quotient stays between
/// zero and the dividend.
pub proof fn lemma_div_away_bounds(n: int, d: int)
    requires
        d > 0,
        0 <= n,
    ensures
        0 <= div_away(n, d) <= n,
{
    vstd::arithmetic::div_mod::lemma_div_pos_is_pos(n, d);
    vstd::arithmetic::div_mod::lemma_div_nonincreasing(n, d);
    if n % d != 0 {
        lemma_fundamental_div_mod(n, d);
        vstd::arithmetic::div_mod::lemma_mod_division_less_than_divisor(n, d);
        if d == 1 {
            assert(false);
        }
        assert(n >= 1);
        vstd::arithmetic::div_mod::lemma_div_is_ordered_by_denominator(n, 2, d);
        lemma_fundamental_div_mod(n, 2);
        vstd::arithmetic::div_mod::lemma_mod_division_less_than_divisor(n, 2);
    }
}

/// Division on `i128` rounded away from zero, with a positive divisor.
pub fn div_away_i128(n: i128, d: i128) -> (q: i128)
    requires
        d > 0,
        i128::MIN < n,
    ensures
        q == div_away(n as int, d as int),
        n >= 0 ==> 0 <= q <= n,
        n < 0 ==> n <= q <= 0,
{
    if n >= 0 {
        proof {
            lemma_div_away_bounds(n as int, d as int);
        }
        let nn = n as u128;
        let dd = d as u128;
        let q = nn / dd;
        if nn % dd == 0 {
            q as i128
        } else {
            (q as i128) + 1
        }
    } else {
        proof {
            lemma_div_away_bounds(-n as int, d as int);
        }
        let nn = (-n) as u128;
        let dd = d as u128;
        let q = nn / dd;
        if nn % dd == 0 {
            -(q as i128)
        } else {
            -((q as i128) + 1)
        }
    }
}

/// The truncated quotient is off from the exact ratio by less than one
/// divisor: `|n - d * div_t(n, d)| < d`.
pub proof fn lemma_div_t_error(n: int, d: int)
    requires
        d > 0,
    ensures
        -d < n - d * div_t(n, d),
        n - d * div_t(n, d) < d,
{
    if n >= 0 {
        lemma_fundamental_div_mod(n, d);
        vstd::arithmetic::div_mod::lemma_mod_division_less_than_divisor(n, d);
    } else {
        lemma_fundamental_div_mod(-n, d);
        vstd::arithmetic::div_mod::lemma_mod_division_less_than_divisor(-n, d);
        assert(d * -((-n) / d) == -(d * ((-n) / d))) by (nonlinear_arith);
    }
}

/// Exact divisions are preserved: if `d` divides `n` exactly then the
/// truncated quotient recovers the ratio, `d * div_t(n, d) == n`.
pub proof fn lemma_div_t_exact(n: int, d: int, q: int)
    requires
        d > 0,
        n == d * q,
    ensures
        div_t(n, d) == q,
{
    if n >= 0 {
        assert(q >= 0) by (nonlinear_arith)
            requires
                d > 0,
                d * q >= 0,
        ;
        vstd::arithmetic::div_mod::lemma_div_multiples_vanish(q, d);
    } else {
        assert(-q > 0 && -n == d * (-q)) by (nonlinear_arith)
            requires
                d > 0,
                d * q < 0,
                n == d * q,
        ;
        vstd::arithmetic::div_mod::lemma_div_multiples_vanish(-q, d);
    }
}

/// Away-rounded division of an exact multiple also recovers the ratio.
pub proof fn lemma_div_away_exact(n: int, d: int, q: int)
    requires
        d > 0,
        n == d * q,
    ensures
        div_away(n, d) == q,
{
    vstd::arithmetic::div_mod::lemma_mod_multiples_basic(q, d);
    assert(q * d == d * q) by (nonlinear_arith);
    lemma_div_t_exact(n, d, q);
    if n < 0 {
        assert((-n) % d == 0) by {
            vstd::arithmetic::div_mod::lemma_mod_multiples_basic(-q, d);
            assert(-q * d == -(d * q)) by (nonlinear_arith);
        }
    }
}

/// Away-rounded division is invariant under scaling numerator and
/// denominator by the same positive factor.
pub proof fn lemma_div_away_scale(n: int, d: int, k: int)
    requires
        d > 0,
        k > 0,
    ensures
        div_away(k * n, k * d) == div_away(n, d),
{
    if n >= 0 {
        lemma_div_away_scale_nonneg(n, d, k);
    } else {
        lemma_div_away_scale_nonneg(-n, d, k);
        assert(k * n == -(k * (-n))) by (nonlinear_arith);
        assert(k * n < 0) by (nonlinear_arith)
            requires
                k > 0,
                n < 0,
        ;
    }
}

/// The non-negative half of [`lemma_div_away_scale`].
proof fn lemma_div_away_scale_nonneg(n: int, d: int, k: int)
    requires
        d > 0,
        k > 0,
        n >= 0,
    ensures
        k * n >= 0,
        (k * n) / (k * d) == n / d,
        (k * n) % (k * d) == 0 <==> n % d == 0,
        div_away(k * n, k * d) == div_away(n, d),
{
    assert(k * n >= 0 && k * d > 0) by (nonlinear_arith)
        requires
            k > 0,
            d > 0,
            n >= 0,
    ;
    vstd::arithmetic::div_mod::lemma_div_denominator(k * n, k, d);
    vstd::arithmetic::div_mod::lemma_div_multiples_vanish(n, k);
    assert((k * n) / k == n);
    assert((k * n) / (k * d) == n / d);
    vstd::arithmetic::div_mod::lemma_breakdown(k * n, k, d);
    assert((k * n) % k == 0) by {
        vstd::arithmetic::div_mod::lemma_mod_multiples_basic(n, k);
        assert(n * k == k * n) by (nonlinear_arith);
    }
    assert((k * n) % (k * d) == k * (n % d));
    assert(k * (n % d) == 0 <==> n % d == 0) by (nonlinear_arith)
        requires
            k > 0,
    ;
}

/// A product is bounded by the product of the factors' bounds.
pub proof fn lemma_mul_bound(a: int, b: int, ba: int, bb: int)
    requires
        -ba <= a <= ba,
        -bb <= b <= bb,
    ensures
        -(ba * bb) <= a * b <= ba * bb,
{
    assert(-(ba * bb) <= a * b <= ba * bb) by (nonlinear_arith)
        requires
            -ba <= a <= ba,
            -bb <= b <= bb,
    ;
}

/// Clamp an `i128` into the `i64` saturation range `[-SAT, SAT]`.
pub fn clamp_sat(x: i128) -> (r: i64)
    ensures
        r == sat_i(x as int),
{
    if x < -(SAT as i128) {
        -SAT
    } else if x > SAT as i128 {
        SAT
    } else {
        x as i64
    }
}

/// Floor integer square root by bisection.
pub fn isqrt_u64(n: u64) -> (r: u64)
    requires
        n < 0x4000_0000_0000_0000,
    ensures
        is_sqrt_floor(n as int, r as int),
        r == sqrt_floor(n as int),
        r <= 0x8000_0000,
{
    let mut lo: u64 = 0;
    let mut hi: u64 = 0x8000_0000;
    proof {
        assert((0x8000_0000int + 1) * (0x8000_0000int + 1) > 0x4000_0000_0000_0000int)
            by (nonlinear_arith);
    }
    while hi - lo > 1
        invariant
            lo < hi <= 0x8000_0000,
            lo * lo <= n,
            n < (hi as int) * (hi as int),
        decreases hi - lo,
    {
        let mid = lo + (hi - lo) / 2;
        proof {
            assert(mid * mid <= 0x8000_0000 * 0x8000_0000) by (nonlinear_arith)
                requires
                    0 <= mid <= 0x8000_0000,
            ;
        }
        if mid * mid <= n {
            lo = mid;
        } else {
            hi = mid;
        }
    }
    proof {
        assert(n < (lo + 1) * (lo + 1));
        lemma_sqrt_floor_unique(n as int, lo as int);
    }
    lo
}

} // verus!
