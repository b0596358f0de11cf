//! Integer square roots, used to normalize projectile directions.

use vstd::prelude::*;

verus! {

/// `x * x <= b * b` whenever `-b <= x <= b`.
pub proof fn lemma_square_bound(x: int, b: int)
    requires
        0 <= b,
        -b <= x <= b,
    ensures
        0 <= x * x <= b * b,
{
    assert(0 <= x * x <= b * b) by (nonlinear_arith)
        requires
            0 <= b,
            -b <= x <= b,
    ;
}

/// `|x * y| <= a * b` whenever `|x| <= a` and `0 <= y <= b`.
pub proof fn lemma_mul_range(x: int, a: int, y: int, b: int)
    requires
        0 <= a,
        -a <= x <= a,
        0 <= y <= b,
    ensures
        -(a * b) <= x * y <= a * b,
{
    assert(-(a * b) <= x * y <= a * b) by (nonlinear_arith)
        requires
            0 <= a,
            -a <= x <= a,
            0 <= y <= b,
    ;
}

/// The floor of the square root of `n` (0 for negative `n`).
pub open spec fn sqrt_floor(n: int) -> int
    decreases n,
{
    if n < 1 {
        0
    } else {
        let r = sqrt_floor(n - 1);
        if (r + 1) * (r + 1) <= n {
            r + 1
        } else {
            r
        }
    }
}

/// `sqrt_floor(n)` is the unique `r >= 0` with `r * r <= n < (r + 1) * (r + 1)`.
pub proof fn lemma_sqrt_floor_bounds(n: int)
    requires
        0 <= n,
    ensures
        0 <= sqrt_floor(n),
        sqrt_floor(n) * sqrt_floor(n) <= n,
        n < (sqrt_floor(n) + 1) * (sqrt_floor(n) + 1),
    decreases n,
{
    if n == 0 {
    } else {
        lemma_sqrt_floor_bounds(n - 1);
        let r = sqrt_floor(n - 1);
        if (r + 1) * (r + 1) <= n {
            assert((r + 2) * (r + 2) > n) by (nonlinear_arith)
                requires
                    0 <= r,
                    n - 1 < (r + 1) * (r + 1),
            ;
        }
    }
}

/// Characterization in the other direction: any `r` in the right window
/// is the floor square root.
pub proof fn lemma_sqrt_floor_unique(n: int, r: int)
    requires
        0 <= n,
        0 <= r,
        r * r <= n,
        n < (r + 1) * (r + 1),
    ensures
        sqrt_floor(n) == r,
{
    lemma_sqrt_floor_bounds(n);
    let s = sqrt_floor(n);
    if s < r {
        assert((s + 1) * (s + 1) <= r * r) by (nonlinear_arith)
            requires
                0 <= s,
                s + 1 <= r,
        ;
    }
    if r < s {
        assert((r + 1) * (r + 1) <= s * s) by (nonlinear_arith)
            requires
                0 <= r,
                r + 1 <= s,
        ;
    }
}

/// Any component of a vector is bounded by the floor square root of the
/// squared magnitude: from `c * c <= n` follows `|c| <= sqrt_floor(n)`.
pub proof fn lemma_component_le_sqrt(n: int, c: int)
    requires
        c * c <= n,
    ensures
        -sqrt_floor(n) <= c <= sqrt_floor(n),
{
    assert(0 <= c * c) by (nonlinear_arith);
    lemma_sqrt_floor_bounds(n);
    let s = sqrt_floor(n);
    if s < c {
        assert((s + 1) * (s + 1) <= c * c) by (nonlinear_arith)
            requires
                0 <= s,
                s + 1 <= c,
        ;
    }
    if c < -s {
        assert((s + 1) * (s + 1) <= c * c) by (nonlinear_arith)
            requires
                0 <= s,
                c <= -(s + 1),
        ;
    }
}

/// The floor of the square root of `n`, by binary search.
pub fn isqrt(n: u64) -> (r: u64)
    ensures
        r == sqrt_floor(n as int),
{
    let mut lo: u64 = 0;
    let mut hi: u64 = 0x1_0000_0000;
    // Invariant: lo * lo <= n < hi * hi, searching for the boundary.
    while lo + 1 < hi
        invariant
            lo < hi <= 0x1_0000_0000,
            lo * lo <= n,
            n < hi * hi,
        decreases hi - lo,
    {
        let mid: u64 = lo + (hi - lo) / 2;
        proof {
            lemma_square_bound(mid as int, 0x1_0000_0000);
        }
        let sq: u128 = (mid as u128) * (mid as u128);
        if sq <= n as u128 {
            lo = mid;
        } else {
            hi = mid;
        }
    }
    proof {
        lemma_sqrt_floor_unique(n as int, lo as int);
    }
    lo
}

} // verus!
