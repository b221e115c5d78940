//! Rounded integer square roots.
//!
//! The circle rasterizer computes the half-width of each scan row as the
//! square root of `radius*radius - ly*ly`, rounded to the nearest integer.
//! This module defines that value exactly over the integers and computes it.

use vstd::prelude::*;

verus! {

/// `k` is the square root of `n` rounded to the nearest integer:
/// `k - 1/2 <= sqrt(n) < k + 1/2`, which over the integers is
/// `k*(k-1) < n <= k*(k+1)` (with `k == 0` exactly when `n <= 0`).
/// No integer `n` lies halfway between two candidates, so `k` is unique.
pub open spec fn is_rounded_sqrt(n: int, k: int) -> bool {
    &&& 0 <= k
    &&& (k == 0 || k * (k - 1) < n)
    &&& n <= k * (k + 1)
}

/// The square root of `n` rounded to the nearest integer.
pub open spec fn rounded_sqrt(n: int) -> int {
    choose|k: int| is_rounded_sqrt(n, k)
}

/// At most one integer satisfies `is_rounded_sqrt` for a given `n`.
pub proof fn lemma_rounded_sqrt_unique(n: int, k1: int, k2: int)
    requires
        is_rounded_sqrt(n, k1),
        is_rounded_sqrt(n, k2),
    ensures
        k1 == k2,
{
    assert(k1 == k2) by (nonlinear_arith)
        requires
            0 <= k1,
            (k1 == 0 || k1 * (k1 - 1) < n),
            n <= k1 * (k1 + 1),
            0 <= k2,
            (k2 == 0 || k2 * (k2 - 1) < n),
            n <= k2 * (k2 + 1),
    ;
}

/// A witness for `is_rounded_sqrt` pins down `rounded_sqrt`.
pub proof fn lemma_rounded_sqrt_is(n: int, k: int)
    requires
        is_rounded_sqrt(n, k),
    ensures
        rounded_sqrt(n) == k,
{
    assert(exists|j: int| is_rounded_sqrt(n, j));
    lemma_rounded_sqrt_unique(n, rounded_sqrt(n), k);
}

/// Computes the square root of `n` rounded to the nearest integer.
pub fn rounded_sqrt_u64(n: u64) -> (k: u64)
    ensures
        is_rounded_sqrt(n as int, k as int),
        k as int == rounded_sqrt(n as int),
{
    let mut k: u64 = 0;
    while (k as u128) * (k as u128 + 1) < (n as u128)
        invariant
            k == 0 || (k as int) * (k as int - 1) < n as int,
            k <= n,
            (k as int) * (k as int + 1) <= u128::MAX,
        decreases n as int - k as int,
    {
        let ghost k0 = k as int;
        proof {
            assert(k0 * (k0 + 1) < n as int);
            assert(k0 + 1 <= n as int) by (nonlinear_arith)
                requires
                    k0 * (k0 + 1) < n as int,
                    0 <= k0,
            ;
        }
        k = k + 1;
        proof {
            assert((k as int) * (k as int - 1) < n as int) by (nonlinear_arith)
                requires
                    k as int == k0 + 1,
                    k0 * (k0 + 1) < n as int,
            ;
            assert((k as int) * (k as int + 1) <= u128::MAX) by (nonlinear_arith)
                requires
                    0 <= k as int <= 0xffff_ffff_ffff_ffff_u64 as int,
            ;
        }
    }
    proof {
        lemma_rounded_sqrt_is(n as int, k as int);
    }
    k
}

} // verus!
