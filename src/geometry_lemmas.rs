use vstd::prelude::*;

use crate::geometry::{floor_sqrt, is_floor_sqrt};

verus! {

/// `floor_sqrt` meets its defining bounds.
pub proof fn lemma_floor_sqrt_bounds(n: nat)
    ensures
        is_floor_sqrt(n as int, floor_sqrt(n) as int),
    decreases n,
{
    if n > 0 {
        lemma_floor_sqrt_bounds((n - 1) as nat);
        let r = floor_sqrt((n - 1) as nat) as int;
        if (r + 1) * (r + 1) <= n {
            assert(n < (r + 2) * (r + 2)) by (nonlinear_arith)
                requires n - 1 < (r + 1) * (r + 1), r >= 0;
        }
    }
}

/// Squares are monotone on non-negative integers.
pub proof fn lemma_square_monotone(a: int, b: int)
    requires
        0 <= a <= b,
    ensures
        a * a <= b * b,
{
    assert(a * a <= b * b) by (nonlinear_arith)
        requires 0 <= a <= b;
}

/// The rounded-down square root is unique.
pub proof fn lemma_floor_sqrt_unique(n: int, r1: int, r2: int)
    requires
        is_floor_sqrt(n, r1),
        is_floor_sqrt(n, r2),
    ensures
        r1 == r2,
{
    if r1 < r2 {
        lemma_square_monotone(r1 + 1, r2);
    } else if r2 < r1 {
        lemma_square_monotone(r2 + 1, r1);
    }
}

/// A component never exceeds the rounded-down length of its vector.
pub proof fn lemma_abs_le_floor_sqrt(a: int, b: int, n: int, r: int)
    requires
        0 <= a,
        0 <= b,
        n == a * a + b * b,
        is_floor_sqrt(n, r),
    ensures
        a <= r,
        a > 0 ==> r > 0,
{
    if a > r {
        lemma_square_monotone(r + 1, a);
        assert(b * b >= 0) by (nonlinear_arith);
    }
    if a > 0 && r == 0 {
        assert(a * a >= 1) by (nonlinear_arith) requires a > 0;
        assert(b * b >= 0) by (nonlinear_arith);
    }
}

} // verus!
