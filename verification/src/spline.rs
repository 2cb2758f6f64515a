//! Bézier paths: their control points, and the binomial weights of the
//! Bernstein basis by which positions on them are computed.
use vstd::prelude::*;
use crate::part::Vec3Bits;

verus! {

/// Pascal's rule, with zero outside `0 <= k <= n`.
pub open spec fn binomial(n: int, k: int) -> int
    decreases n,
{
    if k < 0 || k > n {
        0
    } else if k == 0 || k == n {
        1
    } else {
        binomial(n - 1, k - 1) + binomial(n - 1, k)
    }
}

/// Binomial weights are never negative.
pub proof fn lemma_binomial_nonneg(n: int, k: int)
    ensures
        binomial(n, k) >= 0,
    decreases n,
{
    if k < 0 || k > n || k == 0 || k == n {
    } else {
        lemma_binomial_nonneg(n - 1, k - 1);
        lemma_binomial_nonneg(n - 1, k as int);
    }
}

/// The weights are symmetric: choosing `k` of `n` is choosing the `n - k` left out.
pub proof fn lemma_binomial_symmetric(n: int, k: int)
    requires
        n >= 0,
    ensures
        binomial(n, k) == binomial(n, n - k),
    decreases n,
{
    if k < 0 || k > n || k == 0 || k == n {
    } else {
        lemma_binomial_symmetric(n - 1, k - 1);
        lemma_binomial_symmetric(n - 1, k);
    }
}

/// The sum of the weights `binomial(n, 0)` up to `binomial(n, upto)`.
pub open spec fn row_sum(n: int, upto: int) -> int
    decreases upto + 1,
{
    if upto < 0 {
        0
    } else {
        row_sum(n, upto - 1) + binomial(n, upto)
    }
}

/// Two to the power `n`.
pub open spec fn pow2(n: nat) -> int
    decreases n,
{
    if n == 0 {
        1
    } else {
        2 * pow2((n - 1) as nat)
    }
}

proof fn lemma_row_sum_step(n: int, upto: int)
    requires
        n >= 1,
        upto >= -1,
    ensures
        row_sum(n, upto) == row_sum(n - 1, upto) + row_sum(n - 1, upto - 1),
    decreases upto + 1,
{
    if upto >= 0 {
        lemma_row_sum_step(n, upto - 1);
        if upto == 0 {
            assert(binomial(n, 0) == 1);
            assert(binomial(n - 1, 0) == 1);
            assert(binomial(n - 1, -1) == 0);
        } else if upto == n {
            assert(binomial(n - 1, n) == 0);
        } else if upto > n {
            assert(binomial(n, upto) == 0);
            assert(binomial(n - 1, upto) == 0);
            assert(binomial(n - 1, upto - 1) == 0);
        }
    } else {
        assert(row_sum(n - 1, upto - 1) == 0);
    }
}

proof fn lemma_row_sum_tail(n: int, upto: int)
    requires
        n >= 0,
        upto >= n,
    ensures
        row_sum(n, upto) == row_sum(n, n),
    decreases upto,
{
    if upto > n {
        lemma_row_sum_tail(n, upto - 1);
    }
}

/// The weights of the row `n` add up to `2^n`, so that the Bernstein
/// polynomials of a path sum to one.
pub proof fn lemma_binomial_row_sum(n: nat)
    ensures
        row_sum(n as int, n as int) == pow2(n),
    decreases n,
{
    if n == 0 {
        assert(row_sum(0, -1) == 0);
    } else {
        let m = (n - 1) as nat;
        lemma_binomial_row_sum(m);
        lemma_row_sum_step(n as int, n as int);
        lemma_row_sum_tail(m as int, n as int);
        lemma_row_sum_tail(m as int, m as int);
        assert(row_sum(m as int, n as int - 1) == row_sum(m as int, m as int));
    }
}

/// Binomial coefficient by Pascal's rule, zero outside `0 <= k <= n`, for
/// results that fit in `i32`.
pub fn binomial_coefficient(n: i32, k: i32) -> (c: i32)
    requires
        binomial(n as int, k as int) <= i32::MAX,
    ensures
        c == binomial(n as int, k as int),
    decreases n,
{
    if k < 0 || k > n {
        return 0;
    }
    if k == 0 || k == n {
        return 1;
    }
    proof {
        lemma_binomial_nonneg(n - 1, k - 1);
        lemma_binomial_nonneg(n - 1, k as int);
    }
    binomial_coefficient(n - 1, k - 1) + binomial_coefficient(n - 1, k)
}

/// A Bézier curve through control points (as `f32` bit patterns); it has at
/// least one point. Positions on it are computed in floating point, outside
/// this library.
pub struct BezierPath {
    points: Vec<Vec3Bits>,
}

impl BezierPath {
    pub closed spec fn control_points(&self) -> Seq<Vec3Bits> {
        self.points@
    }

    /// The curve through `points`; `None` when no points were given.
    pub fn new(points: Vec<Vec3Bits>) -> (r: Option<Self>)
        ensures
            r is None <==> points@.len() == 0,
            r matches Some(b) ==> b.control_points() == points@,
    {
        if points.len() == 0 {
            None
        } else {
            Some(BezierPath { points })
        }
    }

    /// The control points, in order.
    pub fn points(&self) -> (r: &[Vec3Bits])
        ensures
            r@ == self.control_points(),
    {
        self.points.as_slice()
    }
}

} // verus!
