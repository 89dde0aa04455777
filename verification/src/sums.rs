//! Sums over the squares of the board.

use vstd::prelude::*;

verus! {

/// The sum of the first `n` of `values`.
pub open spec fn total(values: Seq<int>, n: int) -> int
    decreases n,
{
    if n <= 0 {
        0
    } else {
        total(values, n - 1) + values[n - 1]
    }
}

/// A sum of `n` values that each lie within `limit` of zero lies within
/// `n * limit` of zero.
pub proof fn lemma_total_bounds(values: Seq<int>, limit: int, n: int)
    requires
        0 <= n <= values.len(),
        0 <= limit,
        forall|i: int| 0 <= i < n ==> -limit <= #[trigger] values[i] <= limit,
    ensures
        -n * limit <= total(values, n) <= n * limit,
    decreases n,
{
    if n > 0 {
        lemma_total_bounds(values, limit, n - 1);
        assert((n - 1) * limit + limit == n * limit) by (nonlinear_arith);
        assert(-(n - 1) * limit - limit == -n * limit) by (nonlinear_arith);
    }
}

/// Summing the 64 values of a list from the far end gives the sum of the
/// values left out at the near end.
pub proof fn lemma_total_reversed(a: Seq<int>, b: Seq<int>, n: int)
    requires
        0 <= n <= 64,
        forall|i: int| 0 <= i < 64 ==> b[i] == a[63 - i],
    ensures
        total(b, n) == total(a, 64) - total(a, 64 - n),
    decreases n,
{
    if n > 0 {
        lemma_total_reversed(a, b, n - 1);
        assert(total(a, 64 - n + 1) == total(a, 64 - n) + a[64 - n]);
    }
}

/// The sum of the values with their signs turned is the sum with its sign
/// turned.
pub proof fn lemma_total_negated(a: Seq<int>, b: Seq<int>, n: int)
    requires
        forall|i: int| 0 <= i < n ==> b[i] == -a[i],
    ensures
        total(b, n) == -total(a, n),
    decreases n,
{
    if n > 0 {
        lemma_total_negated(a, b, n - 1);
    }
}

} // verus!
