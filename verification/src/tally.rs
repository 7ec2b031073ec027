//! Sums and counts over the numbers below a limit, to state laws with.
use vstd::prelude::*;

verus! {

/// The sum of `f` over the numbers below `n`.
pub open spec fn sum(n: nat, f: spec_fn(int) -> int) -> int
    decreases n,
{
    if n == 0 {
        0
    } else {
        sum((n - 1) as nat, f) + f(n - 1)
    }
}

/// How many of the numbers below `n` have a property.
pub open spec fn count(n: nat, p: spec_fn(int) -> bool) -> nat
    decreases n,
{
    if n == 0 {
        0
    } else {
        count((n - 1) as nat, p) + if p(n - 1) {
            1nat
        } else {
            0nat
        }
    }
}

/// Sums of equal parts are equal.
pub proof fn lemma_sum_same(n: nat, f: spec_fn(int) -> int, g: spec_fn(int) -> int)
    requires
        forall|i: int| 0 <= i < n ==> #[trigger] f(i) == g(i),
    ensures
        sum(n, f) == sum(n, g),
    decreases n,
{
    if n > 0 {
        lemma_sum_same((n - 1) as nat, f, g);
        assert(f(n - 1) == g(n - 1));
    }
}

/// Counts of equal properties are equal, and none exceeds its limit.
pub proof fn lemma_count_same(n: nat, p: spec_fn(int) -> bool, q: spec_fn(int) -> bool)
    requires
        forall|i: int| 0 <= i < n ==> #[trigger] p(i) == q(i),
    ensures
        count(n, p) == count(n, q),
        count(n, p) <= n,
    decreases n,
{
    if n > 0 {
        lemma_count_same((n - 1) as nat, p, q);
        assert(p(n - 1) == q(n - 1));
    }
}

} // verus!
