//! Growth arithmetic: powers of two and the size of an element buffer.
use vstd::prelude::*;

verus! {

/// `n` is a power of two.
pub open spec fn is_power_of_two(n: int) -> bool
    decreases n,
{
    if n == 1 {
        true
    } else if n < 2 || n % 2 != 0 {
        false
    } else {
        is_power_of_two(n / 2)
    }
}

/// The least power of two that is at least `n`.
pub open spec fn next_power_of_two(n: int) -> int
    decreases n,
{
    if n <= 1 {
        1
    } else {
        2 * next_power_of_two((n + 1) / 2)
    }
}

pub proof fn lemma_next_power_of_two_bounds(n: int)
    ensures
        is_power_of_two(next_power_of_two(n)),
        next_power_of_two(n) >= n,
        next_power_of_two(n) >= 1,
        n >= 1 ==> next_power_of_two(n) < 2 * n,
    decreases n,
{
    if n > 1 {
        let m = (n + 1) / 2;
        lemma_next_power_of_two_bounds(m);
        let p = next_power_of_two(m);
        assert((2 * p) / 2 == p);
        assert((2 * p) % 2 == 0);
    }
}

/// A power of two that is at least `n` is at least the least one.
pub proof fn lemma_next_power_of_two_least(n: int, p: int)
    requires
        is_power_of_two(p),
        p >= n,
    ensures
        next_power_of_two(n) <= p,
    decreases p,
{
    if n > 1 {
        // p >= 2, so p is even and p / 2 >= (n + 1) / 2
        let m = (n + 1) / 2;
        assert(p != 1);
        lemma_next_power_of_two_least(m, p / 2);
    }
}

pub proof fn lemma_next_power_of_two_monotone(a: int, b: int)
    requires
        a <= b,
    ensures
        next_power_of_two(a) <= next_power_of_two(b),
{
    lemma_next_power_of_two_bounds(b);
    lemma_next_power_of_two_least(a, next_power_of_two(b));
}

/// Doubling a power of two gives a power of two.
pub proof fn lemma_double_power_of_two(p: int)
    requires
        is_power_of_two(p),
    ensures
        is_power_of_two(2 * p),
{
    assert((2 * p) / 2 == p);
    assert((2 * p) % 2 == 0);
}

/// Between a power of two `p` and `2 * p` there is no other power of two.
pub proof fn lemma_power_of_two_gap(p: int, q: int)
    requires
        is_power_of_two(p),
        is_power_of_two(q),
        p < q,
    ensures
        2 * p <= q,
    decreases q,
{
    if p == 1 {
        assert(q != 1);
    } else {
        assert(q != 1);
        lemma_power_of_two_gap(p / 2, q / 2);
    }
}

/// The least power of two at least `n`, or `None` when it does not fit in a `usize`.
pub fn checked_next_power_of_two(n: usize) -> (r: Option<usize>)
    ensures
        next_power_of_two(n as int) <= usize::MAX ==> r == Some(next_power_of_two(n as int) as usize),
        next_power_of_two(n as int) > usize::MAX ==> r is None,
{
    let mut p: usize = 1;
    proof {
        lemma_next_power_of_two_bounds(n as int);
    }
    while p < n
        invariant
            is_power_of_two(p as int),
            p <= next_power_of_two(n as int),
        decreases next_power_of_two(n as int) - p,
    {
        if p > usize::MAX / 2 {
            proof {
                lemma_next_power_of_two_bounds(n as int);
                lemma_power_of_two_gap(p as int, next_power_of_two(n as int));
            }
            return None;
        }
        proof {
            lemma_next_power_of_two_bounds(n as int);
            lemma_power_of_two_gap(p as int, next_power_of_two(n as int));
            lemma_double_power_of_two(p as int);
        }
        p = p * 2;
    }
    proof {
        lemma_next_power_of_two_least(n as int, p as int);
    }
    Some(p)
}

} // verus!
