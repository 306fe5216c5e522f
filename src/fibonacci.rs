//! The Fibonacci sequence, with F(0) = 0, F(1) = 1 and
//! F(n) = F(n - 1) + F(n - 2) for n >= 2.
use vstd::prelude::*;

verus! {

/// The n-th Fibonacci term, as a mathematical integer.
pub open spec fn fib(n: nat) -> nat
    decreases n,
{
    if n <= 1 {
        n
    } else {
        fib((n - 1) as nat) + fib((n - 2) as nat)
    }
}

/// Every term from the second one on is the sum of the two before it.
pub proof fn lemma_fib_recurrence(n: nat)
    requires
        n >= 2,
    ensures
        fib(n) == fib((n - 1) as nat) + fib((n - 2) as nat),
{
}

/// The sequence never decreases from one term to the next.
pub proof fn lemma_fib_step_monotone(n: nat)
    requires
        n >= 1,
    ensures
        fib(n) >= fib((n - 1) as nat),
{
    if n >= 2 {
        lemma_fib_recurrence(n);
    }
}

/// The sequence never decreases: a later term is at least an earlier one.
pub proof fn lemma_fib_monotone(i: nat, j: nat)
    requires
        i <= j,
    ensures
        fib(i) <= fib(j),
    decreases j - i,
{
    if i < j {
        lemma_fib_step_monotone(j);
        lemma_fib_monotone(i, (j - 1) as nat);
    }
}

/// The n-th Fibonacci term, computed iteratively with two accumulators.
///
/// The term must fit in a `u32`; `compute_term` is the variant that reports
/// overflow instead of requiring its absence.
pub fn fibonacci(n: u32) -> (r: u32)
    requires
        fib(n as nat) <= u32::MAX,
    ensures
        r == fib(n as nat),
{
    if n <= 1 {
        return n;
    }
    let mut a: u32 = 0;
    let mut b: u32 = 1;
    let mut i: u32 = 1;
    while i < n
        invariant
            1 <= i <= n,
            fib(n as nat) <= u32::MAX,
            a == fib((i - 1) as nat),
            b == fib(i as nat),
        decreases n - i,
    {
        proof {
            lemma_fib_recurrence((i + 1) as nat);
            lemma_fib_monotone((i + 1) as nat, n as nat);
        }
        let next = a + b;
        a = b;
        b = next;
        i = i + 1;
    }
    b
}

/// The n-th Fibonacci term, or `None` when it does not fit in a `u32`.
///
/// Overflow is checked at every addition: the sequence never decreases, so an
/// intermediate sum that overflows means the requested term does too.
pub fn compute_term(n: u32) -> (r: Option<u32>)
    ensures
        match r {
            Some(v) => v == fib(n as nat),
            None => fib(n as nat) > u32::MAX,
        },
{
    if n <= 1 {
        return Some(n);
    }
    let mut a: u32 = 0;
    let mut b: u32 = 1;
    let mut i: u32 = 1;
    while i < n
        invariant
            1 <= i <= n,
            a == fib((i - 1) as nat),
            b == fib(i as nat),
        decreases n - i,
    {
        proof {
            lemma_fib_recurrence((i + 1) as nat);
        }
        match a.checked_add(b) {
            Some(next) => {
                a = b;
                b = next;
            },
            None => {
                proof {
                    lemma_fib_monotone((i + 1) as nat, n as nat);
                }
                return None;
            },
        }
        i = i + 1;
    }
    Some(b)
}

} // verus!
