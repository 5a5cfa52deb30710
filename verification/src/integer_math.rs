//! Factorials and Fibonacci numbers over `u64`.

use vstd::prelude::*;

verus! {

/// `n!`.
pub open spec fn factorial_spec(n: nat) -> nat
    decreases n,
{
    if n == 0 {
        1
    } else {
        n * factorial_spec((n - 1) as nat)
    }
}

/// The Fibonacci numbers, from 0 and 1.
pub open spec fn fibonacci_spec(n: nat) -> nat
    decreases n,
{
    if n == 0 {
        0
    } else if n == 1 {
        1
    } else {
        fibonacci_spec((n - 1) as nat) + fibonacci_spec((n - 2) as nat)
    }
}

/// `n!`, for every `n` whose factorial fits in a `u64`.
pub fn factorial(n: u64) -> (res: u64)
    requires
        factorial_spec(n as nat) <= u64::MAX,
    ensures
        res == factorial_spec(n as nat),
    decreases n,
{
    if n == 0 || n == 1 {
        assert(factorial_spec(1) == 1 * factorial_spec(0));
        1
    } else {
        proof {
            lemma_factorial_positive((n - 1) as nat);
            assert(factorial_spec((n - 1) as nat) <= factorial_spec(n as nat)) by (nonlinear_arith)
                requires
                    factorial_spec(n as nat) == n * factorial_spec((n - 1) as nat),
                    n >= 1,
                    factorial_spec((n - 1) as nat) >= 1,
            ;
        }
        n * factorial(n - 1)
    }
}

/// Factorials are at least one.
proof fn lemma_factorial_positive(n: nat)
    ensures
        factorial_spec(n) >= 1,
    decreases n,
{
    if n > 0 {
        lemma_factorial_positive((n - 1) as nat);
        assert(n * factorial_spec((n - 1) as nat) >= 1) by (nonlinear_arith)
            requires
                n >= 1,
                factorial_spec((n - 1) as nat) >= 1,
        ;
    }
}

/// Fibonacci numbers do not shrink.
proof fn lemma_fibonacci_grows(i: nat, j: nat)
    requires
        i <= j,
    ensures
        fibonacci_spec(i) <= fibonacci_spec(j),
    decreases j - i,
{
    if i < j {
        lemma_fibonacci_grows(i, (j - 1) as nat);
    }
}

/// The `n`-th Fibonacci number, for every `n` whose Fibonacci number fits in
/// a `u64`.
pub fn fibonacci(n: u64) -> (res: u64)
    requires
        fibonacci_spec(n as nat) <= u64::MAX,
    ensures
        res == fibonacci_spec(n as nat),
{
    if n == 0 {
        return 0;
    }
    let mut previous: u64 = 0;
    let mut current: u64 = 1;
    let mut i: u64 = 1;
    while i < n
        invariant
            1 <= i <= n,
            fibonacci_spec(n as nat) <= u64::MAX,
            previous == fibonacci_spec((i - 1) as nat),
            current == fibonacci_spec(i as nat),
        decreases n - i,
    {
        proof {
            lemma_fibonacci_grows((i + 1) as nat, n as nat);
        }
        let next = previous + current;
        previous = current;
        current = next;
        i = i + 1;
    }
    current
}

} // verus!
