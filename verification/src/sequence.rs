//! The Fibonacci sequence and its computation in 32-bit unsigned arithmetic.

use vstd::prelude::*;

verus! {

/// The Fibonacci number of index `n`, counted from zero: 0, 1, 1, 2, 3, 5, 8, ...
pub open spec fn fib(n: nat) -> nat
    decreases n,
{
    if n < 2 {
        n
    } else {
        fib((n - 1) as nat) + fib((n - 2) as nat)
    }
}

/// The last index whose Fibonacci number fits in a `u32`.
pub const MAX_INDEX: u32 = 47;

/// The sequence starts with 0 and 1.
pub proof fn lemma_fib_start()
    ensures
        fib(0) == 0,
        fib(1) == 1,
{
}

/// From index 2 on, each number is the sum of the two before it.
pub proof fn lemma_fib_step(n: nat)
    requires
        n >= 2,
    ensures
        fib(n) == fib((n - 1) as nat) + fib((n - 2) as nat),
{
}

/// The sequence never decreases.
pub proof fn lemma_fib_monotonic(i: nat, j: nat)
    requires
        i <= j,
    ensures
        fib(i) <= fib(j),
    decreases j,
{
    if i < j {
        lemma_fib_monotonic(i, (j - 1) as nat);
    }
}

/// The numbers on both sides of the `u32` boundary, reached by walking the
/// sequence up from its start.
pub proof fn lemma_fib_boundary()
    ensures
        fib(46) == 1836311903,
        fib(47) == 2971215073,
        fib(48) == 4807526976,
{
    assert(fib(0) == 0);
    assert(fib(1) == 1);
    assert(fib(2) == 1);
    assert(fib(3) == 2);
    assert(fib(4) == 3);
    assert(fib(5) == 5);
    assert(fib(6) == 8);
    assert(fib(7) == 13);
    assert(fib(8) == 21);
    assert(fib(9) == 34);
    assert(fib(10) == 55);
    assert(fib(11) == 89);
    assert(fib(12) == 144);
    assert(fib(13) == 233);
    assert(fib(14) == 377);
    assert(fib(15) == 610);
    assert(fib(16) == 987);
    assert(fib(17) == 1597);
    assert(fib(18) == 2584);
    assert(fib(19) == 4181);
    assert(fib(20) == 6765);
    assert(fib(21) == 10946);
    assert(fib(22) == 17711);
    assert(fib(23) == 28657);
    assert(fib(24) == 46368);
    assert(fib(25) == 75025);
    assert(fib(26) == 121393);
    assert(fib(27) == 196418);
    assert(fib(28) == 317811);
    assert(fib(29) == 514229);
    assert(fib(30) == 832040);
    assert(fib(31) == 1346269);
    assert(fib(32) == 2178309);
    assert(fib(33) == 3524578);
    assert(fib(34) == 5702887);
    assert(fib(35) == 9227465);
    assert(fib(36) == 14930352);
    assert(fib(37) == 24157817);
    assert(fib(38) == 39088169);
    assert(fib(39) == 63245986);
    assert(fib(40) == 102334155);
    assert(fib(41) == 165580141);
    assert(fib(42) == 267914296);
    assert(fib(43) == 433494437);
    assert(fib(44) == 701408733);
    assert(fib(45) == 1134903170);
    assert(fib(46) == 1836311903);
    assert(fib(47) == 2971215073);
    assert(fib(48) == 4807526976);
}

/// A Fibonacci number fits in a `u32` exactly when its index is at most
/// `MAX_INDEX`.
pub proof fn lemma_fits_u32(n: nat)
    ensures
        fib(n) <= u32::MAX <==> n <= MAX_INDEX,
{
    lemma_fib_boundary();
    if n <= 47 {
        lemma_fib_monotonic(n, 47);
    } else {
        lemma_fib_monotonic(48, n);
    }
}

/// Computes the Fibonacci number of index `n` with two running values and no
/// other storage. Indices 0 and 1 are answered at once; from 2 on the pair is
/// moved up `n - 2` times.
pub fn fibonacci(n: u32) -> (value: u32)
    requires
        n <= MAX_INDEX,
    ensures
        value == fib(n as nat),
{
    if n == 0 {
        return 0;
    }
    if n == 1 {
        return 1;
    }
    let mut older: u32 = 1;
    let mut newer: u32 = 1;
    let mut remaining: u32 = n - 2;
    assert(fib(1) == 1 && fib(2) == 1) by {
        lemma_fib_start();
        lemma_fib_step(2);
    }
    while remaining > 0
        invariant
            2 <= n <= MAX_INDEX,
            remaining <= n - 2,
            older == fib((n - remaining - 1) as nat),
            newer == fib((n - remaining) as nat),
        decreases remaining,
    {
        proof {
            lemma_fits_u32((n - remaining + 1) as nat);
        }
        let next: u32 = older + newer;
        older = newer;
        newer = next;
        remaining = remaining - 1;
    }
    newer
}

/// The Fibonacci number of index `n`, or `None` where it does not fit in a
/// `u32`.
pub fn checked_fibonacci(n: u32) -> (value: Option<u32>)
    ensures
        value == (if fib(n as nat) <= u32::MAX {
            Some(fib(n as nat) as u32)
        } else {
            None
        }),
        value is Some <==> n <= MAX_INDEX,
{
    proof {
        lemma_fits_u32(n as nat);
    }
    if n <= MAX_INDEX {
        Some(fibonacci(n))
    } else {
        None
    }
}

} // verus!
