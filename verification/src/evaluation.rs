//! The function that the kernel runs to measure the compiled code.
use vstd::prelude::*;

verus! {

/// Whether `d` divides `n`.
pub open spec fn divides(d: int, n: int) -> bool {
    n % d == 0
}

/// Whether `n` is prime: `n` is at least 2 and no number from 2 up to
/// `n` - 1 divides it. The search for the smallest divisor above 1 finds
/// none for `n` = 1, so 1 is left out.
pub fn is_prime(n: u32) -> (r: bool)
    requires
        n != 1,
    ensures
        r == (n >= 2 && forall|d: int| 2 <= d < n ==> !#[trigger] divides(d, n as int)),
{
    assert(divides(2, 0));
    if n >= 2 {
        assert(divides(n as int, n as int)) by (nonlinear_arith)
            requires
                n >= 2,
        ;
    }
    let mut i: u32 = 2;
    while n % i != 0
        invariant
            2 <= i,
            n != 1,
            n >= 2 ==> i <= n,
            n == 0 ==> i == 2,
            divides(2, 0),
            n >= 2 ==> divides(n as int, n as int),
            forall|d: int| 2 <= d < i ==> !#[trigger] divides(d, n as int),
        decreases n - i,
    {
        i = i + 1;
    }
    assert(divides(i as int, n as int));
    n == i
}

} // verus!
