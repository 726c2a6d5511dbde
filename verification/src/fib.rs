//! The Fibonacci sequence, and its terms as 32 bits hold them.

use vstd::arithmetic::div_mod::lemma_add_mod_noop;
use vstd::prelude::*;

verus! {

/// The term of the Fibonacci sequence at index `n`: 0, 1, 1, 2, 3, 5, 8, 13, ...
pub open spec fn fib(n: nat) -> nat
    decreases n,
{
    if n < 2 {
        n
    } else {
        fib((n - 1) as nat) + fib((n - 2) as nat)
    }
}

/// What a 32-bit accumulator holds for index `n`: the term, reduced modulo 2^32.
pub open spec fn fib_u32(n: nat) -> u32 {
    (fib(n) % 0x1_0000_0000) as u32
}

/// The last index whose term fits in 32 bits.
pub const LAST_EXACT_INDEX: u32 = 47;

/// The sequence never falls.
pub proof fn lemma_fib_monotonic(i: nat, j: nat)
    requires
        i <= j,
    ensures
        fib(i) <= fib(j),
    decreases j,
{
    if i < j {
        lemma_fib_monotonic(i, (j - 1) as nat);
    }
}

/// Eight and nine places on, in terms of the two terms at hand.
proof fn lemma_fib_stride(n: nat)
    ensures
        fib(n + 8) == 21 * fib(n + 1) + 13 * fib(n),
        fib(n + 9) == 34 * fib(n + 1) + 21 * fib(n),
{
    assert(fib(n + 2) == fib(n + 1) + fib(n));
    assert(fib(n + 3) == fib(n + 2) + fib(n + 1));
    assert(fib(n + 4) == fib(n + 3) + fib(n + 2));
    assert(fib(n + 5) == fib(n + 4) + fib(n + 3));
    assert(fib(n + 6) == fib(n + 5) + fib(n + 4));
    assert(fib(n + 7) == fib(n + 6) + fib(n + 5));
    assert(fib(n + 8) == fib(n + 7) + fib(n + 6));
    assert(fib(n + 9) == fib(n + 8) + fib(n + 7));
}

/// The two terms on either side of the 32-bit limit.
pub proof fn lemma_fib_at_limit()
    ensures
        fib(47) == 2_971_215_073,
        fib(48) == 4_807_526_976,
{
    assert(fib(0) == 0 && fib(1) == 1);
    lemma_fib_stride(0);
    assert(fib(8) == 21 && fib(9) == 34);
    lemma_fib_stride(8);
    assert(fib(16) == 987 && fib(17) == 1_597);
    lemma_fib_stride(16);
    assert(fib(24) == 46_368 && fib(25) == 75_025);
    lemma_fib_stride(24);
    assert(fib(32) == 2_178_309 && fib(33) == 3_524_578);
    lemma_fib_stride(32);
    assert(fib(40) == 102_334_155 && fib(41) == 165_580_141);
    lemma_fib_stride(40);
    assert(fib(48) == 4_807_526_976 && fib(49) == 7_778_742_049);
    assert(fib(49) == fib(48) + fib(47));
}

/// A term fits in 32 bits exactly up to index `LAST_EXACT_INDEX`.
pub proof fn lemma_fib_fits(n: nat)
    ensures
        fib(n) <= u32::MAX <==> n <= LAST_EXACT_INDEX,
{
    lemma_fib_at_limit();
    if n <= 47 {
        lemma_fib_monotonic(n, 47);
    } else {
        lemma_fib_monotonic(48, n);
    }
}

/// The term at index `wanted`, computed in 32 bits. Sums that no longer fit wrap
/// around silently, so the result is the true term only while that term fits.
pub fn fib_number(wanted: u32) -> (value: u32)
    ensures
        value == fib_u32(wanted as nat),
        wanted < 2 ==> value == wanted,
        wanted <= LAST_EXACT_INDEX ==> value == fib(wanted as nat),
{
    proof {
        lemma_fib_fits(wanted as nat);
    }
    if wanted < 2 {
        return wanted;
    }
    let mut fib_prev: u32 = 1;
    let mut fib_here: u32 = 1;
    assert(fib(1) == 1 && fib(2) == 1) by {
        reveal_with_fuel(fib, 3);
    }
    for i in 2..wanted
        invariant
            2 <= wanted,
            fib_prev == fib_u32((i - 1) as nat),
            fib_here == fib_u32(i as nat),
    {
        let fib_next: u32 = fib_prev.wrapping_add(fib_here);
        proof {
            let before = fib((i - 1) as nat) as int;
            let here = fib(i as nat) as int;
            assert(fib((i + 1) as nat) == before + here);
            lemma_add_mod_noop(before, here, 0x1_0000_0000);
            assert(fib_next == (fib_prev + fib_here) % 0x1_0000_0000);
        }
        fib_prev = fib_here;
        fib_here = fib_next;
    }
    fib_here
}

} // verus!
