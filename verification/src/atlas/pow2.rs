//! Rounding up to a power of two.

use vstd::prelude::*;

verus! {

/// `v` with every bit below its highest set bit set as well.
pub open spec fn smear(v: u32) -> u32 {
    let v = v | (v >> 1);
    let v = v | (v >> 2);
    let v = v | (v >> 4);
    let v = v | (v >> 8);
    v | (v >> 16)
}

/// The number has exactly one bit set.
pub open spec fn is_power_of_two(n: u32) -> bool {
    n != 0 && n & ((n - 1) as u32) == 0
}

/// The least power of two that is at least `n`, for `n` up to `2^31`.
pub open spec fn spec_next_power_of_two(n: u32) -> u32 {
    if n == 0 {
        1
    } else {
        (smear((n - 1) as u32) + 1) as u32
    }
}

/// The rounded value is a power of two and at least `n`, and half of it
/// is less than `n`: no smaller power of two is at least `n`.
pub proof fn lemma_next_power_of_two(n: u32)
    by (bit_vector)
    requires
        n <= 0x8000_0000,
    ensures
        is_power_of_two(spec_next_power_of_two(n)),
        spec_next_power_of_two(n) >= n,
        spec_next_power_of_two(n) >> 1 < n || n == 0,
{
}

/// Rounding leaves a power of two as it is.
pub proof fn lemma_next_power_of_two_idempotent(n: u32)
    by (bit_vector)
    requires
        is_power_of_two(n),
    ensures
        spec_next_power_of_two(n) == n,
{
}

/// Rounding keeps the order of two numbers.
pub proof fn lemma_next_power_of_two_monotone(a: u32, b: u32)
    by (bit_vector)
    requires
        a <= b,
        b <= 0x8000_0000,
    ensures
        spec_next_power_of_two(a) <= spec_next_power_of_two(b),
{
}

/// Round up to the next power of two; 0 gives 1.
pub fn next_power_of_two(n: u32) -> (r: u32)
    requires
        n <= 0x8000_0000,
    ensures
        r == spec_next_power_of_two(n),
        is_power_of_two(r),
        r >= n,
        is_power_of_two(n) ==> r == n,
{
    if n == 0 {
        proof {
            lemma_next_power_of_two(0);
        }
        return 1;
    }
    let mut v: u32 = n - 1;
    v |= v >> 1;
    v |= v >> 2;
    v |= v >> 4;
    v |= v >> 8;
    v |= v >> 16;
    proof {
        lemma_next_power_of_two(n);
        if is_power_of_two(n) {
            lemma_next_power_of_two_idempotent(n);
        }
        assert(smear((n - 1) as u32) < 0xFFFF_FFFF) by (bit_vector)
            requires
                0 < n <= 0x8000_0000,
        ;
    }
    v + 1
}

} // verus!
