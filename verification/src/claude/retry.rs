//! The retry policy for transport failures: transient server-side
//! rejections are retried with exponential backoff, client-side ones are
//! not.

use vstd::prelude::*;

verus! {

/// Classifies HTTP statuses for the retry loop: only server-side (5xx)
/// statuses are transient.
#[derive(Clone, Copy, Debug, PartialEq, Eq, Structural)]
pub struct Retry5xx {}

/// Two to the `n`th power.
pub open spec fn spec_pow2(n: nat) -> nat
    decreases n,
{
    if n == 0 {
        1
    } else {
        2 * spec_pow2((n - 1) as nat)
    }
}

impl Retry5xx {
    /// Whether a reply with this HTTP status should be retried.
    pub fn is_transient(&self, status: u16) -> (r: bool)
        ensures
            r == (500 <= status <= 599),
    {
        500 <= status && status <= 599
    }

    /// The delay before retry number `attempt`, doubling each time from a
    /// quarter second.
    pub fn backoff_delay_ms(&self, attempt: u32) -> (r: u64)
        requires
            attempt <= 16,
        ensures
            r == 250 * spec_pow2(attempt as nat),
    {
        let mut d: u64 = 250;
        let mut i: u32 = 0;
        while i < attempt
            invariant
                i <= attempt <= 16,
                d == 250 * spec_pow2(i as nat),
            decreases attempt - i,
        {
            proof {
                lemma_pow2_bound(attempt as nat);
                lemma_pow2_monotone((i + 1) as nat, attempt as nat);
            }
            d = d * 2;
            i = i + 1;
        }
        d
    }
}

/// `spec_pow2` is monotone.
proof fn lemma_pow2_monotone(a: nat, b: nat)
    requires
        a <= b,
    ensures
        spec_pow2(a) <= spec_pow2(b),
    decreases b,
{
    if a < b {
        lemma_pow2_monotone(a, (b - 1) as nat);
    }
}

/// `spec_pow2` of at most 16 stays small.
proof fn lemma_pow2_bound(n: nat)
    requires
        n <= 16,
    ensures
        spec_pow2(n) <= 65536,
{
    lemma_pow2_monotone(n, 16);
    assert(spec_pow2(16) == 65536) by {
        reveal_with_fuel(spec_pow2, 17);
    }
}

} // verus!
