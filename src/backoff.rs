//! Exponential backoff between retries of a failing JSON-RPC call.
use vstd::prelude::*;

verus! {

/// The longest wait between two retries, in seconds.
pub const MAX_BACKOFF_SECS: u64 = 60;

pub open spec fn pow2(n: nat) -> nat
    decreases n,
{
    if n == 0 {
        1
    } else {
        2 * pow2((n - 1) as nat)
    }
}

/// Seconds to wait after `retries_so_far` failed attempts: `2^retries_so_far`,
/// capped at `MAX_BACKOFF_SECS`.
pub fn backoff_secs(retries_so_far: u32) -> (r: u64)
    ensures
        r == if pow2(retries_so_far as nat) <= MAX_BACKOFF_SECS {
            pow2(retries_so_far as nat)
        } else {
            MAX_BACKOFF_SECS as nat
        },
{
    let mut secs: u64 = 1;
    let mut k: u32 = 0;
    while k < retries_so_far && secs <= MAX_BACKOFF_SECS
        invariant
            k <= retries_so_far,
            secs == pow2(k as nat),
            secs <= 2 * MAX_BACKOFF_SECS,
        decreases retries_so_far - k,
    {
        secs = secs * 2;
        k = k + 1;
    }
    if secs <= MAX_BACKOFF_SECS {
        secs
    } else {
        proof {
            lemma_pow2_mono(k as nat, retries_so_far as nat);
        }
        MAX_BACKOFF_SECS
    }
}

proof fn lemma_pow2_mono(a: nat, b: nat)
    requires
        a <= b,
    ensures
        pow2(a) <= pow2(b),
    decreases b - a,
{
    if a < b {
        lemma_pow2_mono(a, (b - 1) as nat);
    }
}

} // verus!
