//! Backoff between tries, and which failures are worth another one.

use vstd::arithmetic::power2::*;
use vstd::prelude::*;

verus! {

/// The longest backoff, in milliseconds.
pub const MAX_BACKOFF_MS: u64 = 30_000;

/// The longest wait before a retry: the base doubled with each attempt up to the eighth, within
/// [`MAX_BACKOFF_MS`].
pub open spec fn backoff_cap(base_ms: u64, attempt: u32) -> int {
    let doublings = if attempt < 8 {
        attempt as nat
    } else {
        8
    };
    let cap = base_ms * pow2(doublings);
    if cap < MAX_BACKOFF_MS {
        cap
    } else {
        MAX_BACKOFF_MS as int
    }
}

/// The longest wait before a retry.
pub fn longest_backoff(base_ms: u64, attempt: u32) -> (cap: u64)
    ensures
        cap == backoff_cap(base_ms, attempt),
        cap <= MAX_BACKOFF_MS,
{
    let doublings: u32 = if attempt < 8 {
        attempt
    } else {
        8
    };
    let mut cap: u128 = base_ms as u128;
    let mut i: u32 = 0;
    proof {
        lemma2_to64();
        assert(base_ms * pow2(0) == base_ms) by (nonlinear_arith)
            requires
                pow2(0) == 1,
        ;
    }
    while i < doublings
        invariant
            i <= doublings <= 8,
            cap == base_ms * pow2(i as nat),
            cap <= base_ms * 256,
        decreases doublings - i,
    {
        proof {
            lemma2_to64();
            lemma_pow2_unfold((i + 1) as nat);
            assert(base_ms * pow2((i + 1) as nat) == 2 * (base_ms * pow2(i as nat)))
                by (nonlinear_arith)
                requires
                    pow2((i + 1) as nat) == 2 * pow2(i as nat),
            ;
            lemma_doublings_bounded((i + 1) as nat);
            assert(base_ms * pow2((i + 1) as nat) <= base_ms * 256) by (nonlinear_arith)
                requires
                    pow2((i + 1) as nat) <= 256,
            ;
        }
        cap = cap * 2;
        i += 1;
    }
    if cap < MAX_BACKOFF_MS as u128 {
        cap as u64
    } else {
        MAX_BACKOFF_MS
    }
}

proof fn lemma_doublings_bounded(n: nat)
    requires
        n <= 8,
    ensures
        pow2(n) <= 256,
{
    lemma2_to64();
    if n < 8 {
        lemma_pow2_strictly_increases(n, 8);
    }
}

/// `fastrand::u64` picks a number of the inclusive range from zero to `cap`. Which one is chance.
#[verifier::external_body]
fn random_up_to(cap: u64) -> (picked: u64)
    ensures
        picked <= cap,
{
    fastrand::u64(0..=cap)
}

/// A wait in milliseconds with full jitter: anything from zero to the longest backoff.
pub fn full_jitter_backoff(base_ms: u64, attempt: u32) -> (wait_ms: u64)
    ensures
        wait_ms <= backoff_cap(base_ms, attempt),
        wait_ms <= MAX_BACKOFF_MS,
{
    let cap = longest_backoff(base_ms, attempt);
    if cap == 0 {
        0
    } else {
        random_up_to(cap)
    }
}

/// Whether an HTTP status that the API server answered with blames the client for good: any of
/// the 400s except "too many requests".
pub open spec fn is_client_error(status: Option<u16>) -> bool {
    status matches Some(code) && 400 <= code < 500 && code != 429
}

/// Whether a failed call is not worth another try. `status` is what the API server answered with.
pub fn kube_error_is_client_error(status: Option<u16>) -> (client_error: bool)
    ensures
        client_error == is_client_error(status),
{
    match status {
        Some(code) => 400 <= code && code < 500 && code != 429,
        None => false,
    }
}

/// The longest backoff never shrinks from one attempt to the next.
pub proof fn law_backoff_grows(base_ms: u64, attempt: u32)
    requires
        attempt < u32::MAX,
    ensures
        backoff_cap(base_ms, attempt) <= backoff_cap(base_ms, (attempt + 1) as u32),
{
    if attempt < 8 {
        lemma_pow2_unfold((attempt + 1) as nat);
        lemma_pow2_pos(attempt as nat);
        assert(base_ms * pow2(attempt as nat) <= base_ms * pow2((attempt + 1) as nat))
            by (nonlinear_arith)
            requires
                pow2((attempt + 1) as nat) == 2 * pow2(attempt as nat),
                pow2(attempt as nat) > 0,
        ;
    }
}

/// Each of the first eight further attempts doubles the longest backoff, up to thirty seconds; after
/// that it stays. The first is the base itself.
pub proof fn law_backoff_doubles(base_ms: u64, attempt: u32)
    requires
        attempt < u32::MAX,
    ensures
        base_ms <= 30_000 ==> backoff_cap(base_ms, 0) == base_ms,
        attempt < 8 && 2 * backoff_cap(base_ms, attempt) <= 30_000 ==> backoff_cap(
            base_ms,
            (attempt + 1) as u32,
        ) == 2 * backoff_cap(base_ms, attempt),
        attempt < 8 && 2 * backoff_cap(base_ms, attempt) > 30_000 ==> backoff_cap(
            base_ms,
            (attempt + 1) as u32,
        ) == 30_000,
        attempt >= 8 ==> backoff_cap(base_ms, (attempt + 1) as u32) == backoff_cap(base_ms, 8),
{
    lemma2_to64();
    assert(base_ms * pow2(0) == base_ms) by (nonlinear_arith)
        requires
            pow2(0) == 1,
    ;
    if attempt < 8 {
        lemma_pow2_unfold((attempt + 1) as nat);
        assert(base_ms * pow2((attempt + 1) as nat) == 2 * (base_ms * pow2(attempt as nat)))
            by (nonlinear_arith)
            requires
                pow2((attempt + 1) as nat) == 2 * pow2(attempt as nat),
        ;
    }
}

/// Only an answer from 400 to 499 blames the client for good, and of those not 429; a call without an
/// answer never does.
pub proof fn law_who_is_to_blame(code: u16)
    ensures
        !is_client_error(None),
        is_client_error(Some(code)) <==> (400 <= code <= 428 || 430 <= code <= 499),
{
}

} // verus!
