use std::time::Duration;
use vstd::arithmetic::power::pow;
use vstd::arithmetic::power2::{lemma_pow2, lemma_pow2_unfold, pow2};
use vstd::prelude::*;

verus! {

/// `2^n` as a mathematical integer.
pub open spec fn two_pow(n: nat) -> nat
    decreases n,
{
    if n == 0 {
        1
    } else {
        2 * two_pow((n - 1) as nat)
    }
}

/// `2^n` clamped to the range of `u64` (what `2u64.saturating_pow(n)` gives).
pub open spec fn saturating_two_pow(n: nat) -> u64 {
    if two_pow(n) > u64::MAX {
        u64::MAX
    } else {
        two_pow(n) as u64
    }
}

/// `a * b` clamped to the range of `u64`.
pub open spec fn saturating_mul(a: u64, b: u64) -> u64 {
    if a * b > u64::MAX {
        u64::MAX
    } else {
        (a * b) as u64
    }
}

pub open spec fn min_u64(a: u64, b: u64) -> u64 {
    if a <= b {
        a
    } else {
        b
    }
}

/// Milliseconds to wait before the given (1-based) reconnect attempt:
/// `base * 2^(attempt - 1)`, saturated, then capped at `max`; attempt 0 waits `base`.
pub open spec fn delay_ms(base: u64, max: u64, attempt: u32) -> u64 {
    if attempt == 0 {
        base
    } else {
        min_u64(saturating_mul(base, saturating_two_pow((attempt - 1) as nat)), max)
    }
}

/// What `Duration::from_millis` returns for the given number of milliseconds.
pub uninterp spec fn millis_duration(ms: u64) -> Duration;

/// Calls `std::time::Duration::from_millis`; the result is named by
/// `millis_duration`, since `Duration` exposes no value to the verifier.
#[verifier::external_body]
pub(crate) fn duration_from_millis(ms: u64) -> (d: Duration)
    ensures
        d == millis_duration(ms),
{
    Duration::from_millis(ms)
}

proof fn lemma_two_pow_positive(n: nat)
    ensures
        two_pow(n) >= 1,
    decreases n,
{
    if n > 0 {
        lemma_two_pow_positive((n - 1) as nat);
    }
}

proof fn lemma_two_pow_monotone(a: nat, b: nat)
    requires
        a <= b,
    ensures
        two_pow(a) <= two_pow(b),
    decreases b,
{
    if a < b {
        lemma_two_pow_monotone(a, (b - 1) as nat);
        lemma_two_pow_positive((b - 1) as nat);
    }
}

/// `2u64.saturating_pow(n)`, computed by doubling until it saturates.
fn saturating_pow2(n: u32) -> (r: u64)
    ensures
        r == saturating_two_pow(n as nat),
{
    let mut r: u64 = 1;
    let mut i: u32 = 0;
    while i < n
        invariant
            i <= n,
            r == saturating_two_pow(i as nat),
        decreases n - i,
    {
        if r == u64::MAX {
            proof {
                assert forall|j: nat| i <= j <= n implies saturating_two_pow(j) == u64::MAX by {
                    lemma_two_pow_monotone(i as nat, j);
                }
            }
            return r;
        }
        if r > u64::MAX / 2 {
            r = u64::MAX;
        } else {
            r = r * 2;
        }
        i = i + 1;
    }
    r
}

/// Exponential back-off calculator for automatic reconnection.
#[derive(Debug, Clone)]
pub struct ReconnectPolicy {
    /// Maximum number of reconnect attempts.
    pub max_attempts: u32,
    /// Base delay in milliseconds (1000 by default).
    pub base_delay_ms: u64,
    /// Upper bound of the delay in milliseconds (16000 by default).
    pub max_delay_ms: u64,
}

impl Default for ReconnectPolicy {
    fn default() -> (p: Self)
        ensures
            p.max_attempts == 5,
            p.base_delay_ms == 1000,
            p.max_delay_ms == 16000,
    {
        ReconnectPolicy { max_attempts: 5, base_delay_ms: 1000, max_delay_ms: 16000 }
    }
}

impl ReconnectPolicy {
    /// The back-off delay, in milliseconds, before the given (1-based) attempt.
    pub fn delay_ms_for_attempt(&self, attempt: u32) -> (ms: u64)
        ensures
            ms == delay_ms(self.base_delay_ms, self.max_delay_ms, attempt),
    {
        if attempt == 0 {
            return self.base_delay_ms;
        }
        let exp = saturating_pow2(attempt - 1);
        let scaled = match self.base_delay_ms.checked_mul(exp) {
            Some(v) => v,
            None => u64::MAX,
        };
        if scaled <= self.max_delay_ms {
            scaled
        } else {
            self.max_delay_ms
        }
    }

    /// The back-off delay before the given (1-based) attempt.
    pub fn delay_for_attempt(&self, attempt: u32) -> (d: Duration)
        ensures
            d == millis_duration(delay_ms(self.base_delay_ms, self.max_delay_ms, attempt)),
    {
        let ms = self.delay_ms_for_attempt(attempt);
        duration_from_millis(ms)
    }

    /// Whether another attempt may be made after `current_attempt` attempts.
    pub fn can_retry(&self, current_attempt: u32) -> (b: bool)
        ensures
            b == (current_attempt < self.max_attempts),
    {
        current_attempt < self.max_attempts
    }
}

/// From the first attempt on, the delay never shrinks as attempts grow
/// and never exceeds the configured maximum.
pub proof fn lemma_delay_monotone_and_capped(base: u64, max: u64, a: u32, b: u32)
    requires
        1 <= a <= b,
    ensures
        delay_ms(base, max, a) <= delay_ms(base, max, b),
        delay_ms(base, max, b) <= max,
{
    lemma_two_pow_monotone((a - 1) as nat, (b - 1) as nat);
    let pa = saturating_two_pow((a - 1) as nat);
    let pb = saturating_two_pow((b - 1) as nat);
    assert(pa <= pb);
    assert(base * pa <= base * pb) by (nonlinear_arith)
        requires
            pa <= pb,
    ;
}

/// `two_pow` is the power of two.
proof fn lemma_two_pow_is_pow2(n: nat)
    ensures
        two_pow(n) == pow2(n),
    decreases n,
{
    if n == 0 {
        reveal(pow);
        lemma_pow2(0);
    } else {
        lemma_two_pow_is_pow2((n - 1) as nat);
        lemma_pow2_unfold(n);
    }
}

/// The back-off doubles from the base: before attempt `a >= 1` the delay is
/// `base * 2^(a - 1)` as long as that does not exceed `max`, and `max`
/// from then on; attempt 0 waits `base`.
pub proof fn lemma_delay_closed_form(base: u64, max: u64, attempt: u32)
    ensures
        attempt == 0 ==> delay_ms(base, max, attempt) == base,
        attempt >= 1 ==> delay_ms(base, max, attempt) == if base * pow2((attempt - 1) as nat) <= max {
            base * pow2((attempt - 1) as nat)
        } else {
            max as int
        },
{
    if attempt >= 1 {
        let n = (attempt - 1) as nat;
        lemma_two_pow_is_pow2(n);
        let tp = two_pow(n);
        let m = u64::MAX as int;
        if tp > m {
            if base >= 1 {
                assert(base * tp > m) by (nonlinear_arith)
                    requires
                        base >= 1,
                        tp > m,
                ;
                assert(base * m >= m) by (nonlinear_arith)
                    requires
                        base >= 1,
                        m >= 0,
                ;
            } else {
                assert(base * tp == 0);
                assert(base * m == 0);
            }
        }
    }
}

} // verus!
