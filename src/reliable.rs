//! Retry policy for model-provider calls on unstable networks.
//!
//! The caller makes each attempt and sleeps; this module decides whether a
//! failure is retried and how long to wait before the next attempt.
use vstd::prelude::*;
use crate::text::{contains_seq, contains_str, lower_of, lowercase};

verus! {

/// How a provider call fails.
pub enum ProviderError {
    NetworkError(String),
    ApiError(String),
    ConfigError(String),
}

/// Lower-cased API error text that marks a failure as likely to pass on retry.
pub open spec fn transient_text(lower: Seq<char>) -> bool {
    ||| contains_seq(lower, "429"@)
    ||| contains_seq(lower, "rate limit"@)
    ||| contains_seq(lower, "too many requests"@)
    ||| contains_seq(lower, "timeout"@)
    ||| contains_seq(lower, "temporar"@)
    ||| contains_seq(lower, "unavailable"@)
    ||| contains_seq(lower, "503"@)
}

/// The failure is worth retrying.
pub open spec fn retryable(e: ProviderError) -> bool {
    match e {
        ProviderError::NetworkError(_) => true,
        ProviderError::ApiError(m) => transient_text(lower_of(m@)),
        ProviderError::ConfigError(_) => false,
    }
}

/// Whether already lower-cased API error text marks a transient failure.
pub fn is_transient_text(lower: &str) -> (r: bool)
    ensures
        r == transient_text(lower@),
{
    contains_str(lower, "429") || contains_str(lower, "rate limit") || contains_str(
        lower,
        "too many requests",
    ) || contains_str(lower, "timeout") || contains_str(lower, "temporar") || contains_str(
        lower,
        "unavailable",
    ) || contains_str(lower, "503")
}

/// The smallest first backoff the policy uses, in milliseconds.
pub const MIN_BACKOFF_MS: u64 = 100;

/// The longest wait between two attempts, in milliseconds.
pub const MAX_BACKOFF_MS: u64 = 2000;

/// The wait that follows a wait of `b`: twice as long, but never above the
/// ceiling.
pub open spec fn next_backoff(b: nat) -> nat {
    if 2 * b <= MAX_BACKOFF_MS {
        2 * b
    } else {
        MAX_BACKOFF_MS as nat
    }
}

/// The wait before retry number `k` (from 0) when the first wait is `base`.
pub open spec fn backoff_schedule(base: nat, k: nat) -> nat
    decreases k,
{
    if k == 0 {
        base
    } else {
        next_backoff(backoff_schedule(base, (k - 1) as nat))
    }
}

/// After the failed attempt number `attempt` (from 0), the wait before the
/// next one, or `None` when the failure is reported instead.
pub open spec fn retry_delay(max_retries: nat, attempt: nat, backoff: nat, transient: bool) -> Option<
    nat,
> {
    if !transient || attempt >= max_retries {
        None
    } else {
        Some(capped(backoff))
    }
}

/// A wait held to the ceiling.
pub open spec fn capped(b: nat) -> nat {
    if b <= MAX_BACKOFF_MS {
        b
    } else {
        MAX_BACKOFF_MS as nat
    }
}

/// What to do after a failed attempt.
pub enum RetryStep {
    /// Wait `delay_ms`, then attempt again with `next_backoff_ms` as the wait
    /// to use after that.
    Retry { delay_ms: u64, next_backoff_ms: u64 },
    /// Report the failure to the caller unchanged.
    GiveUp,
}

/// Retry policy: up to `max_retries` retries after the first attempt, with
/// bounded exponential backoff.
pub struct ReliableProvider {
    pub max_retries: u32,
    pub base_backoff_ms: u64,
}

impl ReliableProvider {
    /// A policy with `max_retries` retries and a first wait of
    /// `base_backoff_ms`, raised to the minimum where it is below it.
    pub fn new(max_retries: u32, base_backoff_ms: u64) -> (r: ReliableProvider)
        ensures
            r.max_retries == max_retries,
            r.base_backoff_ms == if base_backoff_ms >= MIN_BACKOFF_MS {
                base_backoff_ms
            } else {
                MIN_BACKOFF_MS
            },
    {
        ReliableProvider {
            max_retries,
            base_backoff_ms: if base_backoff_ms >= MIN_BACKOFF_MS {
                base_backoff_ms
            } else {
                MIN_BACKOFF_MS
            },
        }
    }

    /// Whether a failure is worth another attempt: network errors are, as are
    /// API errors whose text names rate limiting, a timeout or unavailability;
    /// configuration errors are not.
    pub fn is_retryable(err: &ProviderError) -> (r: bool)
        ensures
            r == retryable(*err),
    {
        match err {
            ProviderError::NetworkError(_) => true,
            ProviderError::ApiError(message) => {
                let lower = lowercase(message.as_str());
                is_transient_text(lower.as_str())
            },
            ProviderError::ConfigError(_) => false,
        }
    }

    /// Decides what follows the failed attempt number `attempt` (from 0),
    /// made after waiting `backoff_ms` before it.
    pub fn after_failure(&self, attempt: u32, backoff_ms: u64, err: &ProviderError) -> (r:
        RetryStep)
        ensures
            r is GiveUp <==> retry_delay(
                self.max_retries as nat,
                attempt as nat,
                backoff_ms as nat,
                retryable(*err),
            ) is None,
            r matches RetryStep::Retry { delay_ms, next_backoff_ms } ==> {
                &&& retry_delay(
                    self.max_retries as nat,
                    attempt as nat,
                    backoff_ms as nat,
                    retryable(*err),
                ) == Some(delay_ms as nat)
                &&& next_backoff_ms == next_backoff(backoff_ms as nat)
            },
    {
        if !Self::is_retryable(err) || attempt >= self.max_retries {
            return RetryStep::GiveUp;
        }
        let next = if backoff_ms <= MAX_BACKOFF_MS / 2 {
            backoff_ms * 2
        } else {
            MAX_BACKOFF_MS
        };
        let delay = if backoff_ms <= MAX_BACKOFF_MS {
            backoff_ms
        } else {
            MAX_BACKOFF_MS
        };
        RetryStep::Retry { delay_ms: delay, next_backoff_ms: next }
    }
}

/// The waits made, from attempt number `attempt` with the wait `backoff`
/// pending, against a provider that fails transiently `failures` more times
/// and then succeeds; `None` where the failure is reported instead.
pub open spec fn waits_before_success(max_retries: nat, attempt: nat, backoff: nat, failures: nat) -> Option<
    Seq<nat>,
>
    decreases failures,
{
    if failures == 0 {
        Some(seq![])
    } else {
        match retry_delay(max_retries, attempt, backoff, true) {
            None => None,
            Some(d) => match waits_before_success(
                max_retries,
                attempt + 1,
                next_backoff(backoff),
                (failures - 1) as nat,
            ) {
                Some(w) => Some(seq![d] + w),
                None => None,
            },
        }
    }
}

proof fn lemma_waits_from(max_retries: nat, base: nat, attempt: nat, failures: nat)
    requires
        attempt + failures <= max_retries,
    ensures
        waits_before_success(max_retries, attempt, backoff_schedule(base, attempt), failures) is Some,
        waits_before_success(max_retries, attempt, backoff_schedule(base, attempt), failures)->Some_0.len()
            == failures,
        forall|k: int|
            0 <= k < failures ==> waits_before_success(
                max_retries,
                attempt,
                backoff_schedule(base, attempt),
                failures,
            )->Some_0[k] == capped(backoff_schedule(base, (attempt + k) as nat)),
    decreases failures,
{
    if failures > 0 {
        lemma_waits_from(max_retries, base, attempt + 1, (failures - 1) as nat);
        assert(backoff_schedule(base, attempt + 1) == next_backoff(backoff_schedule(base, attempt)));
        let w = waits_before_success(
            max_retries,
            attempt + 1,
            backoff_schedule(base, attempt + 1),
            (failures - 1) as nat,
        )->Some_0;
        let all = seq![capped(backoff_schedule(base, attempt))] + w;
        assert forall|k: int| 0 <= k < failures implies all[k] == capped(backoff_schedule(
            base,
            (attempt + k) as nat,
        )) by {
            if k > 0 {
                assert(all[k] == w[k - 1]);
                assert((attempt + 1 + (k - 1)) as nat == (attempt + k) as nat);
            }
        }
    }
}

/// A provider that fails transiently `n` times and then succeeds is answered
/// with that success: `n` waits are made, so `n + 1` attempts, as long as `n`
/// does not exceed the retry budget; wait `k` is the first backoff doubled `k`
/// times, never above the ceiling. The waits are those `after_failure`
/// decides, step by step, through `retry_delay` and `next_backoff`.
pub proof fn lemma_success_after_transient_failures(max_retries: nat, base: nat, n: nat)
    requires
        n <= max_retries,
    ensures
        waits_before_success(max_retries, 0, base, n) is Some,
        waits_before_success(max_retries, 0, base, n)->Some_0.len() == n,
        forall|k: int|
            0 <= k < n ==> waits_before_success(max_retries, 0, base, n)->Some_0[k]
                == capped(backoff_schedule(base, k as nat)),
{
    lemma_waits_from(max_retries, base, 0, n);
}

/// One failure more than the retry budget allows is reported, not retried.
pub proof fn lemma_gives_up_past_budget(max_retries: nat, base: nat)
    ensures
        waits_before_success(max_retries, 0, base, max_retries + 1) is None,
{
    lemma_gives_up_from(max_retries, 0, base, max_retries + 1);
}

proof fn lemma_gives_up_from(max_retries: nat, attempt: nat, backoff: nat, failures: nat)
    requires
        attempt + failures > max_retries,
        failures > 0,
    ensures
        waits_before_success(max_retries, attempt, backoff, failures) is None,
    decreases failures,
{
    if attempt < max_retries {
        lemma_gives_up_from(max_retries, attempt + 1, next_backoff(backoff), (failures - 1) as nat);
    }
}

} // verus!
