//! Delivery errors, their classification, and the retry policy.

use vstd::prelude::*;
use rand::Rng;
use vstd::arithmetic::power2::{lemma2_to64, lemma_pow2_strictly_increases, pow2};
use crate::strutil::{decimal, push_decimal};

verus! {

/// Classification of delivery errors for observability.
#[derive(Debug, Clone, Copy, PartialEq, Eq, Structural)]
pub enum ErrorClass {
    /// Transient failure — retry may succeed (network timeout, 5xx).
    Transient,
    /// Permanent failure — retry will not help (auth error, 4xx).
    Permanent,
    /// Rate-limited — retry after the suggested delay.
    RateLimited,
}

impl ErrorClass {
    /// The display name of the class.
    pub fn as_str(&self) -> (r: &'static str)
        ensures
            r@ == match *self {
                ErrorClass::Transient => "transient"@,
                ErrorClass::Permanent => "permanent"@,
                ErrorClass::RateLimited => "rate_limited"@,
            },
    {
        match self {
            ErrorClass::Transient => "transient",
            ErrorClass::Permanent => "permanent",
            ErrorClass::RateLimited => "rate_limited",
        }
    }
}

/// Delivery errors with classification for retry decisions.
#[derive(Debug)]
pub enum DeliveryError {
    /// A transient network or server error.
    Transient(String),
    /// A permanent client error (bad request, auth failure).
    Permanent(String),
    /// Rate limited by the upstream service.
    RateLimited {
        /// Suggested milliseconds to wait before retry.
        retry_after_ms: u64,
    },
}

/// The class of an error, by its variant.
pub open spec fn class_of(e: DeliveryError) -> ErrorClass {
    match e {
        DeliveryError::Transient(_) => ErrorClass::Transient,
        DeliveryError::Permanent(_) => ErrorClass::Permanent,
        DeliveryError::RateLimited { .. } => ErrorClass::RateLimited,
    }
}

/// The rendered message of an error.
pub open spec fn delivery_message(e: DeliveryError) -> Seq<char> {
    match e {
        DeliveryError::Transient(m) => "transient delivery error: "@ + m@,
        DeliveryError::Permanent(m) => "permanent delivery error: "@ + m@,
        DeliveryError::RateLimited { retry_after_ms } => "rate limited, retry after "@ + decimal(
            retry_after_ms as nat,
        ) + "ms"@,
    }
}

impl DeliveryError {
    /// Classify this error for retry policy decisions.
    pub fn classify(&self) -> (r: ErrorClass)
        ensures
            r == class_of(*self),
    {
        match self {
            DeliveryError::Transient(_) => ErrorClass::Transient,
            DeliveryError::Permanent(_) => ErrorClass::Permanent,
            DeliveryError::RateLimited { .. } => ErrorClass::RateLimited,
        }
    }

    /// Whether this error is retryable under normal circumstances:
    /// every error but a permanent one.
    pub fn is_retryable(&self) -> (r: bool)
        ensures
            r == (class_of(*self) != ErrorClass::Permanent),
    {
        match self.classify() {
            ErrorClass::Permanent => false,
            _ => true,
        }
    }

    /// The human-readable message of this error.
    pub fn message(&self) -> (r: String)
        ensures
            r@ == delivery_message(*self),
    {
        match self {
            DeliveryError::Transient(m) => {
                let mut s = "transient delivery error: ".to_string();
                s.append(m.as_str());
                s
            },
            DeliveryError::Permanent(m) => {
                let mut s = "permanent delivery error: ".to_string();
                s.append(m.as_str());
                s
            },
            DeliveryError::RateLimited { retry_after_ms } => {
                let mut s = "rate limited, retry after ".to_string();
                push_decimal(&mut s, *retry_after_ms);
                s.append("ms");
                s
            },
        }
    }
}

} // verus!

verus! {

/// Configuration for retry behavior.
#[derive(Debug, Clone)]
pub struct RetryConfig {
    /// Maximum number of attempts (including the first).
    pub max_attempts: u32,
    /// Base delay in milliseconds.
    pub base_delay_ms: u64,
    /// Maximum delay cap in milliseconds.
    pub max_delay_ms: u64,
}

impl Default for RetryConfig {
    fn default() -> (r: Self)
        ensures
            r.max_attempts == 5,
            r.base_delay_ms == 100,
            r.max_delay_ms == 30_000,
    {
        Self { max_attempts: 5, base_delay_ms: 100, max_delay_ms: 30_000 }
    }
}

impl RetryConfig {
    /// Create a new config with the given max attempts and base delay; the
    /// delay cap is thirty seconds.
    pub fn new(max_attempts: u32, base_delay_ms: u64) -> (r: Self)
        ensures
            r.max_attempts == max_attempts,
            r.base_delay_ms == base_delay_ms,
            r.max_delay_ms == 30_000,
    {
        Self { max_attempts, base_delay_ms, max_delay_ms: 30_000 }
    }
}

} // verus!

verus! {

/// The backoff ceiling for a 0-indexed attempt: `base * 2^attempt` (the
/// exponent capped at 20, the product saturating), capped at `max_delay`.
pub open spec fn backoff_cap(base: u64, max_delay: u64, attempt: u32) -> u64 {
    let exp: nat = if attempt <= 20 { attempt as nat } else { 20 };
    let grown: int = base * pow2(exp);
    let saturated: u64 = if grown > u64::MAX { u64::MAX } else { grown as u64 };
    if saturated <= max_delay { saturated } else { max_delay }
}

/// The backoff ceiling never exceeds the configured cap.
pub proof fn law_backoff_capped(base: u64, max_delay: u64, attempt: u32)
    ensures
        backoff_cap(base, max_delay, attempt) <= max_delay,
{
}

/// The backoff ceiling never shrinks from one attempt to a later one.
pub proof fn law_backoff_grows(base: u64, max_delay: u64, a1: u32, a2: u32)
    requires
        a1 <= a2,
    ensures
        backoff_cap(base, max_delay, a1) <= backoff_cap(base, max_delay, a2),
{
    let e1: nat = if a1 <= 20 { a1 as nat } else { 20 };
    let e2: nat = if a2 <= 20 { a2 as nat } else { 20 };
    if e1 < e2 {
        lemma_pow2_strictly_increases(e1, e2);
    }
    let p1 = pow2(e1);
    let p2 = pow2(e2);
    assert(base * p1 <= base * p2) by (nonlinear_arith)
        requires
            p1 <= p2,
    ;
}

/// `rand::thread_rng().gen_range(0..=cap)`: a random whole number from 0
/// to `cap` inclusive.
#[verifier::external_body]
fn random_at_most(cap: u64) -> (r: u64)
    ensures
        r <= cap,
{
    rand::thread_rng().gen_range(0..=cap)
}

impl RetryConfig {
    /// The backoff ceiling for a 0-indexed attempt, in milliseconds.
    pub fn backoff_ceiling(&self, attempt: u32) -> (r: u64)
        ensures
            r == backoff_cap(self.base_delay_ms, self.max_delay_ms, attempt),
    {
        let exp: u64 = if attempt <= 20 { attempt as u64 } else { 20 };
        proof {
            lemma2_to64();
            vstd::bits::lemma_u64_shl_is_mul(1, exp);
        }
        let factor: u64 = 1u64 << exp;
        let grown: u64 = match self.base_delay_ms.checked_mul(factor) {
            Some(v) => v,
            None => u64::MAX,
        };
        if grown <= self.max_delay_ms {
            grown
        } else {
            self.max_delay_ms
        }
    }

    /// Delay for a 0-indexed attempt, in milliseconds, with full jitter: a
    /// random value from zero to the backoff ceiling.
    pub fn delay_for_attempt(&self, attempt: u32) -> (r: u64)
        ensures
            r <= backoff_cap(self.base_delay_ms, self.max_delay_ms, attempt),
    {
        let cap = self.backoff_ceiling(attempt);
        random_at_most(cap)
    }
}

/// What recording a retryable failure `err` does to a run: one more
/// attempt is counted, the limit stays, and `err` is the last failure.
pub open spec fn retry_step(before: RetryRun, after: RetryRun, err: DeliveryError) -> bool {
    &&& after.attempts() == before.attempts() + 1
    &&& after.limit() == before.limit()
    &&& after.last_failure() == Some(err)
}

/// What recording a retryable failure `err` gives: the step of
/// [`retry_step`], and the sleep before the next attempt: one exactly when
/// an attempt remains, of the error's own delay when rate limited, else at
/// most the backoff ceiling of the attempt that failed.
pub open spec fn failure_step(
    config: RetryConfig,
    before: RetryRun,
    after: RetryRun,
    err: DeliveryError,
    sleep: Option<u64>,
) -> bool {
    &&& retry_step(before, after, err)
    &&& (sleep is Some <==> before.attempts() + 1 < before.limit())
    &&& (sleep matches Some(d) ==> match err {
        DeliveryError::RateLimited { retry_after_ms } => d == retry_after_ms,
        _ => d <= backoff_cap(config.base_delay_ms, config.max_delay_ms, before.attempts()),
    })
}

/// The decisions of a delivery with exponential backoff retry.
///
/// A driver calls the operation while [`RetryRun::wants_attempt`] holds,
/// returns on success, and hands every failure to
/// [`RetryRun::record_failure`]: a permanent error comes back to be
/// returned as is; any other is recorded, with the delay to sleep before the
/// next attempt when one remains. When attempts run out,
/// [`RetryRun::give_up`] gives the error to return.
pub struct RetryRun {
    attempt: u32,
    max_attempts: u32,
    last_err: Option<DeliveryError>,
}

impl RetryRun {
    /// Attempts made so far.
    pub closed spec fn attempts(&self) -> u32 {
        self.attempt
    }

    /// The most attempts the run makes.
    pub closed spec fn limit(&self) -> u32 {
        self.max_attempts
    }

    /// The last retryable failure recorded.
    pub closed spec fn last_failure(&self) -> Option<DeliveryError> {
        self.last_err
    }

    /// A run that has made no attempt yet.
    pub fn new(config: &RetryConfig) -> (r: Self)
        ensures
            r.attempts() == 0,
            r.attempts() <= r.limit(),
            r.limit() == config.max_attempts,
            r.last_failure() is None,
    {
        RetryRun { attempt: 0, max_attempts: config.max_attempts, last_err: None }
    }

    /// Whether another attempt is to be made.
    pub fn wants_attempt(&self) -> (r: bool)
        ensures
            r == (self.attempts() < self.limit()),
    {
        self.attempt < self.max_attempts
    }

    /// Records the failure of the current attempt. A permanent error ends
    /// the run: it is handed back and nothing is recorded. Any other error
    /// is recorded and the attempt counted; the result then says how long to
    /// sleep before the next attempt (the error's own delay when rate
    /// limited, else the jittered backoff), or `None` when this was the last.
    pub fn record_failure(&mut self, config: &RetryConfig, err: DeliveryError) -> (r: Result<
        Option<u64>,
        DeliveryError,
    >)
        requires
            old(self).attempts() < old(self).limit(),
            old(self).limit() == config.max_attempts,
        ensures
            class_of(err) == ErrorClass::Permanent ==> r == Err::<Option<u64>, DeliveryError>(err)
                && *final(self) == *old(self),
            class_of(err) != ErrorClass::Permanent ==> {
                &&& r is Ok
                &&& failure_step(*config, *old(self), *final(self), err, r->Ok_0)
                &&& final(self).attempts() <= final(self).limit()
            },
    {
        if !err.is_retryable() {
            return Err(err);
        }
        let delay = match &err {
            DeliveryError::RateLimited { retry_after_ms } => *retry_after_ms,
            _ => config.delay_for_attempt(self.attempt),
        };
        let sleep = if self.attempt + 1 < self.max_attempts {
            Some(delay)
        } else {
            None
        };
        self.last_err = Some(err);
        self.attempt = self.attempt + 1;
        Ok(sleep)
    }

    /// The error to return once attempts ran out: the last failure, or a
    /// transient "max retries exceeded" when no attempt was made.
    pub fn give_up(self) -> (r: DeliveryError)
        ensures
            self.last_failure() is Some ==> r == self.last_failure()->0,
            self.last_failure() is None ==> (r matches DeliveryError::Transient(m) && m@
                == "max retries exceeded"@),
    {
        match self.last_err {
            Some(e) => e,
            None => DeliveryError::Transient("max retries exceeded".to_string()),
        }
    }
}

/// The states of a run under `config` that started afresh and recorded the
/// retryable failures `errs` in turn, each while another attempt was
/// wanted, with the sleeps the recording gave back.
pub open spec fn failed_run(
    config: RetryConfig,
    runs: Seq<RetryRun>,
    errs: Seq<DeliveryError>,
    sleeps: Seq<Option<u64>>,
) -> bool {
    &&& runs.len() == errs.len() + 1
    &&& sleeps.len() == errs.len()
    &&& runs[0].attempts() == 0
    &&& runs[0].limit() == config.max_attempts
    &&& runs[0].last_failure() is None
    &&& forall|i: int|
        0 <= i < errs.len() ==> class_of(#[trigger] errs[i]) != ErrorClass::Permanent
            && runs[i].attempts() < runs[i].limit() && failure_step(
            config,
            runs[i],
            runs[i + 1],
            errs[i],
            sleeps[i],
        )
}

proof fn lemma_failed_run_prefix(
    config: RetryConfig,
    runs: Seq<RetryRun>,
    errs: Seq<DeliveryError>,
    sleeps: Seq<Option<u64>>,
    k: int,
)
    requires
        failed_run(config, runs, errs, sleeps),
        0 <= k <= errs.len(),
    ensures
        runs[k].attempts() == k,
        runs[k].limit() == config.max_attempts,
        k > 0 ==> runs[k].last_failure() == Some(errs[k - 1]),
    decreases k,
{
    if k > 0 {
        lemma_failed_run_prefix(config, runs, errs, sleeps, k - 1);
        assert(class_of(errs[k - 1]) != ErrorClass::Permanent);
    }
}

/// The sleep after the `i`-th failure of a run (0-indexed): one exactly
/// when an attempt remains; the error's own delay when rate limited, else
/// at most the backoff ceiling of attempt `i`.
pub open spec fn sleep_after(config: RetryConfig, i: int, err: DeliveryError, sleep: Option<u64>) -> bool {
    &&& (sleep is Some <==> i + 1 < config.max_attempts)
    &&& (sleep matches Some(d) ==> match err {
        DeliveryError::RateLimited { retry_after_ms } => d == retry_after_ms,
        _ => d <= backoff_cap(config.base_delay_ms, config.max_delay_ms, i as u32),
    })
}

/// A run that meets only retryable failures makes at most `max_attempts`
/// attempts: after `n` failures it has counted `n` attempts, wants another
/// exactly while `n` is below the limit, and holds the last failure, which
/// `give_up` then returns; between attempts it sleeps the rate-limit delay
/// or at most the backoff ceiling, and not after the last.
pub proof fn law_retry_run_exhausts(
    config: RetryConfig,
    runs: Seq<RetryRun>,
    errs: Seq<DeliveryError>,
    sleeps: Seq<Option<u64>>,
)
    requires
        failed_run(config, runs, errs, sleeps),
    ensures
        errs.len() <= config.max_attempts,
        runs.last().attempts() == errs.len(),
        runs.last().limit() == config.max_attempts,
        (runs.last().attempts() < runs.last().limit()) <==> errs.len() < config.max_attempts,
        errs.len() > 0 ==> runs.last().last_failure() == Some(errs.last()),
        forall|i: int| 0 <= i < errs.len() ==> sleep_after(config, i, #[trigger] errs[i], sleeps[i]),
{
    let n = errs.len() as int;
    lemma_failed_run_prefix(config, runs, errs, sleeps, n);
    if n > 0 {
        lemma_failed_run_prefix(config, runs, errs, sleeps, n - 1);
        assert(class_of(errs[n - 1]) != ErrorClass::Permanent);
    }
    assert forall|i: int| 0 <= i < errs.len() implies sleep_after(config, i, #[trigger] errs[i], sleeps[i]) by {
        lemma_failed_run_prefix(config, runs, errs, sleeps, i);
        assert(runs[i].attempts() as int == i);
    }
}

/// A run whose first `k - 1` attempts met retryable failures, with `k` at
/// most `max_attempts`, goes on to make attempt `k`, having slept before
/// each retry: a success there is returned, and a permanent error is handed
/// back unchanged by `record_failure`, so the operation is called exactly
/// `k` times.
pub proof fn law_retry_reaches_attempt(
    config: RetryConfig,
    runs: Seq<RetryRun>,
    errs: Seq<DeliveryError>,
    sleeps: Seq<Option<u64>>,
)
    requires
        failed_run(config, runs, errs, sleeps),
        errs.len() < config.max_attempts,
    ensures
        runs.last().attempts() == errs.len(),
        runs.last().attempts() < runs.last().limit(),
        forall|i: int| 0 <= i < errs.len() ==> (#[trigger] sleeps[i]) is Some,
{
    law_retry_run_exhausts(config, runs, errs, sleeps);
    assert forall|i: int| 0 <= i < errs.len() implies (#[trigger] sleeps[i]) is Some by {
        assert(sleep_after(config, i, errs[i], sleeps[i]));
    }
}

} // verus!
