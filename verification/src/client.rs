//! The client's rules: its configuration, and what it does with the outcome
//! of each request attempt.
//!
//! The HTTP exchange itself is done outside the library. For each attempt the
//! caller asks [`RequestState::pause`] how long to wait, sends the request,
//! and hands the outcome to [`RequestState::on_outcome`], which says whether to
//! read the body, try again, or fail with which error.
use vstd::prelude::*;
use std::time::Duration;
use crate::error::FunPayError;
use crate::number::parse_unsigned;
use crate::retry::{is_retryable_status, retryable, RateLimiter, RetryPolicy};
use crate::text::{chars_of, concat_chars, starts_with, starts_with_chars, string_of};
use crate::time::{duration_from_millis, duration_from_secs, duration_of_millis, duration_of_secs};
use crate::number::parse_u64;

verus! {

broadcast use vstd::string::group_string_axioms;

/// The default FunPay base URL.
pub const DEFAULT_BASE_URL: &'static str = "https://funpay.com";

/// The User-Agent header that the client sends.
pub const USER_AGENT: &'static str = "Mozilla/5.0 (Windows NT 10.0; Win64; x64) AppleWebKit/537.36 (KHTML, like Gecko) Chrome/120.0.0.0 Safari/537.36";

/// The timeout, in seconds, when none is configured.
pub const DEFAULT_TIMEOUT_SECS: u64 = 30;

/// The URL that a request for `path` goes to: `path` itself if it starts with
/// `http`, else `path` appended to the base URL.
pub open spec fn request_url_of(base_url: Seq<char>, path: Seq<char>) -> Seq<char> {
    if starts_with(path, "http"@) {
        path
    } else {
        base_url + path
    }
}

/// The URL that a request for `path` goes to.
pub fn request_url(base_url: &str, path: &str) -> (res: String)
    ensures
        res@ == request_url_of(base_url@, path@),
{
    let p = chars_of(path);
    if starts_with_chars(&p, &chars_of("http")) {
        string_of(p.as_slice())
    } else {
        string_of(concat_chars(&chars_of(base_url), &p).as_slice())
    }
}

/// The cookie that carries a golden key to funpay.com.
pub open spec fn golden_key_cookie(key: Seq<char>) -> Seq<char> {
    "golden_key="@ + key + "; Domain=funpay.com; Path=/"@
}

/// Everything a client is built from.
#[derive(Debug, Clone)]
pub struct ClientConfig {
    pub base_url: String,
    pub retry_policy: RetryPolicy,
    pub rate_limiter: RateLimiter,
    pub timeout_secs: u64,
    /// The cookie to send to funpay.com, if the client is authenticated.
    pub cookie: Option<String>,
    pub user_agent: String,
}

/// Builder for the configuration of a client.
#[derive(Debug, Clone)]
pub struct FunPayClientBuilder {
    base_url: Option<String>,
    golden_key: Option<String>,
    retry_policy: Option<RetryPolicy>,
    rate_limiter: Option<RateLimiter>,
    timeout_secs: Option<u64>,
}

/// What a builder has been given, as mathematical values.
pub struct BuilderView {
    pub base_url: Option<Seq<char>>,
    pub golden_key: Option<Seq<char>>,
    pub retry_policy: Option<RetryPolicy>,
    pub rate_limiter: Option<(nat, nat, u64)>,
    pub timeout_secs: Option<u64>,
}

impl View for FunPayClientBuilder {
    type V = BuilderView;

    closed spec fn view(&self) -> BuilderView {
        BuilderView {
            base_url: crate::text::opt_chars(self.base_url),
            golden_key: crate::text::opt_chars(self.golden_key),
            retry_policy: self.retry_policy,
            rate_limiter: match self.rate_limiter {
                Some(r) => Some((r.requests_per_second@.0, r.requests_per_second@.1, r.min_interval_ms)),
                None => None,
            },
            timeout_secs: self.timeout_secs,
        }
    }
}

impl FunPayClientBuilder {
    /// A builder with nothing set.
    pub fn new() -> (res: FunPayClientBuilder)
        ensures
            res@ == (BuilderView {
                base_url: None,
                golden_key: None,
                retry_policy: None,
                rate_limiter: None,
                timeout_secs: None,
            }),
    {
        FunPayClientBuilder {
            base_url: None,
            golden_key: None,
            retry_policy: None,
            rate_limiter: None,
            timeout_secs: None,
        }
    }

    /// Sets the base URL for all requests.
    pub fn base_url(self, url: &str) -> (res: FunPayClientBuilder)
        ensures
            res@ == (BuilderView { base_url: Some(url@), ..self@ }),
    {
        FunPayClientBuilder { base_url: Some(url.to_string()), ..self }
    }

    /// Sets the golden key for authentication.
    pub fn golden_key(self, key: &str) -> (res: FunPayClientBuilder)
        ensures
            res@ == (BuilderView { golden_key: Some(key@), ..self@ }),
    {
        FunPayClientBuilder { golden_key: Some(key.to_string()), ..self }
    }

    /// Sets the retry policy.
    pub fn retry_policy(self, policy: RetryPolicy) -> (res: FunPayClientBuilder)
        ensures
            res@ == (BuilderView { retry_policy: Some(policy), ..self@ }),
    {
        FunPayClientBuilder { retry_policy: Some(policy), ..self }
    }

    /// Sets the rate limiter configuration.
    pub fn rate_limiter(self, limiter: RateLimiter) -> (res: FunPayClientBuilder)
        ensures
            res@ == (BuilderView {
                rate_limiter: Some(
                    (
                        limiter.requests_per_second@.0,
                        limiter.requests_per_second@.1,
                        limiter.min_interval_ms,
                    ),
                ),
                ..self@
            }),
    {
        FunPayClientBuilder { rate_limiter: Some(limiter), ..self }
    }

    /// Sets the request timeout in seconds.
    pub fn timeout(self, secs: u64) -> (res: FunPayClientBuilder)
        ensures
            res@ == (BuilderView { timeout_secs: Some(secs), ..self@ }),
    {
        FunPayClientBuilder { timeout_secs: Some(secs), ..self }
    }

    /// The configuration that the builder describes: what was set, and the
    /// defaults for the rest (funpay.com, the default retry policy and rate
    /// limiter, a 30 second timeout, no cookie).
    pub fn config(self) -> (res: ClientConfig)
        ensures
            res.base_url@ == (match self@.base_url {
                Some(u) => u,
                None => DEFAULT_BASE_URL@,
            }),
            res.retry_policy == (match self@.retry_policy {
                Some(p) => p,
                None => RetryPolicy { max_retries: 3, base_delay_ms: 1000, max_delay_ms: 30000 },
            }),
            (res.rate_limiter.requests_per_second@.0, res.rate_limiter.requests_per_second@.1,
                res.rate_limiter.min_interval_ms) == (match self@.rate_limiter {
                Some(r) => r,
                None => (2nat, 0nat, 500u64),
            }),
            res.timeout_secs == (match self@.timeout_secs {
                Some(t) => t,
                None => DEFAULT_TIMEOUT_SECS,
            }),
            crate::text::opt_chars(res.cookie) == (match self@.golden_key {
                Some(k) => Some(golden_key_cookie(k)),
                None => None,
            }),
            res.user_agent@ == USER_AGENT@,
    {
        let base_url = match self.base_url {
            Some(u) => u,
            None => DEFAULT_BASE_URL.to_string(),
        };
        let retry_policy = match self.retry_policy {
            Some(p) => p,
            None => RetryPolicy::default(),
        };
        let rate_limiter = match self.rate_limiter {
            Some(r) => r,
            None => RateLimiter::default(),
        };
        let timeout_secs = match self.timeout_secs {
            Some(t) => t,
            None => DEFAULT_TIMEOUT_SECS,
        };
        let cookie = match self.golden_key {
            Some(k) => {
                let c = concat_chars(
                    &concat_chars(&chars_of("golden_key="), &chars_of(k.as_str())),
                    &chars_of("; Domain=funpay.com; Path=/"),
                );
                Some(string_of(c.as_slice()))
            },
            None => None,
        };
        ClientConfig {
            base_url,
            retry_policy,
            rate_limiter,
            timeout_secs,
            cookie,
            user_agent: USER_AGENT.to_string(),
        }
    }
}

/// What one attempt at a request came back with.
#[derive(Debug, Clone)]
pub enum Outcome {
    /// The server answered with `status`; the text of its `Retry-After`
    /// header, if it has one that is visible ASCII.
    Status { status: u16, retry_after: Option<String> },
    /// No answer; whether the request timed out, and the error's message.
    Failed { timeout: bool, message: String },
}

/// What to do after an attempt.
#[derive(Debug, Clone)]
pub enum Decision {
    /// Read the body of the answer: it is the result.
    ReadBody,
    /// Try again with this state.
    Retry(RequestState),
    /// Give up with this error.
    Fail(FunPayError),
}

/// The progress of one request through its attempts.
#[derive(Debug, Clone, Copy, PartialEq, Eq, Structural)]
pub struct RequestState {
    /// The number of the current attempt, from 0.
    pub attempt: u32,
    /// The seconds that the previous answer's `Retry-After` header asked to
    /// wait before this attempt, if it asked.
    pub retry_after_secs: Option<u64>,
}

/// The seconds that an outcome's `Retry-After` header asks to wait: the
/// header of a 429 answer, when it is a `u64`.
pub open spec fn retry_after_of(outcome: Outcome) -> Option<u64> {
    match outcome {
        Outcome::Status { status, retry_after } => if status == 429 {
            match retry_after {
                Some(h) => match parse_unsigned(h@, u64::MAX as nat) {
                    Some(v) => Some(v as u64),
                    None => None,
                },
                None => None,
            }
        } else {
            None
        },
        Outcome::Failed { .. } => None,
    }
}

/// How long a 429 answer asks to wait: the seconds of its `Retry-After`
/// header when that is a `u64`, else the delay of the current attempt.
pub open spec fn rate_limit_wait(policy: RetryPolicy, attempt: u32, retry_after: Option<Seq<char>>) -> Duration {
    match retry_after {
        Some(h) => match parse_unsigned(h, u64::MAX as nat) {
            Some(s) => duration_of_secs(s),
            None => duration_of_millis(policy.delay_ms(attempt)),
        },
        None => duration_of_millis(policy.delay_ms(attempt)),
    }
}

/// The retry delay of `attempt` is needed for this outcome: a 429 answer
/// without a usable `Retry-After` header.
pub open spec fn outcome_needs_delay(outcome: Outcome) -> bool {
    match outcome {
        Outcome::Status { status, retry_after } => status == 429 && match retry_after {
            Some(h) => parse_unsigned(h@, u64::MAX as nat) is None,
            None => true,
        },
        Outcome::Failed { .. } => false,
    }
}

impl RequestState {
    /// The first attempt.
    pub fn start() -> (res: RequestState)
        ensures
            res.attempt == 0,
            res.retry_after_secs is None,
    {
        RequestState { attempt: 0, retry_after_secs: None }
    }

    /// The pause before sending this attempt: none for the first; for the
    /// others, what the previous answer's `Retry-After` header asked for, or
    /// else the retry delay of the previous attempt.
    pub fn pause(&self, policy: &RetryPolicy) -> (res: Option<Duration>)
        requires
            self.attempt > 0 && self.retry_after_secs is None ==> policy.delay_defined(
                (self.attempt - 1) as u32,
            ),
        ensures
            self.attempt == 0 ==> res is None,
            self.attempt > 0 ==> res == Some(
                match self.retry_after_secs {
                    Some(s) => duration_of_secs(s as nat),
                    None => duration_of_millis(policy.delay_ms((self.attempt - 1) as u32)),
                },
            ),
    {
        if self.attempt == 0 {
            None
        } else {
            match self.retry_after_secs {
                Some(s) => Some(duration_from_secs(s)),
                None => Some(policy.delay_for_attempt(self.attempt - 1)),
            }
        }
    }

    /// What to do with the outcome of this attempt.
    ///
    /// A non-retryable status is the answer; a failure other than a timeout
    /// ends the request with an HTTP error. A retryable status (429, 5xx) or a
    /// timeout is tried again while attempts remain (there are
    /// `max_retries + 1` in all), after the wait that a 429 answer's
    /// `Retry-After` header asks for, and otherwise ends the request with its
    /// error: `RateLimited` for 429, `MaxRetriesExceeded` with the attempt's
    /// number for 5xx, `Timeout` of 30 seconds for a timeout.
    pub fn on_outcome(&self, policy: &RetryPolicy, outcome: Outcome) -> (res: Decision)
        requires
            self.attempt <= policy.max_retries,
            outcome_needs_delay(outcome) ==> policy.delay_defined(self.attempt),
        ensures
            (match outcome {
                Outcome::Status { status, retry_after } => if !retryable(status) {
                    res is ReadBody
                } else if self.attempt < policy.max_retries {
                    res == Decision::Retry(
                        RequestState {
                            attempt: (self.attempt + 1) as u32,
                            retry_after_secs: retry_after_of(outcome),
                        },
                    )
                } else if status == 429 {
                    res matches Decision::Fail(FunPayError::RateLimited { retry_after: d })
                        && d == rate_limit_wait(*policy, self.attempt, crate::text::opt_chars(retry_after))
                } else {
                    res matches Decision::Fail(FunPayError::MaxRetriesExceeded(n)) && n == self.attempt
                },
                Outcome::Failed { timeout, message } => if !timeout {
                    res matches Decision::Fail(FunPayError::Http(m)) && m@ == message@
                } else if self.attempt < policy.max_retries {
                    res == Decision::Retry(
                        RequestState { attempt: (self.attempt + 1) as u32, retry_after_secs: None },
                    )
                } else {
                    res matches Decision::Fail(FunPayError::Timeout(d)) && d == duration_of_secs(30)
                },
            }),
    {
        let (error, header_secs) = match outcome {
            Outcome::Status { status, retry_after } => {
                if !is_retryable_status(status) {
                    return Decision::ReadBody;
                }
                if status == 429 {
                    let header_secs = match retry_after {
                        Some(h) => parse_u64(&chars_of(h.as_str())),
                        None => None,
                    };
                    let wait = match header_secs {
                        Some(s) => duration_from_secs(s),
                        None => policy.delay_for_attempt(self.attempt),
                    };
                    (FunPayError::RateLimited { retry_after: wait }, header_secs)
                } else {
                    (FunPayError::MaxRetriesExceeded(self.attempt), None)
                }
            },
            Outcome::Failed { timeout, message } => {
                if !timeout {
                    return Decision::Fail(FunPayError::Http(message));
                }
                (FunPayError::Timeout(duration_from_secs(30)), None)
            },
        };
        if self.attempt < policy.max_retries {
            Decision::Retry(RequestState { attempt: self.attempt + 1, retry_after_secs: header_secs })
        } else {
            Decision::Fail(error)
        }
    }
}

} // verus!
