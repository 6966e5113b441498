//! Fetching a page over HTTP: what a response means, and when to try again.
//!
//! The network itself is driven by the caller. This module decides, from what
//! came back, whether a response is usable HTML, whether a failed attempt is
//! worth repeating, and how long to wait before the next one.

use vstd::prelude::*;

use crate::text::{contains, contains_str, decimal, occurs_at, push_decimal, push_str};

verus! {

/// A page that was fetched: the URL it was finally fetched from (normalised,
/// after redirects) and its HTML text.
#[derive(Debug)]
pub struct FetchResult {
    pub url: String,
    pub html: String,
}

/// Why a fetch failed.
#[derive(Debug)]
pub enum FetchError {
    /// The request could not be sent or its body could not be read.
    Network(String),
    /// The server answered with an error status and its reason phrase.
    HttpStatus(u16, String),
    /// The server answered with something other than HTML; holds the
    /// `Content-Type` it gave.
    NotHtml(String),
    /// The request took too long.
    Timeout,
}

/// A `FetchError` with its strings taken by their views.
pub enum FetchErrorView {
    Network(Seq<char>),
    HttpStatus(u16, Seq<char>),
    NotHtml(Seq<char>),
    Timeout,
}

impl View for FetchError {
    type V = FetchErrorView;

    open spec fn view(&self) -> FetchErrorView {
        match self {
            FetchError::Network(m) => FetchErrorView::Network(m@),
            FetchError::HttpStatus(c, m) => FetchErrorView::HttpStatus(*c, m@),
            FetchError::NotHtml(t) => FetchErrorView::NotHtml(t@),
            FetchError::Timeout => FetchErrorView::Timeout,
        }
    }
}

/// How many attempts a fetch makes at most.
pub const MAX_RETRIES: u32 = 3;

/// The wait before the first retry, in seconds; each later wait doubles.
pub const BACKOFF_BASE: u64 = 1;

// ── specifications ──────────────────────────────────────────────────────────

/// The message a fetch error is shown with.
pub open spec fn fetch_error_message(e: FetchErrorView) -> Seq<char> {
    match e {
        FetchErrorView::Network(m) => "network error: "@ + m,
        FetchErrorView::HttpStatus(c, m) => "HTTP "@ + decimal(c as nat) + ": "@ + m,
        FetchErrorView::NotHtml(t) => "not HTML (Content-Type: "@ + t + ")"@,
        FetchErrorView::Timeout => "request timed out"@,
    }
}

/// Timeouts, network failures and server errors (5xx) may go away on a
/// second try; client errors and non-HTML answers will not.
pub open spec fn retryable(e: FetchErrorView) -> bool {
    match e {
        FetchErrorView::Timeout => true,
        FetchErrorView::Network(_) => true,
        FetchErrorView::HttpStatus(c, _) => c >= 500,
        FetchErrorView::NotHtml(_) => false,
    }
}

/// The wait before attempt number `attempt` (counting from zero; the first
/// attempt has no wait): `BACKOFF_BASE`, then twice as long each time.
pub open spec fn backoff_secs(attempt: nat) -> nat
    decreases attempt,
{
    if attempt <= 1 {
        BACKOFF_BASE as nat
    } else {
        2 * backoff_secs((attempt - 1) as nat)
    }
}

/// A `Content-Type` that announces HTML or XHTML.
pub open spec fn is_html_content_type(t: Seq<char>) -> bool {
    contains(t, "text/html"@) || contains(t, "application/xhtml+xml"@)
}

/// The reason phrase of an error status, or `Unknown` when the status has
/// none.
pub open spec fn reason_or_unknown(reason: Option<Seq<char>>) -> Seq<char> {
    match reason {
        Some(r) => r,
        None => "Unknown"@,
    }
}

/// What a response with this status, reason phrase and `Content-Type` means:
/// `None` when its body is to be read as the page, or the error it is.
pub open spec fn response_error(status: u16, reason: Option<Seq<char>>, content_type: Seq<char>) -> Option<
    FetchErrorView,
> {
    if status >= 400 {
        Some(FetchErrorView::HttpStatus(status, reason_or_unknown(reason)))
    } else if !is_html_content_type(content_type) {
        Some(FetchErrorView::NotHtml(content_type))
    } else {
        None
    }
}

/// The view of an optional string.
pub open spec fn opt_string_view(s: Option<String>) -> Option<Seq<char>> {
    match s {
        Some(t) => Some(t@),
        None => None,
    }
}

/// The standard reason phrase that the `http` crate gives a status code.
pub uninterp spec fn canonical_reason(code: u16) -> Option<Seq<char>>;

/// `StatusCode::from_u16` followed by `StatusCode::canonical_reason` (the
/// `http` crate, through `reqwest`): the standard reason phrase of a status
/// code, named `canonical_reason`; there is none for a code outside 100..=999,
/// which `from_u16` refuses.
#[verifier::external_body]
fn reason_phrase(code: u16) -> (r: Option<String>)
    ensures
        opt_string_view(r) == canonical_reason(code),
        !(100 <= code <= 999) ==> r is None,
{
    match reqwest::StatusCode::from_u16(code) {
        Ok(status) => match status.canonical_reason() {
            Some(phrase) => Some(phrase.to_string()),
            None => None,
        },
        Err(_) => None,
    }
}

// ── errors ──────────────────────────────────────────────────────────────────

impl FetchError {
    /// The message this error is shown with.
    pub fn message(&self) -> (m: String)
        ensures
            m@ == fetch_error_message(self@),
    {
        let mut m = String::new();
        match self {
            FetchError::Network(msg) => {
                push_str(&mut m, "network error: ");
                push_str(&mut m, msg.as_str());
            },
            FetchError::HttpStatus(code, msg) => {
                push_str(&mut m, "HTTP ");
                push_decimal(&mut m, *code as u64);
                push_str(&mut m, ": ");
                push_str(&mut m, msg.as_str());
            },
            FetchError::NotHtml(ct) => {
                push_str(&mut m, "not HTML (Content-Type: ");
                push_str(&mut m, ct.as_str());
                push_str(&mut m, ")");
            },
            FetchError::Timeout => {
                push_str(&mut m, "request timed out");
            },
        }
        m
    }
}

/// Whether `err` is worth another attempt.
pub fn is_retryable(err: &FetchError) -> (b: bool)
    ensures
        b == retryable(err@),
        err matches FetchError::HttpStatus(code, _) ==> (b <==> *code >= 500),
        err is NotHtml ==> !b,
        err is Timeout || err is Network ==> b,
{
    match err {
        FetchError::Timeout => true,
        FetchError::Network(_) => true,
        FetchError::HttpStatus(code, _) => *code >= 500,
        FetchError::NotHtml(_) => false,
    }
}

/// The error for a request that could not be sent: a timeout, or a network
/// error with the client's message.
pub fn send_failure(timed_out: bool, message: String) -> (e: FetchError)
    ensures
        timed_out ==> e@ == FetchErrorView::Timeout,
        !timed_out ==> e@ == FetchErrorView::Network(message@),
{
    if timed_out {
        FetchError::Timeout
    } else {
        FetchError::Network(message)
    }
}

/// Which failures are retried: every server error (status 500 and up, 5xx
/// and beyond), a timeout and a network failure; never a status below 500
/// or an answer that is not HTML.
pub proof fn lemma_retry_classes(code: u16, message: Seq<char>, content_type: Seq<char>)
    ensures
        code >= 500 ==> retryable(FetchErrorView::HttpStatus(code, message)),
        code < 500 ==> !retryable(FetchErrorView::HttpStatus(code, message)),
        !retryable(FetchErrorView::NotHtml(content_type)),
        retryable(FetchErrorView::Timeout),
        retryable(FetchErrorView::Network(message)),
{
}

/// A `Content-Type` is taken for HTML exactly when it holds `text/html` or
/// `application/xhtml+xml`; so one that does not even hold `html` (such as
/// `application/xml` or `application/rss+xml`) is never taken for HTML.
pub proof fn lemma_html_content_type_names_html(t: Seq<char>)
    ensures
        is_html_content_type(t) <==> contains(t, "text/html"@) || contains(
            t,
            "application/xhtml+xml"@,
        ),
        is_html_content_type(t) ==> contains(t, "html"@),
        !contains(t, "html"@) ==> !is_html_content_type(t),
{
    reveal_strlit("text/html");
    reveal_strlit("application/xhtml+xml");
    reveal_strlit("html");
    if contains(t, "text/html"@) {
        let i = choose|i: int| occurs_at(t, "text/html"@, i);
        assert(t.subrange(i + 5, i + 9) =~= "text/html"@.subrange(5, 9));
        assert("text/html"@.subrange(5, 9) =~= "html"@);
        assert(occurs_at(t, "html"@, i + 5));
    } else if contains(t, "application/xhtml+xml"@) {
        let i = choose|i: int| occurs_at(t, "application/xhtml+xml"@, i);
        assert(t.subrange(i + 13, i + 17) =~= "application/xhtml+xml"@.subrange(13, 17));
        assert("application/xhtml+xml"@.subrange(13, 17) =~= "html"@);
        assert(occurs_at(t, "html"@, i + 13));
    }
}

/// A response below 400 is read as the page exactly when its `Content-Type`
/// holds `text/html` or `application/xhtml+xml`, and is refused as not HTML,
/// with that `Content-Type`, otherwise; a status of 400 and up is refused
/// with that status whatever the `Content-Type`.
pub proof fn lemma_response_needs_html(status: u16, reason: Option<Seq<char>>, t: Seq<char>)
    ensures
        status < 400 ==> (response_error(status, reason, t) is None <==> (contains(t, "text/html"@)
            || contains(t, "application/xhtml+xml"@))),
        status < 400 && !contains(t, "html"@) ==> response_error(status, reason, t) == Some(
            FetchErrorView::NotHtml(t),
        ),
        status >= 400 ==> (response_error(status, reason, t) matches Some(
            FetchErrorView::HttpStatus(c, _),
        ) && c == status),
{
    lemma_html_content_type_names_html(t);
}

// ── responses ───────────────────────────────────────────────────────────────

/// Whether `content_type` announces HTML or XHTML.
pub fn html_content_type(content_type: &str) -> (b: bool)
    ensures
        b == is_html_content_type(content_type@),
        b <==> contains(content_type@, "text/html"@) || contains(
            content_type@,
            "application/xhtml+xml"@,
        ),
        b ==> contains(content_type@, "html"@),
{
    proof {
        lemma_html_content_type_names_html(content_type@);
    }
    contains_str(content_type, "text/html") || contains_str(content_type, "application/xhtml+xml")
}

/// Judges a response by its status, the reason phrase of that status and its
/// `Content-Type` (empty when absent): an error status (400 and up) fails with
/// the reason phrase (`Unknown` when there is none), a response that is not
/// HTML fails with its `Content-Type`, and anything else is a page.
pub fn classify_response(status: u16, reason: Option<String>, content_type: &str) -> (r: Result<
    (),
    FetchError,
>)
    ensures
        match r {
            Ok(()) => response_error(status, opt_string_view(reason), content_type@) is None,
            Err(e) => response_error(status, opt_string_view(reason), content_type@) == Some(e@),
        },
{
    if status >= 400 {
        let msg = match reason {
            Some(p) => p,
            None => {
                let mut u = String::new();
                push_str(&mut u, "Unknown");
                u
            },
        };
        return Err(FetchError::HttpStatus(status, msg));
    }
    if !html_content_type(content_type) {
        let mut t = String::new();
        push_str(&mut t, content_type);
        return Err(FetchError::NotHtml(t));
    }
    Ok(())
}

/// Judges a response by its status and `Content-Type` (empty when absent),
/// with the standard reason phrase of the status.
pub fn check_response(status: u16, content_type: &str) -> (r: Result<(), FetchError>)
    ensures
        match r {
            Ok(()) => response_error(status, canonical_reason(status), content_type@) is None,
            Err(e) => response_error(status, canonical_reason(status), content_type@) == Some(e@),
        },
{
    let reason = if status >= 400 {
        reason_phrase(status)
    } else {
        None
    };
    classify_response(status, reason, content_type)
}

// ── retrying ────────────────────────────────────────────────────────────────

/// What to do once an attempt has come back.
#[derive(Debug)]
pub enum RetryStep {
    /// Stop and hand this result to the caller.
    Finish(Result<FetchResult, FetchError>),
    /// Announce the retry, wait `delay_secs` seconds, and make the next
    /// attempt.
    Wait { delay_secs: u64, announcement: String },
}

/// The decision after an attempt, with the notice to show for a failure that
/// is worth retrying.
#[derive(Debug)]
pub struct AttemptVerdict {
    pub failure_notice: Option<String>,
    pub step: RetryStep,
}

/// The attempt numbered `attempt` (from zero) ends the fetch: it succeeded,
/// failed for good, or was the last one allowed.
pub open spec fn finishes(attempt: nat, outcome: Result<FetchResult, FetchError>) -> bool {
    match outcome {
        Ok(_) => true,
        Err(e) => !retryable(e@) || attempt + 1 >= MAX_RETRIES,
    }
}

/// The notice shown when attempt `attempt` (from zero) fails in a way worth
/// retrying.
pub open spec fn failure_notice(attempt: nat, e: FetchErrorView) -> Seq<char> {
    "  attempt "@ + decimal(attempt + 1) + ": "@ + fetch_error_message(e)
}

/// The announcement shown before attempt `next` (from zero) is made.
pub open spec fn retry_announcement(next: nat) -> Seq<char> {
    "  retry "@ + decimal(next) + "/"@ + decimal((MAX_RETRIES - 1) as nat) + " in "@ + decimal(
        backoff_secs(next),
    ) + "s..."@
}

/// How many attempts a fetch makes from attempt `attempt` on, when the
/// attempts come back with `outcomes`.
pub open spec fn attempts_made(outcomes: Seq<Result<FetchResult, FetchError>>, attempt: nat) -> nat
    decreases MAX_RETRIES - attempt,
{
    if attempt + 1 >= MAX_RETRIES || finishes(attempt, outcomes[attempt as int]) {
        attempt + 1
    } else {
        attempts_made(outcomes, attempt + 1)
    }
}

/// How many seconds a fetch waits from attempt `attempt` on, when the
/// attempts come back with `outcomes`.
pub open spec fn seconds_waited(outcomes: Seq<Result<FetchResult, FetchError>>, attempt: nat) -> nat
    decreases MAX_RETRIES - attempt,
{
    if attempt + 1 >= MAX_RETRIES || finishes(attempt, outcomes[attempt as int]) {
        0
    } else {
        backoff_secs(attempt + 1) + seconds_waited(outcomes, attempt + 1)
    }
}

/// The backoff doubles: the first retry waits `BACKOFF_BASE` seconds and each
/// later one twice as long as the one before, so retry `n` (from one) waits
/// `BACKOFF_BASE * 2^(n-1)` seconds.
pub proof fn lemma_backoff_doubles(n: nat)
    ensures
        backoff_secs(1) == BACKOFF_BASE,
        n >= 1 ==> backoff_secs(n + 1) == 2 * backoff_secs(n),
        n >= 1 ==> backoff_secs(n) == BACKOFF_BASE * vstd::arithmetic::power2::pow2((n - 1) as nat),
    decreases n,
{
    vstd::arithmetic::power2::lemma2_to64();
    if n > 1 {
        lemma_backoff_doubles((n - 1) as nat);
        vstd::arithmetic::power2::lemma_pow2_unfold((n - 1) as nat);
    }
}

/// The wait before attempt `next` (from zero), in seconds.
pub fn backoff_delay(next: u32) -> (d: u64)
    requires
        1 <= next < MAX_RETRIES,
    ensures
        d == backoff_secs(next as nat),
{
    let mut d: u64 = BACKOFF_BASE;
    let mut k: u32 = 1;
    while k < next
        invariant
            1 <= k <= next < MAX_RETRIES,
            d == backoff_secs(k as nat),
            d <= 4,
        decreases next - k,
    {
        d = d * 2;
        k = k + 1;
    }
    d
}

/// Decides what follows attempt `attempt` (from zero) once it has come back
/// with `outcome`: a success or an error that will not go away ends the fetch
/// with it; an error worth retrying is reported, and ends the fetch when it
/// came from the last attempt allowed, or else leads to a wait of
/// `backoff_secs` before the next attempt.
pub fn after_attempt(attempt: u32, outcome: Result<FetchResult, FetchError>) -> (v: AttemptVerdict)
    requires
        attempt < MAX_RETRIES,
    ensures
        finishes(attempt as nat, outcome) <==> v.step is Finish,
        v.step matches RetryStep::Finish(r) ==> r == outcome,
        v.step matches RetryStep::Wait { delay_secs, announcement } ==> {
            &&& delay_secs == backoff_secs((attempt + 1) as nat)
            &&& announcement@ == retry_announcement((attempt + 1) as nat)
        },
        match outcome {
            Err(e) => retryable(e@) <==> (v.failure_notice matches Some(n) && n@ == failure_notice(
                attempt as nat,
                e@,
            )),
            Ok(_) => v.failure_notice is None,
        },
        outcome matches Err(e) && !retryable(e@) ==> v.failure_notice is None,
{
    match outcome {
        Ok(page) => AttemptVerdict { failure_notice: None, step: RetryStep::Finish(Ok(page)) },
        Err(e) => {
            if !is_retryable(&e) {
                return AttemptVerdict { failure_notice: None, step: RetryStep::Finish(Err(e)) };
            }
            let mut notice = String::new();
            push_str(&mut notice, "  attempt ");
            push_decimal(&mut notice, attempt as u64 + 1);
            push_str(&mut notice, ": ");
            let msg = e.message();
            push_str(&mut notice, msg.as_str());
            if attempt + 1 >= MAX_RETRIES {
                return AttemptVerdict {
                    failure_notice: Some(notice),
                    step: RetryStep::Finish(Err(e)),
                };
            }
            let next: u32 = attempt + 1;
            let delay = backoff_delay(next);
            let mut announcement = String::new();
            push_str(&mut announcement, "  retry ");
            push_decimal(&mut announcement, next as u64);
            push_str(&mut announcement, "/");
            push_decimal(&mut announcement, (MAX_RETRIES - 1) as u64);
            push_str(&mut announcement, " in ");
            push_decimal(&mut announcement, delay);
            push_str(&mut announcement, "s...");
            AttemptVerdict {
                failure_notice: Some(notice),
                step: RetryStep::Wait { delay_secs: delay, announcement },
            }
        },
    }
}

/// The retry law of a fetch. Whatever the attempts come back with, a fetch
/// makes between one and `MAX_RETRIES` attempts; every attempt before the
/// last one failed in a way worth retrying; the last one succeeded or failed
/// for good unless it was the last one allowed; and the waits between the
/// attempts add up to one second less than the wait that would precede the
/// next attempt (0, 1, then 3 seconds in all).
pub proof fn lemma_fetch_retries(outcomes: Seq<Result<FetchResult, FetchError>>)
    requires
        outcomes.len() >= MAX_RETRIES,
    ensures
        1 <= attempts_made(outcomes, 0) <= MAX_RETRIES,
        forall|k: int|
            0 <= k < attempts_made(outcomes, 0) - 1 ==> !finishes(k as nat, #[trigger] outcomes[k]),
        forall|k: int|
            0 <= k < attempts_made(outcomes, 0) - 1 ==> (#[trigger] outcomes[k] matches Err(e)
                && retryable(e@)),
        attempts_made(outcomes, 0) < MAX_RETRIES ==> finishes(
            (attempts_made(outcomes, 0) - 1) as nat,
            outcomes[attempts_made(outcomes, 0) - 1],
        ),
        seconds_waited(outcomes, 0) + 1 == backoff_secs(attempts_made(outcomes, 0)),
{
    lemma_fetch_retries_from(outcomes, 2);
    lemma_fetch_retries_from(outcomes, 1);
    lemma_fetch_retries_from(outcomes, 0);
}

/// The retry law from attempt `a` on.
proof fn lemma_fetch_retries_from(outcomes: Seq<Result<FetchResult, FetchError>>, a: nat)
    requires
        outcomes.len() >= MAX_RETRIES,
        a < MAX_RETRIES,
    ensures
        a + 1 <= attempts_made(outcomes, a) <= MAX_RETRIES,
        forall|k: int|
            a <= k < attempts_made(outcomes, a) - 1 ==> !finishes(k as nat, #[trigger] outcomes[k]),
        attempts_made(outcomes, a) < MAX_RETRIES ==> finishes(
            (attempts_made(outcomes, a) - 1) as nat,
            outcomes[attempts_made(outcomes, a) - 1],
        ),
        seconds_waited(outcomes, a) + backoff_secs(a + 1) == backoff_secs(attempts_made(outcomes, a)),
    decreases MAX_RETRIES - a,
{
    if !(a + 1 >= MAX_RETRIES || finishes(a, outcomes[a as int])) {
        lemma_fetch_retries_from(outcomes, a + 1);
    }
}

} // verus!
