//! Provider errors: classification of HTTP failures, context-overflow
//! detection and retry decisions.
use vstd::prelude::*;
use std::time::Duration;
use crate::strs::{chars_of, contains_chars, has_substring, push_decimal, push_str, to_owned_string, decimal};
use crate::context::skills::scalars::{is_ws, char_is_ws};

verus! {

broadcast use vstd::string::group_string_axioms;

/// What went wrong in a provider call.
#[derive(Debug)]
pub enum ProviderError {
    /// A non-transient API error (bad request, server error, ...).
    Api(String),
    /// A network or transport failure.
    Network(String),
    /// Authentication failed (HTTP 401/403).
    Auth(String),
    /// Rate limited (HTTP 429), with the delay the server asked for, if any.
    RateLimited { retry_after_ms: Option<u64> },
    /// The input exceeds the model's context window.
    ContextOverflow { message: String },
    /// The caller cancelled the request.
    Cancelled,
    /// Anything else.
    Other(String),
}

/// The lower-case form of `s`, as `str::to_lowercase` computes it.
pub uninterp spec fn lowercase_chars(s: Seq<char>) -> Seq<char>;

/// `str::to_lowercase`.
#[verifier::external_body]
fn to_lowercase(s: &str) -> (r: String)
    ensures
        r@ == lowercase_chars(s@),
{
    s.to_lowercase()
}

/// The duration of `ms` milliseconds, as `Duration::from_millis` builds it.
pub uninterp spec fn duration_of_millis(ms: u64) -> Duration;

/// `Duration::from_millis`.
#[verifier::external_body]
fn duration_from_millis(ms: u64) -> (d: Duration)
    ensures
        d == duration_of_millis(ms),
{
    Duration::from_millis(ms)
}

/// The phrases by which providers report that the input exceeds the context
/// window, in lower case.
pub open spec fn overflow_phrases() -> Seq<Seq<char>> {
    seq![
        "prompt is too long"@,
        "input is too long"@,
        "exceeds the context window"@,
        "exceeds the maximum"@,
        "maximum prompt length"@,
        "reduce the length of the messages"@,
        "maximum context length"@,
        "exceeds the limit of"@,
        "exceeds the available context size"@,
        "greater than the context length"@,
        "context window exceeds limit"@,
        "exceeded model token limit"@,
        "context length exceeded"@,
        "context_length_exceeded"@,
        "too many tokens"@,
        "token limit exceeded"@,
    ]
}

/// `lower` contains one of the overflow phrases.
pub open spec fn mentions_overflow(lower: Seq<char>) -> bool {
    exists|i: int| 0 <= i < overflow_phrases().len() && has_substring(lower, #[trigger] overflow_phrases()[i])
}

/// The message reports a context overflow, ignoring case.
pub open spec fn is_overflow_message(message: Seq<char>) -> bool {
    mentions_overflow(lowercase_chars(message))
}

/// Every character of `s` is whitespace.
pub open spec fn is_blank(s: Seq<char>) -> bool {
    forall|i: int| 0 <= i < s.len() ==> #[trigger] is_ws(s[i])
}

/// An HTTP error response that reports a context overflow: a 400 or 413 with a
/// blank body, or a body that names an overflow.
pub open spec fn is_overflow_response(status: u16, message: Seq<char>) -> bool {
    ((status == 400 || status == 413) && is_blank(message)) || is_overflow_message(message)
}

/// Whether the lower-cased text `lower` contains one of the overflow phrases.
pub fn mentions_overflow_phrase(lower: &str) -> (r: bool)
    ensures
        r == mentions_overflow(lower@),
{
    let phrases: Vec<&str> = vec![
        "prompt is too long",
        "input is too long",
        "exceeds the context window",
        "exceeds the maximum",
        "maximum prompt length",
        "reduce the length of the messages",
        "maximum context length",
        "exceeds the limit of",
        "exceeds the available context size",
        "greater than the context length",
        "context window exceeds limit",
        "exceeded model token limit",
        "context length exceeded",
        "context_length_exceeded",
        "too many tokens",
        "token limit exceeded",
    ];
    proof {
        assert(phrases@.map_values(|p: &str| p@) =~= overflow_phrases());
    }
    let text = chars_of(lower);
    let mut i: usize = 0;
    while i < phrases.len()
        invariant
            0 <= i <= phrases.len(),
            phrases.len() == overflow_phrases().len(),
            text@ == lower@,
            forall|j: int| 0 <= j < phrases.len() ==> (#[trigger] phrases@[j])@ == overflow_phrases()[j],
            forall|j: int| 0 <= j < i ==> !has_substring(lower@, #[trigger] overflow_phrases()[j]),
        decreases phrases.len() - i,
    {
        let p = chars_of(phrases[i]);
        assert(p@ == overflow_phrases()[i as int]);
        if contains_chars(&text, &p) {
            return true;
        }
        i = i + 1;
    }
    false
}

/// Whether the message reports that the input exceeds the context window,
/// ignoring case.
pub fn is_context_overflow_message(message: &str) -> (r: bool)
    ensures
        r == is_overflow_message(message@),
{
    let lower = to_lowercase(message);
    mentions_overflow_phrase(lower.as_str())
}

/// Whether every character of `s` is whitespace.
fn is_blank_str(s: &str) -> (r: bool)
    ensures
        r == is_blank(s@),
{
    let v = chars_of(s);
    let mut i: usize = 0;
    while i < v.len()
        invariant
            0 <= i <= v.len(),
            v@ == s@,
            forall|j: int| 0 <= j < i ==> #[trigger] is_ws(v@[j]),
        decreases v.len() - i,
    {
        if !char_is_ws(v[i]) {
            assert(!is_ws(s@[i as int]));
            return false;
        }
        i = i + 1;
    }
    true
}

/// Whether an HTTP error response reports a context overflow.
pub fn is_context_overflow(status: u16, message: &str) -> (r: bool)
    ensures
        r == is_overflow_response(status, message@),
{
    if (status == 400 || status == 413) && is_blank_str(message) {
        return true;
    }
    is_context_overflow_message(message)
}

impl ProviderError {
    /// Classifies an HTTP error response: context overflow first, then rate
    /// limiting (429), then authentication (401, 403), else a general API error.
    pub fn classify(status: u16, message: &str) -> (r: ProviderError)
        ensures
            is_overflow_response(status, message@) ==> (r matches ProviderError::ContextOverflow { message: m } && m@ == message@),
            !is_overflow_response(status, message@) && status == 429 ==> r == (ProviderError::RateLimited { retry_after_ms: None }),
            !is_overflow_response(status, message@) && (status == 401 || status == 403) ==> (r matches ProviderError::Auth(m) && m@ == message@),
            !is_overflow_response(status, message@) && status != 429 && status != 401 && status != 403 ==> (r matches ProviderError::Api(m) && m@ == message@),
    {
        if is_context_overflow(status, message) {
            ProviderError::ContextOverflow { message: to_owned_string(message) }
        } else if status == 429 {
            ProviderError::RateLimited { retry_after_ms: None }
        } else if status == 401 || status == 403 {
            ProviderError::Auth(to_owned_string(message))
        } else {
            ProviderError::Api(to_owned_string(message))
        }
    }

    /// Whether this error reports a context overflow.
    pub fn is_context_overflow(&self) -> (r: bool)
        ensures
            r == (self is ContextOverflow),
    {
        match self {
            ProviderError::ContextOverflow { .. } => true,
            _ => false,
        }
    }

    /// Whether retrying may succeed: rate limits and network failures.
    pub fn is_retryable(&self) -> (r: bool)
        ensures
            r == (self is RateLimited || self is Network),
    {
        match self {
            ProviderError::RateLimited { .. } | ProviderError::Network(_) => true,
            _ => false,
        }
    }

    /// The delay the server asked for before a retry, if this is a rate limit that names one.
    pub fn retry_after(&self) -> (r: Option<Duration>)
        ensures
            match *self {
                ProviderError::RateLimited { retry_after_ms: Some(ms) } => r == Some(duration_of_millis(ms)),
                _ => r is None,
            },
    {
        match self {
            ProviderError::RateLimited { retry_after_ms: Some(ms) } => Some(duration_from_millis(*ms)),
            _ => None,
        }
    }

    /// The message of this error, as it is displayed.
    pub fn to_string(&self) -> (r: String)
        ensures
            r@ == error_text(*self),
    {
        let mut out = String::new();
        match self {
            ProviderError::Api(m) => {
                push_str(&mut out, "API error: ");
                push_str(&mut out, m.as_str());
            },
            ProviderError::Network(m) => {
                push_str(&mut out, "Network error: ");
                push_str(&mut out, m.as_str());
            },
            ProviderError::Auth(m) => {
                push_str(&mut out, "Auth error: ");
                push_str(&mut out, m.as_str());
            },
            ProviderError::RateLimited { retry_after_ms } => {
                push_str(&mut out, "Rate limited, retry after ");
                match retry_after_ms {
                    Some(ms) => {
                        push_str(&mut out, "Some(");
                        push_decimal(&mut out, *ms);
                        push_str(&mut out, ")");
                    },
                    None => {
                        push_str(&mut out, "None");
                    },
                }
                push_str(&mut out, "ms");
            },
            ProviderError::ContextOverflow { message } => {
                push_str(&mut out, "Context overflow: ");
                push_str(&mut out, message.as_str());
            },
            ProviderError::Cancelled => {
                push_str(&mut out, "Cancelled");
            },
            ProviderError::Other(m) => {
                push_str(&mut out, m.as_str());
            },
        }
        out
    }
}

/// The displayed message of an error.
pub open spec fn error_text(e: ProviderError) -> Seq<char> {
    match e {
        ProviderError::Api(m) => "API error: "@ + m@,
        ProviderError::Network(m) => "Network error: "@ + m@,
        ProviderError::Auth(m) => "Auth error: "@ + m@,
        ProviderError::RateLimited { retry_after_ms } => "Rate limited, retry after "@ + match retry_after_ms {
            Some(ms) => "Some("@ + decimal(ms as nat) + ")"@,
            None => "None"@,
        } + "ms"@,
        ProviderError::ContextOverflow { message } => "Context overflow: "@ + message@,
        ProviderError::Cancelled => "Cancelled"@,
        ProviderError::Other(m) => m@,
    }
}

/// A lower-cased text reports a context overflow exactly when it contains one of
/// the phrases providers use for it: "prompt is too long", "input is too long",
/// "exceeds the context window", "exceeds the maximum", "maximum prompt length",
/// "reduce the length of the messages", "maximum context length", "exceeds the
/// limit of", "exceeds the available context size", "greater than the context
/// length", "context window exceeds limit", "exceeded model token limit",
/// "context length exceeded", "context_length_exceeded", "too many tokens" or
/// "token limit exceeded". A message is classified as an overflow, whatever its
/// status, when its lower-cased form contains one of them.
pub proof fn law_overflow_phrases(lower: Seq<char>, status: u16, message: Seq<char>)
    ensures
        mentions_overflow(lower) <==> {
            ||| has_substring(lower, "prompt is too long"@)
            ||| has_substring(lower, "input is too long"@)
            ||| has_substring(lower, "exceeds the context window"@)
            ||| has_substring(lower, "exceeds the maximum"@)
            ||| has_substring(lower, "maximum prompt length"@)
            ||| has_substring(lower, "reduce the length of the messages"@)
            ||| has_substring(lower, "maximum context length"@)
            ||| has_substring(lower, "exceeds the limit of"@)
            ||| has_substring(lower, "exceeds the available context size"@)
            ||| has_substring(lower, "greater than the context length"@)
            ||| has_substring(lower, "context window exceeds limit"@)
            ||| has_substring(lower, "exceeded model token limit"@)
            ||| has_substring(lower, "context length exceeded"@)
            ||| has_substring(lower, "context_length_exceeded"@)
            ||| has_substring(lower, "too many tokens"@)
            ||| has_substring(lower, "token limit exceeded"@)
        },
        mentions_overflow(lowercase_chars(message)) ==> is_overflow_message(message) && is_overflow_response(status, message),
{
    assert(overflow_phrases()[0] == "prompt is too long"@);
    assert(overflow_phrases()[1] == "input is too long"@);
    assert(overflow_phrases()[2] == "exceeds the context window"@);
    assert(overflow_phrases()[3] == "exceeds the maximum"@);
    assert(overflow_phrases()[4] == "maximum prompt length"@);
    assert(overflow_phrases()[5] == "reduce the length of the messages"@);
    assert(overflow_phrases()[6] == "maximum context length"@);
    assert(overflow_phrases()[7] == "exceeds the limit of"@);
    assert(overflow_phrases()[8] == "exceeds the available context size"@);
    assert(overflow_phrases()[9] == "greater than the context length"@);
    assert(overflow_phrases()[10] == "context window exceeds limit"@);
    assert(overflow_phrases()[11] == "exceeded model token limit"@);
    assert(overflow_phrases()[12] == "context length exceeded"@);
    assert(overflow_phrases()[13] == "context_length_exceeded"@);
    assert(overflow_phrases()[14] == "too many tokens"@);
    assert(overflow_phrases()[15] == "token limit exceeded"@);
    assert(overflow_phrases().len() == 16);
}

} // verus!
