//! Error kinds produced by the fetch engine.
//!
//! Per-request failures are always recovered into a failure outcome and never
//! abort a batch. A request is finalized as a failure only once its retry
//! budget is consumed, so every finalized fetch failure is `Exhausted`,
//! wrapping the error of the last attempt. Decode failures are produced by
//! the text and JSON facades and are never retried.

use vstd::prelude::*;

verus! {

/// An error attached to a finalized fetch outcome.
#[derive(Debug)]
pub enum FetchError {
    /// A connection-level failure, with a human-readable description.
    TransportError(String),
    /// A response arrived but its status did not indicate success.
    HttpStatusError(u16),
    /// The body of a successful fetch could not be decoded.
    DecodeError(String),
    /// The retry budget is consumed; wraps the error of the last attempt.
    Exhausted(Box<FetchError>),
}

impl FetchError {
    /// An error that a single fetch attempt can produce: one the retry
    /// policy is consulted about. Decode failures are never retried, and
    /// `Exhausted` is only ever produced by the engine itself.
    pub open spec fn is_attempt_error(&self) -> bool {
        self matches FetchError::TransportError(_) || self matches FetchError::HttpStatusError(_)
    }

    /// The human-readable description of this error.
    pub open spec fn spec_describe(&self) -> Seq<char>
        decreases self,
    {
        match self {
            FetchError::TransportError(d) => d@,
            FetchError::HttpStatusError(status) => "HTTP status "@ + crate::numeral::dec_str(
                *status as nat,
            ),
            FetchError::DecodeError(d) => "decode error: "@ + d@,
            FetchError::Exhausted(last) => "retries exhausted: "@ + last.spec_describe(),
        }
    }

    /// Renders the human-readable description of this error.
    pub fn describe(&self) -> (r: String)
        ensures
            r@ == self.spec_describe(),
        decreases self,
    {
        match self {
            FetchError::TransportError(d) => d.clone(),
            FetchError::HttpStatusError(status) => {
                let mut line = String::from_str("HTTP status ");
                let digits = crate::numeral::u64_to_string(*status as u64);
                line.append(digits.as_str());
                line
            },
            FetchError::DecodeError(d) => {
                let mut line = String::from_str("decode error: ");
                line.append(d.as_str());
                line
            },
            FetchError::Exhausted(last) => {
                let mut line = String::from_str("retries exhausted: ");
                let rest = last.describe();
                line.append(rest.as_str());
                line
            },
        }
    }
}

/// A failure description that callers can carry around and render.
#[derive(Debug)]
pub struct DisplayableError(pub String);

impl DisplayableError {
    /// The text of the wrapped description.
    pub fn message(&self) -> (r: &str)
        ensures
            r@ == self.0@,
    {
        self.0.as_str()
    }
}

impl From<String> for DisplayableError {
    fn from(error: String) -> (r: DisplayableError) {
        DisplayableError(error)
    }
}

impl vstd::std_specs::convert::FromSpecImpl<String> for DisplayableError {
    open spec fn obeys_from_spec() -> bool {
        true
    }

    open spec fn from_spec(v: String) -> DisplayableError {
        DisplayableError(v)
    }
}

} // verus!
