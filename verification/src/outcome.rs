//! The response normalizer: a completed transport outcome becomes either the
//! response body text or a classified error.
//!
//! The body text is returned verbatim whatever the HTTP status code was; only
//! transport-level failures count as errors, classified three ways — could
//! not connect, timed out, anything else.
use vstd::prelude::*;

use crate::errors::RequestError;

verus! {

/// How a transport-level failure is classified.
#[derive(Clone, Copy, Debug, PartialEq, Eq, Structural)]
pub enum FailureKind {
    /// The connection could not be established.
    Connect,
    /// The fixed per-request deadline passed.
    Timeout,
    /// Any other transport-level failure.
    Other,
}

/// What came back from one attempt to send a request end-to-end: the response
/// body text, or a transport-level failure.
#[derive(Debug)]
pub enum TransportOutcome {
    Success(String),
    Failure(FailureKind),
}

/// The normalized result of a transport outcome: the body text verbatim on
/// success, the matching classified error on failure.
pub open spec fn normalize_model(o: TransportOutcome) -> Result<Seq<char>, RequestError> {
    match o {
        TransportOutcome::Success(t) => Ok(t@),
        TransportOutcome::Failure(FailureKind::Connect) => Err(RequestError::NetworkUnreachable),
        TransportOutcome::Failure(FailureKind::Timeout) => Err(RequestError::TimedOut),
        TransportOutcome::Failure(FailureKind::Other) => Err(RequestError::OtherFailure),
    }
}

/// Converts a transport outcome into the response body text or the
/// classified error; status codes are never treated as failures.
pub fn normalize(o: TransportOutcome) -> (r: Result<String, RequestError>)
    ensures
        match r {
            Ok(t) => normalize_model(o) == Ok::<Seq<char>, RequestError>(t@),
            Err(e) => normalize_model(o) == Err::<Seq<char>, RequestError>(e),
        },
{
    match o {
        TransportOutcome::Success(t) => Ok(t),
        TransportOutcome::Failure(FailureKind::Connect) => Err(RequestError::NetworkUnreachable),
        TransportOutcome::Failure(FailureKind::Timeout) => Err(RequestError::TimedOut),
        TransportOutcome::Failure(FailureKind::Other) => Err(RequestError::OtherFailure),
    }
}

} // verus!
