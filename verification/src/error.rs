use vstd::prelude::*;

verus! {

/// The kinds of failure that the dispatch engine surfaces as HTTP responses.
#[derive(Clone, Copy, Debug, PartialEq, Eq, Structural)]
pub enum ProxyError {
    /// Malformed request: a required field was missing, for instance the host
    /// while a host pattern was being evaluated.
    BadRequest,
    /// A filter implementation failed.
    FilterFailure,
    /// A middleware step needed a body but none was supplied.
    BodyRequired,
    /// The request body exceeds the size cap.
    BodyTooLarge,
    /// A body filter rejected the request.
    BodyRejected,
    /// A middleware step failed.
    MiddlewareFailure,
    /// Connecting to, or speaking with, the backend failed.
    UpstreamUnavailable,
    /// A reserved variant was invoked.
    NotImplemented,
    /// No service accepted the request.
    NoMatch,
}

/// The HTTP status code with which the engine answers each kind of failure.
pub open spec fn status_of_spec(e: ProxyError) -> u16 {
    match e {
        ProxyError::BadRequest => 500,
        ProxyError::FilterFailure => 500,
        ProxyError::BodyRequired => 500,
        ProxyError::BodyTooLarge => 413,
        ProxyError::BodyRejected => 403,
        ProxyError::MiddlewareFailure => 500,
        ProxyError::UpstreamUnavailable => 502,
        ProxyError::NotImplemented => 500,
        ProxyError::NoMatch => 404,
    }
}

impl ProxyError {
    /// The HTTP status code for this kind of failure.
    pub fn status(&self) -> (s: u16)
        ensures
            s == status_of_spec(*self),
    {
        match self {
            ProxyError::BadRequest => 500,
            ProxyError::FilterFailure => 500,
            ProxyError::BodyRequired => 500,
            ProxyError::BodyTooLarge => 413,
            ProxyError::BodyRejected => 403,
            ProxyError::MiddlewareFailure => 500,
            ProxyError::UpstreamUnavailable => 502,
            ProxyError::NotImplemented => 500,
            ProxyError::NoMatch => 404,
        }
    }
}

} // verus!
