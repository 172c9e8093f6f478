use vstd::prelude::*;

use crate::error::{status_of_spec, ProxyError};
use crate::headers::HeadersV;

verus! {

/// An HTTP request method.
#[derive(Clone, Copy, Debug, PartialEq, Eq, Structural)]
pub enum Method {
    Get,
    Head,
    Post,
    Put,
    Delete,
    Connect,
    Options,
    Trace,
    Patch,
}

/// The parts of a request target that the engine reads.
pub struct UriParts {
    pub scheme: Option<String>,
    pub host: Option<String>,
    pub port: Option<u16>,
    pub path: String,
    pub query: Option<String>,
}

/// The abstract value of a `UriParts`.
#[verifier::ext_equal]
pub struct UriV {
    pub scheme: Option<Seq<char>>,
    pub host: Option<Seq<char>>,
    pub port: Option<u16>,
    pub path: Seq<char>,
    pub query: Option<Seq<char>>,
}

impl View for UriParts {
    type V = UriV;

    open spec fn view(&self) -> UriV {
        UriV {
            scheme: self.scheme.deep_view(),
            host: self.host.deep_view(),
            port: self.port,
            path: self.path@,
            query: self.query.deep_view(),
        }
    }
}

/// The head of an HTTP request: method, target, headers.
pub struct RequestHead {
    pub method: Method,
    pub uri: UriParts,
    pub headers: Vec<(String, String)>,
}

/// The abstract value of a `RequestHead`.
#[verifier::ext_equal]
pub struct HeadV {
    pub method: Method,
    pub uri: UriV,
    pub headers: HeadersV,
}

impl View for RequestHead {
    type V = HeadV;

    open spec fn view(&self) -> HeadV {
        HeadV { method: self.method, uri: self.uri@, headers: self.headers.deep_view() }
    }
}

/// The head of an HTTP response: status and headers.
pub struct ResponseHead {
    pub status: u16,
    pub headers: Vec<(String, String)>,
}

/// The abstract value of a `ResponseHead`.
#[verifier::ext_equal]
pub struct RespHeadV {
    pub status: u16,
    pub headers: HeadersV,
}

impl View for ResponseHead {
    type V = RespHeadV;

    open spec fn view(&self) -> RespHeadV {
        RespHeadV { status: self.status, headers: self.headers.deep_view() }
    }
}

/// A complete HTTP response with a buffered body.
pub struct Response {
    pub status: u16,
    pub headers: Vec<(String, String)>,
    pub body: Vec<u8>,
}

/// The abstract value of a `Response`.
#[verifier::ext_equal]
pub struct ResponseV {
    pub status: u16,
    pub headers: HeadersV,
    pub body: Seq<u8>,
}

impl View for Response {
    type V = ResponseV;

    open spec fn view(&self) -> ResponseV {
        ResponseV {
            status: self.status,
            headers: self.headers.deep_view(),
            body: self.body.deep_view(),
        }
    }
}


/// The abstract value of an optional buffered body.
pub open spec fn body_view(b: Option<Vec<u8>>) -> Option<Seq<u8>> {
    match b {
        Some(v) => Some(v@),
        None => None,
    }
}

/// A response with the given status and an empty body.
pub open spec fn empty_response_spec(status: u16) -> ResponseV {
    ResponseV { status, headers: Seq::empty(), body: Seq::empty() }
}

impl Response {
    /// Builds a response with the given status and an empty body.
    pub fn with_status(status: u16) -> (r: Response)
        ensures
            r@ == empty_response_spec(status),
    {
        let r = Response { status, headers: Vec::new(), body: Vec::new() };
        proof {
            assert(r@ =~= empty_response_spec(status));
        }
        r
    }

    /// Builds the empty response that answers the given failure.
    pub fn for_error(e: ProxyError) -> (r: Response)
        ensures
            r@ == empty_response_spec(status_of_spec(e)),
    {
        Response::with_status(e.status())
    }

    /// A copy of this response, equal in value.
    pub fn duplicate(&self) -> (r: Response)
        ensures
            r@ == self@,
    {
        let mut headers: Vec<(String, String)> = Vec::new();
        let mut i: usize = 0;
        while i < self.headers.len()
            invariant
                i <= self.headers.len(),
                headers.deep_view() == self.headers.deep_view().take(i as int),
            decreases self.headers.len() - i,
        {
            let ghost sofar = headers.deep_view();
            let entry = (self.headers[i].0.clone(), self.headers[i].1.clone());
            proof {
                assert(entry.deep_view() == self.headers.deep_view()[i as int]);
            }
            headers.push(entry);
            proof {
                assert(headers.deep_view() =~= sofar.push(self.headers.deep_view()[i as int]));
                assert(headers.deep_view() =~= self.headers.deep_view().take(i + 1));
            }
            i += 1;
        }
        let mut body: Vec<u8> = Vec::new();
        let mut j: usize = 0;
        while j < self.body.len()
            invariant
                j <= self.body.len(),
                body@ == self.body@.take(j as int),
            decreases self.body.len() - j,
        {
            body.push(self.body[j]);
            proof {
                assert(body@ =~= self.body@.take(j + 1));
            }
            j += 1;
        }
        let r = Response { status: self.status, headers, body };
        proof {
            assert(self.headers.deep_view().take(self.headers.len() as int) =~= (
            self.headers.deep_view()));
            assert(self.body@.take(self.body.len() as int) =~= self.body@);
            assert(r.body.deep_view() =~= r.body@);
            assert(self.body.deep_view() =~= self.body@);
            assert(r@ =~= self@);
        }
        r
    }
}

} // verus!
