use vstd::prelude::*;

use crate::addr::{Addr, Ip};
use crate::error::ProxyError;
use crate::json::{json_get_text_field, json_text_field};
use crate::message::{HeadV, Method, RequestHead};
use crate::pattern::{regex_match, Pattern};

verus! {

/// A predicate over the peer address and the request head that decides
/// whether a service takes the request.
pub enum Filter {
    /// The request method equals the given one.
    Method(Method),
    /// The pattern matches the host of the request target; a request without
    /// a host is refused as malformed.
    Host(Pattern),
    /// The pattern matches the path of the request target.
    Path(Pattern),
    /// The peer's address stands nowhere in the list.
    BlackList(Vec<Ip>),
    /// The peer's address stands in the list.
    WhiteList(Vec<Ip>),
}

/// What a filter decides for a given peer and request head.
pub open spec fn filter_spec(f: Filter, from: Addr, head: HeadV) -> Result<bool, ProxyError> {
    match f {
        Filter::Method(m) => Ok(head.method == m),
        Filter::Host(p) => match head.uri.host {
            Some(h) => Ok(regex_match(p@, h)),
            None => Err(ProxyError::BadRequest),
        },
        Filter::Path(p) => Ok(regex_match(p@, head.uri.path)),
        Filter::BlackList(ips) => Ok(!ips@.contains(from.ip)),
        Filter::WhiteList(ips) => Ok(ips@.contains(from.ip)),
    }
}

/// Whether the address stands in the list.
fn ip_in_list(ips: &Vec<Ip>, ip: &Ip) -> (r: bool)
    ensures
        r == ips@.contains(*ip),
{
    let mut i: usize = 0;
    while i < ips.len()
        invariant
            i <= ips.len(),
            forall|k: int| 0 <= k < i ==> ips@[k] != *ip,
        decreases ips.len() - i,
    {
        if ips[i] == *ip {
            proof {
                assert(ips@.contains(*ip)) by {
                    assert(ips@[i as int] == *ip);
                }
            }
            return true;
        }
        i += 1;
    }
    proof {
        assert(!ips@.contains(*ip));
    }
    false
}

impl Filter {
    /// Applies the filter to a request: `Ok(true)` when it matches,
    /// `Ok(false)` when it does not, and an error when the request lacks a
    /// field the filter needs.
    pub fn filter(&self, from: &Addr, header: &RequestHead) -> (r: Result<bool, ProxyError>)
        ensures
            r == filter_spec(*self, *from, header@),
    {
        match self {
            Filter::Method(m) => Ok(header.method == *m),
            Filter::Host(p) => match &header.uri.host {
                Some(h) => Ok(p.is_match(h.as_str())),
                None => Err(ProxyError::BadRequest),
            },
            Filter::Path(p) => Ok(p.is_match(header.uri.path.as_str())),
            Filter::BlackList(ips) => Ok(!ip_in_list(ips, &from.ip)),
            Filter::WhiteList(ips) => Ok(ip_in_list(ips, &from.ip)),
        }
    }
}

/// A decision over a fully buffered request body.
pub enum BodyPredicate {
    /// Accept or reject every body outright.
    Always(bool),
    /// Parse the body as one JSON document and reject it when the named
    /// top-level field is missing, is not a string, or is one of the denied
    /// values; fail when the body is not valid JSON.
    JsonTextFieldNotDenied { field: String, denied: Vec<String> },
}

/// What a body predicate decides for a given body.
pub open spec fn body_pred_spec(p: BodyPredicate, body: Seq<u8>) -> Result<bool, ProxyError> {
    match p {
        BodyPredicate::Always(b) => Ok(b),
        BodyPredicate::JsonTextFieldNotDenied { field, denied } => match json_text_field(
            body,
            field@,
        ) {
            Ok(opt) => match opt {
                Some(v) => Ok(!denied.deep_view().contains(v)),
                None => Ok(false),
            },
            Err(_) => Err(ProxyError::FilterFailure),
        },
    }
}

/// Whether the text stands in the list.
fn text_in_list(list: &Vec<String>, text: &String) -> (r: bool)
    ensures
        r == list.deep_view().contains(text@),
{
    let mut i: usize = 0;
    while i < list.len()
        invariant
            i <= list.len(),
            forall|k: int| 0 <= k < i ==> list.deep_view()[k] != text@,
        decreases list.len() - i,
    {
        if list[i] == *text {
            proof {
                assert(list.deep_view().contains(text@)) by {
                    assert(list.deep_view()[i as int] == text@);
                }
            }
            return true;
        }
        i += 1;
    }
    proof {
        assert(!list.deep_view().contains(text@));
    }
    false
}

impl BodyPredicate {
    /// Applies the predicate to a buffered body.
    pub fn check(&self, body: &[u8]) -> (r: Result<bool, ProxyError>)
        ensures
            r == body_pred_spec(*self, body@),
    {
        match self {
            BodyPredicate::Always(b) => Ok(*b),
            BodyPredicate::JsonTextFieldNotDenied { field, denied } => {
                match json_get_text_field(body, field.as_str()) {
                    Ok(Some(v)) => Ok(!text_in_list(denied, &v)),
                    Ok(None) => Ok(false),
                    Err(_) => Err(ProxyError::FilterFailure),
                }
            },
        }
    }
}

/// An admission decision over the request body.
pub enum BodyFilter {
    /// A filter over the streamed body; it runs outside the synchronous
    /// path, and the synchronous entry point refuses it.
    InternalIncoming,
    /// A filter over the fully buffered body.
    InternalFullBody(BodyPredicate),
    /// Reserved for filters loaded from outside the process; invoking it
    /// fails.
    External,
}

/// What a body filter decides for a given peer and buffered body.
pub open spec fn body_filter_spec(f: BodyFilter, from: Addr, body: Seq<u8>) -> Result<
    bool,
    ProxyError,
> {
    match f {
        BodyFilter::InternalFullBody(p) => body_pred_spec(p, body),
        BodyFilter::External => Err(ProxyError::NotImplemented),
        BodyFilter::InternalIncoming => Err(ProxyError::FilterFailure),
    }
}

impl BodyFilter {
    /// Applies the filter to a fully buffered body: `Ok(true)` to admit,
    /// `Ok(false)` to reject. The reserved `External` variant and the
    /// streaming variant fail.
    pub fn filter(&self, from: &Addr, body: &[u8]) -> (r: Result<bool, ProxyError>)
        ensures
            r == body_filter_spec(*self, *from, body@),
    {
        match self {
            BodyFilter::InternalFullBody(p) => p.check(body),
            BodyFilter::External => Err(ProxyError::NotImplemented),
            BodyFilter::InternalIncoming => Err(ProxyError::FilterFailure),
        }
    }

    /// Whether this filter works on the streamed body rather than on a
    /// buffered one.
    pub fn use_async(&self) -> (r: bool)
        ensures
            r == (*self is InternalIncoming),
    {
        match self {
            BodyFilter::InternalIncoming => true,
            _ => false,
        }
    }
}

} // verus!
