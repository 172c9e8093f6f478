use vstd::prelude::*;

use crate::addr::{addr_text, addr_text_spec, Addr};
use crate::error::ProxyError;
use crate::headers::{remove_header, set_header, set_header_spec, strip_header, HeadersV};
use crate::message::{body_view, HeadV, RequestHead, RespHeadV, ResponseHead};

verus! {

/// One in-place change of a request header list.
pub enum HeaderOp {
    /// Set the named header to the given value.
    SetHeader(String, String),
    /// Set the named header to the text of the peer's address.
    SetPeerHeader(String),
    /// Remove every entry of the named header.
    RemoveHeader(String),
    /// Always fail; stands for a step whose work cannot be done.
    Fail,
}

/// What a request header operation yields on a given header list.
pub open spec fn header_op_spec(op: HeaderOp, from: Addr, hs: HeadersV) -> Result<
    HeadersV,
    ProxyError,
> {
    match op {
        HeaderOp::SetHeader(n, v) => Ok(set_header_spec(hs, n@, v@)),
        HeaderOp::SetPeerHeader(n) => Ok(set_header_spec(hs, n@, addr_text_spec(from))),
        HeaderOp::RemoveHeader(n) => Ok(strip_header(hs, n@)),
        HeaderOp::Fail => Err(ProxyError::MiddlewareFailure),
    }
}

impl HeaderOp {
    /// Applies the operation to a request header list; on failure the list is
    /// left as it was.
    pub fn apply(&self, from: &Addr, headers: &mut Vec<(String, String)>) -> (r: Result<
        (),
        ProxyError,
    >)
        ensures
            match r {
                Ok(_) => header_op_spec(*self, *from, old(headers).deep_view()) == Ok::<
                    HeadersV,
                    ProxyError,
                >(final (headers).deep_view()),
                Err(e) => header_op_spec(*self, *from, old(headers).deep_view()) == Err::<
                    HeadersV,
                    ProxyError,
                >(e) && final (headers).deep_view() == old(headers).deep_view(),
            },
    {
        match self {
            HeaderOp::SetHeader(n, v) => {
                set_header(headers, n, v.clone());
                Ok(())
            },
            HeaderOp::SetPeerHeader(n) => {
                let t = addr_text(from);
                set_header(headers, n, t);
                Ok(())
            },
            HeaderOp::RemoveHeader(n) => {
                remove_header(headers, n);
                Ok(())
            },
            HeaderOp::Fail => Err(ProxyError::MiddlewareFailure),
        }
    }
}

/// One in-place change of a response header list; it may read the peer's and
/// the chosen upstream's address.
pub enum ResponseHeaderOp {
    /// Set the named header to the given value.
    SetHeader(String, String),
    /// Set the named header to the text of the peer's address.
    SetPeerHeader(String),
    /// Set the named header to the text of the upstream's address.
    SetUpstreamHeader(String),
    /// Remove every entry of the named header.
    RemoveHeader(String),
    /// Always fail; stands for a step whose work cannot be done.
    Fail,
}

/// What a response header operation yields on a given header list.
pub open spec fn response_header_op_spec(
    op: ResponseHeaderOp,
    from: Addr,
    upstream_addr: Addr,
    hs: HeadersV,
) -> Result<HeadersV, ProxyError> {
    match op {
        ResponseHeaderOp::SetHeader(n, v) => Ok(set_header_spec(hs, n@, v@)),
        ResponseHeaderOp::SetPeerHeader(n) => Ok(set_header_spec(hs, n@, addr_text_spec(from))),
        ResponseHeaderOp::SetUpstreamHeader(n) => Ok(
            set_header_spec(hs, n@, addr_text_spec(upstream_addr)),
        ),
        ResponseHeaderOp::RemoveHeader(n) => Ok(strip_header(hs, n@)),
        ResponseHeaderOp::Fail => Err(ProxyError::MiddlewareFailure),
    }
}

impl ResponseHeaderOp {
    /// Applies the operation to a response header list; on failure the list
    /// is left as it was.
    pub fn apply(
        &self,
        from: &Addr,
        upstream_addr: &Addr,
        headers: &mut Vec<(String, String)>,
    ) -> (r: Result<(), ProxyError>)
        ensures
            match r {
                Ok(_) => response_header_op_spec(
                    *self,
                    *from,
                    *upstream_addr,
                    old(headers).deep_view(),
                ) == Ok::<HeadersV, ProxyError>(final (headers).deep_view()),
                Err(e) => response_header_op_spec(
                    *self,
                    *from,
                    *upstream_addr,
                    old(headers).deep_view(),
                ) == Err::<HeadersV, ProxyError>(e) && final (headers).deep_view() == old(
                    headers,
                ).deep_view(),
            },
    {
        match self {
            ResponseHeaderOp::SetHeader(n, v) => {
                set_header(headers, n, v.clone());
                Ok(())
            },
            ResponseHeaderOp::SetPeerHeader(n) => {
                let t = addr_text(from);
                set_header(headers, n, t);
                Ok(())
            },
            ResponseHeaderOp::SetUpstreamHeader(n) => {
                let t = addr_text(upstream_addr);
                set_header(headers, n, t);
                Ok(())
            },
            ResponseHeaderOp::RemoveHeader(n) => {
                remove_header(headers, n);
                Ok(())
            },
            ResponseHeaderOp::Fail => Err(ProxyError::MiddlewareFailure),
        }
    }
}

/// One in-place change of a buffered body.
pub enum BodyOp {
    /// Append the given bytes.
    Append(Vec<u8>),
    /// Empty the body.
    Clear,
}

/// What a body operation yields on a given body.
pub open spec fn body_op_spec(op: BodyOp, b: Seq<u8>) -> Seq<u8> {
    match op {
        BodyOp::Append(x) => b + x@,
        BodyOp::Clear => Seq::empty(),
    }
}

impl BodyOp {
    /// Applies the operation to a buffered body.
    pub fn apply(&self, body: &mut Vec<u8>)
        ensures
            final (body)@ == body_op_spec(*self, old(body)@),
    {
        match self {
            BodyOp::Append(x) => {
                let mut i: usize = 0;
                while i < x.len()
                    invariant
                        i <= x.len(),
                        body@ == old(body)@ + x@.take(i as int),
                    decreases x.len() - i,
                {
                    body.push(x[i]);
                    proof {
                        assert(body@ =~= old(body)@ + x@.take(i + 1));
                    }
                    i += 1;
                }
                proof {
                    assert(old(body)@ + x@.take(x@.len() as int) =~= old(body)@ + x@);
                }
            },
            BodyOp::Clear => {
                body.clear();
            },
        }
    }
}

/// A middleware step applied to the request before it is forwarded.
pub enum MiddlewareIncomingFunction {
    /// Reserved for steps loaded from outside the process; invoking it fails.
    External,
    /// A step that rewrites the request headers.
    Internal(HeaderOp),
    /// A step that rewrites the buffered request body; it fails when no body
    /// was buffered.
    InternalWithBody(BodyOp),
}

/// What an incoming step yields on a given request head and optional body.
pub open spec fn incoming_step_spec(
    s: MiddlewareIncomingFunction,
    from: Addr,
    head: HeadV,
    body: Option<Seq<u8>>,
) -> Result<(HeadV, Option<Seq<u8>>), ProxyError> {
    match s {
        MiddlewareIncomingFunction::External => Err(ProxyError::NotImplemented),
        MiddlewareIncomingFunction::Internal(op) => match header_op_spec(op, from, head.headers) {
            Ok(hs) => Ok((HeadV { headers: hs, ..head }, body)),
            Err(e) => Err(e),
        },
        MiddlewareIncomingFunction::InternalWithBody(op) => match body {
            Some(b) => Ok((head, Some(body_op_spec(op, b)))),
            None => Err(ProxyError::BodyRequired),
        },
    }
}

impl MiddlewareIncomingFunction {
    /// Whether this step needs the request body buffered.
    pub fn needs_body(&self) -> (r: bool)
        ensures
            r == (*self is InternalWithBody),
    {
        match self {
            MiddlewareIncomingFunction::InternalWithBody(_) => true,
            _ => false,
        }
    }

    /// Applies this step to the request head and optional buffered body; on
    /// failure both are left as they were.
    pub fn process(
        &self,
        from: &Addr,
        parts: &mut RequestHead,
        body: &mut Option<Vec<u8>>,
    ) -> (r: Result<(), ProxyError>)
        ensures
            match r {
                Ok(_) => incoming_step_spec(*self, *from, old(parts)@, body_view(*old(body)))
                    == Ok::<(HeadV, Option<Seq<u8>>), ProxyError>(
                    (final (parts)@, body_view(*final (body))),
                ),
                Err(e) => incoming_step_spec(*self, *from, old(parts)@, body_view(*old(body)))
                    == Err::<(HeadV, Option<Seq<u8>>), ProxyError>(e) && final (parts)@ == old(
                    parts,
                )@ && body_view(*final (body)) == body_view(*old(body)),
            },
    {
        match self {
            MiddlewareIncomingFunction::External => Err(ProxyError::NotImplemented),
            MiddlewareIncomingFunction::Internal(op) => {
                let r = op.apply(from, &mut parts.headers);
                match r {
                    Ok(_) => {
                        proof {
                            assert(final (parts)@ == HeadV {
                                headers: parts.headers.deep_view(),
                                ..old(parts)@
                            });
                        }
                        Ok(())
                    },
                    Err(e) => Err(e),
                }
            },
            MiddlewareIncomingFunction::InternalWithBody(op) => {
                match body {
                    Some(b) => {
                        op.apply(b);
                        Ok(())
                    },
                    None => Err(ProxyError::BodyRequired),
                }
            },
        }
    }
}

/// A middleware step applied to the response before it is returned.
pub enum MiddlewareOutgoingFunction {
    /// Reserved for steps loaded from outside the process; invoking it fails.
    External,
    /// A step that rewrites the response headers.
    Internal(ResponseHeaderOp),
    /// A step that rewrites the buffered response body; it fails when no body
    /// was buffered.
    InternalWithBody(BodyOp),
}

/// What an outgoing step yields on a given response head and optional body.
pub open spec fn outgoing_step_spec(
    s: MiddlewareOutgoingFunction,
    from: Addr,
    upstream_addr: Addr,
    head: RespHeadV,
    body: Option<Seq<u8>>,
) -> Result<(RespHeadV, Option<Seq<u8>>), ProxyError> {
    match s {
        MiddlewareOutgoingFunction::External => Err(ProxyError::NotImplemented),
        MiddlewareOutgoingFunction::Internal(op) => match response_header_op_spec(
            op,
            from,
            upstream_addr,
            head.headers,
        ) {
            Ok(hs) => Ok((RespHeadV { headers: hs, ..head }, body)),
            Err(e) => Err(e),
        },
        MiddlewareOutgoingFunction::InternalWithBody(op) => match body {
            Some(b) => Ok((head, Some(body_op_spec(op, b)))),
            None => Err(ProxyError::BodyRequired),
        },
    }
}

impl MiddlewareOutgoingFunction {
    /// Whether this step needs the response body buffered.
    pub fn needs_body(&self) -> (r: bool)
        ensures
            r == (*self is InternalWithBody),
    {
        match self {
            MiddlewareOutgoingFunction::InternalWithBody(_) => true,
            _ => false,
        }
    }

    /// Applies this step to the response head and optional buffered body; on
    /// failure both are left as they were.
    pub fn process(
        &self,
        from: &Addr,
        upstream_addr: &Addr,
        parts: &mut ResponseHead,
        body: &mut Option<Vec<u8>>,
    ) -> (r: Result<(), ProxyError>)
        ensures
            match r {
                Ok(_) => outgoing_step_spec(
                    *self,
                    *from,
                    *upstream_addr,
                    old(parts)@,
                    body_view(*old(body)),
                ) == Ok::<(RespHeadV, Option<Seq<u8>>), ProxyError>(
                    (final (parts)@, body_view(*final (body))),
                ),
                Err(e) => outgoing_step_spec(
                    *self,
                    *from,
                    *upstream_addr,
                    old(parts)@,
                    body_view(*old(body)),
                ) == Err::<(RespHeadV, Option<Seq<u8>>), ProxyError>(e) && final (parts)@ == old(
                    parts,
                )@ && body_view(*final (body)) == body_view(*old(body)),
            },
    {
        match self {
            MiddlewareOutgoingFunction::External => Err(ProxyError::NotImplemented),
            MiddlewareOutgoingFunction::Internal(op) => {
                let r = op.apply(from, upstream_addr, &mut parts.headers);
                match r {
                    Ok(_) => {
                        proof {
                            assert(final (parts)@ == RespHeadV {
                                headers: parts.headers.deep_view(),
                                ..old(parts)@
                            });
                        }
                        Ok(())
                    },
                    Err(e) => Err(e),
                }
            },
            MiddlewareOutgoingFunction::InternalWithBody(op) => {
                match body {
                    Some(b) => {
                        op.apply(b);
                        Ok(())
                    },
                    None => Err(ProxyError::BodyRequired),
                }
            },
        }
    }
}

/// The result of running a sequence of incoming steps, in order, over a
/// request head and optional body; the first failing step ends the run.
pub open spec fn apply_incoming(
    steps: Seq<MiddlewareIncomingFunction>,
    from: Addr,
    head: HeadV,
    body: Option<Seq<u8>>,
) -> Result<(HeadV, Option<Seq<u8>>), ProxyError>
    decreases steps.len(),
{
    if steps.len() == 0 {
        Ok((head, body))
    } else {
        match incoming_step_spec(steps.first(), from, head, body) {
            Ok(hb) => apply_incoming(steps.drop_first(), from, hb.0, hb.1),
            Err(e) => Err(e),
        }
    }
}

/// The result of running a sequence of outgoing steps, in order, over a
/// response head and optional body; the first failing step ends the run.
pub open spec fn apply_outgoing(
    steps: Seq<MiddlewareOutgoingFunction>,
    from: Addr,
    upstream_addr: Addr,
    head: RespHeadV,
    body: Option<Seq<u8>>,
) -> Result<(RespHeadV, Option<Seq<u8>>), ProxyError>
    decreases steps.len(),
{
    if steps.len() == 0 {
        Ok((head, body))
    } else {
        match outgoing_step_spec(steps.first(), from, upstream_addr, head, body) {
            Ok(hb) => apply_outgoing(steps.drop_first(), from, upstream_addr, hb.0, hb.1),
            Err(e) => Err(e),
        }
    }
}

/// Applying no incoming middleware is the identity on head and body.
pub proof fn lemma_empty_incoming_identity(from: Addr, head: HeadV, body: Option<Seq<u8>>)
    ensures
        apply_incoming(Seq::empty(), from, head, body) == Ok::<
            (HeadV, Option<Seq<u8>>),
            ProxyError,
        >((head, body)),
{
}

/// Applying no outgoing middleware is the identity on head and body.
pub proof fn lemma_empty_outgoing_identity(
    from: Addr,
    upstream_addr: Addr,
    head: RespHeadV,
    body: Option<Seq<u8>>,
)
    ensures
        apply_outgoing(Seq::empty(), from, upstream_addr, head, body) == Ok::<
            (RespHeadV, Option<Seq<u8>>),
            ProxyError,
        >((head, body)),
{
}

/// When no body was buffered, middleware cannot put one in: a run of
/// incoming steps that succeeds on a body-less request leaves it body-less.
pub proof fn lemma_incoming_none_body_stays(
    steps: Seq<MiddlewareIncomingFunction>,
    from: Addr,
    head: HeadV,
)
    ensures
        apply_incoming(steps, from, head, None) matches Ok(hb) ==> hb.1 is None,
    decreases steps.len(),
{
    if steps.len() > 0 {
        match incoming_step_spec(steps.first(), from, head, None) {
            Ok(hb) => {
                lemma_incoming_none_body_stays(steps.drop_first(), from, hb.0);
            },
            Err(_) => {},
        }
    }
}

/// Whether any step in the sequence needs the body buffered.
pub open spec fn any_incoming_needs_body(steps: Seq<MiddlewareIncomingFunction>) -> bool {
    exists|i: int| 0 <= i < steps.len() && steps[i] is InternalWithBody
}

/// Whether any step in the sequence needs the body buffered.
pub open spec fn any_outgoing_needs_body(steps: Seq<MiddlewareOutgoingFunction>) -> bool {
    exists|i: int| 0 <= i < steps.len() && steps[i] is InternalWithBody
}

/// An ordered middleware pipeline: incoming steps rewrite the request before
/// it is forwarded, outgoing steps rewrite the response before it is
/// returned. The two flags are computed once, at construction, and mirror the
/// steps exactly; nothing mutates a pipeline afterwards.
pub struct Middleware {
    /// The incoming steps, in order.
    pub incoming: Vec<MiddlewareIncomingFunction>,
    /// Whether any incoming step needs the request body buffered.
    pub incoming_needs_body: bool,
    /// The outgoing steps, in order.
    pub outgoing: Vec<MiddlewareOutgoingFunction>,
    /// Whether any outgoing step needs the response body buffered.
    pub out_needs_body: bool,
}

impl Middleware {
    /// The incoming steps, in order.
    pub open spec fn spec_incoming(&self) -> Seq<MiddlewareIncomingFunction> {
        self.incoming@
    }

    /// The outgoing steps, in order.
    pub open spec fn spec_outgoing(&self) -> Seq<MiddlewareOutgoingFunction> {
        self.outgoing@
    }

    /// The flags mirror the steps: each is true exactly when some step of its
    /// direction needs the body.
    pub open spec fn wf(&self) -> bool {
        &&& self.incoming_needs_body == any_incoming_needs_body(self.spec_incoming())
        &&& self.out_needs_body == any_outgoing_needs_body(self.spec_outgoing())
    }

    /// Builds a pipeline from the given steps and computes the two
    /// needs-body flags from them.
    pub fn new(
        incoming: Vec<MiddlewareIncomingFunction>,
        outgoing: Vec<MiddlewareOutgoingFunction>,
    ) -> (m: Middleware)
        ensures
            m.wf(),
            m.spec_incoming() == incoming@,
            m.spec_outgoing() == outgoing@,
            m.incoming_needs_body == any_incoming_needs_body(incoming@),
            m.out_needs_body == any_outgoing_needs_body(outgoing@),
    {
        let mut incoming_needs_body = false;
        let mut i: usize = 0;
        while i < incoming.len()
            invariant
                i <= incoming.len(),
                incoming_needs_body == exists|k: int|
                    0 <= k < i && incoming@[k] is InternalWithBody,
            decreases incoming.len() - i,
        {
            if incoming[i].needs_body() {
                incoming_needs_body = true;
            }
            i += 1;
        }
        let mut out_needs_body = false;
        let mut j: usize = 0;
        while j < outgoing.len()
            invariant
                j <= outgoing.len(),
                out_needs_body == exists|k: int| 0 <= k < j && outgoing@[k] is InternalWithBody,
            decreases outgoing.len() - j,
        {
            if outgoing[j].needs_body() {
                out_needs_body = true;
            }
            j += 1;
        }
        Middleware { incoming, incoming_needs_body, outgoing, out_needs_body }
    }

    /// Runs every incoming step, in order, over the request head and optional
    /// buffered body; the first failure ends the run and is returned.
    pub fn process_incoming(
        &self,
        from: &Addr,
        parts: &mut RequestHead,
        body: &mut Option<Vec<u8>>,
    ) -> (r: Result<(), ProxyError>)
        ensures
            match r {
                Ok(_) => apply_incoming(
                    self.spec_incoming(),
                    *from,
                    old(parts)@,
                    body_view(*old(body)),
                ) == Ok::<(HeadV, Option<Seq<u8>>), ProxyError>(
                    (final (parts)@, body_view(*final (body))),
                ),
                Err(e) => apply_incoming(
                    self.spec_incoming(),
                    *from,
                    old(parts)@,
                    body_view(*old(body)),
                ) == Err::<(HeadV, Option<Seq<u8>>), ProxyError>(e),
            },
    {
        let ghost steps = self.spec_incoming();
        proof {
            assert(steps.skip(0) =~= steps);
        }
        let mut i: usize = 0;
        while i < self.incoming.len()
            invariant
                i <= self.incoming.len(),
                steps == self.spec_incoming(),
                apply_incoming(steps, *from, old(parts)@, body_view(*old(body))) == apply_incoming(
                    steps.skip(i as int),
                    *from,
                    parts@,
                    body_view(*body),
                ),
            decreases self.incoming.len() - i,
        {
            proof {
                assert(steps.skip(i as int).first() == steps[i as int]);
                assert(steps.skip(i as int).drop_first() =~= steps.skip(i + 1));
                assert(steps.skip(i as int).len() > 0);
            }
            let r = self.incoming[i].process(from, parts, body);
            if let Err(e) = r {
                return Err(e);
            }
            i += 1;
        }
        proof {
            assert(steps.skip(self.incoming.len() as int) =~= Seq::<
                MiddlewareIncomingFunction,
            >::empty());
        }
        Ok(())
    }

    /// Runs every outgoing step, in order, over the response head and
    /// optional buffered body; the first failure ends the run and is
    /// returned.
    pub fn process_outgoing(
        &self,
        from: &Addr,
        upstream_addr: &Addr,
        parts: &mut ResponseHead,
        body: &mut Option<Vec<u8>>,
    ) -> (r: Result<(), ProxyError>)
        ensures
            match r {
                Ok(_) => apply_outgoing(
                    self.spec_outgoing(),
                    *from,
                    *upstream_addr,
                    old(parts)@,
                    body_view(*old(body)),
                ) == Ok::<(RespHeadV, Option<Seq<u8>>), ProxyError>(
                    (final (parts)@, body_view(*final (body))),
                ),
                Err(e) => apply_outgoing(
                    self.spec_outgoing(),
                    *from,
                    *upstream_addr,
                    old(parts)@,
                    body_view(*old(body)),
                ) == Err::<(RespHeadV, Option<Seq<u8>>), ProxyError>(e),
            },
    {
        let ghost steps = self.spec_outgoing();
        proof {
            assert(steps.skip(0) =~= steps);
        }
        let mut i: usize = 0;
        while i < self.outgoing.len()
            invariant
                i <= self.outgoing.len(),
                steps == self.spec_outgoing(),
                apply_outgoing(steps, *from, *upstream_addr, old(parts)@, body_view(*old(body)))
                    == apply_outgoing(
                    steps.skip(i as int),
                    *from,
                    *upstream_addr,
                    parts@,
                    body_view(*body),
                ),
            decreases self.outgoing.len() - i,
        {
            proof {
                assert(steps.skip(i as int).first() == steps[i as int]);
                assert(steps.skip(i as int).drop_first() =~= steps.skip(i + 1));
                assert(steps.skip(i as int).len() > 0);
            }
            let r = self.outgoing[i].process(from, upstream_addr, parts, body);
            if let Err(e) = r {
                return Err(e);
            }
            i += 1;
        }
        proof {
            assert(steps.skip(self.outgoing.len() as int) =~= Seq::<
                MiddlewareOutgoingFunction,
            >::empty());
        }
        Ok(())
    }
}

} // verus!
