use vstd::prelude::*;

use rayon::iter::{IntoParallelRefIterator, ParallelIterator};

use crate::addr::{Addr, Ip};
use crate::error::{status_of_spec, ProxyError};
use crate::filter::{body_filter_spec, filter_spec, BodyFilter, Filter};
use crate::limits::{body_within_cap, body_within_cap_spec};
use crate::load_balancer::{rr_index, LoadBalancer};
use crate::message::{
    body_view, empty_response_spec, HeadV, RequestHead, RespHeadV, Response, ResponseHead,
    ResponseV,
};
use crate::middleware::{apply_incoming, apply_outgoing, Middleware};
use crate::upstream::Upstream;

verus! {

/// Sequential evaluation of header filters: the first error or the first
/// mismatch ends the run.
pub open spec fn filters_seq_spec(fs: Seq<Filter>, from: Addr, head: HeadV) -> Result<
    bool,
    ProxyError,
>
    decreases fs.len(),
{
    if fs.len() == 0 {
        Ok(true)
    } else {
        match filter_spec(fs.first(), from, head) {
            Err(e) => Err(e),
            Ok(b) => if !b {
                Ok(false)
            } else {
                filters_seq_spec(fs.drop_first(), from, head)
            },
        }
    }
}

/// Parallel evaluation of header filters: true exactly when every filter
/// passes; a filter error counts as a mismatch and is not reported.
pub open spec fn filters_par_spec(fs: Seq<Filter>, from: Addr, head: HeadV) -> bool {
    forall|i: int|
        0 <= i < fs.len() ==> filter_spec(fs[i], from, head) == Ok::<bool, ProxyError>(true)
}

/// What matching a service's filters yields: services with more than five
/// filters match in parallel, swallowing errors; the others match
/// sequentially, keeping them.
pub open spec fn match_headers_spec(fs: Seq<Filter>, from: Addr, head: HeadV) -> Result<
    bool,
    ProxyError,
> {
    if fs.len() > 5 {
        Ok(filters_par_spec(fs, from, head))
    } else {
        filters_seq_spec(fs, from, head)
    }
}

/// Sequential evaluation of body filters: the first error or the first
/// rejection ends the run.
pub open spec fn body_filters_spec(fs: Seq<BodyFilter>, from: Addr, body: Seq<u8>) -> Result<
    bool,
    ProxyError,
>
    decreases fs.len(),
{
    if fs.len() == 0 {
        Ok(true)
    } else {
        match body_filter_spec(fs.first(), from, body) {
            Err(e) => Err(e),
            Ok(b) => if !b {
                Ok(false)
            } else {
                body_filters_spec(fs.drop_first(), from, body)
            },
        }
    }
}

/// Evaluates the filters one by one, in order, stopping at the first
/// mismatch or error.
fn filter_sequential_header(filters: &Vec<Filter>, from: &Addr, header: &RequestHead) -> (r:
    Result<bool, ProxyError>)
    ensures
        r == filters_seq_spec(filters@, *from, header@),
{
    let ghost fs = filters@;
    proof {
        assert(fs.skip(0) =~= fs);
    }
    let mut i: usize = 0;
    while i < filters.len()
        invariant
            i <= filters.len(),
            filters@ == fs,
            filters_seq_spec(fs, *from, header@) == filters_seq_spec(
                fs.skip(i as int),
                *from,
                header@,
            ),
        decreases filters.len() - i,
    {
        proof {
            assert(fs.skip(i as int).first() == fs[i as int]);
            assert(fs.skip(i as int).drop_first() =~= fs.skip(i + 1));
            assert(fs.skip(i as int).len() > 0);
        }
        match filters[i].filter(from, header) {
            Err(e) => {
                return Err(e);
            },
            Ok(passed) => {
                if !passed {
                    return Ok(false);
                }
            },
        }
        i += 1;
    }
    proof {
        assert(fs.skip(filters.len() as int) =~= Seq::<Filter>::empty());
    }
    Ok(true)
}

/// A token for one filter that did not pass: `Some` exactly when the filter
/// returned anything but a clean match.
fn filter_failure_token(f: &Filter, from: &Addr, header: &RequestHead) -> (r: Option<()>)
    ensures
        r is None <==> filter_spec(*f, *from, header@) == Ok::<bool, ProxyError>(true),
{
    match f.filter(from, header) {
        Ok(passed) => if passed {
            None
        } else {
            Some(())
        },
        Err(_) => Some(()),
    }
}

/// Relies on rayon's `par_iter().find_map_any`: it returns `None` if and
/// only if the closure returned `None` for every element of the list; the
/// closure only calls the verified `filter_failure_token`.
#[verifier::external_body]
fn find_filter_failure(filters: &Vec<Filter>, from: &Addr, header: &RequestHead) -> (r: Option<
    (),
>)
    ensures
        r is None <==> filters_par_spec(filters@, *from, header@),
{
    filters.par_iter().find_map_any(|f| filter_failure_token(f, from, header))
}

/// What the engine decides to do with a matched request, before any
/// upstream traffic happens.
pub enum Decision {
    /// Answer the client directly with this response; no upstream
    /// connection is opened.
    Respond(Response),
    /// Forward the request to the chosen upstream: send this head, and this
    /// body if one was buffered and rewritten, else stream the client's own
    /// body through unchanged.
    Forward { upstream: Upstream, head: RequestHead, body: Option<Vec<u8>> },
}

/// The abstract value of a `Decision`.
#[verifier::ext_equal]
pub enum DecisionV {
    Respond(ResponseV),
    Forward { upstream: Upstream, head: HeadV, body: Option<Seq<u8>> },
}

impl View for Decision {
    type V = DecisionV;

    open spec fn view(&self) -> DecisionV {
        match self {
            Decision::Respond(r) => DecisionV::Respond(r@),
            Decision::Forward { upstream, head, body } => DecisionV::Forward {
                upstream: *upstream,
                head: head@,
                body: body_view(*body),
            },
        }
    }
}

/// What the engine does with the upstream's response.
pub enum ResponseDecision {
    /// Drop the upstream's response and answer the client with this one.
    Respond(Response),
    /// Return the upstream's response: this head, and this body if it was
    /// buffered and rewritten, else the upstream's own body stream
    /// unchanged.
    Pass { head: ResponseHead, body: Option<Vec<u8>> },
}

/// The abstract value of a `ResponseDecision`.
#[verifier::ext_equal]
pub enum ResponseDecisionV {
    Respond(ResponseV),
    Pass { head: RespHeadV, body: Option<Seq<u8>> },
}

impl View for ResponseDecision {
    type V = ResponseDecisionV;

    open spec fn view(&self) -> ResponseDecisionV {
        match self {
            ResponseDecision::Respond(r) => ResponseDecisionV::Respond(r@),
            ResponseDecision::Pass { head, body } => ResponseDecisionV::Pass {
                head: head@,
                body: body_view(*body),
            },
        }
    }
}

/// One routing rule and its processing pipeline: header filters that decide
/// whether a request belongs to it, body filters that may reject it,
/// optional middleware, the load balancer that picks its backend, and an
/// optional canned response for rejected bodies.
pub struct Service {
    /// Header filters; all must pass for a match.
    pub filters: Vec<Filter>,
    /// Body filters; any rejection answers the request without forwarding.
    pub body_filters: Vec<BodyFilter>,
    /// The middleware pipeline, if any.
    pub middleware: Option<Middleware>,
    /// The round-robin selector over this service's backends.
    pub load_balancer: LoadBalancer,
    /// The response sent when a body filter rejects, in place of the plain
    /// forbidden answer.
    pub not_found_body_response: Option<Response>,
    /// Whether the request body must be fully buffered before dispatch:
    /// decided once, at construction.
    pub needs_body: bool,
}

impl Service {
    /// The load balancer is sound, the middleware's flags mirror its steps,
    /// and the needs-body decision mirrors the configuration.
    pub open spec fn wf(&self) -> bool {
        &&& self.load_balancer.wf()
        &&& match self.middleware {
            Some(m) => m.wf(),
            None => true,
        }
        &&& self.needs_body == (self.body_filters@.len() > 0 || (match self.middleware {
            Some(m) => m.incoming_needs_body,
            None => false,
        }))
    }

    /// Builds a service and decides, once, whether dispatch must buffer the
    /// request body: it must when body filters exist or when some incoming
    /// middleware step needs the body.
    pub fn new(
        filters: Vec<Filter>,
        body_filters: Vec<BodyFilter>,
        middleware: Option<Middleware>,
        load_balancer: LoadBalancer,
        not_found_body_response: Option<Response>,
    ) -> (s: Service)
        requires
            load_balancer.wf(),
            match middleware {
                Some(m) => m.wf(),
                None => true,
            },
        ensures
            s.wf(),
            s.filters == filters,
            s.body_filters == body_filters,
            s.middleware == middleware,
            s.load_balancer == load_balancer,
            s.not_found_body_response == not_found_body_response,
    {
        let needs_body = body_filters.len() > 0 || (match &middleware {
            Some(m) => m.incoming_needs_body,
            None => false,
        });
        Service { filters, body_filters, middleware, load_balancer, not_found_body_response, needs_body }
    }

    /// Picks the next upstream of this service's load balancer, advancing
    /// its cursor; everything else is untouched.
    pub fn get_upstream(&mut self) -> (u: Upstream)
        requires
            old(self).wf(),
        ensures
            final (self).wf(),
            u == old(self).load_balancer.spec_servers()[old(
                self,
            ).load_balancer.spec_cursor() as int],
            final (self).load_balancer.spec_servers() == old(self).load_balancer.spec_servers(),
            final (self).load_balancer.spec_cursor() == rr_index(
                old(self).load_balancer.spec_cursor(),
                1,
                old(self).load_balancer.spec_servers().len(),
            ),
            final (self).filters == old(self).filters,
            final (self).body_filters == old(self).body_filters,
            final (self).middleware == old(self).middleware,
            final (self).not_found_body_response == old(self).not_found_body_response,
            final (self).needs_body == old(self).needs_body,
    {
        self.load_balancer.get_upstream()
    }

    /// Matches the request head against this service's filters. Services
    /// with more than five filters evaluate them in parallel, where a
    /// filter error counts as a mismatch; the others evaluate in order and
    /// report the first error.
    pub fn filter_request_by_header(&self, from: &Addr, header: &RequestHead) -> (r: Result<
        bool,
        ProxyError,
    >)
        ensures
            r == match_headers_spec(self.filters@, *from, header@),
    {
        if self.filters.len() > 5 {
            match find_filter_failure(&self.filters, from, header) {
                None => Ok(true),
                Some(_) => Ok(false),
            }
        } else {
            filter_sequential_header(&self.filters, from, header)
        }
    }

    /// Runs the body filters over a buffered body, in order: the first
    /// rejection or error ends the run.
    pub fn filter_request_by_body(
        body_filters: &Vec<BodyFilter>,
        from: &Addr,
        body: &[u8],
    ) -> (r: Result<bool, ProxyError>)
        ensures
            r == body_filters_spec(body_filters@, *from, body@),
    {
        let ghost fs = body_filters@;
        proof {
            assert(fs.skip(0) =~= fs);
        }
        let mut i: usize = 0;
        while i < body_filters.len()
            invariant
                i <= body_filters.len(),
                body_filters@ == fs,
                body_filters_spec(fs, *from, body@) == body_filters_spec(
                    fs.skip(i as int),
                    *from,
                    body@,
                ),
            decreases body_filters.len() - i,
        {
            proof {
                assert(fs.skip(i as int).first() == fs[i as int]);
                assert(fs.skip(i as int).drop_first() =~= fs.skip(i + 1));
                assert(fs.skip(i as int).len() > 0);
            }
            match body_filters[i].filter(from, body) {
                Err(e) => {
                    return Err(e);
                },
                Ok(passed) => {
                    if !passed {
                        return Ok(false);
                    }
                },
            }
            i += 1;
        }
        proof {
            assert(fs.skip(body_filters.len() as int) =~= Seq::<BodyFilter>::empty());
        }
        Ok(true)
    }
}

/// What dispatching a matched request through a service yields, before any
/// upstream traffic: body filters first, then incoming middleware, then the
/// forwarding plan; every failure becomes a direct response.
pub open spec fn process_spec(
    s: Service,
    upstream: Upstream,
    from: Addr,
    head: HeadV,
    body: Option<Seq<u8>>,
) -> DecisionV {
    if s.needs_body {
        match body {
            None => DecisionV::Respond(empty_response_spec(500)),
            Some(b) => match body_filters_spec(s.body_filters@, from, b) {
                Err(e) => DecisionV::Respond(empty_response_spec(status_of_spec(e))),
                Ok(passed) => if !passed {
                    match s.not_found_body_response {
                        Some(r) => DecisionV::Respond(r@),
                        None => DecisionV::Respond(empty_response_spec(403)),
                    }
                } else {
                    match (match s.middleware {
                        Some(m) => apply_incoming(m.spec_incoming(), from, head, Some(b)),
                        None => Ok((head, Some(b))),
                    }) {
                        Err(e) => DecisionV::Respond(empty_response_spec(status_of_spec(e))),
                        Ok(hb) => DecisionV::Forward { upstream, head: hb.0, body: hb.1 },
                    }
                },
            },
        }
    } else {
        match (match s.middleware {
            Some(m) => apply_incoming(m.spec_incoming(), from, head, None),
            None => Ok((head, None)),
        }) {
            Err(e) => DecisionV::Respond(empty_response_spec(status_of_spec(e))),
            Ok(hb) => DecisionV::Forward { upstream, head: hb.0, body: hb.1 },
        }
    }
}

/// What handling the upstream's response through a service yields: the
/// outgoing middleware runs over it, and a middleware failure becomes a
/// direct response.
pub open spec fn process_response_spec(
    s: Service,
    upstream: Upstream,
    from: Addr,
    head: RespHeadV,
    body: Option<Seq<u8>>,
) -> ResponseDecisionV {
    match s.middleware {
        None => ResponseDecisionV::Pass { head, body },
        Some(m) => match apply_outgoing(m.spec_outgoing(), from, upstream.address, head, body) {
            Err(e) => ResponseDecisionV::Respond(empty_response_spec(status_of_spec(e))),
            Ok(hb) => ResponseDecisionV::Pass { head: hb.0, body: hb.1 },
        },
    }
}

impl Service {
    /// Dispatches a matched request: runs the body filters over the
    /// buffered body when this service needs one, then the incoming
    /// middleware, and plans the forward to the given upstream. A rejected
    /// body answers with the canned response, or forbidden; any failure
    /// answers with its status. The caller buffers the body exactly when
    /// `needs_body` says so.
    pub fn process(
        &self,
        upstream: Upstream,
        from: &Addr,
        header: RequestHead,
        body: Option<Vec<u8>>,
    ) -> (d: Decision)
        requires
            self.wf(),
            (body is Some) == self.needs_body,
        ensures
            d@ == process_spec(*self, upstream, *from, header@, body_view(body)),
    {
        let mut head = header;
        let mut body_opt = body;
        if self.needs_body {
            let checked = match &body_opt {
                Some(b) => Service::filter_request_by_body(&self.body_filters, from, b.as_slice()),
                None => Err(ProxyError::BodyRequired),
            };
            match checked {
                Err(e) => {
                    return Decision::Respond(Response::for_error(e));
                },
                Ok(passed) => {
                    if !passed {
                        match &self.not_found_body_response {
                            Some(resp) => {
                                return Decision::Respond(resp.duplicate());
                            },
                            None => {
                                return Decision::Respond(Response::with_status(403));
                            },
                        }
                    }
                },
            }
        }
        let stepped: Result<(), ProxyError> = match &self.middleware {
            Some(m) => m.process_incoming(from, &mut head, &mut body_opt),
            None => Ok(()),
        };
        match stepped {
            Err(e) => Decision::Respond(Response::for_error(e)),
            Ok(_) => Decision::Forward { upstream, head, body: body_opt },
        }
    }

    /// Handles the upstream's response: runs the outgoing middleware over
    /// its head and, when one was buffered, its body; a middleware failure
    /// answers with its status instead. The caller buffers the response
    /// body exactly when `needs_body` says so.
    pub fn process_response(
        &self,
        upstream: Upstream,
        from: &Addr,
        header: ResponseHead,
        body: Option<Vec<u8>>,
    ) -> (d: ResponseDecision)
        requires
            self.wf(),
        ensures
            d@ == process_response_spec(*self, upstream, *from, header@, body_view(body)),
    {
        let mut head = header;
        let mut body_opt = body;
        match &self.middleware {
            None => ResponseDecision::Pass { head, body: body_opt },
            Some(m) => {
                match m.process_outgoing(from, &upstream.address, &mut head, &mut body_opt) {
                    Err(e) => ResponseDecision::Respond(Response::for_error(e)),
                    Ok(_) => ResponseDecision::Pass { head, body: body_opt },
                }
            },
        }
    }
}

/// The index of the first service whose filters match, walking the list in
/// order: an error of a service's matching ends the walk; `None` when no
/// service matches.
pub open spec fn first_match_spec(services: Seq<Service>, from: Addr, head: HeadV) -> Result<
    Option<nat>,
    ProxyError,
>
    decreases services.len(),
{
    if services.len() == 0 {
        Ok(None)
    } else {
        match match_headers_spec(services.first().filters@, from, head) {
            Err(e) => Err(e),
            Ok(found) => if found {
                Ok(Some(0))
            } else {
                match first_match_spec(services.drop_first(), from, head) {
                    Err(e) => Err(e),
                    Ok(None) => Ok(None),
                    Ok(Some(i)) => Ok(Some(i + 1)),
                }
            },
        }
    }
}

/// Walking past a prefix of mismatching services shifts the first match.
proof fn lemma_first_match_skip(services: Seq<Service>, from: Addr, head: HeadV, i: nat)
    requires
        i <= services.len(),
        forall|j: int|
            0 <= j < i ==> match_headers_spec(#[trigger] services[j].filters@, from, head) == Ok::<
                bool,
                ProxyError,
            >(false),
    ensures
        first_match_spec(services, from, head) == (match first_match_spec(
            services.skip(i as int),
            from,
            head,
        ) {
            Ok(opt) => match opt {
                Some(m) => Ok::<Option<nat>, ProxyError>(Some((m + i) as nat)),
                None => Ok(None),
            },
            Err(e) => Err(e),
        }),
    decreases i,
{
    if i == 0 {
        assert(services.skip(0) =~= services);
    } else {
        assert(services.len() > 0);
        assert(services[0].filters@ == services.first().filters@);
        let rest = services.drop_first();
        assert forall|j: int|
            0 <= j < i - 1 implies match_headers_spec(
            #[trigger] rest[j].filters@,
            from,
            head,
        ) == Ok::<bool, ProxyError>(false) by {
            assert(rest[j] == services[j + 1]);
        }
        lemma_first_match_skip(rest, from, head, (i - 1) as nat);
        assert(rest.skip(i - 1) =~= services.skip(i as int));
    }
}

/// First-match exclusivity: when routing picks a service, that service
/// matches and every service before it mismatches, so at most one service
/// handles any one request.
pub proof fn lemma_first_match_exclusive(services: Seq<Service>, from: Addr, head: HeadV)
    ensures
        first_match_spec(services, from, head) matches Ok(Some(i)) ==> i < services.len()
            && match_headers_spec(services[i as int].filters@, from, head) == Ok::<
            bool,
            ProxyError,
        >(true) && (forall|j: int|
            0 <= j < i ==> match_headers_spec(#[trigger] services[j].filters@, from, head) == Ok::<
                bool,
                ProxyError,
            >(false)),
    decreases services.len(),
{
    if services.len() > 0 {
        lemma_first_match_exclusive(services.drop_first(), from, head);
        match first_match_spec(services, from, head) {
            Ok(opt) => match opt {
                Some(i) => {
                    if i > 0 {
                        let rest = services.drop_first();
                        assert forall|j: int|
                            0 <= j < i implies match_headers_spec(
                            #[trigger] services[j].filters@,
                            from,
                            head,
                        ) == Ok::<bool, ProxyError>(false) by {
                            if j > 0 {
                                assert(rest[j - 1] == services[j]);
                            }
                        }
                        assert(services[i as int] == rest[i - 1]);
                    }
                },
                None => {},
            },
            Err(_) => {},
        }
    }
}

/// A priority-ordered list of services bound to one listening endpoint,
/// together with the peer address of the current connection.
pub struct ServiceBundle {
    /// The services, in priority order: the lowest index wins.
    pub services: Vec<Service>,
    /// The peer address of the connection this bundle is serving; set per
    /// accepted connection.
    pub from: Addr,
}

/// The same service with its load balancer advanced by one pick, and
/// nothing else changed.
pub open spec fn advanced_once(s0: Service, s1: Service) -> bool {
    &&& s1.filters == s0.filters
    &&& s1.body_filters == s0.body_filters
    &&& s1.middleware == s0.middleware
    &&& s1.not_found_body_response == s0.not_found_body_response
    &&& s1.needs_body == s0.needs_body
    &&& s1.load_balancer.spec_servers() == s0.load_balancer.spec_servers()
    &&& s1.load_balancer.spec_cursor() == rr_index(
        s0.load_balancer.spec_cursor(),
        1,
        s0.load_balancer.spec_servers().len(),
    )
}

/// What routing answers directly, for each outcome of the walk and the
/// size check.
pub enum RoutePlan {
    /// Answer the client directly; no upstream connection is opened.
    Respond(Response),
    /// Hand the request to the service at this index, forwarding to this
    /// upstream; `needs_body` says whether the request body must be fully
    /// buffered before `process` runs.
    Dispatch { index: usize, upstream: Upstream, needs_body: bool },
}

impl ServiceBundle {
    /// Every service is well formed.
    pub open spec fn wf(&self) -> bool {
        forall|i: int| 0 <= i < self.services@.len() ==> (#[trigger] self.services@[i]).wf()
    }

    /// Bundles the services in priority order. The peer address starts as a
    /// placeholder and is set per accepted connection.
    pub fn new(services: Vec<Service>) -> (b: ServiceBundle)
        requires
            forall|i: int| 0 <= i < services@.len() ==> (#[trigger] services@[i]).wf(),
        ensures
            b.wf(),
            b.services == services,
            b.from == (Addr { ip: Ip::V4(0), port: 1 }),
    {
        ServiceBundle { services, from: Addr { ip: Ip::V4(0), port: 1 } }
    }

    /// Routes one request: walks the services in order and stops at the
    /// first whose filters match. A matching error answers with its status
    /// at once; no match answers not-found; a matched request whose body
    /// size bound exceeds the cap, or is unknown, answers payload-too-large
    /// without selecting an upstream. Otherwise the matched service's load
    /// balancer picks the upstream, its cursor advances, and the request is
    /// handed over for dispatch.
    pub fn route(&mut self, header: &RequestHead, body_size_upper: Option<u64>) -> (r: RoutePlan)
        requires
            old(self).wf(),
        ensures
            final (self).wf(),
            final (self).from == old(self).from,
            ({
                let svs = old(self).services@;
                let fm = first_match_spec(svs, old(self).from, header@);
                match fm {
                    Err(e) => *final (self) == *old(self) && (r matches RoutePlan::Respond(resp)
                        && resp@ == empty_response_spec(status_of_spec(e))),
                    Ok(opt) => match opt {
                        None => *final (self) == *old(self) && (r matches RoutePlan::Respond(resp)
                            && resp@ == empty_response_spec(404)),
                        Some(i) => if !body_within_cap_spec(body_size_upper) {
                            *final (self) == *old(self) && (r matches RoutePlan::Respond(resp)
                                && resp@ == empty_response_spec(413))
                        } else {
                            r matches RoutePlan::Dispatch { index, upstream, needs_body } && {
                                &&& index as nat == i
                                &&& index < svs.len()
                                &&& needs_body == svs[index as int].needs_body
                                &&& upstream == svs[index as int].load_balancer.spec_servers()[svs[index as int].load_balancer.spec_cursor() as int]
                                &&& final (self).services@.len() == svs.len()
                                &&& forall|j: int|
                                    0 <= j < svs.len() && j != index
                                        ==> final (self).services@[j] == svs[j]
                                &&& advanced_once(
                                    svs[index as int],
                                    final (self).services@[index as int],
                                )
                            }
                        },
                    },
                }
            }),
    {
        let ghost svs = self.services@;
        let from = self.from;
        let mut i: usize = 0;
        while i < self.services.len()
            invariant
                i <= self.services.len(),
                self.services@ == svs,
                self.from == old(self).from,
                from == old(self).from,
                old(self).wf(),
                *self == *old(self),
                forall|j: int|
                    0 <= j < i ==> match_headers_spec(
                        #[trigger] svs[j].filters@,
                        from,
                        header@,
                    ) == Ok::<bool, ProxyError>(false),
            decreases self.services.len() - i,
        {
            let matched = self.services[i].filter_request_by_header(&from, header);
            proof {
                lemma_first_match_skip(svs, from, header@, i as nat);
                assert(svs.skip(i as int).first() == svs[i as int]);
                assert(svs.skip(i as int).drop_first() =~= svs.skip(i + 1));
                assert(svs.skip(i as int).len() > 0);
            }
            match matched {
                Err(e) => {
                    return RoutePlan::Respond(Response::for_error(e));
                },
                Ok(found) => {
                    if found {
                        if !body_within_cap(body_size_upper) {
                            return RoutePlan::Respond(Response::with_status(413));
                        }
                        let mut svc = self.services.remove(i);
                        let upstream = svc.get_upstream();
                        let needs_body = svc.needs_body;
                        self.services.insert(i, svc);
                        proof {
                            assert(first_match_spec(svs, from, header@) == Ok::<
                                Option<nat>,
                                ProxyError,
                            >(Some(i as nat)));
                            assert(forall|j: int|
                                0 <= j < svs.len() && j != i ==> final (self).services@[j] == svs[j]);
                            assert(advanced_once(svs[i as int], final (self).services@[i as int]));
                            assert(final (self).wf());
                        }
                        return RoutePlan::Dispatch { index: i, upstream, needs_body };
                    }
                },
            }
            i += 1;
        }
        proof {
            lemma_first_match_skip(svs, from, header@, self.services.len() as nat);
            assert(svs.skip(svs.len() as int) =~= Seq::<Service>::empty());
        }
        RoutePlan::Respond(Response::with_status(404))
    }

    /// Dispatches the request through the service that routing picked.
    pub fn process(
        &self,
        index: usize,
        upstream: Upstream,
        header: RequestHead,
        body: Option<Vec<u8>>,
    ) -> (d: Decision)
        requires
            self.wf(),
            index < self.services@.len(),
            (body is Some) == self.services@[index as int].needs_body,
        ensures
            d@ == process_spec(
                self.services@[index as int],
                upstream,
                self.from,
                header@,
                body_view(body),
            ),
    {
        self.services[index].process(upstream, &self.from, header, body)
    }

    /// Handles the upstream's response through the service that routing
    /// picked.
    pub fn process_response(
        &self,
        index: usize,
        upstream: Upstream,
        header: ResponseHead,
        body: Option<Vec<u8>>,
    ) -> (d: ResponseDecision)
        requires
            self.wf(),
            index < self.services@.len(),
        ensures
            d@ == process_response_spec(
                self.services@[index as int],
                upstream,
                self.from,
                header@,
                body_view(body),
            ),
    {
        self.services[index].process_response(upstream, &self.from, header, body)
    }
}

/// A service with no filters, no body filters and no middleware matches
/// every request, forwards head and body unchanged, and passes the
/// upstream's response through unchanged.
pub proof fn lemma_trivial_service_identity(
    s: Service,
    upstream: Upstream,
    from: Addr,
    head: HeadV,
    resp: RespHeadV,
)
    requires
        s.wf(),
        s.filters@.len() == 0,
        s.body_filters@.len() == 0,
        s.middleware is None,
    ensures
        match_headers_spec(s.filters@, from, head) == Ok::<bool, ProxyError>(true),
        process_spec(s, upstream, from, head, None) == (DecisionV::Forward {
            upstream,
            head,
            body: None::<Seq<u8>>,
        }),
        process_response_spec(s, upstream, from, resp, None) == (ResponseDecisionV::Pass {
            head: resp,
            body: None::<Seq<u8>>,
        }),
{
}

/// Streaming pass-through: a service that does not need the body never
/// buffers or replaces it; whenever it forwards, the forwarded body is the
/// client's own stream, untouched.
pub proof fn lemma_streaming_passthrough(s: Service, upstream: Upstream, from: Addr, head: HeadV)
    requires
        s.wf(),
        !s.needs_body,
    ensures
        process_spec(s, upstream, from, head, None) matches DecisionV::Forward { body, .. }
            ==> body is None,
{
    match s.middleware {
        Some(m) => {
            crate::middleware::lemma_incoming_none_body_stays(m.spec_incoming(), from, head);
        },
        None => {},
    }
}

} // verus!
