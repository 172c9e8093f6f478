use broxy::addr::{Addr, Ip};
use broxy::error::ProxyError;
use broxy::filter::{BodyFilter, BodyPredicate, Filter};
use broxy::limits::body_within_cap;
use broxy::load_balancer::LoadBalancer;
use broxy::message::{Method, RequestHead, UriParts};
use broxy::pattern::Pattern;
use broxy::service::{Decision, RoutePlan, Service, ServiceBundle};
use broxy::upstream::Upstream;

fn upstream_at(port: u16) -> Upstream {
    Upstream { address: Addr { ip: Ip::V4(0), port }, use_ssl: false }
}

fn peer() -> Addr {
    Addr { ip: Ip::V4(0x0a000005), port: 40000 }
}

fn get_request(path: &str) -> RequestHead {
    RequestHead {
        method: Method::Get,
        uri: UriParts {
            scheme: None,
            host: None,
            port: None,
            path: String::from(path),
            query: None,
        },
        headers: vec![],
    }
}

fn post_request(path: &str) -> RequestHead {
    RequestHead { method: Method::Post, ..get_request(path) }
}

fn no_filter_service(ports: &[u16]) -> Service {
    let servers: Vec<Upstream> = ports.iter().map(|p| upstream_at(*p)).collect();
    Service::new(vec![], vec![], None, LoadBalancer::new(servers), None)
}

#[test]
fn body_cap_boundaries() {
    // A bound of exactly the cap is admitted; one past it is not; an
    // unknown bound is not.
    assert!(body_within_cap(Some(65536)));
    assert!(!body_within_cap(Some(65537)));
    assert!(!body_within_cap(None));
}

#[test]
fn round_robin_through_bundle() {
    // Five requests against servers A:9944, B:9945, C:9946 go A, B, C, A, B.
    let service = no_filter_service(&[9944, 9945, 9946]);
    let mut bundle = ServiceBundle::new(vec![service]);
    bundle.from = peer();

    let mut ports = vec![];
    for _ in 0..5 {
        match bundle.route(&get_request("/x"), Some(0)) {
            RoutePlan::Dispatch { upstream, .. } => ports.push(upstream.address.port),
            RoutePlan::Respond(_) => panic!("request should have been dispatched"),
        }
    }
    assert_eq!(ports, vec![9944, 9945, 9946, 9944, 9945]);
}

#[test]
fn body_filter_rejection_gives_forbidden() {
    // A POST whose JSON body names a denied method is rejected with 403
    // before any upstream is involved.
    let filters = vec![Filter::Method(Method::Post)];
    let body_filters = vec![BodyFilter::InternalFullBody(
        BodyPredicate::JsonTextFieldNotDenied {
            field: String::from("method"),
            denied: vec![
                String::from("eth_sendTransaction"),
                String::from("eth_sendRawTransaction"),
            ],
        },
    )];
    let service = Service::new(
        filters,
        body_filters,
        None,
        LoadBalancer::new(vec![upstream_at(9944)]),
        None,
    );
    let mut bundle = ServiceBundle::new(vec![service]);
    bundle.from = peer();

    let body = b"{\"method\":\"eth_sendTransaction\"}".to_vec();
    let plan = bundle.route(&post_request("/"), Some(body.len() as u64));
    match plan {
        RoutePlan::Dispatch { index, upstream, needs_body } => {
            assert!(needs_body);
            match bundle.process(index, upstream, post_request("/"), Some(body)) {
                Decision::Respond(resp) => assert_eq!(resp.status, 403),
                Decision::Forward { .. } => panic!("rejected body must not be forwarded"),
            }
        },
        RoutePlan::Respond(_) => panic!("the POST should have matched"),
    }
}

#[test]
fn body_filter_acceptance_forwards_buffered_body() {
    let filters = vec![Filter::Method(Method::Post)];
    let body_filters = vec![BodyFilter::InternalFullBody(
        BodyPredicate::JsonTextFieldNotDenied {
            field: String::from("method"),
            denied: vec![String::from("eth_sendTransaction")],
        },
    )];
    let service = Service::new(
        filters,
        body_filters,
        None,
        LoadBalancer::new(vec![upstream_at(9944)]),
        None,
    );
    let mut bundle = ServiceBundle::new(vec![service]);
    bundle.from = peer();

    let body = b"{\"method\":\"eth_call\"}".to_vec();
    let plan = bundle.route(&post_request("/"), Some(body.len() as u64));
    match plan {
        RoutePlan::Dispatch { index, upstream, .. } => {
            match bundle.process(index, upstream, post_request("/"), Some(body.clone())) {
                Decision::Forward { body: forwarded, .. } => {
                    assert_eq!(forwarded, Some(body));
                },
                Decision::Respond(_) => panic!("an accepted body must be forwarded"),
            }
        },
        RoutePlan::Respond(_) => panic!("the POST should have matched"),
    }
}

#[test]
fn size_cap_rejects_large_payload() {
    // A declared length of 100000 answers 413 without an upstream pick.
    let filters = vec![Filter::Method(Method::Post)];
    let service = Service::new(
        filters,
        vec![],
        None,
        LoadBalancer::new(vec![upstream_at(9944)]),
        None,
    );
    let mut bundle = ServiceBundle::new(vec![service]);
    bundle.from = peer();

    match bundle.route(&post_request("/"), Some(100000)) {
        RoutePlan::Respond(resp) => assert_eq!(resp.status, 413),
        RoutePlan::Dispatch { .. } => panic!("an oversized payload must not be dispatched"),
    }
}

#[test]
fn unknown_body_bound_rejected() {
    let service = no_filter_service(&[9944]);
    let mut bundle = ServiceBundle::new(vec![service]);
    bundle.from = peer();

    match bundle.route(&get_request("/x"), None) {
        RoutePlan::Respond(resp) => assert_eq!(resp.status, 413),
        RoutePlan::Dispatch { .. } => panic!("an unknown bound must not be dispatched"),
    }
}

#[test]
fn no_match_gives_not_found() {
    // Only a /login service exists; GET /healthz answers 404.
    let filters = vec![Filter::Path(Pattern::new(String::from("/login")).unwrap())];
    let service = Service::new(
        filters,
        vec![],
        None,
        LoadBalancer::new(vec![upstream_at(9944)]),
        None,
    );
    let mut bundle = ServiceBundle::new(vec![service]);
    bundle.from = peer();

    match bundle.route(&get_request("/healthz"), Some(0)) {
        RoutePlan::Respond(resp) => assert_eq!(resp.status, 404),
        RoutePlan::Dispatch { .. } => panic!("nothing should have matched"),
    }
}

#[test]
fn first_match_wins_over_more_specific() {
    // S1 matches /api/.* and S2 the more specific /api/user; declaration
    // order decides, so /api/user goes to S1's upstream.
    let s1 = Service::new(
        vec![Filter::Path(Pattern::new(String::from("/api/.*")).unwrap())],
        vec![],
        None,
        LoadBalancer::new(vec![upstream_at(9001)]),
        None,
    );
    let s2 = Service::new(
        vec![Filter::Path(Pattern::new(String::from("/api/user")).unwrap())],
        vec![],
        None,
        LoadBalancer::new(vec![upstream_at(9002)]),
        None,
    );
    let mut bundle = ServiceBundle::new(vec![s1, s2]);
    bundle.from = peer();

    match bundle.route(&get_request("/api/user"), Some(0)) {
        RoutePlan::Dispatch { index, upstream, .. } => {
            assert_eq!(index, 0);
            assert_eq!(upstream.address.port, 9001);
        },
        RoutePlan::Respond(_) => panic!("the request should have matched"),
    }
}

#[test]
fn missing_host_on_host_filter_gives_server_error() {
    // A host filter over a request without a host is a matching error and
    // answers 500 at once.
    let filters = vec![Filter::Host(Pattern::new(String::from("example\\.com")).unwrap())];
    let service = Service::new(
        filters,
        vec![],
        None,
        LoadBalancer::new(vec![upstream_at(9944)]),
        None,
    );
    let mut bundle = ServiceBundle::new(vec![service]);
    bundle.from = peer();

    match bundle.route(&get_request("/x"), Some(0)) {
        RoutePlan::Respond(resp) => assert_eq!(resp.status, 500),
        RoutePlan::Dispatch { .. } => panic!("a matching error must not dispatch"),
    }
}

#[test]
fn parallel_filters_swallow_errors() {
    // More than five filters run in parallel; there a filter error counts
    // as a mismatch, not as an error.
    let mut filters = vec![];
    for _ in 0..6 {
        filters.push(Filter::Host(Pattern::new(String::from(".*")).unwrap()));
    }
    let service = Service::new(
        filters,
        vec![],
        None,
        LoadBalancer::new(vec![upstream_at(9944)]),
        None,
    );
    // The request has no host, so each filter errs; in parallel mode the
    // overall answer is a clean mismatch.
    let r = service.filter_request_by_header(&peer(), &get_request("/x"));
    assert_eq!(r, Ok(false));
}

#[test]
fn parallel_filters_all_pass() {
    let mut filters = vec![];
    for _ in 0..6 {
        filters.push(Filter::Method(Method::Get));
    }
    let service = Service::new(
        filters,
        vec![],
        None,
        LoadBalancer::new(vec![upstream_at(9944)]),
        None,
    );
    let r = service.filter_request_by_header(&peer(), &get_request("/x"));
    assert_eq!(r, Ok(true));

    let r2 = service.filter_request_by_header(&peer(), &post_request("/x"));
    assert_eq!(r2, Ok(false));
}

#[test]
fn ip_allow_and_deny_lists() {
    let me = peer();
    let listed = vec![Ip::V4(0x0a000005)];
    let deny = Filter::BlackList(listed.clone());
    let allow = Filter::WhiteList(listed);
    let head = get_request("/x");
    assert_eq!(deny.filter(&me, &head), Ok(false));
    assert_eq!(allow.filter(&me, &head), Ok(true));

    let other = Addr { ip: Ip::V4(0x0a000006), port: 40000 };
    assert_eq!(deny.filter(&other, &head), Ok(true));
    assert_eq!(allow.filter(&other, &head), Ok(false));
}

#[test]
fn custom_body_reject_response_is_used() {
    // When a body filter rejects and a canned response is configured, that
    // response is returned instead of the plain 403.
    let mut canned = broxy::message::Response::with_status(451);
    canned.body = b"blocked".to_vec();
    let service = Service::new(
        vec![],
        vec![BodyFilter::InternalFullBody(BodyPredicate::Always(false))],
        None,
        LoadBalancer::new(vec![upstream_at(9944)]),
        Some(canned),
    );
    let mut bundle = ServiceBundle::new(vec![service]);
    bundle.from = peer();

    match bundle.route(&get_request("/x"), Some(4)) {
        RoutePlan::Dispatch { index, upstream, needs_body } => {
            assert!(needs_body);
            match bundle.process(index, upstream, get_request("/x"), Some(b"data".to_vec())) {
                Decision::Respond(resp) => {
                    assert_eq!(resp.status, 451);
                    assert_eq!(resp.body, b"blocked".to_vec());
                },
                Decision::Forward { .. } => panic!("rejected body must not be forwarded"),
            }
        },
        RoutePlan::Respond(_) => panic!("the request should have matched"),
    }
}

#[test]
fn invalid_json_body_gives_server_error() {
    let service = Service::new(
        vec![],
        vec![BodyFilter::InternalFullBody(BodyPredicate::JsonTextFieldNotDenied {
            field: String::from("method"),
            denied: vec![],
        })],
        None,
        LoadBalancer::new(vec![upstream_at(9944)]),
        None,
    );
    let mut bundle = ServiceBundle::new(vec![service]);
    bundle.from = peer();
    match bundle.route(&get_request("/x"), Some(8)) {
        RoutePlan::Dispatch { index, upstream, .. } => {
            match bundle.process(index, upstream, get_request("/x"), Some(b"not json".to_vec())) {
                Decision::Respond(resp) => assert_eq!(resp.status, 500),
                Decision::Forward { .. } => panic!("a failing body filter must not forward"),
            }
        },
        RoutePlan::Respond(_) => panic!("the request should have matched"),
    }
}

#[test]
fn reserved_body_filter_fails() {
    let f = BodyFilter::External;
    assert!(f.filter(&peer(), b"x").is_err());
    assert!(!f.use_async());
    let s = BodyFilter::InternalIncoming;
    assert!(s.filter(&peer(), b"x").is_err());
    assert!(s.use_async());
}

#[test]
fn error_kinds_map_to_documented_statuses() {
    assert_eq!(ProxyError::BadRequest.status(), 500);
    assert_eq!(ProxyError::FilterFailure.status(), 500);
    assert_eq!(ProxyError::BodyRequired.status(), 500);
    assert_eq!(ProxyError::BodyTooLarge.status(), 413);
    assert_eq!(ProxyError::BodyRejected.status(), 403);
    assert_eq!(ProxyError::MiddlewareFailure.status(), 500);
    assert_eq!(ProxyError::UpstreamUnavailable.status(), 502);
    assert_eq!(ProxyError::NotImplemented.status(), 500);
    assert_eq!(ProxyError::NoMatch.status(), 404);
}

#[test]
fn trivial_service_forwards_unchanged() {
    // No filters, no body filters, no middleware: the request matches and
    // is forwarded with its head untouched and its body streamed through.
    let service = no_filter_service(&[9944]);
    let mut bundle = ServiceBundle::new(vec![service]);
    bundle.from = peer();

    let mut head = get_request("/anything");
    head.headers.push((String::from("Accept"), String::from("*/*")));
    match bundle.route(&head, Some(0)) {
        RoutePlan::Dispatch { index, upstream, needs_body } => {
            assert!(!needs_body);
            let mut again = get_request("/anything");
            again.headers.push((String::from("Accept"), String::from("*/*")));
            match bundle.process(index, upstream, again, None) {
                Decision::Forward { head: fwd, body, .. } => {
                    assert_eq!(fwd.method, Method::Get);
                    assert_eq!(fwd.uri.path, "/anything");
                    assert_eq!(
                        fwd.headers,
                        vec![(String::from("Accept"), String::from("*/*"))]
                    );
                    assert_eq!(body, None);
                },
                Decision::Respond(_) => panic!("a trivial service must forward"),
            }
        },
        RoutePlan::Respond(_) => panic!("a trivial service matches everything"),
    }
}
