use broxy::addr::{Addr, Ip};
use broxy::load_balancer::LoadBalancer;
use broxy::message::{Method, RequestHead, ResponseHead, UriParts};
use broxy::middleware::{
    BodyOp, HeaderOp, Middleware, MiddlewareIncomingFunction, MiddlewareOutgoingFunction,
    ResponseHeaderOp,
};
use broxy::service::{ResponseDecision, Service};
use broxy::upstream::Upstream;

fn peer() -> Addr {
    Addr { ip: Ip::V4(0x0a000005), port: 40000 }
}

fn plain_head() -> RequestHead {
    RequestHead {
        method: Method::Get,
        uri: UriParts {
            scheme: None,
            host: None,
            port: None,
            path: String::from("/x"),
            query: None,
        },
        headers: vec![],
    }
}

#[test]
fn needs_body_flags_mirror_steps() {
    let with_body = Middleware::new(
        vec![
            MiddlewareIncomingFunction::Internal(HeaderOp::RemoveHeader(String::from("Cookie"))),
            MiddlewareIncomingFunction::InternalWithBody(BodyOp::Clear),
        ],
        vec![],
    );
    assert!(with_body.incoming_needs_body);
    assert!(!with_body.out_needs_body);

    let headers_only = Middleware::new(
        vec![MiddlewareIncomingFunction::Internal(HeaderOp::SetPeerHeader(String::from(
            "X-Forwarded-For",
        )))],
        vec![MiddlewareOutgoingFunction::InternalWithBody(BodyOp::Clear)],
    );
    assert!(!headers_only.incoming_needs_body);
    assert!(headers_only.out_needs_body);
}

#[test]
fn empty_middleware_is_identity() {
    // Applying no middleware leaves headers and body exactly as they were.
    let mw = Middleware::new(vec![], vec![]);
    let mut head = plain_head();
    head.headers.push((String::from("A"), String::from("1")));
    let mut body = Some(b"payload".to_vec());
    let r = mw.process_incoming(&peer(), &mut head, &mut body);
    assert!(r.is_ok());
    assert_eq!(head.headers, vec![(String::from("A"), String::from("1"))]);
    assert_eq!(body, Some(b"payload".to_vec()));

    let mut resp = ResponseHead { status: 200, headers: vec![] };
    let upstream_addr = Addr { ip: Ip::V4(0), port: 9945 };
    let mut resp_body = None;
    let r2 = mw.process_outgoing(&peer(), &upstream_addr, &mut resp, &mut resp_body);
    assert!(r2.is_ok());
    assert_eq!(resp.status, 200);
    assert!(resp.headers.is_empty());
    assert_eq!(resp_body, None);
}

#[test]
fn incoming_steps_apply_in_order() {
    let mw = Middleware::new(
        vec![
            MiddlewareIncomingFunction::Internal(HeaderOp::SetHeader(
                String::from("A"),
                String::from("first"),
            )),
            MiddlewareIncomingFunction::Internal(HeaderOp::SetHeader(
                String::from("A"),
                String::from("second"),
            )),
            MiddlewareIncomingFunction::Internal(HeaderOp::SetPeerHeader(String::from(
                "X-Forwarded-For",
            ))),
        ],
        vec![],
    );
    let mut head = plain_head();
    let mut body = None;
    let r = mw.process_incoming(&peer(), &mut head, &mut body);
    assert!(r.is_ok());
    assert_eq!(
        head.headers,
        vec![
            (String::from("A"), String::from("second")),
            (String::from("X-Forwarded-For"), String::from("10.0.0.5:40000")),
        ]
    );
}

#[test]
fn body_step_without_body_fails() {
    let mw = Middleware::new(
        vec![MiddlewareIncomingFunction::InternalWithBody(BodyOp::Clear)],
        vec![],
    );
    let mut head = plain_head();
    let mut body = None;
    let r = mw.process_incoming(&peer(), &mut head, &mut body);
    assert!(r.is_err());
}

#[test]
fn body_step_appends_bytes() {
    let mw = Middleware::new(
        vec![MiddlewareIncomingFunction::InternalWithBody(BodyOp::Append(b"!".to_vec()))],
        vec![],
    );
    let mut head = plain_head();
    let mut body = Some(b"hello".to_vec());
    let r = mw.process_incoming(&peer(), &mut head, &mut body);
    assert!(r.is_ok());
    assert_eq!(body, Some(b"hello!".to_vec()));
}

#[test]
fn reserved_middleware_step_fails() {
    let mw = Middleware::new(vec![MiddlewareIncomingFunction::External], vec![]);
    let mut head = plain_head();
    let mut body = None;
    assert!(mw.process_incoming(&peer(), &mut head, &mut body).is_err());
}

#[test]
fn outgoing_middleware_injects_peer_and_backend_headers() {
    // The response carries the peer's and the chosen upstream's address in
    // the two injected headers, with their literal text values.
    let mw = Middleware::new(
        vec![],
        vec![
            MiddlewareOutgoingFunction::Internal(ResponseHeaderOp::SetPeerHeader(String::from(
                "X-Provided-For",
            ))),
            MiddlewareOutgoingFunction::Internal(ResponseHeaderOp::SetUpstreamHeader(
                String::from("X-backend"),
            )),
        ],
    );
    let upstream = Upstream { address: Addr { ip: Ip::V4(0), port: 9945 }, use_ssl: false };
    let service = Service::new(
        vec![],
        vec![],
        Some(mw),
        LoadBalancer::new(vec![upstream]),
        None,
    );
    let resp = ResponseHead { status: 200, headers: vec![] };
    match service.process_response(upstream, &peer(), resp, None) {
        ResponseDecision::Pass { head, body } => {
            assert_eq!(
                head.headers,
                vec![
                    (String::from("X-Provided-For"), String::from("10.0.0.5:40000")),
                    (String::from("X-backend"), String::from("0.0.0.0:9945")),
                ]
            );
            assert_eq!(body, None);
        },
        ResponseDecision::Respond(_) => panic!("the middleware should have succeeded"),
    }
}

#[test]
fn failing_outgoing_middleware_gives_server_error() {
    let mw = Middleware::new(
        vec![],
        vec![MiddlewareOutgoingFunction::Internal(ResponseHeaderOp::Fail)],
    );
    let upstream = Upstream { address: Addr { ip: Ip::V4(0), port: 9945 }, use_ssl: false };
    let service = Service::new(
        vec![],
        vec![],
        Some(mw),
        LoadBalancer::new(vec![upstream]),
        None,
    );
    let resp = ResponseHead { status: 200, headers: vec![] };
    match service.process_response(upstream, &peer(), resp, None) {
        ResponseDecision::Respond(r) => assert_eq!(r.status, 500),
        ResponseDecision::Pass { .. } => panic!("a failing step must not pass the response"),
    }
}

#[test]
fn failing_incoming_middleware_gives_server_error() {
    let mw = Middleware::new(
        vec![MiddlewareIncomingFunction::Internal(HeaderOp::Fail)],
        vec![],
    );
    let upstream = Upstream { address: Addr { ip: Ip::V4(0), port: 9945 }, use_ssl: false };
    let service = Service::new(
        vec![],
        vec![],
        Some(mw),
        LoadBalancer::new(vec![upstream]),
        None,
    );
    match service.process(upstream, &peer(), plain_head(), None) {
        broxy::service::Decision::Respond(r) => assert_eq!(r.status, 500),
        broxy::service::Decision::Forward { .. } => {
            panic!("a failing step must not forward the request")
        },
    }
}

#[test]
fn step_needs_body_query() {
    assert!(MiddlewareIncomingFunction::InternalWithBody(BodyOp::Clear).needs_body());
    assert!(
        !MiddlewareIncomingFunction::Internal(HeaderOp::RemoveHeader(String::from("A")))
            .needs_body()
    );
    assert!(MiddlewareOutgoingFunction::InternalWithBody(BodyOp::Clear).needs_body());
    assert!(
        !MiddlewareOutgoingFunction::Internal(ResponseHeaderOp::RemoveHeader(String::from("A")))
            .needs_body()
    );
}

#[test]
fn peer_header_uses_v6_text_form() {
    let mw = Middleware::new(
        vec![MiddlewareIncomingFunction::Internal(HeaderOp::SetPeerHeader(String::from(
            "X-Forwarded-For",
        )))],
        vec![],
    );
    let v6_peer = Addr { ip: Ip::V6(1), port: 8080 };
    let mut head = plain_head();
    let mut body = None;
    assert!(mw.process_incoming(&v6_peer, &mut head, &mut body).is_ok());
    assert_eq!(
        head.headers,
        vec![(String::from("X-Forwarded-For"), String::from("[0:0:0:0:0:0:0:1]:8080"))]
    );
}
