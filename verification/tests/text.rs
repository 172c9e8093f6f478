use broxy::addr::{addr_text, Addr, Ip};
use broxy::headers::{get_header, remove_header, set_header};
use broxy::json::json_get_text_field;
use broxy::message::UriParts;
use broxy::pattern::Pattern;
use broxy::utils::combine_uris;

#[test]
fn v4_address_text() {
    let a = Addr { ip: Ip::V4(0x0a000005), port: 40000 };
    assert_eq!(addr_text(&a), "10.0.0.5:40000");
    let b = Addr { ip: Ip::V4(0), port: 1 };
    assert_eq!(addr_text(&b), "0.0.0.0:1");
    let c = Addr { ip: Ip::V4(0xffffffff), port: 65535 };
    assert_eq!(addr_text(&c), "255.255.255.255:65535");
}

#[test]
fn v6_address_text() {
    let a = Addr { ip: Ip::V6(1), port: 80 };
    assert_eq!(addr_text(&a), "[0:0:0:0:0:0:0:1]:80");
    let b = Addr { ip: Ip::V6(0x20010db8_00000000_00000000_00000001), port: 443 };
    assert_eq!(addr_text(&b), "[2001:db8:0:0:0:0:0:1]:443");
}

#[test]
fn pattern_matching_follows_source() {
    let p = Pattern::new(String::from("^a+$")).unwrap();
    assert!(p.is_match("aaa"));
    assert!(!p.is_match("ab"));
    assert!(Pattern::new(String::from("foo(bar")).is_none());
}

#[test]
fn json_field_lookup() {
    assert_eq!(
        json_get_text_field(b"{\"method\":\"eth_call\"}", "method"),
        Ok(Some(String::from("eth_call")))
    );
    assert_eq!(json_get_text_field(b"{\"other\":1}", "method"), Ok(None));
    assert_eq!(json_get_text_field(b"{\"method\":5}", "method"), Ok(None));
    assert!(json_get_text_field(b"not json", "method").is_err());
}

#[test]
fn header_list_operations() {
    let mut headers = vec![
        (String::from("A"), String::from("1")),
        (String::from("B"), String::from("2")),
        (String::from("A"), String::from("3")),
    ];
    assert_eq!(get_header(&headers, &String::from("A")), Some(String::from("1")));
    set_header(&mut headers, &String::from("A"), String::from("9"));
    assert_eq!(
        headers,
        vec![
            (String::from("B"), String::from("2")),
            (String::from("A"), String::from("9")),
        ]
    );
    remove_header(&mut headers, &String::from("B"));
    assert_eq!(headers, vec![(String::from("A"), String::from("9"))]);
    assert_eq!(get_header(&headers, &String::from("B")), None);
}

#[test]
fn combine_uris_joins_paths_and_query() {
    let base = UriParts {
        scheme: Some(String::from("https")),
        host: Some(String::from("example.com")),
        port: None,
        path: String::from("/api"),
        query: None,
    };
    let append = UriParts {
        scheme: None,
        host: None,
        port: None,
        path: String::from("/users"),
        query: Some(String::from("page=1")),
    };
    assert_eq!(combine_uris(&base, &append), "https://example.com/api/users?page=1");
}

#[test]
fn combine_uris_trims_extra_slashes() {
    let base = UriParts {
        scheme: None,
        host: None,
        port: None,
        path: String::from("/api///"),
        query: None,
    };
    let append = UriParts {
        scheme: None,
        host: None,
        port: None,
        path: String::from("///users"),
        query: None,
    };
    assert_eq!(combine_uris(&base, &append), "/api/users");
}

#[test]
fn combine_uris_keeps_port_in_authority() {
    let base = UriParts {
        scheme: Some(String::from("http")),
        host: Some(String::from("localhost")),
        port: Some(8080),
        path: String::from("/"),
        query: None,
    };
    let append = UriParts {
        scheme: None,
        host: None,
        port: None,
        path: String::from("health"),
        query: Some(String::from("")),
    };
    assert_eq!(combine_uris(&base, &append), "http://localhost:8080/health");
}
