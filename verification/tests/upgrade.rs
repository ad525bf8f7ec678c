use httpz::cookie::{Cookie, CookieJar};
use httpz::http::{header::HeaderName, HeaderMap, HeaderValue};
use httpz::ws::{sign, WebsocketUpgrade};
use httpz::{Method, Parts, Request, Server, Version};

fn request(method: Method, headers: &[(&str, &str)]) -> Request {
    let mut map = HeaderMap::new();
    for (k, v) in headers {
        map.append(HeaderName::from_bytes(k.as_bytes()).unwrap(), HeaderValue::from_str(v).unwrap());
    }
    Request::new(
        Parts { method, uri: "/ws".to_string(), version: Version::Http11, headers: map, extensions: httpz::http::Extensions::new() },
        vec![],
        Server::Axum,
    )
}

const KEY: &str = "dGhlIHNhbXBsZSBub25jZQ==";

fn good() -> Vec<(&'static str, &'static str)> {
    vec![
        ("connection", "Upgrade"),
        ("upgrade", "websocket"),
        ("sec-websocket-version", "13"),
        ("sec-websocket-key", KEY),
    ]
}

fn pairs(head: &httpz::ws::ResponseHead) -> Vec<(&str, &str)> {
    head.headers.iter().map(|(k, v)| (k.as_str(), v.as_str())).collect()
}

#[test]
fn accept_key_of_rfc_example() {
    assert_eq!(sign(KEY.as_bytes()), "s3pPLMBiTxaQ9kYGzzhZRbK+xOo=");
    assert_eq!(sign(b"").len(), 28);
    assert_eq!(sign(&[0xffu8; 300]).len(), 28);
}

#[test]
fn handshake_accepts() {
    let (head, accepted) = WebsocketUpgrade::from_req(request(Method::Get, &good()), 7u8).into_upgrade(true);
    assert_eq!(head.status, 101);
    assert_eq!(
        pairs(&head),
        vec![("connection", "upgrade"), ("upgrade", "websocket"), ("sec-websocket-accept", "s3pPLMBiTxaQ9kYGzzhZRbK+xOo=")]
    );
    let (req, handler) = accepted.unwrap();
    assert_eq!(handler, 7u8);
    assert!(req.headers().get("sec-websocket-key").is_none());
    assert_eq!(req.headers().get("upgrade").unwrap(), "websocket");
}

#[test]
fn handshake_ignores_case_and_finds_upgrade_in_a_list() {
    let headers = vec![
        ("connection", "keep-alive, UPGRADE"),
        ("upgrade", "WebSocket"),
        ("sec-websocket-version", "13"),
        ("sec-websocket-key", KEY),
    ];
    let (head, accepted) = WebsocketUpgrade::from_req(request(Method::Get, &headers), ()).into_upgrade(true);
    assert_eq!(head.status, 101);
    assert!(accepted.is_some());
}

#[test]
fn handshake_refuses_other_methods() {
    let (head, accepted) = WebsocketUpgrade::from_req(request(Method::Post, &good()), ()).into_upgrade(true);
    assert_eq!(head.status, 405);
    assert!(head.headers.is_empty());
    assert!(accepted.is_none());
}

#[test]
fn handshake_refuses_missing_or_wrong_headers() {
    for drop in 0..4 {
        let headers: Vec<_> = good().into_iter().enumerate().filter(|(i, _)| *i != drop).map(|(_, h)| h).collect();
        let (head, accepted) = WebsocketUpgrade::from_req(request(Method::Get, &headers), ()).into_upgrade(true);
        assert_eq!(head.status, 400);
        assert!(accepted.is_none());
    }
    let mut wrong = good();
    wrong[2] = ("sec-websocket-version", "12");
    let (head, _) = WebsocketUpgrade::from_req(request(Method::Get, &wrong), ()).into_upgrade(true);
    assert_eq!(head.status, 400);
    let mut wrong = good();
    wrong[1] = ("upgrade", "websockets");
    let (head, _) = WebsocketUpgrade::from_req(request(Method::Get, &wrong), ()).into_upgrade(true);
    assert_eq!(head.status, 400);
}

#[test]
fn handshake_needs_an_upgradable_connection() {
    let (head, accepted) = WebsocketUpgrade::from_req(request(Method::Get, &good()), ()).into_upgrade(false);
    assert_eq!(head.status, 400);
    assert!(accepted.is_none());
}

#[test]
fn handshake_sets_cookies_first() {
    let mut jar = CookieJar::new();
    jar.add(Cookie::new("session", "abc"));
    let (head, _) = WebsocketUpgrade::from_req_with_cookies(request(Method::Get, &good()), jar, ()).into_upgrade(true);
    assert_eq!(head.status, 101);
    assert_eq!(head.headers.len(), 4);
    assert_eq!(pairs(&head)[0], ("set-cookie", "session=abc"));
    let mut jar = CookieJar::new();
    jar.add(Cookie::new("s", "1"));
    let (head, _) = WebsocketUpgrade::from_req_with_cookies(request(Method::Put, &good()), jar, ()).into_upgrade(true);
    assert_eq!(head.status, 405);
    assert_eq!(pairs(&head), vec![("set-cookie", "s=1")]);
}
