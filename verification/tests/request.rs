use httpz::cookie::{Cookie, CookieJar};
use httpz::http::{header::HeaderName, HeaderMap, HeaderValue};
use httpz::{Method, Parts, Request, Server, Version};

fn request(method: Method, uri: &str, headers: &[(&str, &[u8])]) -> Request {
    let mut map = HeaderMap::new();
    for (k, v) in headers {
        map.append(HeaderName::from_bytes(k.as_bytes()).unwrap(), HeaderValue::from_bytes(v).unwrap());
    }
    Request::new(
        Parts { method, uri: uri.to_string(), version: Version::Http11, headers: map, extensions: httpz::http::Extensions::new() },
        b"body".to_vec(),
        Server::Lambda,
    )
}

#[test]
fn accessors_give_back_the_parts() {
    let mut req = request(Method::Post, "/a?b=c", &[("x-demo", b"v")]);
    assert_eq!(req.uri(), "/a?b=c");
    assert_eq!(req.version(), Version::Http11);
    assert!(req.method().is_same(&Method::Post));
    assert_eq!(req.headers().get("x-demo").unwrap(), "v");
    assert_eq!(req.body(), &b"body".to_vec());
    assert_eq!(req.server(), Server::Lambda);
    req.headers_mut().insert("x-other", HeaderValue::from_static("w"));
    assert_eq!(req.headers().get("x-other").unwrap(), "w");
    req.parts_mut().version = Version::Http2;
    assert_eq!(req.parts().version, Version::Http2);
    req.extensions_mut().insert(5u32);
    assert_eq!(req.extensions().get::<u32>(), Some(&5));
    let (parts, body) = req.into_parts();
    assert_eq!(parts.uri, "/a?b=c");
    assert_eq!(body, b"body".to_vec());
}

#[test]
fn dangerous_clone_drops_extensions() {
    let mut req = request(Method::Extension("PURGE".into()), "/x", &[("a", b"1"), ("a", b"2")]);
    req.extensions_mut().insert(1u8);
    let copy = req._internal_dangerously_clone();
    assert!(copy.method().is_same(&Method::Extension("PURGE".into())));
    assert_eq!(copy.uri(), "/x");
    assert_eq!(copy.headers().get_all("a").iter().count(), 2);
    assert_eq!(copy.body(), req.body());
    assert!(copy.extensions().get::<u8>().is_none());
    assert_eq!(copy.extensions().len(), 0);
}

#[test]
fn query_pairs_decode_the_query() {
    let req = request(Method::Get, "/path?name=ferris&greeting=hello+world&x=%41", &[]);
    let pairs = req.query_pairs().unwrap();
    assert_eq!(
        pairs,
        vec![
            ("name".to_string(), "ferris".to_string()),
            ("greeting".to_string(), "hello world".to_string()),
            ("x".to_string(), "A".to_string()),
        ]
    );
}

#[test]
fn query_pairs_absent_or_empty() {
    assert!(request(Method::Get, "/path", &[]).query_pairs().is_none());
    assert_eq!(request(Method::Get, "/path?", &[]).query_pairs().unwrap(), vec![]);
    assert_eq!(
        request(Method::Get, "http://h/p?a=1?b", &[]).query_pairs().unwrap(),
        vec![("a".to_string(), "1?b".to_string())]
    );
}

#[test]
fn cookies_from_headers() {
    let req = request(Method::Get, "/", &[("cookie", b"a=1; b=two%20words"), ("cookie", b"a=3;c")]);
    let jar: CookieJar = req.cookies();
    assert_eq!(jar.get("a").unwrap().value(), "3");
    assert_eq!(jar.get("b").unwrap().value(), "two words");
    assert!(jar.get("c").is_none());
    assert_eq!(jar.delta().count(), 0);
}

#[test]
fn cookies_keep_the_parsed_cookie() {
    let req = request(Method::Get, "/", &[("cookie", b"a=1; b=two%20words")]);
    let jar = req.cookies();
    let a = Cookie::parse_encoded("a=1".to_string()).unwrap();
    let b = Cookie::parse_encoded(" b=two%20words".to_string()).unwrap();
    assert_eq!(jar.get("a").unwrap(), &a);
    assert_eq!(jar.get("b").unwrap(), &b);
    assert_eq!(jar.get("b").unwrap().to_string(), b.to_string());
    assert_eq!(jar.get("b").unwrap().encoded().to_string(), "b=two%20words");
}

#[test]
fn cookies_skip_values_that_are_not_visible_ascii() {
    let req = request(Method::Get, "/", &[("cookie", b"a=\xc3\xa9"), ("cookie", b"b=ok")]);
    let jar = req.cookies();
    assert!(jar.get("a").is_none());
    assert_eq!(jar.get("b").unwrap().value(), "ok");
}

#[test]
fn no_cookie_header_no_cookies() {
    let jar = request(Method::Get, "/", &[]).cookies();
    assert_eq!(jar.iter().count(), 0);
}

#[test]
fn set_cookie_values_keep_valid_delta() {
    let mut jar = CookieJar::new();
    jar.add(Cookie::new("k", "v w"));
    let mut bad = Cookie::new("bad", "x");
    bad.set_path("/\u{1}");
    jar.add(bad);
    let values = httpz::cookies::set_cookie_values(&jar);
    assert_eq!(values, vec!["k=v%20w".to_string()]);
}

#[test]
fn method_identity() {
    assert!(Method::Get.is_same(&Method::Get));
    assert!(!Method::Get.is_same(&Method::Post));
    assert!(!Method::Get.is_same(&Method::Extension("GET".into())));
    assert!(Method::Extension("X".into()).is_same(&Method::Extension("X".into())));
    assert!(Method::Patch.duplicate().is_same(&Method::Patch));
}
