use httpz::http::{HeaderMap, HeaderValue};
use httpz::ws::{decimal_string, FrameHeader, OpCode};
use httpz::{Method, Parts, Request, Server, Version};

#[test]
fn decimal_reads_back() {
    for n in [0usize, 1, 9, 10, 11, 99, 100, 12345, 1 << 40, usize::MAX] {
        assert_eq!(decimal_string(n).parse::<usize>().unwrap(), n);
    }
}

#[test]
fn header_len_between_2_and_14() {
    for mask in [None, Some([0u8; 4])] {
        let h = FrameHeader { is_final: false, rsv1: true, rsv2: false, rsv3: true, opcode: OpCode::Ping, mask };
        for n in [0u64, 125, 126, 65535, 65536, u64::MAX] {
            let len = h.len(n);
            assert!((2..=14).contains(&len));
        }
    }
}

#[test]
fn same_method_is_an_equivalence() {
    let ms = [Method::Get, Method::Head, Method::Extension("A".into()), Method::Extension("B".into())];
    for a in ms.iter() {
        assert!(a.is_same(a));
        for b in ms.iter() {
            assert_eq!(a.is_same(b), b.is_same(a));
            for c in ms.iter() {
                if a.is_same(b) && b.is_same(c) {
                    assert!(a.is_same(c));
                }
            }
        }
    }
}

#[test]
fn request_cookies_are_not_sent_back() {
    let mut headers = HeaderMap::new();
    headers.append("cookie", HeaderValue::from_static("a=1; b=2"));
    let req = Request::new(
        Parts { method: Method::Get, uri: "/".into(), version: Version::Http2, headers, extensions: httpz::http::Extensions::new() },
        vec![],
        Server::Hyper,
    );
    let jar = req.cookies();
    assert_eq!(jar.iter().count(), 2);
    assert!(httpz::cookies::set_cookie_values(&jar).is_empty());
}
