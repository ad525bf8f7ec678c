use vstd::prelude::*;
use vstd::multiset::Multiset;
use vstd::string::StringExecFns;
use vstd::utf8::{encode_utf8, valid_utf8};
use crate::cookies::{jar_delta, sendable_cookie, set_cookie_values};
use crate::headers::{first_value, header_entries, header_get};
use crate::request::{Method, Request};
use crate::text::{
    ascii_bytes, ascii_lower_seq, bytes_contain, bytes_eq_ignore_ascii_case, contains_run,
    eq_ignore_ascii_case, lower_byte, str_from_utf8, valid_header_value, valid_lower_header_name,
};
use super::accept::{accept_key, sign};

verus! {

/// The status line and headers of a response whose body is empty.
#[derive(Debug)]
pub struct ResponseHead {
    /// the status code
    pub status: u16,
    /// the headers, names and values, in order
    pub headers: Vec<(String, String)>,
}

/// The headers of a response head as text.
pub open spec fn head_headers(head: ResponseHead) -> Seq<(Seq<char>, Seq<char>)> {
    head.headers@.map_values(|h: (String, String)| (h.0@, h.1@))
}

/// The first value of header `name` equals `value`, ASCII letters compared
/// without regard to case.
pub open spec fn header_is(h: Map<Seq<u8>, Seq<Seq<u8>>>, name: Seq<char>, value: Seq<char>) -> bool {
    first_value(h, ascii_bytes(name)) matches Some(v) && eq_ignore_ascii_case(v, ascii_bytes(value))
}

/// The first value of header `name` is valid UTF-8 and, once lowercased,
/// contains `value`.
pub open spec fn header_has(h: Map<Seq<u8>, Seq<Seq<u8>>>, name: Seq<char>, value: Seq<char>) -> bool {
    first_value(h, ascii_bytes(name)) matches Some(v) && valid_utf8(v) && contains_run(ascii_lower_seq(v), ascii_bytes(value))
}

/// The request asks, as RFC 6455 wants it, for a websocket: a `GET` with
/// `Connection: upgrade`, `Upgrade: websocket` and `Sec-WebSocket-Version: 13`.
pub open spec fn asks_for_websocket(req: Request) -> bool {
    let h = header_entries(req.head().headers);
    &&& req.head().method is Get
    &&& header_has(h, "connection"@, "upgrade"@)
    &&& header_is(h, "upgrade"@, "websocket"@)
    &&& header_is(h, "sec-websocket-version"@, "13"@)
}

/// The `Sec-WebSocket-Key` of the request, if it has one.
pub open spec fn websocket_key(req: Request) -> Option<Seq<u8>> {
    first_value(header_entries(req.head().headers), ascii_bytes("sec-websocket-key"@))
}

/// The status of the answer to an upgrade request: 405 for a method other
/// than `GET`, 400 where a header is missing or wrong or the server cannot
/// hand over the connection, and 101 (switching protocols) otherwise.
pub open spec fn upgrade_status(req: Request, upgrade_available: bool) -> u16 {
    if !(req.head().method is Get) {
        405
    } else if !asks_for_websocket(req) {
        400
    } else if websocket_key(req) is None {
        400
    } else if !upgrade_available {
        400
    } else {
        101
    }
}

/// The `Set-Cookie` values that an upgrade answer carries: the sendable delta
/// of the jar, if the response was made with one.
pub open spec fn expected_cookies(jar: Option<cookie::CookieJar>) -> Multiset<Seq<char>> {
    match jar {
        Some(j) => jar_delta(j).filter(|s: Seq<char>| sendable_cookie(s)),
        None => Multiset::empty(),
    }
}

/// The headers of an upgrade answer: `Set-Cookie` headers first (their order
/// is that of the jar, which is not stated), then, for 101, the three headers
/// of the handshake.
pub open spec fn upgrade_headers_ok(
    headers: Seq<(Seq<char>, Seq<char>)>,
    jar: Option<cookie::CookieJar>,
    status: u16,
    key: Option<Seq<u8>>,
) -> bool {
    let n = if status == 101 { headers.len() - 3 } else { headers.len() as int };
    &&& 0 <= n
    &&& forall|i: int| 0 <= i < n ==> (#[trigger] headers[i]).0 == "set-cookie"@
    &&& headers.take(n).map_values(|h: (Seq<char>, Seq<char>)| h.1).to_multiset() == expected_cookies(jar)
    &&& status == 101 ==> {
        &&& headers[n] == ("connection"@, "upgrade"@)
        &&& headers[n + 1] == ("upgrade"@, "websocket"@)
        &&& headers[n + 2] == ("sec-websocket-accept"@, accept_key(key->Some_0))
    }
}

/// A lowercase name literal is a valid header name.
proof fn lemma_lower_name(s: Seq<char>)
    requires
        0 < s.len() <= 64,
        forall|i: int| 0 <= i < s.len() ==> ('a' <= #[trigger] s[i] <= 'z' || s[i] == '-'),
    ensures
        valid_lower_header_name(s),
{
}

/// A string of letters is a valid header value.
proof fn lemma_ascii_header_value(s: Seq<char>)
    requires
        forall|i: int| 0 <= i < s.len() ==> ('a' <= #[trigger] s[i] <= 'z' || '0' <= s[i] <= '9'),
    ensures
        valid_header_value(encode_utf8(s)),
{
    crate::ws::accept::lemma_base64_header_value(s);
}

/// The lowercase form of every byte.
fn lower_all(v: &Vec<u8>) -> (lower: Vec<u8>)
    ensures
        lower@ == ascii_lower_seq(v@),
{
    let mut lower: Vec<u8> = Vec::new();
    let mut i: usize = 0;
    while i < v.len()
        invariant
            i <= v.len(),
            lower@ == ascii_lower_seq(v@.take(i as int)),
        decreases v.len() - i,
    {
        lower.push(lower_byte(v[i]));
        i = i + 1;
        proof {
            assert(lower@ =~= ascii_lower_seq(v@.take(i as int)));
        }
    }
    proof {
        assert(v@.take(v@.len() as int) =~= v@);
    }
    lower
}

/// Whether the first value of header `name` equals `value`, ASCII letters
/// compared without regard to case.
fn header_value_is(headers: &http::HeaderMap, name: &str, value: &str) -> (same: bool)
    requires
        valid_lower_header_name(name@),
        vstd::utf8::is_ascii_chars(value@),
    ensures
        same == header_is(header_entries(*headers), name@, value@),
{
    match header_get(headers, name) {
        Some(v) => {
            proof {
                vstd::utf8::is_ascii_chars_encode_utf8(value@);
                assert(encode_utf8(value@) =~= ascii_bytes(value@));
            }
            bytes_eq_ignore_ascii_case(v.as_slice(), value.as_bytes())
        },
        None => false,
    }
}

/// Whether the first value of header `name` is valid UTF-8 and, once
/// lowercased, contains `value`.
fn header_value_has(headers: &http::HeaderMap, name: &str, value: &str) -> (found: bool)
    requires
        valid_lower_header_name(name@),
        vstd::utf8::is_ascii_chars(value@),
    ensures
        found == header_has(header_entries(*headers), name@, value@),
{
    match header_get(headers, name) {
        Some(v) => {
            match str_from_utf8(v.as_slice()) {
                Some(_) => {
                    let lower = lower_all(&v);
                    proof {
                        vstd::utf8::is_ascii_chars_encode_utf8(value@);
                        assert(encode_utf8(value@) =~= ascii_bytes(value@));
                    }
                    bytes_contain(lower.as_slice(), value.as_bytes())
                },
                None => false,
            }
        },
        None => false,
    }
}

/// A request to upgrade to a websocket.
pub struct WebsocketUpgrade {}

/// The answer to a websocket upgrade request, not made yet: the request, the
/// handler that takes over the connection, and the cookies to set.
pub struct WebSocketUpgradeResponse<THandler> {
    req: Request,
    handler: THandler,
    cookies: Option<cookie::CookieJar>,
}

impl WebsocketUpgrade {
    /// Prepare the answer to a websocket upgrade request.
    pub fn from_req<THandler>(req: Request, handler: THandler) -> (resp: WebSocketUpgradeResponse<THandler>)
        ensures
            resp.request() == req,
            resp.handler() == handler,
            resp.jar() is None,
    {
        WebSocketUpgradeResponse { req, handler, cookies: None }
    }

    /// Prepare the answer to a websocket upgrade request that also sets the
    /// cookies of the jar.
    pub fn from_req_with_cookies<THandler>(
        req: Request,
        cookies: cookie::CookieJar,
        handler: THandler,
    ) -> (resp: WebSocketUpgradeResponse<THandler>)
        ensures
            resp.request() == req,
            resp.handler() == handler,
            resp.jar() == Some(cookies),
    {
        WebSocketUpgradeResponse { req, handler, cookies: Some(cookies) }
    }
}

impl<THandler> WebSocketUpgradeResponse<THandler> {
    /// The request to answer.
    pub closed spec fn request(&self) -> Request {
        self.req
    }

    /// The handler that takes over the connection.
    pub closed spec fn handler(&self) -> THandler {
        self.handler
    }

    /// The cookies to set, if any.
    pub closed spec fn jar(&self) -> Option<cookie::CookieJar> {
        self.cookies
    }

    /// The request to answer, to change it (the server takes its connection
    /// out of the extensions).
    pub fn request_mut(&mut self) -> (req: &mut Request)
        ensures
            *req == old(self).request(),
            final(self).request() == *final(req),
            final(self).handler() == old(self).handler(),
            final(self).jar() == old(self).jar(),
    {
        &mut self.req
    }

    /// Answer the upgrade request. `upgrade_available` tells whether the
    /// server can hand over the connection. Where the request is accepted
    /// (status 101) the request, without its `Sec-WebSocket-Key` header, and
    /// the handler come back to be run on the upgraded connection.
    pub fn into_upgrade(self, upgrade_available: bool) -> (outcome: (ResponseHead, Option<(Request, THandler)>))
        ensures
            outcome.0.status == upgrade_status(self.request(), upgrade_available),
            upgrade_headers_ok(head_headers(outcome.0), self.jar(), outcome.0.status, websocket_key(self.request())),
            forall|i: int| 0 <= i < outcome.0.headers@.len()
                ==> valid_header_value(encode_utf8((#[trigger] outcome.0.headers@[i]).1@)),
            outcome.1 is Some <==> outcome.0.status == 101,
            outcome.1 matches Some((r, h)) ==> {
                &&& h == self.handler()
                &&& r.head().method == self.request().head().method
                &&& r.head().uri == self.request().head().uri
                &&& r.head().version == self.request().head().version
                &&& r.head().extensions == self.request().head().extensions
                &&& header_entries(r.head().headers) == header_entries(self.request().head().headers).remove(
                    ascii_bytes("sec-websocket-key"@),
                )
                &&& r.payload() == self.request().payload()
                &&& r.origin() == self.request().origin()
            },
    {
        let WebSocketUpgradeResponse { mut req, handler, cookies } = self;
        let ghost req0 = req;
        let mut headers: Vec<(String, String)> = Vec::new();
        proof {
            reveal_strlit("set-cookie");
            reveal_strlit("upgrade");
            reveal_strlit("websocket");
            reveal_strlit("connection");
            reveal_strlit("sec-websocket-version");
            reveal_strlit("13");
            reveal_strlit("sec-websocket-key");
            reveal_strlit("sec-websocket-accept");
            crate::cookies::lemma_to_multiset_empty(Seq::<Seq<char>>::empty());
        }
        match &cookies {
            Some(jar) => {
                let values = set_cookie_values(jar);
                let mut i: usize = 0;
                while i < values.len()
                    invariant
                        i <= values.len(),
                        head_headers(ResponseHead { status: 0, headers }) =~= values@.take(i as int).map_values(
                            |s: String| ("set-cookie"@, s@),
                        ),
                        headers@.len() == i,
                        forall|k: int| 0 <= k < i ==> (#[trigger] headers@[k]).1@ == values@[k]@,
                    decreases values.len() - i,
                {
                    let name = String::from_str("set-cookie");
                    let value = values[i].clone();
                    let ghost before = head_headers(ResponseHead { status: 0, headers });
                    headers.push((name, value));
                    proof {
                        assert(head_headers(ResponseHead { status: 0, headers }) =~= before.push((name@, value@)));
                        assert(values@.take(i + 1) =~= values@.take(i as int).push(values@[i as int]));
                    }
                    i = i + 1;
                    proof {
                        assert(head_headers(ResponseHead { status: 0, headers }) =~= values@.take(i as int).map_values(
                            |s: String| ("set-cookie"@, s@),
                        ));
                    }
                }
                proof {
                    let hv = head_headers(ResponseHead { status: 0, headers });
                    assert(hv.map_values(|h: (Seq<char>, Seq<char>)| h.1) =~= values@.map_values(|s: String| s@));
                }
            },
            None => {
                proof {
                    let hv = head_headers(ResponseHead { status: 0, headers });
                    assert(hv.map_values(|h: (Seq<char>, Seq<char>)| h.1) =~= Seq::<Seq<char>>::empty());
                }
            },
        }
        let ghost prefix = head_headers(ResponseHead { status: 0, headers });
        proof {
            assert(prefix.take(prefix.len() as int) =~= prefix);
            assert(upgrade_headers_ok(prefix, cookies, 400, websocket_key(req0)));
            assert(upgrade_headers_ok(prefix, cookies, 405, websocket_key(req0)));
        }
        match req.method() {
            Method::Get => {},
            _ => {
                return (ResponseHead { status: 405, headers }, None);
            },
        }
        proof {
            lemma_lower_name("connection"@);
            lemma_lower_name("upgrade"@);
            lemma_lower_name("sec-websocket-version"@);
            lemma_lower_name("sec-websocket-key"@);
        }
        if !header_value_has(req.headers(), "connection", "upgrade") {
            return (ResponseHead { status: 400, headers }, None);
        }
        if !header_value_is(req.headers(), "upgrade", "websocket") {
            return (ResponseHead { status: 400, headers }, None);
        }
        if !header_value_is(req.headers(), "sec-websocket-version", "13") {
            return (ResponseHead { status: 400, headers }, None);
        }
        let key = match req.remove_header("sec-websocket-key") {
            Some(key) => key,
            None => {
                return (ResponseHead { status: 400, headers }, None);
            },
        };
        if !upgrade_available {
            return (ResponseHead { status: 400, headers }, None);
        }
        let accept = sign(key.as_slice());
        headers.push((String::from_str("connection"), String::from_str("upgrade")));
        headers.push((String::from_str("upgrade"), String::from_str("websocket")));
        headers.push((String::from_str("sec-websocket-accept"), accept));
        proof {
            let hv = head_headers(ResponseHead { status: 101, headers });
            assert(hv.take(hv.len() - 3) =~= prefix);
            assert(hv.len() - 3 == prefix.len());
            assert(hv[prefix.len() as int] == ("connection"@, "upgrade"@));
            assert(hv[prefix.len() as int + 1] == ("upgrade"@, "websocket"@));
            assert(key@ == websocket_key(req0)->Some_0);
            assert(hv[prefix.len() as int + 2] == ("sec-websocket-accept"@, accept_key(websocket_key(req0)->Some_0)));
            assert forall|i: int| 0 <= i < prefix.len() implies (#[trigger] hv[i]).0 == "set-cookie"@ by {
                assert(hv[i] == hv.take(hv.len() - 3)[i]);
                assert(prefix[i].0 == "set-cookie"@);
            }
            lemma_ascii_header_value("upgrade"@);
            lemma_ascii_header_value("websocket"@);
        }
        (ResponseHead { status: 101, headers }, Some((req, handler)))
    }
}

} // verus!
