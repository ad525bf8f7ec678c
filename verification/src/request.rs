use vstd::prelude::*;
use vstd::utf8::encode_utf8;
use crate::cookies::{cookie_jar_new, cookie_parse_encoded, jar_add_parsed, jar_delta, jar_received};
use crate::headers::{
    all_values, extension_count, extensions_new, first_value, header_entries, header_get_all, header_map_clone, header_remove,
};
use crate::server::Server;
use crate::text::{valid_lower_header_name, ascii_bytes, ascii_chars, is_visible_ascii, lemma_ascii_utf8, str_from_utf8, is_ascii_bytes};

verus! {

/// The request method. The standard methods have a variant each; any other
/// method is held by its name.
#[derive(Debug, Clone, PartialEq, Eq)]
pub enum Method {
    /// `OPTIONS`
    Options,
    /// `GET`
    Get,
    /// `POST`
    Post,
    /// `PUT`
    Put,
    /// `DELETE`
    Delete,
    /// `HEAD`
    Head,
    /// `TRACE`
    Trace,
    /// `CONNECT`
    Connect,
    /// `PATCH`
    Patch,
    /// a method outside the standard ones
    Extension(String),
}

/// Two methods are the same: the same standard method, or two other methods of
/// the same name.
pub open spec fn same_method(a: Method, b: Method) -> bool {
    match (a, b) {
        (Method::Extension(x), Method::Extension(y)) => x@ == y@,
        (Method::Extension(_), _) => false,
        (_, Method::Extension(_)) => false,
        _ => a == b,
    }
}

impl Method {
    /// Whether `self` and `other` are the same method.
    pub fn is_same(&self, other: &Method) -> (same: bool)
        ensures
            same == same_method(*self, *other),
    {
        match (self, other) {
            (Method::Extension(x), Method::Extension(y)) => x.eq(y),
            (Method::Extension(_), _) => false,
            (_, Method::Extension(_)) => false,
            (Method::Options, Method::Options) => true,
            (Method::Get, Method::Get) => true,
            (Method::Post, Method::Post) => true,
            (Method::Put, Method::Put) => true,
            (Method::Delete, Method::Delete) => true,
            (Method::Head, Method::Head) => true,
            (Method::Trace, Method::Trace) => true,
            (Method::Connect, Method::Connect) => true,
            (Method::Patch, Method::Patch) => true,
            _ => false,
        }
    }

    /// A copy of the method.
    pub fn duplicate(&self) -> (copy: Method)
        ensures
            same_method(copy, *self),
    {
        match self {
            Method::Options => Method::Options,
            Method::Get => Method::Get,
            Method::Post => Method::Post,
            Method::Put => Method::Put,
            Method::Delete => Method::Delete,
            Method::Head => Method::Head,
            Method::Trace => Method::Trace,
            Method::Connect => Method::Connect,
            Method::Patch => Method::Patch,
            Method::Extension(name) => Method::Extension(name.clone()),
        }
    }
}

/// The HTTP version of a request.
#[derive(Debug, Clone, Copy, PartialEq, Eq, Structural)]
pub enum Version {
    /// HTTP/0.9
    Http09,
    /// HTTP/1.0
    Http10,
    /// HTTP/1.1
    Http11,
    /// HTTP/2
    Http2,
    /// HTTP/3
    Http3,
}

/// The head of a request: everything but its body.
#[derive(Debug)]
pub struct Parts {
    /// the request method
    pub method: Method,
    /// the request target, written out
    pub uri: String,
    /// the HTTP version
    pub version: Version,
    /// the request headers
    pub headers: http::HeaderMap,
    /// the extensions that the server attached to the request
    pub extensions: http::Extensions,
}

/// Represent a HTTP request
#[derive(Debug)]
pub struct Request(Parts, Vec<u8>, Server);


/// The index of the first `b` in `s`, or the length of `s` where `b` does not occur.
pub open spec fn first_index_of(s: Seq<u8>, b: u8) -> int
    decreases s.len(),
{
    if s.len() == 0 {
        0
    } else if s[0] == b {
        0
    } else {
        1 + first_index_of(s.drop_first(), b)
    }
}

/// `first_index_of` is the index of the first occurrence, or the length.
pub proof fn lemma_first_index_of(s: Seq<u8>, b: u8, i: int)
    requires
        0 <= i <= s.len(),
        forall|k: int| 0 <= k < i ==> s[k] != b,
        i == s.len() || s[i] == b,
    ensures
        first_index_of(s, b) == i,
    decreases s.len(),
{
    if s.len() > 0 && i > 0 {
        assert forall|k: int| 0 <= k < i - 1 implies s.drop_first()[k] != b by {
            assert(s.drop_first()[k] == s[k + 1]);
        }
        lemma_first_index_of(s.drop_first(), b, i - 1);
    }
}

/// `first_index_of` lies between 0 and the length.
pub proof fn lemma_first_index_bounds(s: Seq<u8>, b: u8)
    ensures
        0 <= first_index_of(s, b) <= s.len(),
        first_index_of(s, b) < s.len() ==> s[first_index_of(s, b)] == b,
        forall|k: int| 0 <= k < first_index_of(s, b) ==> s[k] != b,
    decreases s.len(),
{
    if s.len() > 0 && s[0] != b {
        lemma_first_index_bounds(s.drop_first(), b);
        assert forall|k: int| 0 <= k < first_index_of(s, b) implies s[k] != b by {
            if k > 0 {
                assert(s[k] == s.drop_first()[k - 1]);
            }
        }
    }
}

/// The query of a request target: what follows its first `?`, as `Uri::query`
/// gives it (the fragment never reaches a server).
pub open spec fn uri_query(uri: Seq<u8>) -> Option<Seq<u8>> {
    let i = first_index_of(uri, '?' as u8);
    if i < uri.len() {
        Some(uri.skip(i + 1))
    } else {
        None
    }
}

/// The jar of received cookies after one piece of a `Cookie` header was parsed.
pub open spec fn add_cookie_piece(jar: Map<Seq<char>, Seq<char>>, piece: Seq<u8>) -> Map<Seq<char>, Seq<char>> {
    match cookie_parse_encoded(ascii_chars(piece)) {
        Some((name, value)) => jar.insert(name, value),
        None => jar,
    }
}

/// The jar after every `;`-separated piece of `s` was parsed, from left to right.
pub open spec fn add_cookie_pieces(jar: Map<Seq<char>, Seq<char>>, s: Seq<u8>) -> Map<Seq<char>, Seq<char>>
    decreases s.len(),
{
    let i = first_index_of(s, ';' as u8);
    if i < s.len() {
        proof {
            lemma_first_index_bounds(s, ';' as u8);
        }
        add_cookie_pieces(add_cookie_piece(jar, s.take(i)), s.skip(i + 1))
    } else {
        add_cookie_piece(jar, s)
    }
}

/// Every byte is one that `HeaderValue::to_str` accepts.
pub open spec fn all_visible_ascii(s: Seq<u8>) -> bool {
    forall|i: int| 0 <= i < s.len() ==> is_visible_ascii(#[trigger] s[i])
}

/// The jar after one `Cookie` header value: its pieces where the value is
/// visible ASCII, nothing where it is not.
pub open spec fn add_cookie_header(jar: Map<Seq<char>, Seq<char>>, value: Seq<u8>) -> Map<Seq<char>, Seq<char>> {
    if all_visible_ascii(value) {
        add_cookie_pieces(jar, value)
    } else {
        jar
    }
}

/// The received cookies of a request with the given `Cookie` header values, in
/// the order of the headers: a later cookie of a name replaces an earlier one.
pub open spec fn request_cookies(values: Seq<Seq<u8>>) -> Map<Seq<char>, Seq<char>> {
    values.fold_left(Map::empty(), |jar: Map<Seq<char>, Seq<char>>, v: Seq<u8>| add_cookie_header(jar, v))
}

/// The bytes of the header name `cookie`.
pub open spec fn cookie_header_name() -> Seq<u8> {
    seq!['c' as u8, 'o' as u8, 'o' as u8, 'k' as u8, 'i' as u8, 'e' as u8]
}

/// What `form_urlencoded::parse` yields for a query: its name and value pairs,
/// decoded.
pub uninterp spec fn form_urlencoded_parse(input: Seq<u8>) -> Seq<(Seq<char>, Seq<char>)>;

/// `form_urlencoded::parse`, each pair handed out as owned strings.
#[verifier::external_body]
fn form_urlencoded_pairs(input: &[u8]) -> (pairs: Vec<(String, String)>)
    ensures
        pairs@.map_values(|p: (String, String)| (p.0@, p.1@)) == form_urlencoded_parse(input@),
{
    form_urlencoded::parse(input).map(|(k, v)| (k.into_owned(), v.into_owned())).collect()
}

/// Parses the `;`-separated pieces of one visible-ASCII `Cookie` header value
/// into the jar's received cookies.
fn add_cookie_value(jar: &mut cookie::CookieJar, value: &Vec<u8>)
    requires
        all_visible_ascii(value@),
    ensures
        jar_received(*final(jar)) == add_cookie_pieces(jar_received(*old(jar)), value@),
        jar_delta(*final(jar)) == jar_delta(*old(jar)),
{
    let ghost target = add_cookie_pieces(jar_received(*old(jar)), value@);
    let mut piece: Vec<u8> = Vec::new();
    let mut start: usize = 0;
    assert(value@.skip(0) =~= value@);
    let mut i: usize = 0;
    while i < value.len()
        invariant
            start <= i <= value.len(),
            piece@ == value@.subrange(start as int, i as int),
            forall|k: int| start <= k < i ==> value@[k] != ';' as u8,
            all_visible_ascii(value@),
            add_cookie_pieces(jar_received(*jar), value@.skip(start as int)) == target,
            jar_delta(*jar) == jar_delta(*old(jar)),
        decreases value.len() - i,
    {
        if value[i] == 59u8 {
            proof {
                let rest = value@.skip(start as int);
                lemma_first_index_of(rest, ';' as u8, i - start);
                assert(rest.take(i - start) =~= piece@);
                assert(rest.skip(i - start + 1) =~= value@.skip(i + 1));
            }
            add_cookie_piece_exec(jar, &piece);
            piece = Vec::new();
            start = i + 1;
        } else {
            piece.push(value[i]);
        }
        i = i + 1;
        proof {
            assert(piece@ =~= value@.subrange(start as int, i as int));
        }
    }
    proof {
        let rest = value@.skip(start as int);
        lemma_first_index_of(rest, ';' as u8, rest.len() as int);
        assert(rest =~= piece@);
    }
    add_cookie_piece_exec(jar, &piece);
}

/// Parses one visible-ASCII piece of a `Cookie` header into the jar.
fn add_cookie_piece_exec(jar: &mut cookie::CookieJar, piece: &Vec<u8>)
    requires
        all_visible_ascii(piece@),
    ensures
        jar_received(*final(jar)) == add_cookie_piece(jar_received(*old(jar)), piece@),
        jar_delta(*final(jar)) == jar_delta(*old(jar)),
{
    proof {
        assert(is_ascii_bytes(piece@));
        lemma_ascii_utf8(piece@);
    }
    match str_from_utf8(piece.as_slice()) {
        Some(text) => {
            jar_add_parsed(jar, text);
        },
        None => {},
    }
}

impl Request {
    /// The head of the request.
    pub closed spec fn head(&self) -> Parts {
        self.0
    }

    /// The body of the request.
    pub closed spec fn payload(&self) -> Seq<u8> {
        self.1@
    }

    /// The server that the request came from.
    pub closed spec fn origin(&self) -> Server {
        self.2
    }

    /// Create a new [Request] from its head, its body and the [Server] that received it.
    pub fn new(parts: Parts, body: Vec<u8>, server: Server) -> (req: Self)
        ensures
            req.head() == parts,
            req.payload() == body@,
            req.origin() == server,
    {
        Request(parts, body, server)
    }

    /// Get the uri of the request.
    pub fn uri(&self) -> (uri: &String)
        ensures
            *uri == self.head().uri,
    {
        &self.0.uri
    }

    /// Get the version of the request.
    pub fn version(&self) -> (version: Version)
        ensures
            version == self.head().version,
    {
        self.0.version
    }

    /// Get the method of the request.
    pub fn method(&self) -> (method: &Method)
        ensures
            *method == self.head().method,
    {
        &self.0.method
    }

    /// Get the headers of the request.
    pub fn headers(&self) -> (headers: &http::HeaderMap)
        ensures
            *headers == self.head().headers,
    {
        &self.0.headers
    }

    /// Get the body of the request.
    pub fn body(&self) -> (body: &Vec<u8>)
        ensures
            body@ == self.payload(),
    {
        &self.1
    }

    /// get the type of the server that handled this request
    pub fn server(&self) -> (server: Server)
        ensures
            server == self.origin(),
    {
        self.2
    }

    /// get the head of the request
    pub fn parts(&self) -> (parts: &Parts)
        ensures
            *parts == self.head(),
    {
        &self.0
    }

    /// Get the extensions of the request.
    pub fn extensions(&self) -> (extensions: &http::Extensions)
        ensures
            *extensions == self.head().extensions,
    {
        &self.0.extensions
    }

    /// Get the headers of the request, to change them.
    pub fn headers_mut(&mut self) -> (headers: &mut http::HeaderMap)
        ensures
            *headers == old(self).head().headers,
            final(self).head() == (Parts { headers: *final(headers), ..old(self).head() }),
            final(self).payload() == old(self).payload(),
            final(self).origin() == old(self).origin(),
    {
        &mut self.0.headers
    }

    /// get the head of the request, to change it
    pub fn parts_mut(&mut self) -> (parts: &mut Parts)
        ensures
            *parts == old(self).head(),
            final(self).head() == *final(parts),
            final(self).payload() == old(self).payload(),
            final(self).origin() == old(self).origin(),
    {
        &mut self.0
    }

    /// Get the extensions of the request, to change them.
    pub fn extensions_mut(&mut self) -> (extensions: &mut http::Extensions)
        ensures
            *extensions == old(self).head().extensions,
            final(self).head() == (Parts { extensions: *final(extensions), ..old(self).head() }),
            final(self).payload() == old(self).payload(),
            final(self).origin() == old(self).origin(),
    {
        &mut self.0.extensions
    }

    /// A copy of the request without its extensions, which cannot be copied:
    /// the copy has the same method, uri, version, headers, body and server,
    /// and no extensions.
    pub fn _internal_dangerously_clone(&self) -> (copy: Self)
        ensures
            same_method(copy.head().method, self.head().method),
            copy.head().uri@ == self.head().uri@,
            copy.head().version == self.head().version,
            header_entries(copy.head().headers) == header_entries(self.head().headers),
            extension_count(copy.head().extensions) == 0,
            copy.payload() == self.payload(),
            copy.origin() == self.origin(),
    {
        let parts = Parts {
            method: self.0.method.duplicate(),
            uri: self.0.uri.clone(),
            version: self.0.version,
            headers: header_map_clone(&self.0.headers),
            extensions: extensions_new(),
        };
        Request(parts, self.1.clone(), self.2)
    }

    /// Removes every value of a header and hands back the first one.
    pub(crate) fn remove_header(&mut self, name: &str) -> (value: Option<Vec<u8>>)
        requires
            valid_lower_header_name(name@),
        ensures
            header_entries(final(self).head().headers) == header_entries(old(self).head().headers).remove(ascii_bytes(name@)),
            value matches Some(v) ==> first_value(header_entries(old(self).head().headers), ascii_bytes(name@)) == Some(v@),
            value is None ==> first_value(header_entries(old(self).head().headers), ascii_bytes(name@)) is None,
            final(self).head().method == old(self).head().method,
            final(self).head().uri == old(self).head().uri,
            final(self).head().version == old(self).head().version,
            final(self).head().extensions == old(self).head().extensions,
            final(self).payload() == old(self).payload(),
            final(self).origin() == old(self).origin(),
    {
        header_remove(&mut self.0.headers, name)
    }

    /// split the head and the body
    pub fn into_parts(self) -> (split: (Parts, Vec<u8>))
        ensures
            split.0 == self.head(),
            split.1@ == self.payload(),
    {
        (self.0, self.1)
    }

    /// Get a new [cookie::CookieJar] which is derived from the cookies in the
    /// request: every `Cookie` header whose value is visible ASCII is split at
    /// `;` and each piece that parses becomes a received cookie of the jar.
    pub fn cookies(&self) -> (jar: cookie::CookieJar)
        ensures
            jar_received(jar) == request_cookies(all_values(header_entries(self.head().headers), cookie_header_name())),
            jar_delta(jar) =~= vstd::multiset::Multiset::empty(),
    {
        let mut jar = cookie_jar_new();
        proof {
            reveal_strlit("cookie");
            assert(ascii_bytes("cookie"@) =~= cookie_header_name());
        }
        let values = header_get_all(&self.0.headers, "cookie");
        let ghost all = values@.map_values(|v: Vec<u8>| v@);
        let ghost f = |jar: Map<Seq<char>, Seq<char>>, v: Seq<u8>| add_cookie_header(jar, v);
        let mut i: usize = 0;
        while i < values.len()
            invariant
                i <= values.len(),
                all == values@.map_values(|v: Vec<u8>| v@),
                f == (|jar: Map<Seq<char>, Seq<char>>, v: Seq<u8>| add_cookie_header(jar, v)),
                jar_received(jar) == all.take(i as int).fold_left(Map::empty(), f),
                jar_delta(jar) =~= vstd::multiset::Multiset::empty(),
            decreases values.len() - i,
        {
            let value = &values[i];
            proof {
                assert(all.take(i + 1).drop_last() =~= all.take(i as int));
            }
            if all_visible_ascii_exec(value) {
                add_cookie_value(&mut jar, value);
            }
            i = i + 1;
        }
        proof {
            assert(all.take(values@.len() as int) =~= all);
        }
        jar
    }

    /// The query parameters of the request: the decoded name and value pairs
    /// of the query of its uri, or `None` where the uri has no query.
    pub fn query_pairs(&self) -> (pairs: Option<Vec<(String, String)>>)
        ensures
            pairs is None <==> uri_query(encode_utf8(self.head().uri@)) is None,
            pairs matches Some(p) ==> uri_query(encode_utf8(self.head().uri@)) matches Some(q)
                && p@.map_values(|p: (String, String)| (p.0@, p.1@)) == form_urlencoded_parse(q),
    {
        let bytes = self.0.uri.as_str().as_bytes();
        let ghost uri = encode_utf8(self.head().uri@);
        let mut i: usize = 0;
        while i < bytes.len()
            invariant
                bytes@ == uri,
                uri == encode_utf8(self.head().uri@),
                i <= bytes.len(),
                forall|k: int| 0 <= k < i ==> bytes@[k] != '?' as u8,
            decreases bytes.len() - i,
        {
            if bytes[i] == 63u8 {
                proof {
                    lemma_first_index_of(bytes@, '?' as u8, i as int);
                }
                let mut query: Vec<u8> = Vec::new();
                let mut j: usize = i + 1;
                while j < bytes.len()
                    invariant
                        i < j <= bytes.len(),
                        first_index_of(bytes@, '?' as u8) == i,
                        query@ == bytes@.subrange(i + 1, j as int),
                    decreases bytes.len() - j,
                {
                    query.push(bytes[j]);
                    j = j + 1;
                    proof {
                        assert(query@ =~= bytes@.subrange(i + 1, j as int));
                    }
                }
                proof {
                    assert(query@ =~= bytes@.skip(i + 1));
                }
                return Some(form_urlencoded_pairs(query.as_slice()));
            }
            i = i + 1;
        }
        proof {
            lemma_first_index_of(bytes@, '?' as u8, bytes@.len() as int);
        }
        None
    }
}

/// Whether every byte is one that `HeaderValue::to_str` accepts.
fn all_visible_ascii_exec(value: &Vec<u8>) -> (ok: bool)
    ensures
        ok == all_visible_ascii(value@),
{
    let mut i: usize = 0;
    while i < value.len()
        invariant
            i <= value.len(),
            forall|k: int| 0 <= k < i ==> is_visible_ascii(#[trigger] value@[k]),
        decreases value.len() - i,
    {
        let b = value[i];
        if !((b >= 32 && b < 127) || b == 9) {
            return false;
        }
        i = i + 1;
    }
    true
}

} // verus!
