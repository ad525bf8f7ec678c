//! Properties that hold across the library's functions.
use vstd::prelude::*;
use vstd::utf8::{decode_utf8, encode_utf8, valid_utf8};
use vstd::multiset::Multiset;
use vstd::string::StringSliceAdditionalSpecFns;
use crate::cookies::{jar_delta, sendable_cookie};
use crate::request::{
    form_urlencoded_parse, add_cookie_header, add_cookie_piece, add_cookie_pieces, all_visible_ascii, cookie_header_name, lemma_first_index_of,
    request_cookies, same_method, uri_query, Method, Request,
};
use crate::cookies::{cookie_parse_encoded, jar_received};
use crate::headers::{all_values, header_entries};
use crate::text::{ascii_bytes, ascii_chars, ascii_lower_seq, contains_run, eq_ignore_ascii_case, is_visible_ascii};
use crate::headers::first_value;
use crate::endpoint::GenericEndpoint;
use crate::server::{server_name, Server};
use crate::text::valid_header_value;
use crate::servers::{percent_decode, replace_all, tauri_uri, utf8_lossy};
use crate::ws::{
    accept_key, expected_cookies, head_headers, ResponseHead, WebSocketUpgradeResponse,
};
use crate::ws::{decimal, digit_char, header_len, message_len, message_payload, message_text, Message};

verus! {

/// Every server has a name of its own: `to_str` never gives two servers the same name.
pub proof fn law_server_names_distinct(a: Server, b: Server)
    requires
        a != b,
    ensures
        server_name(a) != server_name(b),
{
    reveal_strlit("actix-web");
    reveal_strlit("axum");
    reveal_strlit("poem");
    reveal_strlit("rocket");
    reveal_strlit("warp");
    reveal_strlit("lambda");
    reveal_strlit("workers");
    reveal_strlit("tauri");
    reveal_strlit("hyper");
    reveal_strlit("vercel");
    if server_name(a).len() == server_name(b).len() {
        assert(server_name(a)[0] != server_name(b)[0] || server_name(a)[1] != server_name(b)[1]);
    }
}

/// The length of a message other than a raw frame is the length of the data
/// that `into_data` gives.
pub proof fn law_len_is_data_len(m: Message)
    requires
        !(m is Frame),
    ensures
        message_len(m) == message_payload(m).len(),
{
}

/// A text message survives the trip through bytes: its data, made a binary
/// message again, reads as the same text.
pub proof fn law_text_through_binary(text: Message, binary: Message)
    requires
        text is Text,
        binary matches Message::Binary(d) && d@ == message_payload(text),
    ensures
        message_text(binary) == message_text(text),
{
    broadcast use vstd::utf8::encode_utf8_valid_utf8, vstd::utf8::encode_utf8_decode_utf8;

    let s = text->Text_0@;
    assert(decode_utf8(encode_utf8(s)) == s);
}

/// A string read back from a message is the string that went in: a `String`
/// made a text message, and its UTF-8 bytes made a binary message, both read as
/// that string (so `into_text` gives it back on both).
pub proof fn law_text_round_trip(s: String, bytes: Vec<u8>, text: Message, binary: Message)
    requires
        call_ensures(Message::text::<String>, (s,), text),
        bytes@ == encode_utf8(s@),
        call_ensures(Message::binary::<Vec<u8>>, (bytes,), binary),
    ensures
        text == Message::Text(s),
        binary == Message::Binary(bytes),
        message_text(text) == Some(s@),
        message_text(binary) == Some(s@),
{
    broadcast use vstd::utf8::encode_utf8_valid_utf8, vstd::utf8::encode_utf8_decode_utf8;

    assert(decode_utf8(encode_utf8(s@)) == s@);
}

/// A message is empty exactly when its length is 0: whatever `is_empty` and
/// `len` answer for one message agree.
pub proof fn law_is_empty_iff_len_zero(m: Message, empty: bool, n: usize)
    requires
        call_ensures(Message::is_empty, (&m,), empty),
        call_ensures(Message::len, (&m,), n),
    ensures
        empty == (n == 0),
{
}

/// The length of a message other than a raw frame is the length of the data
/// that `into_data` gives for it: whatever the two answer for one message agree.
pub proof fn law_into_data_len_is_len(m: Message, data: Vec<u8>, n: usize)
    requires
        !(m is Frame),
        call_ensures(Message::into_data, (m,), data),
        call_ensures(Message::len, (&m,), n),
    ensures
        data@.len() == n,
{
}

/// A message made from a slice holds what the slice holds: `Message::text` of
/// a string slice is a text message with that text (so it reads back as that
/// text), and `Message::binary` of a byte slice a binary message with those bytes.
pub proof fn law_messages_from_slices(s: &str, text: Message, b: &[u8], binary: Message)
    requires
        call_ensures(Message::text::<&str>, (s,), text),
        call_ensures(Message::binary::<&[u8]>, (b,), binary),
    ensures
        text matches Message::Text(t) && t@ == s@,
        message_text(text) == Some(s@),
        message_payload(text) == s.spec_bytes(),
        binary matches Message::Binary(d) && d@ == b@,
        message_payload(binary) == b@,
{
    let d = binary->Binary_0;
    assert(d@ =~= b@);
}

/// A router gets an endpoint's methods once: after `register` has handed them
/// out, none are pending, so `register` (which needs pending methods) cannot
/// be called on the endpoint again.
pub proof fn law_register_hands_out_methods_once<M, F>(e: &mut GenericEndpoint<M, F>, methods: M)
    requires
        old(e).pending_methods() is Some,
        call_ensures(GenericEndpoint::<M, F>::register, (e,), methods),
    ensures
        methods == old(e).pending_methods()->Some_0,
        !(final(e).pending_methods() is Some),
        final(e).handler_fn() == old(e).handler_fn(),
{
}

/// A frame header takes between 2 and 14 bytes.
pub proof fn law_header_len_bounds(header: crate::ws::FrameHeader, payload_len: nat)
    ensures
        2 <= header_len(header, payload_len) <= 14,
{
}

/// A request with no `Cookie` header has no cookies.
pub proof fn law_no_cookie_header_no_cookies()
    ensures
        request_cookies(Seq::empty()) == Map::<Seq<char>, Seq<char>>::empty(),
{
}

/// Cookie headers are read in order: the cookies of the headers and one more
/// header are those of the headers, with that header's pieces added last.
pub proof fn law_cookie_headers_in_order(values: Seq<Seq<u8>>, last: Seq<u8>)
    ensures
        request_cookies(values.push(last)) == add_cookie_header(request_cookies(values), last),
{
    assert(values.push(last).drop_last() =~= values);
}

/// A uri without `?` has no query; one with a `?` has the query that follows
/// its first `?`.
pub proof fn law_query_after_first_question_mark(uri: Seq<u8>, i: int)
    requires
        0 <= i < uri.len(),
        uri[i] == '?' as u8,
        forall|k: int| 0 <= k < i ==> uri[k] != '?' as u8,
    ensures
        uri_query(uri) == Some(uri.skip(i + 1)),
{
    lemma_first_index_of(uri, '?' as u8, i);
}

/// Replacing a pattern that does not occur leaves the bytes as they are.
pub proof fn law_replace_absent(s: Seq<u8>, from: Seq<u8>, to: Seq<u8>)
    requires
        from.len() > 0,
        forall|i: int| 0 <= i && i + from.len() <= s.len() ==> #[trigger] s.subrange(i, i + from.len()) != from,
    ensures
        replace_all(s, from, to) == s,
    decreases s.len(),
{
    if s.len() >= from.len() {
        assert(s.subrange(0int, 0int + from.len()) != from);
        assert(s.take(from.len() as int) =~= s.subrange(0int, 0int + from.len()));
        let rest = s.skip(1);
        assert forall|i: int| 0 <= i && i + from.len() <= rest.len() implies #[trigger] rest.subrange(i, i + from.len()) != from by {
            assert(rest.subrange(i, i + from.len()) == s.subrange(i + 1, i + 1 + from.len()));
        }
        law_replace_absent(rest, from, to);
        assert(s =~= seq![s[0]] + rest);
    }
}

/// Percent-decoding leaves bytes without `%` as they are.
pub proof fn law_percent_decode_plain(s: Seq<u8>)
    requires
        forall|i: int| 0 <= i < s.len() ==> s[i] != 37,
    ensures
        percent_decode(s) == s,
    decreases s.len(),
{
    if s.len() > 0 {
        let rest = s.skip(1);
        assert forall|i: int| 0 <= i < rest.len() implies rest[i] != 37 by {
            assert(rest[i] == s[i + 1]);
        }
        law_percent_decode_plain(rest);
        assert(s =~= seq![s[0]] + rest);
    }
}

/// A Tauri uri that holds neither `<scheme>://` nor `%` reaches the handler as
/// it came.
pub proof fn law_tauri_plain_uri(uri: Seq<u8>, scheme: Seq<u8>)
    requires
        forall|i: int| 0 <= i < uri.len() ==> uri[i] != 37,
        forall|i: int| 0 <= i && i + scheme.len() + 3 <= uri.len()
            ==> #[trigger] uri.subrange(i, i + scheme.len() + 3) != scheme + "://"@.map_values(|c: char| c as u8),
    ensures
        tauri_uri(uri, scheme) == utf8_lossy(uri),
{
    reveal_strlit("://localhost/");
    reveal_strlit("://");
    let url1 = scheme + "://localhost/"@.map_values(|c: char| c as u8);
    let url2 = scheme + "://"@.map_values(|c: char| c as u8);
    let url3 = "http://"@.map_values(|c: char| c as u8) + scheme + ".localhost/"@.map_values(|c: char| c as u8);
    assert(url2.len() == scheme.len() + 3);
    assert forall|i: int| 0 <= i && i + url2.len() <= uri.len() implies #[trigger] uri.subrange(i, i + url2.len()) != url2 by {
        assert(uri.subrange(i, i + scheme.len() + 3) != scheme + "://"@.map_values(|c: char| c as u8));
    }
    assert forall|i: int| 0 <= i && i + url1.len() <= uri.len() implies #[trigger] uri.subrange(i, i + url1.len()) != url1 by {
        assert(uri.subrange(i, i + url2.len()) != url2);
        if uri.subrange(i, i + url1.len()) == url1 {
            assert(uri.subrange(i, i + url2.len()) =~= url1.subrange(0, url2.len() as int));
            assert(url1.subrange(0, url2.len() as int) =~= url2);
        }
    }
    law_replace_absent(uri, url1, url3);
    law_replace_absent(uri, url2, url3);
    law_percent_decode_plain(uri);
}

/// Being the same method is an equivalence: every method is itself, and the
/// relation is symmetric and transitive.
pub proof fn law_same_method_equivalence(a: Method, b: Method, c: Method)
    ensures
        same_method(a, a),
        same_method(a, b) == same_method(b, a),
        same_method(a, b) && same_method(b, c) ==> same_method(a, c),
{
}

/// The cookies read from a request are not sent back: a jar with an empty
/// delta yields no `Set-Cookie` value.
pub proof fn law_unchanged_jar_sets_no_cookie(jar: cookie::CookieJar)
    requires
        jar_delta(jar) == Multiset::<Seq<char>>::empty(),
    ensures
        jar_delta(jar).filter(|s: Seq<char>| sendable_cookie(s)) =~= Multiset::<Seq<char>>::empty(),
{
    broadcast use vstd::multiset::group_multiset_axioms;
}

/// The value of a digit character.
pub open spec fn digit_value(c: char) -> nat {
    if '0' <= c && c <= '9' {
        (c as nat - '0' as nat) as nat
    } else {
        0
    }
}

/// The number that a string of decimal digits spells.
pub open spec fn decimal_value(s: Seq<char>) -> nat
    decreases s.len(),
{
    if s.len() == 0 {
        0
    } else {
        decimal_value(s.drop_last()) * 10 + digit_value(s.last())
    }
}

proof fn lemma_digit_value(d: nat)
    requires
        d < 10,
    ensures
        digit_value(digit_char(d)) == d,
{
}

/// The length that `display` shows for a binary message reads back as the
/// message's length: the decimal digits spell the number.
pub proof fn law_decimal_reads_back(n: nat)
    ensures
        decimal_value(decimal(n)) == n,
    decreases n,
{
    if n < 10 {
        lemma_digit_value(n);
        let s = decimal(n);
        assert(s.drop_last() =~= Seq::<char>::empty());
        assert(decimal_value(s.drop_last()) == 0);
        assert(s.last() == digit_char(n));
        assert(decimal_value(s) == decimal_value(s.drop_last()) * 10 + digit_value(s.last()));
    } else {
        lemma_digit_value(n % 10);
        law_decimal_reads_back(n / 10);
        let s = decimal(n);
        assert(s.drop_last() =~= decimal(n / 10));
        assert(s.last() == digit_char(n % 10));
        assert(decimal_value(s) == decimal_value(s.drop_last()) * 10 + digit_value(s.last()));
        assert(n == (n / 10) * 10 + n % 10) by (nonlinear_arith);
    }
}

/// Two standard methods are the same exactly when they are the same method:
/// `is_same` on two methods that are not extensions answers `==`, and on two
/// extensions compares their names.
pub proof fn law_is_same_is_equality(a: Method, b: Method, same: bool)
    requires
        call_ensures(Method::is_same, (&a, &b), same),
    ensures
        !(a is Extension) && !(b is Extension) ==> (same <==> a == b),
        (a is Extension) != (b is Extension) ==> !same,
        a is Extension && b is Extension ==> (same <==> a->Extension_0@ == b->Extension_0@),
{
}

/// An endpoint handles a standard method exactly when that method is among the
/// ones it registered, and an extension method when one of that name is.
pub proof fn law_method_allowed_is_membership(methods: &[Method], method: &Method, allowed: bool)
    requires
        call_ensures(crate::servers::method_allowed, (methods, method), allowed),
    ensures
        !(*method is Extension) ==> (allowed <==> exists|i: int| 0 <= i < methods@.len() && methods@[i] == *method),
        *method is Extension ==> (allowed <==> exists|i: int|
            0 <= i < methods@.len() && #[trigger] methods@[i] is Extension && methods@[i]->Extension_0@ == method->Extension_0@),
{
    if !(*method is Extension) {
        if allowed {
            let i = choose|i: int| 0 <= i < methods@.len() && same_method(#[trigger] methods@[i], *method);
            assert(methods@[i] == *method);
        } else {
            assert forall|i: int| 0 <= i < methods@.len() implies methods@[i] != *method by {
                if methods@[i] == *method {
                    assert(same_method(methods@[i], *method));
                }
            }
        }
    } else {
        if !allowed {
            assert forall|i: int| 0 <= i < methods@.len() implies !(#[trigger] methods@[i] is Extension && methods@[i]->Extension_0@ == method->Extension_0@) by {
                assert(!same_method(methods@[i], *method));
            }
        } else {
            let i = choose|i: int| 0 <= i < methods@.len() && same_method(#[trigger] methods@[i], *method);
            assert(methods@[i] is Extension && methods@[i]->Extension_0@ == method->Extension_0@);
        }
    }
}

/// The `Set-Cookie` values for a jar are exactly its encoded delta cookies that
/// are valid header values, each as often as the delta holds it, attributes
/// (`; Path=/` and the like) included; each value is a valid header value.
pub proof fn law_set_cookie_values_are_valid_delta(jar: &cookie::CookieJar, values: Vec<String>)
    requires
        call_ensures(crate::cookies::set_cookie_values, (jar,), values),
    ensures
        values@.map_values(|s: String| s@).to_multiset()
            =~= jar_delta(*jar).filter(|s: Seq<char>| valid_header_value(encode_utf8(s))),
        forall|i: int| 0 <= i < values@.len() ==> valid_header_value(encode_utf8(#[trigger] values@[i]@)),
{
    assert((|s: Seq<char>| sendable_cookie(s)) =~= (|s: Seq<char>| valid_header_value(encode_utf8(s))));
}

/// A piece of a `Cookie` header value: visible ASCII without `;`.
pub open spec fn plain_cookie_piece(p: Seq<u8>) -> bool {
    forall|i: int| 0 <= i < p.len() ==> ((32 <= #[trigger] p[i] < 127) || p[i] == 9) && p[i] != 59u8
}

/// A header value with a byte that `HeaderValue::to_str` refuses: a control
/// character other than tab, DEL, or a byte of 128 or more.
pub open spec fn not_visible_ascii(v: Seq<u8>) -> bool {
    exists|k: int| 0 <= k < v.len() && !((32 <= #[trigger] v[k] < 127) || v[k] == 9)
}

/// The headers, given as their pieces, spell the `Cookie` header values `vs`:
/// each value is its plain pieces joined, or holds a byte that is not visible
/// ASCII and has no pieces.
pub open spec fn cookie_headers_spelled(vs: Seq<Seq<u8>>, hs: Seq<Seq<Seq<u8>>>) -> bool {
    &&& vs.len() == hs.len()
    &&& forall|i: int| 0 <= i < hs.len() ==> {
        ||| (#[trigger] hs[i]).len() > 0 && vs[i] == joined_cookie_pieces(hs[i])
            && forall|j: int| 0 <= j < hs[i].len() ==> plain_cookie_piece(#[trigger] hs[i][j])
        ||| hs[i].len() == 0 && not_visible_ascii(vs[i])
    }
}

/// The `Cookie` header value made of the pieces, `;` between each two.
pub open spec fn joined_cookie_pieces(ps: Seq<Seq<u8>>) -> Seq<u8>
    decreases ps.len(),
{
    if ps.len() == 0 {
        Seq::empty()
    } else if ps.len() == 1 {
        ps[0]
    } else {
        ps[0] + seq![59u8] + joined_cookie_pieces(ps.drop_first())
    }
}

/// The received cookies after each piece, taken as written, was handed to
/// `Cookie::parse_encoded` on its own, in order: a piece that parses adds its
/// cookie, replacing one of the same name; one that does not adds nothing.
pub open spec fn each_piece_parsed(jar: Map<Seq<char>, Seq<char>>, ps: Seq<Seq<u8>>) -> Map<Seq<char>, Seq<char>>
    decreases ps.len(),
{
    if ps.len() == 0 {
        jar
    } else {
        let next = match cookie_parse_encoded(ascii_chars(ps[0])) {
            Some((name, value)) => jar.insert(name, value),
            None => jar,
        };
        each_piece_parsed(next, ps.drop_first())
    }
}

/// The received cookies after the pieces of each header, header by header.
pub open spec fn each_header_parsed(jar: Map<Seq<char>, Seq<char>>, hs: Seq<Seq<Seq<u8>>>) -> Map<Seq<char>, Seq<char>>
    decreases hs.len(),
{
    if hs.len() == 0 {
        jar
    } else {
        each_header_parsed(each_piece_parsed(jar, hs[0]), hs.drop_first())
    }
}

proof fn lemma_joined_pieces(jar: Map<Seq<char>, Seq<char>>, ps: Seq<Seq<u8>>)
    requires
        ps.len() > 0,
        forall|j: int| 0 <= j < ps.len() ==> plain_cookie_piece(#[trigger] ps[j]),
    ensures
        all_visible_ascii(joined_cookie_pieces(ps)),
        add_cookie_pieces(jar, joined_cookie_pieces(ps)) == each_piece_parsed(jar, ps),
    decreases ps.len(),
{
    let p = ps[0];
    assert(plain_cookie_piece(p));
    let next = add_cookie_piece(jar, p);
    assert(each_piece_parsed(jar, ps) == each_piece_parsed(next, ps.drop_first()));
    if ps.len() == 1 {
        lemma_first_index_of(p, 59u8, p.len() as int);
        assert(each_piece_parsed(next, ps.drop_first()) == next);
    } else {
        let rest = ps.drop_first();
        assert forall|j: int| 0 <= j < rest.len() implies plain_cookie_piece(#[trigger] rest[j]) by {
            assert(rest[j] == ps[j + 1]);
        }
        lemma_joined_pieces(next, rest);
        let s = joined_cookie_pieces(ps);
        assert(s == p + seq![59u8] + joined_cookie_pieces(rest));
        lemma_first_index_of(s, 59u8, p.len() as int);
        assert(s.take(p.len() as int) =~= p);
        assert(s.skip(p.len() as int + 1) =~= joined_cookie_pieces(rest));
        assert forall|i: int| 0 <= i < s.len() implies is_visible_ascii(#[trigger] s[i]) by {
            if i > p.len() {
                assert(s[i] == joined_cookie_pieces(rest)[i - p.len() - 1]);
            }
        }
    }
}

proof fn lemma_joined_headers(jar: Map<Seq<char>, Seq<char>>, vs: Seq<Seq<u8>>, hs: Seq<Seq<Seq<u8>>>)
    requires
        cookie_headers_spelled(vs, hs),
    ensures
        vs.fold_left_alt(jar, |m: Map<Seq<char>, Seq<char>>, v: Seq<u8>| add_cookie_header(m, v))
            == each_header_parsed(jar, hs),
    decreases hs.len(),
{
    let f = |m: Map<Seq<char>, Seq<char>>, v: Seq<u8>| add_cookie_header(m, v);
    if hs.len() > 0 {
        let next = each_piece_parsed(jar, hs[0]);
        if hs[0].len() > 0 {
            assert forall|j: int| 0 <= j < hs[0].len() implies plain_cookie_piece(#[trigger] hs[0][j]) by {
                assert(plain_cookie_piece(hs[0][j]));
            }
            lemma_joined_pieces(jar, hs[0]);
        } else {
            let k = choose|k: int| 0 <= k < vs[0].len() && !((32 <= #[trigger] vs[0][k] < 127) || vs[0][k] == 9);
            assert(!is_visible_ascii(vs[0][k]));
            assert(!all_visible_ascii(vs[0]));
        }
        assert(f(jar, vs[0]) == next);
        let rest = hs.drop_first();
        let vrest = vs.subrange(1, vs.len() as int);
        assert forall|i: int| 0 <= i < rest.len() implies {
            ||| (#[trigger] rest[i]).len() > 0 && vrest[i] == joined_cookie_pieces(rest[i])
                && forall|j: int| 0 <= j < rest[i].len() ==> plain_cookie_piece(#[trigger] rest[i][j])
            ||| rest[i].len() == 0 && not_visible_ascii(vrest[i])
        } by {
            assert(rest[i] == hs[i + 1]);
            assert(vrest[i] == vs[i + 1]);
        }
        lemma_joined_headers(next, vrest, rest);
    }
}

/// Every `;`-separated piece of a `Cookie` header counts, taken as written: for
/// a request whose `Cookie` header values are spelled by `hs`, the received
/// cookies are those of parsing each piece on its own, header by header and
/// piece by piece (`a=1; b=2; c=3` gives `a`, `b` and `c`; case is kept), a
/// header that is not visible ASCII adding none; nothing is to be sent back.
pub proof fn law_cookies_parse_every_piece(req: &Request, jar: cookie::CookieJar, hs: Seq<Seq<Seq<u8>>>)
    requires
        call_ensures(Request::cookies, (req,), jar),
        cookie_headers_spelled(all_values(header_entries(req.head().headers), cookie_header_name()), hs),
    ensures
        jar_received(jar) == each_header_parsed(Map::empty(), hs),
        jar_delta(jar) == Multiset::<Seq<char>>::empty(),
{
    let vs = all_values(header_entries(req.head().headers), cookie_header_name());
    let f = |m: Map<Seq<char>, Seq<char>>, v: Seq<u8>| add_cookie_header(m, v);
    vs.lemma_fold_left_alt(Map::empty(), f);
    lemma_joined_headers(Map::empty(), vs, hs);
}

/// The request's headers, as `http` keeps them, ask for a websocket as RFC 6455
/// wants it: `Connection` holds `upgrade`, `Upgrade` is `websocket`,
/// `Sec-WebSocket-Version` is `13` (letters in either case), and a
/// `Sec-WebSocket-Key` is there.
pub open spec fn handshake_headers(h: Map<Seq<u8>, Seq<Seq<u8>>>) -> bool {
    &&& first_value(h, ascii_bytes("connection"@)) is Some
    &&& valid_utf8(first_value(h, ascii_bytes("connection"@))->Some_0)
    &&& contains_run(ascii_lower_seq(first_value(h, ascii_bytes("connection"@))->Some_0), ascii_bytes("upgrade"@))
    &&& first_value(h, ascii_bytes("upgrade"@)) is Some
    &&& eq_ignore_ascii_case(first_value(h, ascii_bytes("upgrade"@))->Some_0, ascii_bytes("websocket"@))
    &&& first_value(h, ascii_bytes("sec-websocket-version"@)) is Some
    &&& eq_ignore_ascii_case(first_value(h, ascii_bytes("sec-websocket-version"@))->Some_0, ascii_bytes("13"@))
    &&& first_value(h, ascii_bytes("sec-websocket-key"@)) is Some
}

/// The `Set-Cookie` values that an answer made with `jar` carries: the encoded
/// delta cookies that are valid header values.
pub open spec fn sendable_delta(jar: Option<cookie::CookieJar>) -> Multiset<Seq<char>> {
    match jar {
        Some(j) => jar_delta(j).filter(|s: Seq<char>| valid_header_value(encode_utf8(s))),
        None => Multiset::empty(),
    }
}

/// The answer to a websocket upgrade request. The method decides first: any
/// method but `GET` gets 405, whatever the headers. A `GET` gets 101 exactly
/// when its headers ask for a websocket and the server can hand over the
/// connection, and 400 otherwise. Only a 101 hands the request and handler
/// back, and it carries `Connection: upgrade`, `Upgrade: websocket` and the
/// accept key of the request's key, after the `Set-Cookie` headers of the jar.
pub proof fn law_upgrade_answer<H>(
    resp: WebSocketUpgradeResponse<H>,
    available: bool,
    outcome: (ResponseHead, Option<(Request, H)>),
)
    requires
        call_ensures(WebSocketUpgradeResponse::<H>::into_upgrade, (resp, available), outcome),
    ensures
        !(resp.request().head().method is Get) ==> outcome.0.status == 405,
        resp.request().head().method is Get ==> (outcome.0.status == 101 <==> (handshake_headers(
            header_entries(resp.request().head().headers),
        ) && available)),
        resp.request().head().method is Get ==> (outcome.0.status == 101 || outcome.0.status == 400),
        outcome.1 is Some <==> outcome.0.status == 101,
        outcome.0.status == 101 ==> {
            let (r, h) = outcome.1->Some_0;
            let q = resp.request();
            &&& h == resp.handler()
            &&& r.head().method == q.head().method && r.head().uri == q.head().uri
            &&& r.head().version == q.head().version && r.head().extensions == q.head().extensions
            &&& header_entries(r.head().headers) == header_entries(q.head().headers).remove(ascii_bytes("sec-websocket-key"@))
            &&& r.payload() == q.payload() && r.origin() == q.origin()
        },
        outcome.0.status != 101 ==> {
            &&& forall|i: int| 0 <= i < outcome.0.headers@.len() ==> (#[trigger] outcome.0.headers@[i]).0@ == "set-cookie"@
            &&& outcome.0.headers@.map_values(|h: (String, String)| h.1@).to_multiset() == sendable_delta(resp.jar())
        },
        outcome.0.status == 101 ==> {
            let n = outcome.0.headers@.len() - 3;
            &&& n >= 0
            &&& forall|i: int| 0 <= i < n ==> (#[trigger] outcome.0.headers@[i]).0@ == "set-cookie"@
            &&& outcome.0.headers@.take(n).map_values(|h: (String, String)| h.1@).to_multiset() == sendable_delta(resp.jar())
            &&& outcome.0.headers@[n].0@ == "connection"@ && outcome.0.headers@[n].1@ == "upgrade"@
            &&& outcome.0.headers@[n + 1].0@ == "upgrade"@ && outcome.0.headers@[n + 1].1@ == "websocket"@
            &&& outcome.0.headers@[n + 2].0@ == "sec-websocket-accept"@
            &&& outcome.0.headers@[n + 2].1@ == accept_key(
                first_value(header_entries(resp.request().head().headers), ascii_bytes("sec-websocket-key"@))->Some_0,
            )
        },
{
    let hv = head_headers(outcome.0);
    let n = if outcome.0.status == 101 { hv.len() - 3 } else { hv.len() as int };
    assert((|s: Seq<char>| sendable_cookie(s)) =~= (|s: Seq<char>| valid_header_value(encode_utf8(s))));
    assert(expected_cookies(resp.jar()) == sendable_delta(resp.jar()));
    assert(hv.take(n).map_values(|h: (Seq<char>, Seq<char>)| h.1) =~= outcome.0.headers@.take(n).map_values(
        |h: (String, String)| h.1@,
    ));
    if outcome.0.status != 101 {
        assert(outcome.0.headers@.take(n) =~= outcome.0.headers@);
    }
    assert forall|i: int| 0 <= i < n implies (#[trigger] outcome.0.headers@[i]).0@ == "set-cookie"@ by {
        assert(hv[i].0 == "set-cookie"@);
    }
    if outcome.0.status == 101 {
        assert(hv[n].0 == outcome.0.headers@[n].0@);
        assert(hv[n + 1].0 == outcome.0.headers@[n + 1].0@);
        assert(hv[n + 2].0 == outcome.0.headers@[n + 2].0@);
    }
}

/// The query pairs of a request come from what follows the first `?` of its
/// uri: none without a `?`, and for a uri `a?b` with no `?` in `a`, the pairs
/// that `form_urlencoded::parse` reads from `b` (later `?` included).
pub proof fn law_query_pairs_after_first_question_mark(req: &Request, pairs: Option<Vec<(String, String)>>, a: Seq<u8>, b: Seq<u8>)
    requires
        call_ensures(Request::query_pairs, (req,), pairs),
    ensures
        (forall|i: int| 0 <= i < encode_utf8(req.head().uri@).len() ==> #[trigger] encode_utf8(req.head().uri@)[i] != 63u8)
            ==> pairs is None,
        (encode_utf8(req.head().uri@) == a + seq![63u8] + b && forall|i: int| 0 <= i < a.len() ==> #[trigger] a[i] != 63u8)
            ==> pairs is Some && pairs->Some_0@.map_values(|p: (String, String)| (p.0@, p.1@)) == form_urlencoded_parse(b),
{
    let u = encode_utf8(req.head().uri@);
    if forall|i: int| 0 <= i < u.len() ==> #[trigger] u[i] != 63u8 {
        lemma_first_index_of(u, 63u8, u.len() as int);
    }
    if u == a + seq![63u8] + b && forall|i: int| 0 <= i < a.len() ==> #[trigger] a[i] != 63u8 {
        assert forall|k: int| 0 <= k < a.len() implies u[k] != 63u8 by {
            assert(u[k] == a[k]);
        }
        lemma_first_index_of(u, 63u8, a.len() as int);
        assert(u.skip(a.len() as int + 1) =~= b);
    }
}

/// `pattern` occurs nowhere in `s`.
pub open spec fn occurs_nowhere(s: Seq<u8>, pattern: Seq<u8>) -> bool {
    forall|i: int| 0 <= i && i + pattern.len() <= s.len() ==> #[trigger] s.subrange(i, i + pattern.len()) != pattern
}

/// A Tauri uri `<scheme>://localhost/<rest>` (the Windows form) reaches the
/// handler as `http://<scheme>.localhost/<rest>`, where nothing in it is
/// percent-encoded and `<scheme>://` occurs nowhere in the result.
pub proof fn law_tauri_windows_uri(uri: &str, scheme: &str, rest: Seq<u8>, rewritten: String)
    requires
        call_ensures(crate::servers::tauri_request_uri, (uri, scheme), rewritten),
        scheme.spec_bytes().len() > 0,
        uri.spec_bytes() == scheme.spec_bytes() + ascii_bytes("://localhost/"@) + rest,
        forall|i: int| 0 <= i < scheme.spec_bytes().len() ==> #[trigger] scheme.spec_bytes()[i] != 37,
        forall|i: int| 0 <= i < rest.len() ==> #[trigger] rest[i] != 37,
        occurs_nowhere(
            ascii_bytes("http://"@) + scheme.spec_bytes() + ascii_bytes(".localhost/"@) + rest,
            scheme.spec_bytes() + ascii_bytes("://"@),
        ),
        valid_utf8(ascii_bytes("http://"@) + scheme.spec_bytes() + ascii_bytes(".localhost/"@) + rest),
    ensures
        rewritten@ == decode_utf8(ascii_bytes("http://"@) + scheme.spec_bytes() + ascii_bytes(".localhost/"@) + rest),
{
    reveal_strlit("://localhost/");
    reveal_strlit("://");
    reveal_strlit("http://");
    reveal_strlit(".localhost/");
    let sc = scheme.spec_bytes();
    let url1 = sc + "://localhost/"@.map_values(|c: char| c as u8);
    let url2 = sc + "://"@.map_values(|c: char| c as u8);
    let url3 = "http://"@.map_values(|c: char| c as u8) + sc + ".localhost/"@.map_values(|c: char| c as u8);
    assert(url1 =~= sc + ascii_bytes("://localhost/"@));
    assert(url2 =~= sc + ascii_bytes("://"@));
    assert(url3 =~= ascii_bytes("http://"@) + sc + ascii_bytes(".localhost/"@));
    let out = url3 + rest;
    // `rest` holds no `<scheme>://`, so no `<scheme>://localhost/` either.
    assert forall|i: int| 0 <= i && i + url2.len() <= rest.len() implies #[trigger] rest.subrange(i, i + url2.len()) != url2 by {
        assert(out.subrange(url3.len() + i, url3.len() + i + url2.len()) =~= rest.subrange(i, i + url2.len()));
    }
    assert forall|i: int| 0 <= i && i + url1.len() <= rest.len() implies #[trigger] rest.subrange(i, i + url1.len()) != url1 by {
        assert(rest.subrange(i, i + url2.len()) != url2);
        if rest.subrange(i, i + url1.len()) == url1 {
            assert(rest.subrange(i, i + url2.len()) =~= url1.subrange(0, url2.len() as int));
            assert(url1.subrange(0, url2.len() as int) =~= url2);
        }
    }
    law_replace_absent(rest, url1, url3);
    let u = uri.spec_bytes();
    assert(u =~= url1 + rest);
    assert(u.take(url1.len() as int) =~= url1);
    assert(u.skip(url1.len() as int) =~= rest);
    assert(replace_all(u, url1, url3) == out);
    law_replace_absent(out, url2, url3);
    assert forall|i: int| 0 <= i < out.len() implies out[i] != 37 by {
        if i >= url3.len() {
            assert(out[i] == rest[i - url3.len()]);
        } else if i >= 7 && i < 7 + sc.len() {
            assert(out[i] == sc[i - 7]);
        }
    }
    law_percent_decode_plain(out);
    assert(crate::servers::tauri_rewrite(u, sc) == out);
}

/// The bytes that a binary, ping or pong message carries.
pub open spec fn carried_bytes(m: Message) -> Option<Seq<u8>> {
    match m {
        Message::Binary(d) => Some(d@),
        Message::Ping(d) => Some(d@),
        Message::Pong(d) => Some(d@),
        _ => None,
    }
}

/// The length of a message counts bytes: the UTF-8 bytes of a text or close
/// reason, the data of a binary, ping or pong message, and for a raw frame its
/// payload with the header (2 bytes, 2 or 8 more from 126 and 65536 payload
/// bytes on, 4 more for a mask).
pub proof fn law_message_len_counts_bytes(m: Message, n: usize)
    requires
        call_ensures(Message::len, (&m,), n),
    ensures
        m is Text ==> n == encode_utf8(m->Text_0@).len(),
        carried_bytes(m) is Some ==> n == carried_bytes(m)->Some_0.len(),
        m == Message::Close(None) ==> n == 0,
        m is Close && m->Close_0 is Some ==> n == encode_utf8(m->Close_0->Some_0.reason@).len(),
        m is Frame ==> n == m->Frame_0.payload@.len() + 2
            + (if m->Frame_0.payload@.len() < 126 { 0int } else if m->Frame_0.payload@.len() < 65536 { 2int } else { 8int })
            + (if m->Frame_0.header.mask is Some { 4int } else { 0int }),
{
}

/// A message read as text: a text message gives its text, a close message its
/// reason (none: empty), and a binary, ping or pong message its bytes decoded
/// where they are valid UTF-8 and `Error::Utf8` where they are not.
pub proof fn law_into_text_reads_the_text(m: Message, text: Result<String, crate::error::Error>)
    requires
        call_ensures(Message::into_text, (m,), text),
    ensures
        m is Text ==> text is Ok && text->Ok_0@ == m->Text_0@,
        m == Message::Close(None) ==> text is Ok && text->Ok_0@.len() == 0,
        m is Close && m->Close_0 is Some ==> text is Ok && text->Ok_0@ == m->Close_0->Some_0.reason@,
        carried_bytes(m) is Some && valid_utf8(carried_bytes(m)->Some_0)
            ==> text is Ok && text->Ok_0@ == decode_utf8(carried_bytes(m)->Some_0),
        carried_bytes(m) is Some && !valid_utf8(carried_bytes(m)->Some_0)
            ==> text is Err && text->Err_0 is Utf8,
        m is Frame ==> (text is Ok <==> valid_utf8(m->Frame_0.payload@)),
        m is Frame && text is Ok ==> text->Ok_0@ == decode_utf8(m->Frame_0.payload@),
{
}

proof fn lemma_decimal_digits(n: nat)
    ensures
        decimal(n).len() > 0,
        forall|i: int| 0 <= i < decimal(n).len() ==> '0' <= #[trigger] decimal(n)[i] <= '9',
    decreases n,
{
    if n >= 10 {
        lemma_decimal_digits(n / 10);
        let s = decimal(n);
        assert forall|i: int| 0 <= i < s.len() implies '0' <= #[trigger] s[i] <= '9' by {
            if i < decimal(n / 10).len() {
                assert(s[i] == decimal(n / 10)[i]);
            }
        }
    }
}

/// How a message is displayed: its text where it reads as text; a binary,
/// ping or pong message whose bytes are not UTF-8 as `Binary Data<length=N>`,
/// `N` the decimal digits of its length.
pub proof fn law_display_shows_text_or_length(m: Message, shown: String)
    requires
        call_ensures(Message::display, (&m,), shown),
    ensures
        m is Text ==> shown@ == m->Text_0@,
        carried_bytes(m) is Some && valid_utf8(carried_bytes(m)->Some_0)
            ==> shown@ == decode_utf8(carried_bytes(m)->Some_0),
        carried_bytes(m) is Some && !valid_utf8(carried_bytes(m)->Some_0) ==> exists|digits: Seq<char>| {
            &&& shown@ == "Binary Data<length="@ + digits + ">"@
            &&& digits.len() > 0
            &&& forall|i: int| 0 <= i < digits.len() ==> '0' <= #[trigger] digits[i] <= '9'
            &&& decimal_value(digits) == carried_bytes(m)->Some_0.len()
        },
{
    if carried_bytes(m) is Some && !valid_utf8(carried_bytes(m)->Some_0) {
        let len = carried_bytes(m)->Some_0.len();
        lemma_decimal_digits(len);
        law_decimal_reads_back(len);
        assert(shown@ == "Binary Data<length="@ + decimal(len) + ">"@);
    }
}

/// The accept key of a handshake is the standard padded base64 of the SHA-1
/// digest of the client's key followed by the GUID that RFC 6455 fixes, and it
/// is 28 characters long.
pub proof fn law_sign_is_rfc6455_accept(key: &[u8], accept: String)
    requires
        call_ensures(crate::ws::sign, (key,), accept),
    ensures
        accept@ == crate::ws::base64_standard(
            crate::ws::sha1(key@ + ascii_bytes("258EAFA5-E914-47DA-95CA-C5AB0DC85B11"@)),
        ),
        accept@.len() == 28,
{
}

/// A copy of a method is that method: the same standard method, or an
/// extension method of the same name.
pub proof fn law_duplicate_is_the_method(m: Method, copy: Method)
    requires
        call_ensures(Method::duplicate, (&m,), copy),
    ensures
        !(m is Extension) ==> copy == m,
        m is Extension ==> copy is Extension && copy->Extension_0@ == m->Extension_0@,
{
}

} // verus!
