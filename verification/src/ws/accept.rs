use vstd::prelude::*;
use vstd::utf8::encode_utf8;
use crate::text::{ascii_bytes, valid_header_value};
use sha1::Digest;
use base64::Engine;

verus! {

/// The SHA-1 digest of the bytes, as `sha1::Sha1` computes it.
pub uninterp spec fn sha1(data: Seq<u8>) -> Seq<u8>;

/// `Sha1::digest`: the SHA-1 digest of the bytes, twenty bytes long.
#[verifier::external_body]
fn sha1_digest(data: &[u8]) -> (digest: Vec<u8>)
    ensures
        digest@ == sha1(data@),
        digest@.len() == 20,
{
    sha1::Sha1::digest(data).to_vec()
}

/// The base64 digit of a six-bit value, in the standard alphabet
/// `A-Z`, `a-z`, `0-9`, `+`, `/`.
pub open spec fn b64_digit(v: int) -> char {
    if v < 26 {
        (65 + v) as char
    } else if v < 52 {
        (97 + v - 26) as char
    } else if v < 62 {
        (48 + v - 52) as char
    } else if v == 62 {
        '+'
    } else {
        '/'
    }
}

/// Standard base64 with padding: each three bytes become four digits, and a
/// last one or two bytes become two or three digits followed by `=` to four.
pub open spec fn base64_standard(b: Seq<u8>) -> Seq<char>
    decreases b.len(),
{
    if b.len() == 0 {
        Seq::empty()
    } else if b.len() == 1 {
        seq![b64_digit(b[0] as int / 4), b64_digit((b[0] as int % 4) * 16), '=', '=']
    } else if b.len() == 2 {
        seq![
            b64_digit(b[0] as int / 4),
            b64_digit((b[0] as int % 4) * 16 + b[1] as int / 16),
            b64_digit((b[1] as int % 16) * 4),
            '=',
        ]
    } else {
        seq![
            b64_digit(b[0] as int / 4),
            b64_digit((b[0] as int % 4) * 16 + b[1] as int / 16),
            b64_digit((b[1] as int % 16) * 4 + b[2] as int / 64),
            b64_digit(b[2] as int % 64),
        ] + base64_standard(b.skip(3))
    }
}

/// `base64::engine::general_purpose::STANDARD.encode`: standard base64 with padding.
#[verifier::external_body]
fn base64_encode(data: &[u8]) -> (encoded: String)
    ensures
        encoded@ == base64_standard(data@),
{
    base64::engine::general_purpose::STANDARD.encode(data)
}

/// The GUID that RFC 6455 appends to the key, as text.
pub open spec fn websocket_guid() -> Seq<char> {
    "258EAFA5-E914-47DA-95CA-C5AB0DC85B11"@
}

/// The `Sec-WebSocket-Accept` value for a `Sec-WebSocket-Key`: the base64 of the
/// SHA-1 digest of the key followed by the GUID.
pub open spec fn accept_key(key: Seq<u8>) -> Seq<char> {
    base64_standard(sha1(key + ascii_bytes(websocket_guid())))
}

/// A character of the base64 alphabet or the padding.
pub open spec fn is_b64_char(c: char) -> bool {
    ||| ('A' <= c && c <= 'Z')
    ||| ('a' <= c && c <= 'z')
    ||| ('0' <= c && c <= '9')
    ||| c == '+' || c == '/' || c == '='
}

proof fn lemma_b64_digit(v: int)
    requires
        0 <= v < 64,
    ensures
        is_b64_char(b64_digit(v)),
{
}

/// Every character of a base64 encoding is in the alphabet or the padding.
pub proof fn lemma_base64_alphabet(b: Seq<u8>)
    ensures
        forall|i: int| 0 <= i < base64_standard(b).len() ==> is_b64_char(#[trigger] base64_standard(b)[i]),
    decreases b.len(),
{
    if b.len() >= 1 {
        lemma_b64_digit(b[0] as int / 4);
        lemma_b64_digit((b[0] as int % 4) * 16);
    }
    if b.len() >= 2 {
        lemma_b64_digit((b[0] as int % 4) * 16 + b[1] as int / 16);
        lemma_b64_digit((b[1] as int % 16) * 4);
    }
    if b.len() >= 3 {
        lemma_b64_digit((b[1] as int % 16) * 4 + b[2] as int / 64);
        lemma_b64_digit(b[2] as int % 64);
        lemma_base64_alphabet(b.skip(3));
        let head = seq![
            b64_digit(b[0] as int / 4),
            b64_digit((b[0] as int % 4) * 16 + b[1] as int / 16),
            b64_digit((b[1] as int % 16) * 4 + b[2] as int / 64),
            b64_digit(b[2] as int % 64),
        ];
        assert forall|i: int| 0 <= i < base64_standard(b).len() implies is_b64_char(#[trigger] base64_standard(b)[i]) by {
            if i >= 4 {
                assert(base64_standard(b)[i] == base64_standard(b.skip(3))[i - 4]);
            }
        }
    }
}

/// A padded base64 encoding has four characters for each started group of
/// three bytes.
pub proof fn lemma_base64_len(b: Seq<u8>)
    ensures
        base64_standard(b).len() == 4 * ((b.len() + 2) / 3),
    decreases b.len(),
{
    if b.len() >= 3 {
        lemma_base64_len(b.skip(3));
    }
}

/// A string of base64 characters is a valid header value.
pub proof fn lemma_base64_header_value(s: Seq<char>)
    requires
        forall|i: int| 0 <= i < s.len() ==> is_b64_char(#[trigger] s[i]),
    ensures
        valid_header_value(encode_utf8(s)),
        encode_utf8(s) == ascii_bytes(s),
{
    assert(vstd::utf8::is_ascii_chars(s));
    vstd::utf8::is_ascii_chars_encode_utf8(s);
    assert(encode_utf8(s) =~= ascii_bytes(s));
}

/// The `Sec-WebSocket-Accept` value for a `Sec-WebSocket-Key`.
pub fn sign(key: &[u8]) -> (accept: String)
    ensures
        accept@ == accept_key(key@),
        accept@.len() == 28,
        valid_header_value(encode_utf8(accept@)),
{
    let guid = "258EAFA5-E914-47DA-95CA-C5AB0DC85B11";
    proof {
        reveal_strlit("258EAFA5-E914-47DA-95CA-C5AB0DC85B11");
        assert(vstd::utf8::is_ascii_chars(guid@));
        vstd::utf8::is_ascii_chars_encode_utf8(guid@);
    }
    let guid_bytes = guid.as_bytes();
    let mut data: Vec<u8> = Vec::new();
    let mut i: usize = 0;
    while i < key.len()
        invariant
            i <= key.len(),
            data@ == key@.take(i as int),
        decreases key.len() - i,
    {
        data.push(key[i]);
        i = i + 1;
        proof {
            assert(data@ =~= key@.take(i as int));
        }
    }
    let mut j: usize = 0;
    while j < guid_bytes.len()
        invariant
            j <= guid_bytes.len(),
            data@ == key@ + guid_bytes@.take(j as int),
        decreases guid_bytes.len() - j,
    {
        data.push(guid_bytes[j]);
        j = j + 1;
        proof {
            assert(data@ =~= key@ + guid_bytes@.take(j as int));
        }
    }
    proof {
        assert(guid_bytes@.take(guid_bytes@.len() as int) =~= guid_bytes@);
        assert(guid_bytes@ =~= ascii_bytes(websocket_guid()));
    }
    let digest = sha1_digest(data.as_slice());
    let accept = base64_encode(digest.as_slice());
    proof {
        lemma_base64_alphabet(digest@);
        lemma_base64_len(digest@);
        lemma_base64_header_value(accept@);
    }
    accept
}

} // verus!
