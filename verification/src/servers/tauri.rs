use vstd::prelude::*;
use vstd::utf8::{decode_utf8, valid_utf8};
use vstd::string::StringSliceAdditionalSpecFns;

verus! {

/// `s` with every occurrence of `from` replaced by `to`, occurrences taken
/// from the left and not overlapping, as `str::replace` does it.
pub open spec fn replace_all(s: Seq<u8>, from: Seq<u8>, to: Seq<u8>) -> Seq<u8>
    decreases s.len(),
{
    if from.len() == 0 || s.len() < from.len() {
        s
    } else if s.take(from.len() as int) == from {
        to + replace_all(s.skip(from.len() as int), from, to)
    } else {
        seq![s[0]] + replace_all(s.skip(1), from, to)
    }
}

/// The value of a hexadecimal digit, either case.
pub open spec fn hex_value(b: u8) -> Option<int> {
    if 48 <= b <= 57 {
        Some(b - 48)
    } else if 97 <= b <= 102 {
        Some(b - 87)
    } else if 65 <= b <= 70 {
        Some(b - 55)
    } else {
        None
    }
}

/// Percent-decoding: `%` and two hexadecimal digits become the byte they
/// spell; every other byte, a `%` without two digits too, stays.
pub open spec fn percent_decode(s: Seq<u8>) -> Seq<u8>
    decreases s.len(),
{
    if s.len() == 0 {
        Seq::empty()
    } else if s[0] == 37 && s.len() >= 3 && hex_value(s[1]) is Some && hex_value(s[2]) is Some {
        seq![(hex_value(s[1])->Some_0 * 16 + hex_value(s[2])->Some_0) as u8] + percent_decode(s.skip(3))
    } else {
        seq![s[0]] + percent_decode(s.skip(1))
    }
}

/// The text that `String::from_utf8_lossy` makes of bytes: their decoding,
/// with the replacement character in place of each invalid sequence.
pub uninterp spec fn utf8_lossy(bytes: Seq<u8>) -> Seq<char>;

/// What `PercentDecode::decode_utf8_lossy` gives for the percent-decoding of bytes.
pub open spec fn percent_decode_lossy(s: Seq<u8>) -> Seq<char> {
    utf8_lossy(percent_decode(s))
}

/// `percent_encoding::percent_decode`, collected.
#[verifier::external_body]
fn percent_decode_bytes(input: &[u8]) -> (decoded: Vec<u8>)
    ensures
        decoded@ == percent_decode(input@),
{
    percent_encoding::percent_decode(input).collect()
}

/// `String::from_utf8_lossy`: the text of the bytes, with the replacement
/// character in place of each invalid sequence; valid UTF-8 decodes as it is.
#[verifier::external_body]
fn string_from_utf8_lossy(bytes: &[u8]) -> (text: String)
    ensures
        text@ == utf8_lossy(bytes@),
        valid_utf8(bytes@) ==> text@ == decode_utf8(bytes@),
{
    String::from_utf8_lossy(bytes).into_owned()
}

/// The bytes of a Tauri custom protocol uri rewritten into the http form:
/// `<scheme>://localhost/` (Windows) and then `<scheme>://` (Unix) become
/// `http://<scheme>.localhost/`.
pub open spec fn tauri_rewrite(uri: Seq<u8>, scheme: Seq<u8>) -> Seq<u8> {
    let url1 = scheme + "://localhost/"@.map_values(|c: char| c as u8);
    let url2 = scheme + "://"@.map_values(|c: char| c as u8);
    let url3 = "http://"@.map_values(|c: char| c as u8) + scheme + ".localhost/"@.map_values(|c: char| c as u8);
    replace_all(replace_all(uri, url1, url3), url2, url3)
}

/// The uri that a Tauri custom protocol request is handed on with: the
/// rewritten uri, percent-decoded (the frontend's `convertFileSrc` encoded it).
pub open spec fn tauri_uri(uri: Seq<u8>, scheme: Seq<u8>) -> Seq<char> {
    percent_decode_lossy(tauri_rewrite(uri, scheme))
}

/// Whether `s` holds `from` at position `i`.
fn matches_at(s: &Vec<u8>, i: usize, from: &Vec<u8>) -> (found: bool)
    requires
        i <= s@.len(),
    ensures
        found == (i + from@.len() <= s@.len() && s@.subrange(i as int, i + from@.len()) == from@),
{
    if from.len() > s.len() - i {
        return false;
    }
    let mut k: usize = 0;
    while k < from.len()
        invariant
            i + from@.len() <= s@.len(),
            s@.len() == s.len(),
            k <= from@.len(),
            forall|t: int| 0 <= t < k ==> s@[i + t] == from@[t],
        decreases from.len() - k,
    {
        if s[i + k] != from[k] {
            proof {
                assert(s@.subrange(i as int, i + from@.len())[k as int] != from@[k as int]);
            }
            return false;
        }
        k = k + 1;
    }
    proof {
        assert(s@.subrange(i as int, i + from@.len()) =~= from@);
    }
    true
}

/// `s` with every occurrence of `from` replaced by `to`, from the left.
fn replace_bytes(s: &Vec<u8>, from: &Vec<u8>, to: &Vec<u8>) -> (out: Vec<u8>)
    requires
        from@.len() > 0,
    ensures
        out@ == replace_all(s@, from@, to@),
{
    let mut out: Vec<u8> = Vec::new();
    let mut i: usize = 0;
    proof {
        assert(s@.skip(0) =~= s@);
        assert(out@ + replace_all(s@, from@, to@) =~= replace_all(s@, from@, to@));
    }
    while i < s.len()
        invariant
            i <= s@.len(),
            from@.len() > 0,
            out@ + replace_all(s@.skip(i as int), from@, to@) == replace_all(s@, from@, to@),
        decreases s.len() - i,
    {
        let ghost rest = s@.skip(i as int);
        if matches_at(s, i, from) {
            proof {
                assert(rest.take(from@.len() as int) =~= s@.subrange(i as int, i + from@.len()));
                assert(rest.skip(from@.len() as int) =~= s@.skip(i + from@.len()));
            }
            let mut k: usize = 0;
            let ghost out0 = out@;
            while k < to.len()
                invariant
                    k <= to@.len(),
                    out@ == out0 + to@.take(k as int),
                decreases to.len() - k,
            {
                out.push(to[k]);
                k = k + 1;
                proof {
                    assert(out@ =~= out0 + to@.take(k as int));
                }
            }
            proof {
                assert(to@.take(to@.len() as int) =~= to@);
                assert(out0 + (to@ + replace_all(rest.skip(from@.len() as int), from@, to@)) =~= out@ + replace_all(
                    s@.skip(i + from@.len()),
                    from@,
                    to@,
                ));
            }
            i = i + from.len();
        } else {
            proof {
                assert(rest.skip(1) =~= s@.skip(i + 1));
                if rest.len() >= from@.len() {
                    assert(rest.take(from@.len() as int) =~= s@.subrange(i as int, i + from@.len()));
                } else {
                    assert(replace_all(rest.skip(1), from@, to@) == rest.skip(1));
                    assert(rest =~= seq![rest[0]] + rest.skip(1));
                }
                assert(out@.push(s@[i as int]) + replace_all(rest.skip(1), from@, to@) =~= out@ + replace_all(
                    rest,
                    from@,
                    to@,
                ));
            }
            out.push(s[i]);
            i = i + 1;
        }
    }
    proof {
        assert(s@.skip(i as int) =~= Seq::<u8>::empty());
        assert(out@ + Seq::<u8>::empty() =~= out@);
    }
    out
}

/// Appends the bytes of `text` to `out`.
fn push_str(out: &mut Vec<u8>, text: &str)
    ensures
        final(out)@ == old(out)@ + text.spec_bytes(),
{
    let bytes = text.as_bytes();
    let mut k: usize = 0;
    while k < bytes.len()
        invariant
            k <= bytes@.len(),
            bytes@ == text.spec_bytes(),
            out@ == old(out)@ + bytes@.take(k as int),
        decreases bytes.len() - k,
    {
        out.push(bytes[k]);
        k = k + 1;
        proof {
            assert(out@ =~= old(out)@ + bytes@.take(k as int));
        }
    }
    proof {
        assert(bytes@.take(bytes@.len() as int) =~= bytes@);
    }
}

/// The uri of a request made through a Tauri custom URI protocol named
/// `uri_scheme`, rewritten into the `http://<scheme>.localhost/` form and
/// percent-decoded.
pub fn tauri_request_uri(uri: &str, uri_scheme: &str) -> (rewritten: String)
    ensures
        rewritten@ == tauri_uri(uri.spec_bytes(), uri_scheme.spec_bytes()),
        valid_utf8(percent_decode(tauri_rewrite(uri.spec_bytes(), uri_scheme.spec_bytes())))
            ==> rewritten@ == decode_utf8(percent_decode(tauri_rewrite(uri.spec_bytes(), uri_scheme.spec_bytes()))),
{
    proof {
        reveal_strlit("://localhost/");
        reveal_strlit("://");
        reveal_strlit("http://");
        reveal_strlit(".localhost/");
        vstd::utf8::is_ascii_chars_encode_utf8("://localhost/"@);
        vstd::utf8::is_ascii_chars_encode_utf8("://"@);
        vstd::utf8::is_ascii_chars_encode_utf8("http://"@);
        vstd::utf8::is_ascii_chars_encode_utf8(".localhost/"@);
    }
    let mut url1: Vec<u8> = Vec::new();
    push_str(&mut url1, uri_scheme);
    push_str(&mut url1, "://localhost/");
    let mut url2: Vec<u8> = Vec::new();
    push_str(&mut url2, uri_scheme);
    push_str(&mut url2, "://");
    let mut url3: Vec<u8> = Vec::new();
    push_str(&mut url3, "http://");
    push_str(&mut url3, uri_scheme);
    push_str(&mut url3, ".localhost/");
    proof {
        assert("://localhost/"@.map_values(|c: char| c as u8) =~= "://localhost/".spec_bytes());
        assert("://"@.map_values(|c: char| c as u8) =~= "://".spec_bytes());
        assert("http://"@.map_values(|c: char| c as u8) =~= "http://".spec_bytes());
        assert(".localhost/"@.map_values(|c: char| c as u8) =~= ".localhost/".spec_bytes());
    }
    let mut given: Vec<u8> = Vec::new();
    push_str(&mut given, uri);
    proof {
        assert(given@ =~= uri.spec_bytes());
    }
    let windows = replace_bytes(&given, &url1, &url3);
    let unix = replace_bytes(&windows, &url2, &url3);
    let decoded = percent_decode_bytes(unix.as_slice());
    string_from_utf8_lossy(decoded.as_slice())
}

} // verus!
