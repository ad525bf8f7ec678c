use vstd::prelude::*;
use vstd::multiset::Multiset;
use vstd::utf8::encode_utf8;
use crate::headers::is_valid_header_value;
use crate::text::valid_header_value;

verus! {

#[verifier::external_type_specification]
#[verifier::external_body]
pub struct ExCookieJar(cookie::CookieJar);

/// The name and value of each cookie that a jar received: the cookies that came
/// with the request. A jar holds at most one cookie per name.
pub uninterp spec fn jar_received(jar: cookie::CookieJar) -> Map<Seq<char>, Seq<char>>;

/// The cookies that a jar has to send back (its delta), each in the
/// percent-encoded `Set-Cookie` form that `Cookie::encoded` writes.
pub uninterp spec fn jar_delta(jar: cookie::CookieJar) -> Multiset<Seq<char>>;

/// What `Cookie::parse_encoded` makes of a string: the percent-decoded name and
/// value of the cookie, or `None` where it refuses the string.
pub uninterp spec fn cookie_parse_encoded(s: Seq<char>) -> Option<(Seq<char>, Seq<char>)>;

/// `CookieJar::new`: a jar with no cookies at all.
#[verifier::external_body]
pub(crate) fn cookie_jar_new() -> (jar: cookie::CookieJar)
    ensures
        jar_received(jar) =~= Map::empty(),
        jar_delta(jar) =~= Multiset::empty(),
{
    cookie::CookieJar::new()
}

/// `Cookie::parse_encoded` on one piece of a `Cookie` header, and, where it
/// parses, `CookieJar::add_original` with the parsed cookie itself (raw name and
/// value kept): the jar's received cookie of that name becomes this one. Where
/// the piece does not parse, the jar is left as it was. The delta never changes.
#[verifier::external_body]
pub(crate) fn jar_add_parsed(jar: &mut cookie::CookieJar, piece: &str)
    ensures
        jar_received(*final(jar)) == (match cookie_parse_encoded(piece@) {
            Some(pair) => jar_received(*old(jar)).insert(pair.0, pair.1),
            None => jar_received(*old(jar)),
        }),
        jar_delta(*final(jar)) == jar_delta(*old(jar)),
{
    if let Ok(c) = cookie::Cookie::parse_encoded(piece.to_owned()) {
        jar.add_original(c);
    }
}

/// `CookieJar::delta`, each cookie written with `Cookie::encoded`. The jar walks
/// a hash set, so the order in which they come is not stated.
#[verifier::external_body]
pub(crate) fn jar_delta_encoded(jar: &cookie::CookieJar) -> (encoded: Vec<String>)
    ensures
        encoded@.map_values(|s: String| s@).to_multiset() == jar_delta(*jar),
{
    jar.delta().map(|c| c.encoded().to_string()).collect()
}

pub(crate) proof fn lemma_to_multiset_empty<A>(s: Seq<A>)
    requires
        s.len() == 0,
    ensures
        s.to_multiset() =~= Multiset::empty(),
{
    broadcast use vstd::multiset::group_multiset_axioms;
    s.to_multiset_ensures();
    vstd::multiset::lemma_multiset_empty_len(s.to_multiset());
}

proof fn lemma_filter_insert<A>(m: Multiset<A>, a: A, f: spec_fn(A) -> bool)
    ensures
        m.insert(a).filter(f) =~= (if f(a) { m.filter(f).insert(a) } else { m.filter(f) }),
{
    broadcast use vstd::multiset::group_multiset_axioms;
    broadcast use vstd::multiset::group_multiset_properties;
}

/// A `Set-Cookie` value that `http` accepts as a header value.
pub open spec fn sendable_cookie(s: Seq<char>) -> bool {
    valid_header_value(encode_utf8(s))
}

/// The `Set-Cookie` header values that a response carries for a jar: the
/// encoded delta cookies that are valid header values; the others are dropped.
pub fn set_cookie_values(jar: &cookie::CookieJar) -> (values: Vec<String>)
    ensures
        values@.map_values(|s: String| s@).to_multiset() =~= jar_delta(*jar).filter(
            |s: Seq<char>| sendable_cookie(s),
        ),
        forall|i: int| 0 <= i < values@.len() ==> sendable_cookie(#[trigger] values@[i]@),
{
    let encoded = jar_delta_encoded(jar);
    let mut values: Vec<String> = Vec::new();
    let ghost f = |s: Seq<char>| sendable_cookie(s);
    let ghost all = encoded@.map_values(|s: String| s@);
    proof {
        lemma_to_multiset_empty(all.take(0));
        lemma_to_multiset_empty(values@.map_values(|s: String| s@));
        assert(Multiset::<Seq<char>>::empty().filter(f) =~= Multiset::empty());
    }
    let mut i: usize = 0;
    while i < encoded.len()
        invariant
            i <= encoded.len(),
            f == (|s: Seq<char>| sendable_cookie(s)),
            all == encoded@.map_values(|s: String| s@),
            all.to_multiset() == jar_delta(*jar),
            values@.map_values(|s: String| s@).to_multiset() =~= all.take(i as int).to_multiset().filter(f),
            forall|k: int| 0 <= k < values@.len() ==> sendable_cookie(#[trigger] values@[k]@),
        decreases encoded.len() - i,
    {
        let s = &encoded[i];
        let keep = is_valid_header_value(s.as_str());
        let ghost before = values@.map_values(|s: String| s@);
        let ghost prev = all.take(i as int);
        proof {
            assert(all.take(i + 1) =~= prev.push(s@));
            prev.to_multiset_ensures();
            assert(prev.push(s@).to_multiset() =~= prev.to_multiset().insert(s@));
        }
        if keep {
            values.push(s.clone());
            proof {
                assert(values@.map_values(|s: String| s@) =~= before.push(s@));
                before.to_multiset_ensures();
                assert(before.push(s@).to_multiset() =~= before.to_multiset().insert(s@));
                lemma_filter_insert(prev.to_multiset(), s@, f);
            }
        } else {
            proof {
                assert(values@.map_values(|s: String| s@) =~= before);
                lemma_filter_insert(prev.to_multiset(), s@, f);
            }
        }
        i = i + 1;
    }
    proof {
        assert(all.take(encoded@.len() as int) =~= all);
    }
    values
}

} // verus!
