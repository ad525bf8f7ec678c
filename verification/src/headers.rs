use vstd::prelude::*;
use vstd::string::StringSliceAdditionalSpecFns;
use crate::text::{ascii_bytes, valid_header_value, valid_lower_header_name};

verus! {

#[verifier::external_type_specification]
#[verifier::external_body]
#[verifier::reject_recursive_types(T)]
pub struct ExHeaderMap<T>(http::HeaderMap<T>);

#[verifier::external_type_specification]
#[verifier::external_body]
pub struct ExHeaderValue(http::HeaderValue);

#[verifier::external_type_specification]
#[verifier::external_body]
pub struct ExExtensions(http::Extensions);

/// What a `http::HeaderMap` holds: for each header name that is present (its
/// lowercase bytes, the form in which `http` stores names), the bytes of its
/// values in the order in which they were added.
pub uninterp spec fn header_entries(map: http::HeaderMap) -> Map<Seq<u8>, Seq<Seq<u8>>>;

/// The first value stored under `name`, as `HeaderMap::get` gives it.
pub open spec fn first_value(entries: Map<Seq<u8>, Seq<Seq<u8>>>, name: Seq<u8>) -> Option<Seq<u8>> {
    if entries.contains_key(name) && entries[name].len() > 0 {
        Some(entries[name][0])
    } else {
        None
    }
}

/// All values stored under `name`, in order, as `HeaderMap::get_all` walks them.
pub open spec fn all_values(entries: Map<Seq<u8>, Seq<Seq<u8>>>, name: Seq<u8>) -> Seq<Seq<u8>> {
    if entries.contains_key(name) {
        entries[name]
    } else {
        Seq::empty()
    }
}

/// `HeaderMap::clone`: a map with the same headers.
#[verifier::external_body]
pub(crate) fn header_map_clone(map: &http::HeaderMap) -> (copy: http::HeaderMap)
    ensures
        header_entries(copy) == header_entries(*map),
{
    map.clone()
}

/// `HeaderMap::get` with a lowercase name: the bytes of the first value stored
/// under that name, if any.
#[verifier::external_body]
pub(crate) fn header_get(map: &http::HeaderMap, name: &str) -> (value: Option<Vec<u8>>)
    requires
        valid_lower_header_name(name@),
    ensures
        value matches Some(v) ==> first_value(header_entries(*map), ascii_bytes(name@)) == Some(v@),
        value is None ==> first_value(header_entries(*map), ascii_bytes(name@)) is None,
{
    map.get(name).map(|v| v.as_bytes().to_vec())
}

/// `HeaderMap::get_all` with a lowercase name: the bytes of every value stored
/// under that name, in order.
#[verifier::external_body]
pub(crate) fn header_get_all(map: &http::HeaderMap, name: &str) -> (values: Vec<Vec<u8>>)
    requires
        valid_lower_header_name(name@),
    ensures
        values@.map_values(|v: Vec<u8>| v@) == all_values(header_entries(*map), ascii_bytes(name@)),
{
    map.get_all(name).iter().map(|v| v.as_bytes().to_vec()).collect()
}

/// `HeaderMap::remove` with a lowercase name: every value under that name
/// leaves the map and the first one is handed back.
#[verifier::external_body]
pub(crate) fn header_remove(map: &mut http::HeaderMap, name: &str) -> (value: Option<Vec<u8>>)
    requires
        valid_lower_header_name(name@),
    ensures
        header_entries(*final(map)) == header_entries(*old(map)).remove(ascii_bytes(name@)),
        value matches Some(v) ==> first_value(header_entries(*old(map)), ascii_bytes(name@)) == Some(v@),
        value is None ==> first_value(header_entries(*old(map)), ascii_bytes(name@)) is None,
{
    map.remove(name).map(|v| v.as_bytes().to_vec())
}

/// `HeaderValue::from_str`, told by its outcome: whether the string is a valid
/// header value, that is whether every byte of it is visible ASCII, a tab, or
/// a byte of 128 and above.
#[verifier::external_body]
pub(crate) fn is_valid_header_value(s: &str) -> (valid: bool)
    ensures
        valid == valid_header_value(s.spec_bytes()),
{
    s.parse::<http::HeaderValue>().is_ok()
}

/// How many values a set of extensions holds (one at most per type).
pub uninterp spec fn extension_count(ext: http::Extensions) -> nat;

/// `Extensions::new`: a set of extensions that holds nothing.
#[verifier::external_body]
pub(crate) fn extensions_new() -> (ext: http::Extensions)
    ensures
        extension_count(ext) == 0,
{
    http::Extensions::new()
}

} // verus!
