//! Header fields, as the `http` crate keeps them.

use vstd::prelude::*;

verus! {

/// The header map of the `http` crate.
#[verifier::external_type_specification]
#[verifier::external_body]
#[verifier::reject_recursive_types(T)]
pub struct ExHeaderMap<T>(http::HeaderMap<T>);

/// The header value of the `http` crate.
#[verifier::external_type_specification]
#[verifier::external_body]
pub struct ExHeaderValue(http::HeaderValue);

/// The fields in a header map, name and value, in the order in which
/// `HeaderMap::iter` yields them. Names are in lower case.
pub uninterp spec fn header_fields(headers: http::HeaderMap) -> Seq<(Seq<char>, Seq<u8>)>;

/// Whether `name` is a header name made of lower-case letters and hyphens.
pub open spec fn is_plain_name(name: Seq<char>) -> bool {
    name.len() > 0 && forall|i: int|
        0 <= i < name.len() ==> ('a' <= #[trigger] name[i] && name[i] <= 'z') || name[i] == '-'
}

/// The value of the first of `fields` that is named `name`.
pub open spec fn first_value(fields: Seq<(Seq<char>, Seq<u8>)>, name: Seq<char>) -> Option<Seq<u8>>
    decreases fields.len(),
{
    if fields.len() == 0 {
        None
    } else if fields[0].0 == name {
        Some(fields[0].1)
    } else {
        first_value(fields.drop_first(), name)
    }
}

/// Whether every byte is a visible ASCII character, a space or a tab.
pub open spec fn is_visible(bytes: Seq<u8>) -> bool {
    forall|i: int| 0 <= i < bytes.len() ==> (32 <= #[trigger] bytes[i] < 127 || bytes[i] == 9)
}

/// `HeaderMap::get`, and the value's bytes: the first value under that name, or
/// `None` if there is none.
#[verifier::external_body]
pub(crate) fn get(headers: &http::HeaderMap, name: &str) -> (r: Option<Vec<u8>>)
    requires
        is_plain_name(name@),
    ensures
        r is Some <==> first_value(header_fields(*headers), name@) is Some,
        r is Some ==> r->0@ == first_value(header_fields(*headers), name@)->0,
{
    headers.get(name).map(|value| value.as_bytes().to_vec())
}

/// `HeaderMap::contains_key`: whether there is a value under that name.
#[verifier::external_body]
pub(crate) fn contains(headers: &http::HeaderMap, name: &str) -> (r: bool)
    requires
        is_plain_name(name@),
    ensures
        r == first_value(header_fields(*headers), name@) is Some,
{
    headers.contains_key(name)
}

/// `HeaderMap::iter`: every field, name and value, in order.
#[verifier::external_body]
pub(crate) fn fields(headers: &http::HeaderMap) -> (r: Vec<(String, Vec<u8>)>)
    ensures
        r@.len() == header_fields(*headers).len(),
        forall|i: int|
            0 <= i < r@.len() ==> (#[trigger] r@[i]).0@ == header_fields(*headers)[i].0
                && r@[i].1@ == header_fields(*headers)[i].1,
{
    headers.iter().map(|(name, value)| (name.as_str().to_string(), value.as_bytes().to_vec())).collect()
}

/// `HeaderMap::clone`: a map of the same fields in the same order.
#[verifier::external_body]
pub(crate) fn duplicate(headers: &http::HeaderMap) -> (r: http::HeaderMap)
    ensures
        header_fields(r) == header_fields(*headers),
{
    headers.clone()
}

/// The text whose characters are those bytes.
pub open spec fn byte_text(bytes: Seq<u8>) -> Seq<char> {
    bytes.map_values(|b: u8| b as char)
}

/// `HeaderValue::to_str`, for the value that `HeaderValue::from_bytes` makes of
/// the bytes: the bytes as text, if each is a visible ASCII character, a space or
/// a tab.
#[verifier::external_body]
pub(crate) fn to_str(bytes: &[u8]) -> (r: Option<String>)
    ensures
        r is Some <==> is_visible(bytes@),
        r is Some ==> r->0@ == byte_text(bytes@),
{
    http::HeaderValue::from_bytes(bytes).ok()?.to_str().ok().map(|text| text.to_string())
}

/// The first value under a name is that of the first field that has the name, and
/// there is none just where no field has it.
pub proof fn the_first_field_counts(fields: Seq<(Seq<char>, Seq<u8>)>, name: Seq<char>)
    ensures
        match first_value(fields, name) {
            Some(value) => exists|i: int|
                {
                    &&& 0 <= i < fields.len()
                    &&& (#[trigger] fields[i]) == (name, value)
                    &&& forall|j: int| 0 <= j < i ==> (#[trigger] fields[j]).0 != name
                },
            None => forall|i: int| 0 <= i < fields.len() ==> (#[trigger] fields[i]).0 != name,
        },
    decreases fields.len(),
{
    if fields.len() > 0 {
        if fields[0].0 == name {
            assert(fields[0] == (name, fields[0].1));
        } else {
            let rest = fields.drop_first();
            the_first_field_counts(rest, name);
            assert forall|j: int| 0 < j < fields.len() implies (#[trigger] fields[j]) == rest[j
                - 1] by {}
            if first_value(rest, name) is Some {
                let value = first_value(rest, name)->0;
                let i = choose|i: int|
                    {
                        &&& 0 <= i < rest.len()
                        &&& (#[trigger] rest[i]) == (name, value)
                        &&& forall|j: int| 0 <= j < i ==> (#[trigger] rest[j]).0 != name
                    };
                assert(fields[i + 1] == (name, value));
            }
        }
    }
}

} // verus!
