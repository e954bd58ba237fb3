//! Reading request headers: the gateway takes the session token out of the `Cookie`
//! header and passes the `Authorization` header on to the GraphQL resolvers.
use vstd::prelude::*;
use axum::http::{HeaderMap, HeaderValue};
use crate::cookie::{cookie_jwt, jwt_from_cookie};
use crate::text::string_of;

verus! {

/// Declares `http::HeaderMap` (as re-exported by axum) to Verus as an opaque type; what a
/// map holds is known only through `header_map_values`.
#[verifier::external_type_specification]
#[verifier::external_body]
#[verifier::reject_recursive_types(T)]
pub struct ExHeaderMap<T>(HeaderMap<T>);

/// Declares `http::HeaderValue` to Verus as an opaque type; its bytes are known only
/// through `header_value_bytes`.
#[verifier::external_type_specification]
#[verifier::external_body]
pub struct ExHeaderValue(HeaderValue);

/// What a `HeaderMap` holds: for each header name (in lower case, the form in which
/// `HeaderMap` keeps names) the bytes of its values, in the order they were added.
pub uninterp spec fn header_map_values(map: HeaderMap) -> Map<Seq<char>, Seq<Seq<u8>>>;

/// The bytes of a header value.
pub uninterp spec fn header_value_bytes(value: HeaderValue) -> Seq<u8>;

/// Whether `b` is a byte that `HeaderValue::to_str` accepts: a tab or visible ASCII.
pub open spec fn is_visible_ascii(b: u8) -> bool {
    (32 <= b && b < 127) || b == 9
}

/// Whether `name` is a header name already in the lower-case form that `HeaderMap` keeps.
pub open spec fn is_lower_header_name(name: Seq<char>) -> bool {
    &&& name.len() > 0
    &&& forall|i: int|
        0 <= i < name.len() ==> ('a' <= #[trigger] name[i] && name[i] <= 'z') || ('0' <= name[i]
            && name[i] <= '9') || name[i] == '-'
}

/// The characters of an ASCII byte sequence.
pub open spec fn ascii_text(bytes: Seq<u8>) -> Seq<char> {
    bytes.map_values(|b: u8| b as char)
}

/// The text of the first value of header `name`, when there is one and it is made of
/// tabs and visible ASCII only.
pub open spec fn header_text(map: HeaderMap, name: Seq<char>) -> Option<Seq<char>> {
    let values = header_map_values(map);
    if values.dom().contains(name) && values[name].len() > 0 && (forall|i: int|
        0 <= i < values[name][0].len() ==> is_visible_ascii(#[trigger] values[name][0][i])) {
        Some(ascii_text(values[name][0]))
    } else {
        None
    }
}

/// Trusted: calls `HeaderMap::get` with a lower-case name. Its contract claims that a
/// value comes back exactly when some value is stored under `name`, and that it is the
/// first one stored, as `HeaderMap::get` documents.
#[verifier::external_body]
fn first_header_value<'a>(map: &'a HeaderMap, name: &str) -> (r: Option<&'a HeaderValue>)
    requires
        is_lower_header_name(name@),
    ensures
        r is Some <==> (header_map_values(*map).dom().contains(name@) && header_map_values(
            *map,
        )[name@].len() > 0),
        r matches Some(v) ==> header_value_bytes(*v) == header_map_values(*map)[name@][0],
{
    map.get(name)
}

/// Trusted: calls `HeaderValue::to_str`, with the error turned into `None`. Its contract
/// claims that the text comes back exactly when every byte is a tab or visible ASCII, and
/// that it is those bytes read as characters.
#[verifier::external_body]
fn header_value_text<'a>(value: &'a HeaderValue) -> (r: Option<&'a str>)
    ensures
        r is Some <==> (forall|i: int|
            0 <= i < header_value_bytes(*value).len() ==> is_visible_ascii(
                #[trigger] header_value_bytes(*value)[i],
            )),
        r matches Some(s) ==> s@ == ascii_text(header_value_bytes(*value)),
{
    value.to_str().ok()
}

/// The text of the first value of the lower-case header `name`, when it is tabs and
/// visible ASCII only.
pub fn header_str<'a>(headers: &'a HeaderMap, name: &str) -> (r: Option<&'a str>)
    requires
        is_lower_header_name(name@),
    ensures
        match r {
            Some(s) => header_text(*headers, name@) == Some(s@),
            None => header_text(*headers, name@) is None,
        },
{
    match first_header_value(headers, name) {
        Some(v) => {
            let r = header_value_text(v);
            proof {
                let values = header_map_values(*headers);
                if r is None {
                    let b = header_value_bytes(*v);
                    let i = choose|i: int| 0 <= i < b.len() && !is_visible_ascii(#[trigger] b[i]);
                    assert(!is_visible_ascii(values[name@][0][i]));
                }
            }
            r
        },
        None => None,
    }
}

/// The session token carried by the request's `Cookie` header: the first value of the
/// header, read as text, gives the token of its first piece named `jwt_token`.
pub fn extract_jwt_from_cookie(headers: &HeaderMap) -> (r: Option<String>)
    ensures
        match header_text(*headers, "cookie"@) {
            Some(c) => match r {
                Some(t) => cookie_jwt(c) == Some(t@),
                None => cookie_jwt(c) is None,
            },
            None => r is None,
        },
{
    proof {
        reveal_strlit("cookie");
    }
    match header_str(headers, "cookie") {
        Some(c) => jwt_from_cookie(c),
        None => None,
    }
}

/// The text of the request's `Authorization` header, which the gateway hands to the
/// GraphQL resolvers.
pub fn authorization_text(headers: &HeaderMap) -> (r: Option<String>)
    ensures
        match r {
            Some(t) => header_text(*headers, "authorization"@) == Some(t@),
            None => header_text(*headers, "authorization"@) is None,
        },
{
    proof {
        reveal_strlit("authorization");
    }
    match header_str(headers, "authorization") {
        Some(a) => {
            let cs = crate::text::chars_of(a);
            Some(string_of(cs.as_slice()))
        },
        None => None,
    }
}

} // verus!
