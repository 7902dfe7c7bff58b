//! What the crate takes on trust: its calls into `std` and `http`, and the
//! types of theirs that it holds.
//!
//! Nothing here is proved. Each function makes one call and hands the result
//! on; its contract says what the documentation or the source of the callee
//! says, and where that takes more than a few lines it gives the result a
//! name and leaves it at that.

use crate::client::header_views;
use crate::client::Header;
use crate::key::parts_of;
use crate::key::UriParts;
use crate::key::UriPartsView;
use std::rc::Rc;
use vstd::prelude::*;
use vstd::utf8::valid_utf8;

verus! {

/// `std::io::Error`, carried through as the operating system reported it.
#[verifier::external_type_specification]
#[verifier::external_body]
pub struct ExIoError(std::io::Error);

/// `http::HeaderMap`, the collection of header fields.
#[verifier::external_type_specification]
#[verifier::external_body]
#[verifier::reject_recursive_types(T)]
pub struct ExHeaderMap<T>(http::HeaderMap<T>);

/// `http::HeaderValue`, the value of one header field.
#[verifier::external_type_specification]
#[verifier::external_body]
pub struct ExHeaderValue(http::HeaderValue);

/// `std::str::from_utf8`: succeeds exactly on byte strings that are
/// well-formed UTF-8.
#[verifier::external_body]
pub(crate) fn is_utf8(bytes: &[u8]) -> (ok: bool)
    ensures
        ok == valid_utf8(bytes@),
{
    std::str::from_utf8(bytes).is_ok()
}

/// What `http` makes of a text as a URI: the parts of the URI, or nothing
/// where the text is no URI.
pub uninterp spec fn parsed_uri(text: Seq<char>) -> Option<UriPartsView>;

/// `http::Uri::from_str`, then `Uri::scheme_str`, `Uri::host` and
/// `Uri::port_u16` on the URI it gave: the three parts as owned values, or
/// nothing where `from_str` refused the text.
#[verifier::external_body]
pub(crate) fn parse_uri(text: &str) -> (parts: Option<UriParts>)
    ensures
        parts_of(parts) == parsed_uri(text@),
{
    match text.parse::<http::Uri>() {
        Ok(uri) => Some(
            UriParts {
                scheme: uri.scheme_str().map(String::from),
                host: uri.host().map(String::from),
                port: uri.port_u16(),
            },
        ),
        Err(_) => None,
    }
}

/// The header fields that a map holds, as `HeaderMap::iter` walks them: each
/// with its name and the bytes of its value.
pub uninterp spec fn header_entries(map: http::HeaderMap<http::HeaderValue>) -> Seq<
    (Seq<char>, Seq<u8>),
>;

/// `HeaderMap::iter`: every field of the map in the map's order, as the
/// name from `HeaderName::as_str` and the bytes from `HeaderValue::as_bytes`.
#[verifier::external_body]
pub(crate) fn header_pairs(map: &http::HeaderMap<http::HeaderValue>) -> (pairs: Vec<Header>)
    ensures
        header_views(pairs@) == header_entries(*map),
{
    map.iter().map(|(name, value)| (name.as_str().to_string(), value.as_bytes().to_vec())).collect()
}

/// `HeaderMap::new`: a map without fields.
#[verifier::external_body]
pub(crate) fn no_headers() -> (map: http::HeaderMap<http::HeaderValue>)
    ensures
        header_entries(map) == Seq::<(Seq<char>, Seq<u8>)>::empty(),
{
    http::HeaderMap::new()
}

/// `Rc::clone`: one more handle to the same value.
#[verifier::external_body]
pub(crate) fn share<T>(handle: &Rc<T>) -> (other: Rc<T>)
    ensures
        other == *handle,
{
    Rc::clone(handle)
}

} // verus!
