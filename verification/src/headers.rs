//! The headers of a request.
use reqwest::header::{HeaderMap, HeaderValue, InvalidHeaderValue};
use vstd::prelude::*;
use vstd::utf8::encode_utf8;

verus! {

/// `reqwest::header::HeaderValue`: the value of one header.
#[verifier::external_type_specification]
#[verifier::external_body]
pub struct ExHeaderValue(HeaderValue);

/// `reqwest::header::InvalidHeaderValue`: why a text is no header value.
#[verifier::external_type_specification]
#[verifier::external_body]
pub struct ExInvalidHeaderValue(InvalidHeaderValue);

/// `reqwest::header::HeaderMap`: header values by header name.
#[verifier::external_type_specification]
#[verifier::external_body]
#[verifier::reject_recursive_types(T)]
pub struct ExHeaderMap<T>(HeaderMap<T>);

/// The bytes of a header value.
pub uninterp spec fn header_bytes(value: HeaderValue) -> Seq<u8>;

/// The error that a text gives that is no header value.
pub uninterp spec fn header_refusal(text: Seq<char>) -> InvalidHeaderValue;

/// The bytes of the first value of each header, by the name in lower case.
pub uninterp spec fn header_fields(headers: HeaderMap) -> Map<Seq<char>, Seq<u8>>;

/// A character that a header value may hold: any but the control characters, of
/// which only the tab is allowed.
pub open spec fn header_char(c: char) -> bool {
    let n = c as u32;
    n >= 32 && n != 127 || n == 9
}

/// A visible ASCII character or the space.
pub open spec fn visible_char(c: char) -> bool {
    32 <= c as u32 <= 126
}

/// Whether a text can be a header value.
pub open spec fn header_text(s: Seq<char>) -> bool {
    forall|i: int| 0 <= i < s.len() ==> header_char(#[trigger] s[i])
}

/// A small letter, a digit or the hyphen, of which the names of headers consist.
pub open spec fn header_name_char(c: char) -> bool {
    let n = c as u32;
    0x61 <= n <= 0x7a || 0x30 <= n <= 0x39 || n == 0x2d
}

/// `HeaderValue::from_str` takes over the bytes of a text, unless one of them is a
/// control character other than the tab. All bytes of characters beyond ASCII are
/// allowed. The error that it gives otherwise depends on the text alone.
pub assume_specification[ HeaderValue::from_str ](src: &str) -> (value: Result<
    HeaderValue,
    InvalidHeaderValue,
>)
    ensures
        value is Ok <==> header_text(src@),
        value matches Ok(v) ==> header_bytes(v) == encode_utf8(src@),
        value matches Err(e) ==> e == header_refusal(src@),
;

/// `HeaderValue::from_static` takes over the bytes of a text. It panics on a text
/// that holds anything but visible ASCII characters and spaces.
pub assume_specification[ HeaderValue::from_static ](src: &'static str) -> (value: HeaderValue)
    requires
        forall|i: int| 0 <= i < src@.len() ==> visible_char(#[trigger] src@[i]),
    ensures
        header_bytes(value) == encode_utf8(src@),
;

/// `HeaderMap::new` gives a map without headers.
pub assume_specification[ HeaderMap::<HeaderValue>::new ]() -> (headers: HeaderMap<HeaderValue>)
    ensures
        header_fields(headers) == (Map::<Seq<char>, Seq<u8>>::empty()),
;

/// `HeaderMap::insert` makes `value` the only value of the header `name`, which is
/// given in lower case. It panics on a name that no header can have and on a map
/// that is too large; a map of fewer than 64 names is not.
#[verifier::external_body]
pub(crate) fn set_header(headers: &mut HeaderMap, name: &'static str, value: HeaderValue)
    requires
        0 < name@.len() <= 64,
        forall|i: int| 0 <= i < name@.len() ==> header_name_char(#[trigger] name@[i]),
        header_fields(*old(headers)).dom().len() < 64,
    ensures
        header_fields(*final(headers)) == header_fields(*old(headers)).insert(
            name@,
            header_bytes(value),
        ),
{
    headers.insert(name, value);
}

} // verus!
