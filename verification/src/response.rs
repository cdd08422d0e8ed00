//! The response that carries a rendered fragment.
use vstd::prelude::*;

verus! {

/// `http::Response`, carried through as it is.
#[verifier::external_type_specification]
#[verifier::external_body]
#[verifier::reject_recursive_types(T)]
pub struct ExResponse<T>(http::Response<T>);

/// The status code of a response.
pub uninterp spec fn status_of(response: http::Response<String>) -> int;

/// The headers of a response: for each name, its values in the order in which
/// they were added.
pub uninterp spec fn headers_of(response: http::Response<String>) -> Map<Seq<char>, Seq<Seq<char>>>;

/// The body of a response.
pub uninterp spec fn body_of(response: http::Response<String>) -> Seq<char>;

/// The headers of a response that has none.
pub open spec fn no_headers() -> Map<Seq<char>, Seq<Seq<char>>> {
    Map::empty()
}

/// A header name made of lower-case ASCII letters, digits and hyphens, at
/// most 64 of them and at least one.
pub open spec fn is_plain_name(name: Seq<char>) -> bool {
    &&& 1 <= name.len() <= 64
    &&& forall|i: int|
        0 <= i < name.len() ==> {
            let c = #[trigger] name[i];
            ('a' <= c <= 'z') || ('0' <= c <= '9') || c == '-'
        }
}

/// A header value made of visible ASCII characters and spaces.
pub open spec fn is_plain_value(value: Seq<char>) -> bool {
    forall|i: int| 0 <= i < value.len() ==> ' ' <= #[trigger] value[i] <= '~'
}

/// Makes a response with `http::Response::new`, which gives it the body, the
/// status 200 and no headers.
#[verifier::external_body]
pub(crate) fn new_response(body: String) -> (response: http::Response<String>)
    ensures
        status_of(response) == 200,
        headers_of(response) == no_headers(),
        body_of(response) == body@,
{
    http::Response::new(body)
}

/// Adds the first header of a response through
/// `http::HeaderMap::append`, with the value made by
/// `http::HeaderValue::from_static`. A plain name is taken as it stands and a
/// plain value is accepted; status and body stay as they are.
#[verifier::external_body]
pub(crate) fn append_header(
    response: &mut http::Response<String>,
    name: &'static str,
    value: &'static str,
)
    requires
        is_plain_name(name@),
        is_plain_value(value@),
        headers_of(*old(response)) == no_headers(),
    ensures
        headers_of(*final(response)) == no_headers().insert(
            name@,
            seq![value@],
        ),
        status_of(*final(response)) == status_of(*old(response)),
        body_of(*final(response)) == body_of(*old(response)),
{
    response.headers_mut().append(name, http::HeaderValue::from_static(value));
}

/// Wraps a rendered fragment in a response: status 200, the content type
/// `text/html`, and the fragment, unchanged, as the body.
pub fn html_response(html: String) -> (response: http::Response<String>)
    ensures
        status_of(response) == 200,
        headers_of(response) == no_headers().insert(
            "content-type"@,
            seq!["text/html"@],
        ),
        body_of(response) == html@,
{
    let mut response = new_response(html);
    proof {
        reveal_strlit("content-type");
        reveal_strlit("text/html");
    }
    append_header(&mut response, "content-type", "text/html");
    response
}

} // verus!
