//! Responses: what a client is sent as a whole.

use crate::error::{is_client_error, EncodeError};
use crate::headers::string_view;
use crate::text::pair_views;
use vstd::prelude::*;
use vstd::utf8::*;

verus! {

/// A response.
#[derive(Clone, Debug, PartialEq, Eq)]
pub struct HandlerResponse {
    pub status: u16,
    pub body: Option<Vec<u8>>,
    pub content_type: Option<String>,
    pub headers: Vec<(String, String)>,
    pub etag: Option<String>,
}

/// What a response holds.
pub struct ResponseView {
    pub status: u16,
    pub body: Option<Seq<u8>>,
    pub content_type: Option<Seq<char>>,
    pub headers: Seq<(Seq<char>, Seq<char>)>,
    pub etag: Option<Seq<char>>,
}

/// The bytes of an optional body.
pub open spec fn body_view(body: Option<Vec<u8>>) -> Option<Seq<u8>> {
    match body {
        Some(bytes) => Some(bytes@),
        None => None,
    }
}

impl View for HandlerResponse {
    type V = ResponseView;

    open spec fn view(&self) -> ResponseView {
        ResponseView {
            status: self.status,
            body: body_view(self.body),
            content_type: string_view(self.content_type),
            headers: pair_views(self.headers@),
            etag: string_view(self.etag),
        }
    }
}

/// The bytes of a text.
pub(crate) fn bytes_of(text: &str) -> (bytes: Vec<u8>)
    ensures
        bytes@ == encode_utf8(text@),
{
    let mut bytes: Vec<u8> = Vec::new();
    bytes.extend_from_slice(text.as_bytes());
    assert(bytes@ =~= encode_utf8(text@));
    bytes
}

/// A response that must not be stored.
pub open spec fn unstored(
    status: u16,
    body: Option<Seq<u8>>,
    content_type: Option<Seq<char>>,
) -> ResponseView {
    ResponseView {
        status,
        body,
        content_type,
        headers: seq![("cache-control"@, "no-store"@)],
        etag: None,
    }
}

/// A response that must not be stored.
pub(crate) fn unstored_response(
    status: u16,
    body: Option<Vec<u8>>,
    content_type: Option<String>,
) -> (response: HandlerResponse)
    ensures
        response@ == unstored(status, body_view(body), string_view(content_type)),
{
    let mut headers: Vec<(String, String)> = Vec::new();
    headers.push(("cache-control".to_owned(), "no-store".to_owned()));
    assert(pair_views(headers@) =~= seq![("cache-control"@, "no-store"@)]);
    HandlerResponse { status, body, content_type, headers, etag: None }
}

/// A response of JSON.
pub open spec fn json_response_of(status: u16, body: Seq<u8>) -> ResponseView {
    unstored(status, Some(body), Some("application/json"@))
}

/// A response of JSON.
pub(crate) fn json_bytes_response(status: u16, body: Vec<u8>) -> (response: HandlerResponse)
    ensures
        response@ == json_response_of(status, body@),
{
    unstored_response(status, Some(body), Some("application/json".to_owned()))
}

/// The status with which a request fails: the client's fault, or the service's.
pub open spec fn status_of(error: EncodeError) -> u16 {
    if error is Client {
        400
    } else {
        500
    }
}

/// The status with which a request fails.
pub fn classify_error(error: &EncodeError) -> (status: u16)
    ensures
        status == status_of(*error),
{
    if is_client_error(error) {
        400
    } else {
        500
    }
}

/// A request fails with a status of the client where the client is at fault, and with one of the
/// service where it is not. How the fault is worded does not matter.
pub proof fn statuses_tell_whose_fault_it_is(error: EncodeError, other: EncodeError)
    ensures
        error is Client <==> 400 <= status_of(error) < 500,
        error is Internal <==> 500 <= status_of(error) < 600,
        status_of(error) == 400 || status_of(error) == 500,
        (error is Client <==> other is Client) ==> status_of(error) == status_of(other),
{
}

/// What is answered as JSON says so, keeps its status and its body, and is not to be stored.
pub proof fn json_answers_are_not_stored(status: u16, body: Seq<u8>)
    ensures
        json_response_of(status, body).status == status,
        json_response_of(status, body).body == Some(body),
        json_response_of(status, body).content_type == Some("application/json"@),
        json_response_of(status, body).headers.contains(("cache-control"@, "no-store"@)),
        json_response_of(status, body).etag is None,
{
    assert(json_response_of(status, body).headers[0] == ("cache-control"@, "no-store"@));
}

/// A response is seen as it is.
pub proof fn responses_are_seen_as_they_are(response: HandlerResponse, index: int)
    ensures
        response@.status == response.status,
        response.body is Some <==> response@.body is Some,
        response.body is Some ==> response@.body == Some(response.body->Some_0@),
        response@.content_type == string_view(response.content_type),
        response@.etag == string_view(response.etag),
        response@.headers.len() == response.headers@.len(),
        0 <= index < response.headers@.len() ==> response@.headers[index] == (
            response.headers@[index].0@,
            response.headers@[index].1@,
        ),
{
}

} // verus!
