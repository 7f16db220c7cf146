use vstd::prelude::*;

use crate::method::{rpc_type_of, ApiMethod};
use crate::rpc::{BodyType, RequestNo, Response, RpcType};
use crate::stream::BlobStream;
use vstd::utf8::encode_utf8;

verus! {

#[verifier::external_type_specification]
#[verifier::external_body]
pub struct ExJsonError(serde_json::Error);

/// The hexadecimal digit for `n < 16`, in lower case.
pub open spec fn hex_digit(n: u32) -> char {
    seq!['0', '1', '2', '3', '4', '5', '6', '7', '8', '9', 'a', 'b', 'c', 'd', 'e', 'f'][n as int]
}

/// How one character is written inside a JSON string literal: a quote and a
/// backslash get a backslash before them; backspace, tab, line feed, form
/// feed and carriage return become `\b \t \n \f \r`; the other characters
/// below 0x20 become `\u00xx` in lower-case hexadecimal; every other
/// character is written as it is.
pub open spec fn json_escape(c: char) -> Seq<char> {
    let n = c as u32;
    if c == '"' {
        seq!['\\', '"']
    } else if c == '\\' {
        seq!['\\', '\\']
    } else if n == 0x08 {
        seq!['\\', 'b']
    } else if n == 0x09 {
        seq!['\\', 't']
    } else if n == 0x0A {
        seq!['\\', 'n']
    } else if n == 0x0C {
        seq!['\\', 'f']
    } else if n == 0x0D {
        seq!['\\', 'r']
    } else if n < 0x20 {
        seq!['\\', 'u', '0', '0', hex_digit(n / 16), hex_digit(n % 16)]
    } else {
        seq![c]
    }
}

/// The compact JSON string literal for the characters `s`: each character
/// escaped, between double quotes.
pub open spec fn json_string_of(s: Seq<char>) -> Seq<char> {
    seq!['"'] + s.map_values(|c: char| json_escape(c)).flatten() + seq!['"']
}

/// Relies on serde_json::to_string, applied to a string slice: it writes the
/// string between quotes with the escapes of `json_escape`, into a `Vec`,
/// which cannot fail.
#[verifier::external_body]
fn json_string(s: &str) -> (r: Result<String, serde_json::Error>)
    ensures
        r is Ok,
        r->Ok_0@ == json_string_of(s@),
{
    serde_json::to_string(s)
}

/// Whether `r` is a single `Async` or `Source` response frame of type
/// `body_type` to request `req_no` whose payload is the UTF-8 encoding of
/// `text`.
pub open spec fn is_text_response(
    r: Response,
    req_no: RequestNo,
    rpc_type: RpcType,
    body_type: BodyType,
    text: Seq<char>,
) -> bool {
    &&& r.req_no == req_no
    &&& r.rpc_type == rpc_type
    &&& r.body_type == body_type
    &&& r.body@ == encode_utf8(text)
}

/// The body of the `["whoami"]` response for the identity whose JSON string
/// literal is `id_json`: the object `{"id":<id_json>}`.
pub open spec fn whoami_text(id_json: Seq<char>) -> Seq<char> {
    "{\"id\":"@ + id_json + "}"@
}

fn text_response(req_no: RequestNo, rpc_type: RpcType, body_type: BodyType, text: &str) -> (r:
    Response)
    ensures
        is_text_response(r, req_no, rpc_type, body_type, text@),
{
    Response { req_no, rpc_type, body_type, body: text.as_bytes_vec() }
}

/// The `["publish"]` response carrying the reference `msg_ref` of the
/// published message.
pub fn publish_res(req_no: RequestNo, msg_ref: &str) -> (r: Response)
    ensures
        is_text_response(r, req_no, rpc_type_of(ApiMethod::Publish), BodyType::Json, msg_ref@),
{
    text_response(req_no, ApiMethod::Publish.rpc_type(), BodyType::Json, msg_ref)
}

/// The `["whoami"]` response built from `id_json`, the JSON string literal
/// of the identity.
pub fn whoami_res_from_json(req_no: RequestNo, id_json: &str) -> (r: Response)
    ensures
        is_text_response(
            r,
            req_no,
            rpc_type_of(ApiMethod::WhoAmI),
            BodyType::Json,
            whoami_text(id_json@),
        ),
{
    let mut text = String::from_str("{\"id\":");
    text.append(id_json);
    text.append("}");
    text_response(req_no, ApiMethod::WhoAmI.rpc_type(), BodyType::Json, text.as_str())
}

/// The `["whoami"]` response for the identity `id`: the JSON object
/// `{"id":<id>}`.
pub fn whoami_res(req_no: RequestNo, id: &str) -> (r: Response)
    ensures
        is_text_response(
            r,
            req_no,
            rpc_type_of(ApiMethod::WhoAmI),
            BodyType::Json,
            whoami_text(json_string_of(id@)),
        ),
{
    let id_json = json_string(id).unwrap();
    whoami_res_from_json(req_no, id_json.as_str())
}

/// The `["get"]` response carrying the message `msg`, in its JSON text.
pub fn get_res(req_no: RequestNo, msg: &str) -> (r: Response)
    ensures
        is_text_response(r, req_no, rpc_type_of(ApiMethod::Get), BodyType::Json, msg@),
{
    text_response(req_no, ApiMethod::Get.rpc_type(), BodyType::Json, msg)
}

/// One response frame of a feed stream, carrying the JSON text `feed`.
pub fn feed_res(req_no: RequestNo, feed: &str) -> (r: Response)
    ensures
        is_text_response(r, req_no, RpcType::Source, BodyType::Json, feed@),
{
    text_response(req_no, RpcType::Source, BodyType::Json, feed)
}

/// The `["blobs", "get"]` response carrying the blob `data`, as a stream of
/// bounded chunks that ends with an end-of-stream marker.
pub fn blobs_get_res(req_no: RequestNo, data: Vec<u8>) -> (r: BlobStream)
    ensures
        r.wf(),
        r.spec_req_no() == req_no,
        r.spec_payload() == data@,
        r.spec_state() == crate::stream::StreamState::Open,
        r.spec_sent().len() == 0,
{
    BlobStream::new(req_no, data)
}

} // verus!
