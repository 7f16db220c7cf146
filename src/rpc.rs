use vstd::prelude::*;

use crate::method::ApiMethod;

verus! {

/// Correlation id of a request, allocated by the transport.
pub type RequestNo = i32;

/// How a call is answered.
#[derive(Debug, Clone, Copy, PartialEq, Eq, Structural)]
pub enum RpcType {
    /// One request, one response.
    Async,
    /// One request, any number of responses, then an end-of-stream marker.
    Source,
    /// Streams in both directions; no method of the catalogue uses it.
    Duplex,
}

/// How the payload bytes of a frame are to be read.
#[derive(Debug, Clone, Copy, PartialEq, Eq, Structural)]
pub enum BodyType {
    Binary,
    Utf8,
    Json,
}

/// A structured argument value, as the transport encodes it.
#[derive(Debug, PartialEq)]
pub enum JsonValue {
    Null,
    Bool(bool),
    Int(i64),
    /// A number outside the range of `i64`, as its JSON text.
    Number(String),
    Str(String),
    Array(Vec<JsonValue>),
    Object(Vec<(String, JsonValue)>),
}

/// The body of an inbound request frame.
#[derive(Debug, PartialEq)]
pub struct Body {
    pub name: Vec<String>,
    pub rpc_type: RpcType,
    pub args: JsonValue,
}

/// An outbound request: the method, how it is answered, its arguments and
/// its options. The options slot is always carried; `None` is sent as an
/// explicit empty value.
#[derive(Debug, PartialEq)]
pub struct Request {
    pub method: ApiMethod,
    pub rpc_type: RpcType,
    pub args: JsonValue,
    pub opts: Option<JsonValue>,
}

/// Whether `v` is the string `s`.
pub open spec fn is_str(v: JsonValue, s: Seq<char>) -> bool {
    v matches JsonValue::Str(t) && t@ == s
}

/// Whether `v` is an array of the strings `ss`, in order.
pub open spec fn is_str_array(v: JsonValue, ss: Seq<Seq<char>>) -> bool {
    match v {
        JsonValue::Array(a) => a@.len() == ss.len() && forall|i: int|
            0 <= i < ss.len() ==> is_str(#[trigger] a@[i], ss[i]),
        _ => false,
    }
}

/// Whether `v` is an object with the keys `keys`, in order.
pub open spec fn is_object(v: JsonValue, keys: Seq<Seq<char>>) -> bool {
    match v {
        JsonValue::Object(fs) => fs@.len() == keys.len() && forall|i: int|
            0 <= i < keys.len() ==> (#[trigger] fs@[i]).0@ == keys[i],
        _ => false,
    }
}

/// The value of the `i`-th field of the object `v`.
pub open spec fn field(v: JsonValue, i: int) -> JsonValue {
    match v {
        JsonValue::Object(fs) => fs@[i].1,
        _ => JsonValue::Null,
    }
}

/// A response frame correlated to an earlier request.
#[derive(Debug, PartialEq)]
pub struct Response {
    pub req_no: RequestNo,
    pub rpc_type: RpcType,
    pub body_type: BodyType,
    pub body: Vec<u8>,
}

/// A failure of the transport to encode or write a frame.
#[derive(Debug, PartialEq, Eq)]
pub struct TransportError {
    pub message: String,
}

/// The ways a call of this library can fail.
#[derive(Debug, PartialEq, Eq)]
pub enum ApiError {
    /// The transport failed; its error is handed on unchanged.
    Transport(TransportError),
}

/// The segments of a selector held as owned strings, as character sequences.
pub open spec fn names_of(s: Seq<String>) -> Seq<Seq<char>> {
    s.map_values(|x: String| x@)
}

} // verus!
