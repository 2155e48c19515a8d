//! Inbound and outbound JSON-RPC messages: telling a request from a
//! notification, and writing an answer back as JSON text.

use vstd::prelude::*;
use crate::json::{
    as_text, entry, get_field, int_value, json_get, json_i64, json_is_null, json_parse, json_str,
    json_text, new_object, object_entries, object_insert, object_value, parse_json, string_value,
    to_json_bytes,
};

verus! {

/// A message read from the peer. A request carries a non-null `id` and asks
/// for an answer; a notification carries none.
pub enum InboundMessage {
    Request {
        protocol_version: String,
        id: serde_json::Value,
        method: String,
        params: serde_json::Value,
    },
    Notification { protocol_version: String, method: String, params: serde_json::Value },
}

/// The error member of an error answer.
pub struct RpcError {
    pub code: i32,
    pub message: String,
}

/// A message sent to the peer: the result of a request, an error answer to
/// one, or a notification pushed on the server's own account.
pub enum OutboundMessage {
    Result { protocol_version: String, id: serde_json::Value, result: serde_json::Value },
    Error { protocol_version: String, id: serde_json::Value, error: RpcError },
    Notification { protocol_version: String, method: String, params: serde_json::Value },
}

/// Why a payload is not an inbound message.
#[derive(Debug, Clone, Copy, PartialEq, Eq, Structural)]
pub enum Malformation {
    /// The payload is not one well-formed JSON text.
    InvalidJson,
    /// The JSON value lacks a string `jsonrpc`, a string `method` or a
    /// `params` member (any value that is not an object lacks them all).
    NotAMessage,
}

#[derive(Debug, Clone, Copy, PartialEq, Eq, Structural)]
pub enum DecodeError {
    Malformed(Malformation),
}

/// The text of the string member `key` of `v`.
pub open spec fn text_member(v: serde_json::Value, key: Seq<char>) -> Option<Seq<char>> {
    match json_get(v, key) {
        Some(f) => json_str(f),
        None => None,
    }
}

/// `v` has the members that both message shapes share.
pub open spec fn has_message_shape(v: serde_json::Value) -> bool {
    text_member(v, "jsonrpc"@).is_some() && text_member(v, "method"@).is_some() && json_get(
        v,
        "params"@,
    ).is_some()
}

/// `v` has an `id` member that is not `null`: the sole mark of a request.
pub open spec fn carries_id(v: serde_json::Value) -> bool {
    match json_get(v, "id"@) {
        Some(i) => !json_is_null(i),
        None => false,
    }
}

impl InboundMessage {
    pub open spec fn version_view(&self) -> Seq<char> {
        match self {
            InboundMessage::Request { protocol_version, .. } => protocol_version@,
            InboundMessage::Notification { protocol_version, .. } => protocol_version@,
        }
    }

    pub open spec fn method_view(&self) -> Seq<char> {
        match self {
            InboundMessage::Request { method, .. } => method@,
            InboundMessage::Notification { method, .. } => method@,
        }
    }

    pub open spec fn params_view(&self) -> serde_json::Value {
        match self {
            InboundMessage::Request { params, .. } => *params,
            InboundMessage::Notification { params, .. } => *params,
        }
    }

    pub open spec fn is_request(&self) -> bool {
        self is Request
    }

    /// The id of a request.
    pub open spec fn id_view(&self) -> serde_json::Value
        recommends
            self is Request,
    {
        match self {
            InboundMessage::Request { id, .. } => *id,
            InboundMessage::Notification { .. } => arbitrary(),
        }
    }

    /// The name of the method the message invokes.
    pub fn method(&self) -> (r: &str)
        ensures
            r@ == self.method_view(),
    {
        match self {
            InboundMessage::Request { method, .. } => method.as_str(),
            InboundMessage::Notification { method, .. } => method.as_str(),
        }
    }

    /// The parameters of the message.
    pub fn params(&self) -> (r: &serde_json::Value)
        ensures
            *r == self.params_view(),
    {
        match self {
            InboundMessage::Request { params, .. } => params,
            InboundMessage::Notification { params, .. } => params,
        }
    }

    /// The `uri` member of the parameters, where it is a string.
    pub fn uri(&self) -> (r: Option<&str>)
        ensures
            match r {
                Some(u) => text_member(self.params_view(), "uri"@) == Some(u@),
                None => text_member(self.params_view(), "uri"@).is_none(),
            },
    {
        match get_field(self.params(), "uri") {
            Some(u) => as_text(u),
            None => None,
        }
    }
}

/// `m` is the message that the JSON value `v` describes.
pub open spec fn describes(v: serde_json::Value, m: InboundMessage) -> bool {
    &&& has_message_shape(v)
    &&& m.version_view() == text_member(v, "jsonrpc"@).unwrap()
    &&& m.method_view() == text_member(v, "method"@).unwrap()
    &&& m.params_view() == json_get(v, "params"@).unwrap()
    &&& m.is_request() == carries_id(v)
    &&& m.is_request() ==> m.id_view() == json_get(v, "id"@).unwrap()
}

/// What decoding the JSON value `v` must give.
pub open spec fn classified(v: serde_json::Value, r: Result<InboundMessage, DecodeError>) -> bool {
    if has_message_shape(v) {
        r.is_ok() && describes(v, r.unwrap())
    } else {
        r == Err::<InboundMessage, DecodeError>(DecodeError::Malformed(Malformation::NotAMessage))
    }
}

/// Reads a string member of `v` as an owned string.
fn text_of(v: &serde_json::Value, key: &str) -> (r: Option<String>)
    ensures
        match r {
            Some(s) => text_member(*v, key@) == Some(s@),
            None => text_member(*v, key@).is_none(),
        },
{
    match get_field(v, key) {
        Some(f) => match as_text(f) {
            Some(s) => Some(s.to_owned()),
            None => None,
        },
        None => None,
    }
}

/// Tells a request from a notification: a non-null `id` member makes a
/// request, its absence (or `null`) a notification.
pub fn classify(v: &serde_json::Value) -> (r: Result<InboundMessage, DecodeError>)
    ensures
        classified(*v, r),
{
    let protocol_version = match text_of(v, "jsonrpc") {
        Some(s) => s,
        None => {
            return Err(DecodeError::Malformed(Malformation::NotAMessage));
        },
    };
    let method = match text_of(v, "method") {
        Some(s) => s,
        None => {
            return Err(DecodeError::Malformed(Malformation::NotAMessage));
        },
    };
    let params = match get_field(v, "params") {
        Some(p) => p.clone(),
        None => {
            return Err(DecodeError::Malformed(Malformation::NotAMessage));
        },
    };
    match get_field(v, "id") {
        Some(id) => {
            if !id.is_null() {
                return Ok(InboundMessage::Request { protocol_version, id: id.clone(), method, params });
            }
        },
        None => {},
    }
    Ok(InboundMessage::Notification { protocol_version, method, params })
}

/// Decodes a frame's payload into an inbound message.
pub fn decode(b: &[u8]) -> (r: Result<InboundMessage, DecodeError>)
    ensures
        match json_parse(b@) {
            Some(v) => classified(v, r),
            None => r == Err::<InboundMessage, DecodeError>(
                DecodeError::Malformed(Malformation::InvalidJson),
            ),
        },
{
    match parse_json(b) {
        Some(v) => classify(&v),
        None => Err(DecodeError::Malformed(Malformation::InvalidJson)),
    }
}

/// The protocol version this endpoint speaks.
pub fn ver() -> (r: String)
    ensures
        r@ == "2.0"@,
{
    String::from_str("2.0")
}

impl OutboundMessage {
    /// A result answer to `msg`; none where `msg` is a notification, which
    /// has no id to answer to.
    pub fn response(msg: &InboundMessage, result: serde_json::Value) -> (r: Option<OutboundMessage>)
        ensures
            msg.is_request() ==> (r matches Some(OutboundMessage::Result { protocol_version, id, result: res })
                && protocol_version@ == "2.0"@ && id == msg.id_view() && res == result),
            !msg.is_request() ==> r.is_none(),
    {
        match msg {
            InboundMessage::Request { id, .. } => Some(
                OutboundMessage::Result { protocol_version: ver(), id: id.clone(), result },
            ),
            InboundMessage::Notification { .. } => None,
        }
    }

    /// The "method not found" answer to `msg`; none where `msg` is a
    /// notification.
    pub fn unimplemented(msg: &InboundMessage) -> (r: Option<OutboundMessage>)
        ensures
            msg.is_request() ==> (r matches Some(OutboundMessage::Error { protocol_version, id, error })
                && protocol_version@ == "2.0"@ && id == msg.id_view() && error.code == METHOD_NOT_FOUND
                && error.message@ == "Method not found"@),
            !msg.is_request() ==> r.is_none(),
    {
        match msg {
            InboundMessage::Request { id, .. } => Some(
                OutboundMessage::Error {
                    protocol_version: ver(),
                    id: id.clone(),
                    error: RpcError {
                        code: METHOD_NOT_FOUND,
                        message: String::from_str("Method not found"),
                    },
                },
            ),
            InboundMessage::Notification { .. } => None,
        }
    }

    /// The JSON-RPC envelope of the message as a JSON object.
    pub fn to_value(&self) -> (r: serde_json::Value)
        ensures
            envelope(self, r),
    {
        proof {
            lemma_member_names_distinct();
        }
        match self {
            OutboundMessage::Result { protocol_version, id, result } => object3(
                "jsonrpc",
                string_value(protocol_version.clone()),
                "id",
                id.clone(),
                "result",
                result.clone(),
            ),
            OutboundMessage::Error { protocol_version, id, error } => {
                let e = error.to_value();
                object3(
                    "jsonrpc",
                    string_value(protocol_version.clone()),
                    "id",
                    id.clone(),
                    "error",
                    e,
                )
            },
            OutboundMessage::Notification { protocol_version, method, params } => object3(
                "jsonrpc",
                string_value(protocol_version.clone()),
                "method",
                string_value(method.clone()),
                "params",
                params.clone(),
            ),
        }
    }
}

impl RpcError {
    /// The error as a JSON object with `code` and `message` members.
    pub fn to_value(&self) -> (r: serde_json::Value)
        ensures
            error_member(r, self),
    {
        proof {
            lemma_member_names_distinct();
        }
        let mut m = new_object();
        object_insert(&mut m, String::from_str("code"), int_value(self.code as i64));
        object_insert(&mut m, String::from_str("message"), string_value(self.message.clone()));
        let r = object_value(m);
        assert forall|k: Seq<char>| k != "code"@ && k != "message"@ implies (#[trigger] json_get(
            r,
            k,
        )).is_none() by {
            assert(!object_entries(m).contains_key(k));
        }
        r
    }
}

/// The member names of the envelopes differ from one another.
proof fn lemma_member_names_distinct()
    ensures
        "jsonrpc"@ != "id"@,
        "jsonrpc"@ != "result"@,
        "jsonrpc"@ != "error"@,
        "jsonrpc"@ != "method"@,
        "jsonrpc"@ != "params"@,
        "id"@ != "result"@,
        "id"@ != "error"@,
        "method"@ != "params"@,
        "code"@ != "message"@,
{
    reveal_strlit("jsonrpc");
    reveal_strlit("id");
    reveal_strlit("result");
    reveal_strlit("error");
    reveal_strlit("method");
    reveal_strlit("params");
    reveal_strlit("code");
    reveal_strlit("message");
    assert("jsonrpc"@.len() == 7);
    assert("id"@.len() == 2);
    assert("result"@.len() == 6);
    assert("error"@.len() == 5);
    assert("method"@.len() == 6);
    assert("params"@.len() == 6);
    assert("code"@.len() == 4);
    assert("message"@.len() == 7);
    assert("method"@[0] != "params"@[0]);
}

/// The member named `k` of an object whose members are `k1`, `k2`, `k3`.
pub open spec fn member3(
    k: Seq<char>,
    k1: Seq<char>,
    v1: serde_json::Value,
    k2: Seq<char>,
    v2: serde_json::Value,
    k3: Seq<char>,
    v3: serde_json::Value,
) -> Option<serde_json::Value> {
    if k == k1 {
        Some(v1)
    } else if k == k2 {
        Some(v2)
    } else if k == k3 {
        Some(v3)
    } else {
        None
    }
}

/// A JSON object with exactly the three members given.
fn object3(
    k1: &str,
    v1: serde_json::Value,
    k2: &str,
    v2: serde_json::Value,
    k3: &str,
    v3: serde_json::Value,
) -> (r: serde_json::Value)
    requires
        k1@ != k2@,
        k1@ != k3@,
        k2@ != k3@,
    ensures
        forall|k: Seq<char>| #[trigger] json_get(r, k) == member3(k, k1@, v1, k2@, v2, k3@, v3),
{
    let mut m = new_object();
    object_insert(&mut m, String::from_str(k1), v1);
    object_insert(&mut m, String::from_str(k2), v2);
    object_insert(&mut m, String::from_str(k3), v3);
    let r = object_value(m);
    assert forall|k: Seq<char>| #[trigger] json_get(r, k) == member3(k, k1@, v1, k2@, v2, k3@, v3) by {
        assert(json_get(r, k) == entry(object_entries(m), k));
    }
    r
}

/// The code of the "method not found" error.
pub const METHOD_NOT_FOUND: i32 = -32601;

/// `v` is the JSON object that carries `m`: exactly its members, and no
/// others.
pub open spec fn envelope(m: &OutboundMessage, v: serde_json::Value) -> bool {
    match m {
        OutboundMessage::Result { protocol_version, id, result } => {
            &&& text_member(v, "jsonrpc"@) == Some(protocol_version@)
            &&& json_get(v, "id"@) == Some(*id)
            &&& json_get(v, "result"@) == Some(*result)
            &&& forall|k: Seq<char>|
                k != "jsonrpc"@ && k != "id"@ && k != "result"@ ==> (#[trigger] json_get(v, k)).is_none()
        },
        OutboundMessage::Error { protocol_version, id, error } => {
            &&& text_member(v, "jsonrpc"@) == Some(protocol_version@)
            &&& json_get(v, "id"@) == Some(*id)
            &&& json_get(v, "error"@) matches Some(e) && error_member(e, error)
            &&& forall|k: Seq<char>|
                k != "jsonrpc"@ && k != "id"@ && k != "error"@ ==> (#[trigger] json_get(v, k)).is_none()
        },
        OutboundMessage::Notification { protocol_version, method, params } => {
            &&& text_member(v, "jsonrpc"@) == Some(protocol_version@)
            &&& text_member(v, "method"@) == Some(method@)
            &&& json_get(v, "params"@) == Some(*params)
            &&& forall|k: Seq<char>|
                k != "jsonrpc"@ && k != "method"@ && k != "params"@ ==> (#[trigger] json_get(v, k)).is_none()
        },
    }
}

/// `e` is the JSON object of the error `error`.
pub open spec fn error_member(e: serde_json::Value, error: &RpcError) -> bool {
    &&& json_get(e, "code"@) matches Some(c) && json_i64(c) == Some(error.code as i64)
    &&& text_member(e, "message"@) == Some(error.message@)
    &&& forall|k: Seq<char>| k != "code"@ && k != "message"@ ==> (#[trigger] json_get(e, k)).is_none()
}

/// Encodes an outbound message as JSON text.
pub fn encode(m: &OutboundMessage) -> (r: Vec<u8>)
    ensures
        exists|v: serde_json::Value| envelope(m, v) && r@ == json_text(v),
{
    let v = m.to_value();
    to_json_bytes(&v).unwrap()
}

/// A JSON object of the message shape with a non-null `id` always decodes as
/// a request, and one without (or with a `null` one) as a notification.
pub proof fn lemma_discriminator(b: Seq<u8>, r: Result<InboundMessage, DecodeError>)
    requires
        json_parse(b) matches Some(v) && has_message_shape(v) && classified(v, r),
    ensures
        r.is_ok(),
        r.unwrap().is_request() <==> carries_id(json_parse(b).unwrap()),
        json_get(json_parse(b).unwrap(), "id"@).is_none() ==> !r.unwrap().is_request(),
{
}

} // verus!
