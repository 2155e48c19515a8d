use lsp_stub::message::{
    decode, encode, ver, DecodeError, InboundMessage, Malformation, OutboundMessage, RpcError,
    METHOD_NOT_FOUND,
};
use serde_json::Value;

fn parse(b: &[u8]) -> Value {
    serde_json::from_slice(b).unwrap()
}

#[test]
fn protocol_version_is_two() {
    assert_eq!(ver(), "2.0");
}

#[test]
fn object_with_id_is_request() {
    let m = decode(br#"{"jsonrpc":"2.0","id":7,"method":"initialize","params":{"a":1}}"#).unwrap();
    match m {
        InboundMessage::Request { protocol_version, id, method, params } => {
            assert_eq!(protocol_version, "2.0");
            assert_eq!(id, Value::from(7));
            assert_eq!(method, "initialize");
            assert_eq!(params, parse(br#"{"a":1}"#));
        }
        InboundMessage::Notification { .. } => panic!("expected a request"),
    }
}

#[test]
fn object_without_id_is_notification() {
    let m = decode(br#"{"jsonrpc":"2.0","method":"exit","params":null}"#).unwrap();
    assert!(matches!(m, InboundMessage::Notification { .. }));
    assert_eq!(m.method(), "exit");
    assert!(m.params().is_null());
}

#[test]
fn null_id_is_notification() {
    let m = decode(br#"{"jsonrpc":"2.0","id":null,"method":"exit","params":{}}"#).unwrap();
    assert!(matches!(m, InboundMessage::Notification { .. }));
}

#[test]
fn object_id_is_kept() {
    let m = decode(br#"{"jsonrpc":"2.0","id":{"k":[1,2]},"method":"m","params":[]}"#).unwrap();
    match m {
        InboundMessage::Request { id, .. } => assert_eq!(id, parse(br#"{"k":[1,2]}"#)),
        InboundMessage::Notification { .. } => panic!("expected a request"),
    }
}

#[test]
fn invalid_json_is_malformed() {
    assert_eq!(
        decode(b"{not json").err(),
        Some(DecodeError::Malformed(Malformation::InvalidJson))
    );
}

#[test]
fn missing_members_are_not_a_message() {
    let e = Some(DecodeError::Malformed(Malformation::NotAMessage));
    assert_eq!(decode(br#"{"jsonrpc":"2.0","id":1,"params":{}}"#).err(), e);
    assert_eq!(decode(br#"{"jsonrpc":"2.0","id":1,"method":"m"}"#).err(), e);
    assert_eq!(decode(br#"{"id":1,"method":"m","params":{}}"#).err(), e);
    assert_eq!(decode(br#"{"jsonrpc":2,"method":"m","params":{}}"#).err(), e);
    assert_eq!(decode(br#"[1,2,3]"#).err(), e);
}

#[test]
fn uri_is_read_from_params() {
    let m = decode(br#"{"jsonrpc":"2.0","method":"m","params":{"uri":"file:///x"}}"#).unwrap();
    assert_eq!(m.uri(), Some("file:///x"));
    let m = decode(br#"{"jsonrpc":"2.0","method":"m","params":{"uri":3}}"#).unwrap();
    assert_eq!(m.uri(), None);
}

#[test]
fn result_envelope() {
    let out = OutboundMessage::Result {
        protocol_version: ver(),
        id: Value::from(3),
        result: Value::Bool(true),
    };
    let v = parse(&encode(&out));
    assert_eq!(v, parse(br#"{"jsonrpc":"2.0","id":3,"result":true}"#));
}

#[test]
fn error_envelope() {
    let out = OutboundMessage::Error {
        protocol_version: ver(),
        id: Value::from("a"),
        error: RpcError { code: METHOD_NOT_FOUND, message: "Method not found".to_owned() },
    };
    let v = parse(&encode(&out));
    assert_eq!(
        v,
        parse(br#"{"jsonrpc":"2.0","id":"a","error":{"code":-32601,"message":"Method not found"}}"#)
    );
}

#[test]
fn notification_envelope() {
    let out = OutboundMessage::Notification {
        protocol_version: ver(),
        method: "m/n".to_owned(),
        params: Value::Null,
    };
    let v = parse(&encode(&out));
    assert_eq!(v, parse(br#"{"jsonrpc":"2.0","method":"m/n","params":null}"#));
}
