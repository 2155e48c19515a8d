use lsp_stub::frame::{read_frame, write_frame_bytes, FramingError};
use lsp_stub::message::{DecodeError, Malformation};
use lsp_stub::session::{handle_payload, respond_all, Action};
use serde_json::Value;

fn frame(text: &str) -> Vec<u8> {
    write_frame_bytes(text.as_bytes())
}

fn bodies(mut out: &[u8]) -> Vec<Value> {
    let mut v = Vec::new();
    while let Ok((body, used)) = read_frame(out) {
        v.push(serde_json::from_slice(&body).unwrap());
        out = &out[used..];
    }
    v
}

#[test]
fn initialize_scenario() {
    let input = frame(r#"{"jsonrpc":"2.0","id":1,"method":"initialize","params":{}}"#);
    let (out, end) = respond_all(&input);
    assert_eq!(end, FramingError::EndOfStream);
    let got = bodies(&out);
    assert_eq!(got.len(), 1);
    assert_eq!(got[0]["jsonrpc"], Value::from("2.0"));
    assert_eq!(got[0]["id"], Value::from(1));
    assert_eq!(got[0]["result"]["capabilities"]["textDocumentSync"], Value::from(2));
    assert_eq!(
        got[0]["result"]["capabilities"]["completionProvider"]["resolveProvider"],
        Value::Bool(true)
    );
}

#[test]
fn did_change_with_uri_scenario() {
    let input = frame(r#"{"jsonrpc":"2.0","method":"textDocument/didChange","params":{"uri":"file:///a.rs"}}"#);
    let (out, _) = respond_all(&input);
    let got = bodies(&out);
    assert_eq!(got.len(), 1);
    assert_eq!(got[0]["method"], Value::from("textDocument/publishDiagnostics"));
    assert_eq!(got[0]["params"]["uri"], Value::from("file:///a.rs"));
    assert_eq!(got[0]["params"]["diagnostics"], Value::Array(Vec::new()));
    assert!(got[0].get("id").is_none());
}

#[test]
fn did_change_without_uri_scenario() {
    let input = frame(r#"{"jsonrpc":"2.0","method":"textDocument/didChange","params":{}}"#);
    let (out, end) = respond_all(&input);
    assert!(out.is_empty());
    assert_eq!(end, FramingError::EndOfStream);
}

#[test]
fn malformed_header_scenario() {
    let mut input = b"Content-Length:\n\n".to_vec();
    input.extend(frame(r#"{"jsonrpc":"2.0","id":1,"method":"initialize","params":{}}"#));
    let (out, end) = respond_all(&input);
    assert!(out.is_empty());
    assert_eq!(end, FramingError::MalformedHeader);
}

#[test]
fn truncated_body_scenario() {
    let input = b"Content-Length: 100\n\n{\"jsonrpc\":\"2.0\"}".to_vec();
    let (out, end) = respond_all(&input);
    assert!(out.is_empty());
    assert_eq!(end, FramingError::TruncatedBody);
}

#[test]
fn session_continues_after_bad_payload_and_stops_at_bad_frame() {
    let mut input = frame("{oops");
    input.extend(frame(r#"{"jsonrpc":"2.0","id":2,"method":"foo/bar","params":{}}"#));
    input.extend(frame(r#"{"jsonrpc":"2.0","method":"exit","params":{}}"#));
    input.extend(frame(r#"{"jsonrpc":"2.0","id":3,"method":"textDocument/completion","params":{}}"#));
    input.extend(b"Content-Length: 50\n\n{}");
    let (out, end) = respond_all(&input);
    assert_eq!(end, FramingError::TruncatedBody);
    let got = bodies(&out);
    assert_eq!(got.len(), 2);
    assert_eq!(got[0]["id"], Value::from(2));
    assert_eq!(got[0]["error"]["code"], Value::from(-32601));
    assert_eq!(got[1]["id"], Value::from(3));
    assert_eq!(got[1]["result"][0]["label"], Value::from("completion"));
}

#[test]
fn payload_actions() {
    assert!(matches!(
        handle_payload(b"nope"),
        Action::Skip(DecodeError::Malformed(Malformation::InvalidJson))
    ));
    assert!(matches!(
        handle_payload(b"{}"),
        Action::Skip(DecodeError::Malformed(Malformation::NotAMessage))
    ));
    match handle_payload(br#"{"jsonrpc":"2.0","method":"textDocument/didSave","params":{}}"#) {
        Action::Reply { delay_ms, frame } => {
            assert_eq!(delay_ms, 400);
            assert!(frame.is_none());
        }
        Action::Skip(_) => panic!("expected a reply"),
    }
    match handle_payload(br#"{"jsonrpc":"2.0","id":9,"method":"initialize","params":{}}"#) {
        Action::Reply { delay_ms, frame } => {
            assert_eq!(delay_ms, 100);
            let f = frame.unwrap();
            assert!(f.starts_with(b"Content-Length: "));
            let (body, used) = read_frame(&f).unwrap();
            assert_eq!(used, f.len());
            let v: Value = serde_json::from_slice(&body).unwrap();
            assert_eq!(v["id"], Value::from(9));
        }
        Action::Skip(_) => panic!("expected a reply"),
    }
}
