use lsp_stub::dispatch::{capabilities, completion_list, delay_for, dispatch, empty_report};
use lsp_stub::message::{decode, InboundMessage, OutboundMessage, METHOD_NOT_FOUND};
use serde_json::Value;

fn msg(text: &str) -> InboundMessage {
    decode(text.as_bytes()).unwrap()
}

#[test]
fn delays_follow_the_table() {
    assert_eq!(delay_for("initialize"), 100);
    assert_eq!(delay_for("textDocument/didOpen"), 100);
    assert_eq!(delay_for("textDocument/didChange"), 50);
    assert_eq!(delay_for("textDocument/didSave"), 400);
    assert_eq!(delay_for("textDocument/completion"), 300);
    assert_eq!(delay_for("shutdown"), 0);
    assert_eq!(delay_for(""), 0);
    assert_eq!(msg(r#"{"jsonrpc":"2.0","method":"textDocument/didSave","params":{}}"#).time(), 400);
}

#[test]
fn initialize_answers_capabilities() {
    let m = msg(r#"{"jsonrpc":"2.0","id":1,"method":"initialize","params":{}}"#);
    match dispatch(&m) {
        Some(OutboundMessage::Result { protocol_version, id, result }) => {
            assert_eq!(protocol_version, "2.0");
            assert_eq!(id, Value::from(1));
            let caps = &result["capabilities"];
            assert_eq!(caps["textDocumentSync"], Value::from(2));
            assert_eq!(caps["completionProvider"]["resolveProvider"], Value::Bool(true));
            assert_eq!(caps["hoverProvider"], Value::Bool(true));
            assert_eq!(caps["documentRangeFormattingProvider"], Value::Bool(false));
            assert_eq!(caps["executeCommandProvider"]["commands"], Value::Array(Vec::new()));
        }
        _ => panic!("expected a result"),
    }
}

#[test]
fn capability_descriptor_members() {
    let caps = capabilities();
    let triggers = caps["capabilities"]["completionProvider"]["triggerCharacters"].clone();
    assert_eq!(
        triggers,
        Value::Array(vec![Value::from("."), Value::from(":"), Value::from("->")])
    );
    assert_eq!(caps["capabilities"].as_object().unwrap().len(), 13);
}

#[test]
fn did_change_with_uri_publishes_empty_diagnostics() {
    let m = msg(r#"{"jsonrpc":"2.0","method":"textDocument/didChange","params":{"uri":"file:///a.rs"}}"#);
    match dispatch(&m) {
        Some(OutboundMessage::Notification { protocol_version, method, params }) => {
            assert_eq!(protocol_version, "2.0");
            assert_eq!(method, "textDocument/publishDiagnostics");
            assert_eq!(params["uri"], Value::from("file:///a.rs"));
            assert_eq!(params["diagnostics"], Value::Array(Vec::new()));
        }
        _ => panic!("expected a notification"),
    }
}

#[test]
fn did_change_without_uri_is_silent() {
    let m = msg(r#"{"jsonrpc":"2.0","method":"textDocument/didChange","params":{}}"#);
    assert!(dispatch(&m).is_none());
}

#[test]
fn completion_answers_one_item() {
    let m = msg(r#"{"jsonrpc":"2.0","id":"c","method":"textDocument/completion","params":{}}"#);
    match dispatch(&m) {
        Some(OutboundMessage::Result { id, result, .. }) => {
            assert_eq!(id, Value::from("c"));
            assert_eq!(result, completion_list());
            let items = result.as_array().unwrap();
            assert_eq!(items.len(), 1);
            assert_eq!(items[0]["label"], Value::from("completion"));
            assert_eq!(items[0]["kind"], Value::from(8));
            assert_eq!(items[0]["detail"], Value::from("Useless completion"));
        }
        _ => panic!("expected a result"),
    }
}

#[test]
fn unknown_request_is_method_not_found() {
    let m = msg(r#"{"jsonrpc":"2.0","id":5,"method":"foo/bar","params":{}}"#);
    match dispatch(&m) {
        Some(OutboundMessage::Error { id, error, .. }) => {
            assert_eq!(id, Value::from(5));
            assert_eq!(error.code, -32601);
            assert_eq!(error.code, METHOD_NOT_FOUND);
            assert_eq!(error.message, "Method not found");
        }
        _ => panic!("expected an error"),
    }
}

#[test]
fn unknown_notification_is_silent() {
    let m = msg(r#"{"jsonrpc":"2.0","method":"foo/bar","params":{}}"#);
    assert!(dispatch(&m).is_none());
}

#[test]
fn notifications_other_than_did_change_are_silent() {
    for method in ["initialize", "textDocument/completion", "textDocument/didOpen", "exit"] {
        let text = format!(r#"{{"jsonrpc":"2.0","method":"{}","params":{{}}}}"#, method);
        assert!(dispatch(&msg(&text)).is_none());
    }
}

#[test]
fn answers_echo_structured_ids() {
    let id = r#"{"a":[1,{"b":null}]}"#;
    for method in ["initialize", "textDocument/completion", "foo/bar"] {
        let text = format!(
            r#"{{"jsonrpc":"2.0","id":{},"method":"{}","params":{{}}}}"#,
            id, method
        );
        let expected: Value = serde_json::from_str(id).unwrap();
        match dispatch(&msg(&text)) {
            Some(OutboundMessage::Result { id, .. }) => assert_eq!(id, expected),
            Some(OutboundMessage::Error { id, .. }) => assert_eq!(id, expected),
            _ => panic!("expected an answer"),
        }
    }
}

#[test]
fn empty_report_shape() {
    let r = empty_report("file:///b.rs");
    let expected: Value = serde_json::from_str(r#"{"uri":"file:///b.rs","diagnostics":[]}"#).unwrap();
    assert_eq!(r, expected);
}
