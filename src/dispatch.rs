//! The dispatch table: the simulated cost of each method and the answer it
//! gives.

use vstd::prelude::*;
use crate::json::{
    array_value, bool_value, int_value, json_bool, json_get, json_i64, json_items, json_str,
    new_object, object_entries, object_insert, object_value, string_value, JsonObject,
};
use crate::message::{text_member, InboundMessage, OutboundMessage, METHOD_NOT_FOUND};

verus! {

/// Whether two texts are equal.
fn same_text(a: &str, b: &str) -> (r: bool)
    ensures
        r == (a@ == b@),
{
    String::from_str(a) == String::from_str(b)
}

/// The simulated processing time of a method, in milliseconds.
pub open spec fn delay_of(method: Seq<char>) -> u64 {
    if method == "initialize"@ || method == "textDocument/didOpen"@ {
        100
    } else if method == "textDocument/didChange"@ {
        50
    } else if method == "textDocument/didSave"@ {
        400
    } else if method == "textDocument/completion"@ {
        300
    } else {
        0
    }
}

/// How long, in milliseconds, handling `method` is made to take.
pub fn delay_for(method: &str) -> (r: u64)
    ensures
        r == delay_of(method@),
{
    if same_text(method, "initialize") || same_text(method, "textDocument/didOpen") {
        100
    } else if same_text(method, "textDocument/didChange") {
        50
    } else if same_text(method, "textDocument/didSave") {
        400
    } else if same_text(method, "textDocument/completion") {
        300
    } else {
        0
    }
}

impl InboundMessage {
    /// How long, in milliseconds, handling this message is made to take.
    pub fn time(&self) -> (r: u64)
        ensures
            r == delay_of(self.method_view()),
    {
        delay_for(self.method())
    }
}

/// The truth value held by the member `k` of `v`.
pub open spec fn flag(v: serde_json::Value, k: Seq<char>) -> Option<bool> {
    match json_get(v, k) {
        Some(f) => json_bool(f),
        None => None,
    }
}

/// The integer held by the member `k` of `v`.
pub open spec fn number(v: serde_json::Value, k: Seq<char>) -> Option<i64> {
    match json_get(v, k) {
        Some(f) => json_i64(f),
        None => None,
    }
}

/// The members of the capability document.
pub open spec fn capability_names() -> Set<Seq<char>> {
    set![
        "textDocumentSync"@,
        "hoverProvider"@,
        "completionProvider"@,
        "definitionProvider"@,
        "referencesProvider"@,
        "documentHighlightProvider"@,
        "documentSymbolProvider"@,
        "workspaceSymbolProvider"@,
        "codeActionProvider"@,
        "documentFormattingProvider"@,
        "documentRangeFormattingProvider"@,
        "renameProvider"@,
        "executeCommandProvider"@,
    ]
}

/// `c` is the capability document: incremental text sync, completion with
/// resolution on `.`, `:` and `->`, no commands, range formatting off and
/// every other listed feature on.
pub open spec fn is_capability_document(c: serde_json::Value) -> bool {
    &&& number(c, "textDocumentSync"@) == Some(2i64)
    &&& flag(c, "hoverProvider"@) == Some(true)
    &&& json_get(c, "completionProvider"@) matches Some(p)
    &&& flag(p, "resolveProvider"@) == Some(true)
    &&& json_get(p, "triggerCharacters"@) matches Some(t)
    &&& json_items(t) matches Some(ts)
    &&& ts.len() == 3
    &&& json_str(ts[0]) == Some("."@)
    &&& json_str(ts[1]) == Some(":"@)
    &&& json_str(ts[2]) == Some("->"@)
    &&& members_only(p, set!["resolveProvider"@, "triggerCharacters"@])
    &&& flag(c, "definitionProvider"@) == Some(true)
    &&& flag(c, "referencesProvider"@) == Some(true)
    &&& flag(c, "documentHighlightProvider"@) == Some(true)
    &&& flag(c, "documentSymbolProvider"@) == Some(true)
    &&& flag(c, "workspaceSymbolProvider"@) == Some(true)
    &&& flag(c, "codeActionProvider"@) == Some(true)
    &&& flag(c, "documentFormattingProvider"@) == Some(true)
    &&& flag(c, "documentRangeFormattingProvider"@) == Some(false)
    &&& flag(c, "renameProvider"@) == Some(true)
    &&& json_get(c, "executeCommandProvider"@) matches Some(e)
    &&& json_get(e, "commands"@) matches Some(cmds)
    &&& json_items(cmds) == Some(Seq::<serde_json::Value>::empty())
    &&& members_only(e, set!["commands"@])
    &&& members_only(c, capability_names())
}

/// `result` is an `initialize` result: the capability document under
/// `capabilities`, and nothing else.
pub open spec fn is_capability_result(result: serde_json::Value) -> bool {
    &&& json_get(result, "capabilities"@) matches Some(c)
    &&& is_capability_document(c)
    &&& members_only(result, set!["capabilities"@])
}

/// The member names of the capability document differ from one another.
proof fn lemma_capability_names_distinct()
    ensures
        "textDocumentSync"@.len() == 16,
        "hoverProvider"@.len() == 13,
        "completionProvider"@.len() == 18,
        "definitionProvider"@.len() == 18,
        "referencesProvider"@.len() == 18,
        "documentHighlightProvider"@.len() == 25,
        "documentSymbolProvider"@.len() == 22,
        "workspaceSymbolProvider"@.len() == 23,
        "codeActionProvider"@.len() == 18,
        "documentFormattingProvider"@.len() == 26,
        "documentRangeFormattingProvider"@.len() == 31,
        "renameProvider"@.len() == 14,
        "executeCommandProvider"@.len() == 22,
        "completionProvider"@ != "definitionProvider"@,
        "completionProvider"@ != "referencesProvider"@,
        "completionProvider"@ != "codeActionProvider"@,
        "definitionProvider"@ != "referencesProvider"@,
        "definitionProvider"@ != "codeActionProvider"@,
        "referencesProvider"@ != "codeActionProvider"@,
        "documentSymbolProvider"@ != "executeCommandProvider"@,
        "resolveProvider"@ != "triggerCharacters"@,
{
    reveal_strlit("textDocumentSync");
    reveal_strlit("hoverProvider");
    reveal_strlit("completionProvider");
    reveal_strlit("definitionProvider");
    reveal_strlit("referencesProvider");
    reveal_strlit("documentHighlightProvider");
    reveal_strlit("documentSymbolProvider");
    reveal_strlit("workspaceSymbolProvider");
    reveal_strlit("codeActionProvider");
    reveal_strlit("documentFormattingProvider");
    reveal_strlit("documentRangeFormattingProvider");
    reveal_strlit("renameProvider");
    reveal_strlit("executeCommandProvider");
    reveal_strlit("resolveProvider");
    reveal_strlit("triggerCharacters");
    assert("completionProvider"@[0] != "definitionProvider"@[0]);
    assert("completionProvider"@[0] != "referencesProvider"@[0]);
    assert("completionProvider"@[2] != "codeActionProvider"@[2]);
    assert("definitionProvider"@[0] != "referencesProvider"@[0]);
    assert("definitionProvider"@[0] != "codeActionProvider"@[0]);
    assert("referencesProvider"@[0] != "codeActionProvider"@[0]);
    assert("documentSymbolProvider"@[0] != "executeCommandProvider"@[0]);
    assert("resolveProvider"@.len() != "triggerCharacters"@.len());
}

/// `v` has no members but those named in `keys`.
pub open spec fn members_only(v: serde_json::Value, keys: Set<Seq<char>>) -> bool {
    forall|k: Seq<char>| !keys.contains(k) ==> (#[trigger] json_get(v, k)).is_none()
}

/// `item` is the stub completion item: label `completion`, kind 8 and its
/// detail text, and nothing else.
pub open spec fn is_completion_item(item: serde_json::Value) -> bool {
    &&& text_member(item, "label"@) == Some("completion"@)
    &&& number(item, "kind"@) == Some(8i64)
    &&& text_member(item, "detail"@) == Some("Useless completion"@)
    &&& members_only(item, set!["label"@, "kind"@, "detail"@])
}

/// `result` is the completion list: the one stub item.
pub open spec fn is_completion_result(result: serde_json::Value) -> bool {
    &&& json_items(result) matches Some(items)
    &&& items.len() == 1
    &&& is_completion_item(items[0])
}

/// `params` reports no diagnostics for the document `uri`, and holds
/// nothing else.
pub open spec fn is_empty_report(params: serde_json::Value, uri: Seq<char>) -> bool {
    &&& text_member(params, "uri"@) == Some(uri)
    &&& json_get(params, "diagnostics"@) matches Some(d)
    &&& json_items(d) == Some(Seq::<serde_json::Value>::empty())
    &&& members_only(params, set!["uri"@, "diagnostics"@])
}

/// `r` answers a request `msg` with a result that satisfies `ok`, echoing
/// its id; a notification gets no answer.
pub open spec fn result_answer(
    msg: InboundMessage,
    r: Option<OutboundMessage>,
    ok: spec_fn(serde_json::Value) -> bool,
) -> bool {
    if msg.is_request() {
        &&& r matches Some(OutboundMessage::Result { protocol_version, id, result })
        &&& protocol_version@ == "2.0"@
        &&& id == msg.id_view()
        &&& ok(result)
    } else {
        r.is_none()
    }
}

/// What the dispatch table answers to `msg`.
pub open spec fn answers(msg: InboundMessage, r: Option<OutboundMessage>) -> bool {
    let m = msg.method_view();
    if m == "initialize"@ {
        result_answer(msg, r, |v: serde_json::Value| is_capability_result(v))
    } else if m == "textDocument/didChange"@ {
        match text_member(msg.params_view(), "uri"@) {
            Some(u) => {
                &&& r matches Some(OutboundMessage::Notification { protocol_version, method, params })
                &&& protocol_version@ == "2.0"@
                &&& method@ == "textDocument/publishDiagnostics"@
                &&& is_empty_report(params, u)
            },
            None => r.is_none(),
        }
    } else if m == "textDocument/completion"@ {
        result_answer(msg, r, |v: serde_json::Value| is_completion_result(v))
    } else if msg.is_request() {
        &&& r matches Some(OutboundMessage::Error { protocol_version, id, error })
        &&& protocol_version@ == "2.0"@
        &&& id == msg.id_view()
        &&& error.code == METHOD_NOT_FOUND
        &&& error.message@ == "Method not found"@
    } else {
        r.is_none()
    }
}

/// Sets the member `key` of `m` to `v`.
fn put(m: &mut JsonObject, key: &str, v: serde_json::Value)
    ensures
        object_entries(*final(m)) == object_entries(*old(m)).insert(key@, v),
{
    object_insert(m, String::from_str(key), v);
}

/// The capability descriptor this server announces on `initialize`.
pub fn capabilities() -> (r: serde_json::Value)
    ensures
        is_capability_result(r),
{
    proof {
        lemma_capability_names_distinct();
    }
    let mut triggers: Vec<serde_json::Value> = Vec::new();
    triggers.push(string_value(String::from_str(".")));
    triggers.push(string_value(String::from_str(":")));
    triggers.push(string_value(String::from_str("->")));
    let triggers = array_value(triggers);
    let mut completion = new_object();
    put(&mut completion, "triggerCharacters", triggers);
    let resolve = bool_value(true);
    put(&mut completion, "resolveProvider", resolve);
    let ghost completion_entries = object_entries(completion);
    let completion = object_value(completion);
    assert(json_get(completion, "resolveProvider"@) == Some(resolve));
    assert(json_get(completion, "triggerCharacters"@) == Some(triggers));
    assert forall|k: Seq<char>| !set!["resolveProvider"@, "triggerCharacters"@].contains(k) implies (
    #[trigger] json_get(completion, k)).is_none() by {
        assert(!completion_entries.contains_key(k));
    }
    let mut commands = new_object();
    let no_commands = array_value(Vec::new());
    assert(json_items(no_commands) == Some(Seq::<serde_json::Value>::empty()));
    put(&mut commands, "commands", no_commands);
    let ghost command_entries = object_entries(commands);
    let commands = object_value(commands);
    assert(json_get(commands, "commands"@) == Some(no_commands));
    assert forall|k: Seq<char>| !set!["commands"@].contains(k) implies (#[trigger] json_get(
        commands,
        k,
    )).is_none() by {
        assert(!command_entries.contains_key(k));
    }
    let mut caps = new_object();
    let sync = int_value(2);
    put(&mut caps, "textDocumentSync", sync);
    let hover = bool_value(true);
    put(&mut caps, "hoverProvider", hover);
    put(&mut caps, "completionProvider", completion);
    let definition = bool_value(true);
    put(&mut caps, "definitionProvider", definition);
    let references = bool_value(true);
    put(&mut caps, "referencesProvider", references);
    let highlight = bool_value(true);
    put(&mut caps, "documentHighlightProvider", highlight);
    let symbol = bool_value(true);
    put(&mut caps, "documentSymbolProvider", symbol);
    let workspace = bool_value(true);
    put(&mut caps, "workspaceSymbolProvider", workspace);
    let action = bool_value(true);
    put(&mut caps, "codeActionProvider", action);
    let formatting = bool_value(true);
    put(&mut caps, "documentFormattingProvider", formatting);
    let range = bool_value(false);
    put(&mut caps, "documentRangeFormattingProvider", range);
    let rename = bool_value(true);
    put(&mut caps, "renameProvider", rename);
    put(&mut caps, "executeCommandProvider", commands);
    let ghost entries = object_entries(caps);
    let caps = object_value(caps);
    assert(json_get(caps, "textDocumentSync"@) == Some(sync));
    assert(json_get(caps, "hoverProvider"@) == Some(hover));
    assert(json_get(caps, "completionProvider"@) == Some(completion));
    assert(json_get(caps, "definitionProvider"@) == Some(definition));
    assert(json_get(caps, "referencesProvider"@) == Some(references));
    assert(json_get(caps, "documentHighlightProvider"@) == Some(highlight));
    assert(json_get(caps, "documentSymbolProvider"@) == Some(symbol));
    assert(json_get(caps, "workspaceSymbolProvider"@) == Some(workspace));
    assert(json_get(caps, "codeActionProvider"@) == Some(action));
    assert(json_get(caps, "documentFormattingProvider"@) == Some(formatting));
    assert(json_get(caps, "documentRangeFormattingProvider"@) == Some(range));
    assert(json_get(caps, "renameProvider"@) == Some(rename));
    assert(json_get(caps, "executeCommandProvider"@) == Some(commands));
    assert forall|k: Seq<char>| !capability_names().contains(k) implies (#[trigger] json_get(
        caps,
        k,
    )).is_none() by {
        assert(!entries.contains_key(k));
    }
    let mut top = new_object();
    put(&mut top, "capabilities", caps);
    let ghost top_entries = object_entries(top);
    let r = object_value(top);
    assert(json_get(r, "capabilities"@) == Some(caps));
    assert forall|k: Seq<char>| !set!["capabilities"@].contains(k) implies (#[trigger] json_get(
        r,
        k,
    )).is_none() by {
        assert(!top_entries.contains_key(k));
    }
    r
}

/// The completion list: a single stub item.
pub fn completion_list() -> (r: serde_json::Value)
    ensures
        is_completion_result(r),
{
    proof {
        reveal_strlit("label");
        reveal_strlit("kind");
        reveal_strlit("detail");
        assert("label"@.len() == 5 && "kind"@.len() == 4 && "detail"@.len() == 6);
    }
    let mut item = new_object();
    let kind = int_value(8);
    put(&mut item, "kind", kind);
    let detail = string_value(String::from_str("Useless completion"));
    put(&mut item, "detail", detail);
    let label = string_value(String::from_str("completion"));
    put(&mut item, "label", label);
    let ghost entries = object_entries(item);
    let item = object_value(item);
    assert(json_get(item, "label"@) == Some(label));
    assert(json_get(item, "kind"@) == Some(kind));
    assert(json_get(item, "detail"@) == Some(detail));
    assert forall|k: Seq<char>| !set!["label"@, "kind"@, "detail"@].contains(k) implies (
    #[trigger] json_get(item, k)).is_none() by {
        assert(!entries.contains_key(k));
    }
    let mut items: Vec<serde_json::Value> = Vec::new();
    items.push(item);
    array_value(items)
}

/// The parameters of a diagnostics report with no diagnostics for `uri`.
pub fn empty_report(uri: &str) -> (r: serde_json::Value)
    ensures
        is_empty_report(r, uri@),
{
    proof {
        reveal_strlit("uri");
        reveal_strlit("diagnostics");
    }
    let mut params = new_object();
    let none = array_value(Vec::new());
    assert(json_items(none) == Some(Seq::<serde_json::Value>::empty()));
    put(&mut params, "diagnostics", none);
    let u = string_value(uri.to_owned());
    put(&mut params, "uri", u);
    assert("uri"@.len() != "diagnostics"@.len());
    let ghost entries = object_entries(params);
    let r = object_value(params);
    assert(json_get(r, "uri"@) == Some(u));
    assert(json_get(r, "diagnostics"@) == Some(none));
    assert forall|k: Seq<char>| !set!["uri"@, "diagnostics"@].contains(k) implies (
    #[trigger] json_get(r, k)).is_none() by {
        assert(!entries.contains_key(k));
    }
    r
}

/// The answer to `msg`, if it gets one: the `initialize` capabilities, an
/// empty diagnostics report for a changed document, the completion list,
/// or "method not found" for any other request.
pub fn dispatch(msg: &InboundMessage) -> (r: Option<OutboundMessage>)
    ensures
        answers(*msg, r),
{
    let method = msg.method();
    if same_text(method, "initialize") {
        OutboundMessage::response(msg, capabilities())
    } else if same_text(method, "textDocument/didChange") {
        match msg.uri() {
            Some(uri) => Some(
                OutboundMessage::Notification {
                    protocol_version: crate::message::ver(),
                    method: String::from_str("textDocument/publishDiagnostics"),
                    params: empty_report(uri),
                },
            ),
            None => None,
        }
    } else if same_text(method, "textDocument/completion") {
        OutboundMessage::response(msg, completion_list())
    } else {
        OutboundMessage::unimplemented(msg)
    }
}

/// Every answer to a request echoes the request's id exactly, whatever JSON
/// value the id is; every request but a document change is answered with a
/// result or an error.
pub proof fn lemma_id_correlation(msg: InboundMessage, r: Option<OutboundMessage>)
    requires
        answers(msg, r),
        msg.is_request(),
    ensures
        msg.method_view() != "textDocument/didChange"@ ==> (r matches Some(
            OutboundMessage::Result { .. },
        ) || r matches Some(OutboundMessage::Error { .. })),
        r matches Some(OutboundMessage::Result { id, .. }) ==> id == msg.id_view(),
        r matches Some(OutboundMessage::Error { id, .. }) ==> id == msg.id_view(),
{
}

/// A notification gets no answer, unless it reports a changed document.
pub proof fn lemma_notification_silence(msg: InboundMessage, r: Option<OutboundMessage>)
    requires
        answers(msg, r),
        !msg.is_request(),
        msg.method_view() != "textDocument/didChange"@,
    ensures
        r.is_none(),
{
}

/// A method outside the table is answered with "method not found" when it
/// comes as a request, and not at all when it comes as a notification.
pub proof fn lemma_unknown_method(msg: InboundMessage, r: Option<OutboundMessage>)
    requires
        answers(msg, r),
        msg.method_view() != "initialize"@,
        msg.method_view() != "textDocument/didChange"@,
        msg.method_view() != "textDocument/completion"@,
    ensures
        msg.is_request() ==> (r matches Some(OutboundMessage::Error { error, .. })
            && error.code == -32601i32),
        !msg.is_request() ==> r.is_none(),
{
}

} // verus!
