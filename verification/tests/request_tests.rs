use righter::lsp::json::JsonValue;
use righter::lsp::requests::{
    did_change_params, did_open_params, did_save_params, execute_command_params, formatting_params, initialize_params, notification_message, position_params,
    references_params, rename_params, request_message, response_message,
};
use righter::lsp::{LspMessage, code_action_params};

fn to_serde(v: &JsonValue) -> serde_json::Value {
    match v {
        JsonValue::Null => serde_json::Value::Null,
        JsonValue::Bool(b) => serde_json::Value::Bool(*b),
        JsonValue::PosInt(n) => serde_json::Value::from(*n),
        JsonValue::NegInt(n) => serde_json::Value::from(*n),
        JsonValue::Float(s) => serde_json::from_str(s).expect("a number"),
        JsonValue::String(s) => serde_json::Value::String(s.clone()),
        JsonValue::Array(a) => serde_json::Value::Array(a.iter().map(to_serde).collect()),
        JsonValue::Object(m) => {
            serde_json::Value::Object(m.iter().map(|(k, v)| (k.clone(), to_serde(v))).collect())
        }
    }
}

fn from_serde(v: serde_json::Value) -> JsonValue {
    match v {
        serde_json::Value::Null => JsonValue::Null,
        serde_json::Value::Bool(b) => JsonValue::Bool(b),
        serde_json::Value::Number(n) => {
            if let Some(u) = n.as_u64() {
                JsonValue::PosInt(u)
            } else if let Some(i) = n.as_i64() {
                JsonValue::NegInt(i)
            } else {
                JsonValue::Float(n.to_string())
            }
        }
        serde_json::Value::String(s) => JsonValue::String(s),
        serde_json::Value::Array(a) => JsonValue::Array(a.into_iter().map(from_serde).collect()),
        serde_json::Value::Object(m) => JsonValue::Object(m.into_iter().map(|(k, v)| (k, from_serde(v))).collect()),
    }
}

fn same(v: &JsonValue, text: &str) {
    let want: serde_json::Value = serde_json::from_str(text).expect("test JSON is valid");
    assert_eq!(to_serde(v), want);
}

const URI: &str = "file:///p/src/main.rs";

#[test]
fn position_requests() {
    same(
        &position_params(URI, 3, 7),
        r#"{"textDocument": {"uri": "file:///p/src/main.rs"}, "position": {"line": 3, "character": 7}}"#,
    );
    same(
        &references_params(URI, 0, 1),
        r#"{"textDocument": {"uri": "file:///p/src/main.rs"}, "position": {"line": 0, "character": 1},
            "context": {"includeDeclaration": true}}"#,
    );
    same(
        &rename_params(URI, 2, 4, "renamed"),
        r#"{"textDocument": {"uri": "file:///p/src/main.rs"}, "position": {"line": 2, "character": 4},
            "newName": "renamed"}"#,
    );
}

#[test]
fn document_notifications() {
    same(
        &did_open_params(URI, "fn main() {}\n", 1),
        r#"{"textDocument": {"uri": "file:///p/src/main.rs", "languageId": "rust", "version": 1, "text": "fn main() {}\n"}}"#,
    );
    same(
        &did_change_params(URI, "x", 7),
        r#"{"textDocument": {"uri": "file:///p/src/main.rs", "version": 7}, "contentChanges": [{"text": "x"}]}"#,
    );
    same(&did_change_params(URI, "", -2), r#"{"textDocument": {"uri": "file:///p/src/main.rs", "version": -2}, "contentChanges": [{"text": ""}]}"#);
    same(&did_save_params(URI), r#"{"textDocument": {"uri": "file:///p/src/main.rs"}}"#);
}

#[test]
fn envelopes() {
    let msg = request_message(4, "textDocument/hover", position_params(URI, 1, 2));
    same(
        &msg,
        r#"{"jsonrpc": "2.0", "id": 4, "method": "textDocument/hover",
            "params": {"textDocument": {"uri": "file:///p/src/main.rs"}, "position": {"line": 1, "character": 2}}}"#,
    );
    same(&notification_message("initialized", JsonValue::Object(Vec::new())), r#"{"jsonrpc": "2.0", "method": "initialized", "params": {}}"#);
    same(&response_message(JsonValue::PosInt(9), JsonValue::Null), r#"{"jsonrpc": "2.0", "id": 9, "result": null}"#);
}

#[test]
fn envelopes_read_back() {
    // What is written, read back through the same JSON text, is classified
    // as what it is.
    let text = serde_json::to_string(&to_serde(&notification_message("exit", JsonValue::Null))).unwrap();
    let back = LspMessage::from_value(from_serde(serde_json::from_str(&text).unwrap())).unwrap();
    assert!(matches!(back, LspMessage::Notification { ref method, params: JsonValue::Null } if method == "exit"));
    let text = serde_json::to_string(&to_serde(&response_message(JsonValue::PosInt(3), JsonValue::Bool(true)))).unwrap();
    let back = LspMessage::from_value(from_serde(serde_json::from_str(&text).unwrap())).unwrap();
    assert!(matches!(back, LspMessage::Response { id: 3, result: Some(JsonValue::Bool(true)), error: None }));
}

#[test]
fn initialize_request() {
    same(
        &initialize_params(1234, "file:///p"),
        r#"{
            "processId": 1234,
            "rootUri": "file:///p",
            "capabilities": {
                "textDocument": {
                    "completion": {"completionItem": {"snippetSupport": false}},
                    "publishDiagnostics": {"relatedInformation": true},
                    "synchronization": {"didSave": true, "dynamicRegistration": false},
                    "definition": {"dynamicRegistration": false},
                    "hover": {"dynamicRegistration": false, "contentFormat": ["plaintext"]},
                    "references": {"dynamicRegistration": false},
                    "rename": {"dynamicRegistration": false, "prepareSupport": false},
                    "codeAction": {
                        "dynamicRegistration": false,
                        "codeActionLiteralSupport": {"codeActionKind": {"valueSet": ["quickfix", "refactor", "source"]}}
                    }
                }
            }
        }"#,
    );
}

#[test]
fn code_action_request() {
    same(
        &code_action_params(URI, 5, 2, &[]),
        r#"{"textDocument": {"uri": "file:///p/src/main.rs"},
            "range": {"start": {"line": 5, "character": 2}, "end": {"line": 5, "character": 2}},
            "context": {"diagnostics": []}}"#,
    );
}

#[test]
fn formatting_request() {
    same(
        &formatting_params(URI),
        r#"{"textDocument": {"uri": "file:///p/src/main.rs"}, "options": {"tabSize": 4, "insertSpaces": true}}"#,
    );
}

#[test]
fn diagnostics_sent_back_read_back() {
    let d = righter::lsp::LspDiagnostic {
        start_line: 3,
        start_col: 1,
        end_line: 5,
        end_col: 9,
        severity: 2,
        message: "unused variable".to_string(),
    };
    let params = code_action_params(URI, 4, 0, std::slice::from_ref(&d));
    let context = match &params {
        JsonValue::Object(m) => &m.iter().find(|(k, _)| k == "context").unwrap().1,
        _ => panic!("params are an object"),
    };
    let back = righter::lsp::parse_diagnostics(context);
    assert_eq!(back.len(), 1);
    assert_eq!(back[0].start_line, 3);
    assert_eq!(back[0].start_col, 1);
    assert_eq!(back[0].end_line, 5);
    assert_eq!(back[0].end_col, 9);
    assert_eq!(back[0].severity, 2);
    assert_eq!(back[0].message, "unused variable");
    // A diagnostic whose lines do not cover the position is left out.
    let params = code_action_params(URI, 9, 0, std::slice::from_ref(&d));
    same(
        &params,
        r#"{"textDocument": {"uri": "file:///p/src/main.rs"},
            "range": {"start": {"line": 9, "character": 0}, "end": {"line": 9, "character": 0}},
            "context": {"diagnostics": []}}"#,
    );
}

#[test]
fn code_action_command_request() {
    let command = from_serde(serde_json::from_str(r#"{"title": "Run", "command": "rust-analyzer.run", "arguments": [1, "x"]}"#).unwrap());
    same(&execute_command_params(&command), r#"{"command": "rust-analyzer.run", "arguments": [1, "x"]}"#);
    let bare = from_serde(serde_json::from_str(r#"{"title": "Nothing"}"#).unwrap());
    same(&execute_command_params(&bare), r#"{"command": "", "arguments": []}"#);
}
