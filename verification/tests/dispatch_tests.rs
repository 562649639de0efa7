use righter::lsp::dispatch::{jump_to_reference, location_message, LspEffect, PendingRequests, ReferenceJump, RequestKind};
use righter::lsp::json::JsonValue;
use righter::lsp::{LspLocation, LspMessage};

fn json(text: &str) -> JsonValue {
    convert(serde_json::from_str(text).expect("test JSON is valid"))
}

fn convert(v: serde_json::Value) -> JsonValue {
    match v {
        serde_json::Value::Null => JsonValue::Null,
        serde_json::Value::Bool(b) => JsonValue::Bool(b),
        serde_json::Value::Number(n) => {
            if let Some(u) = n.as_u64() {
                JsonValue::PosInt(u)
            } else if let Some(i) = n.as_i64() {
                JsonValue::NegInt(i)
            } else {
                JsonValue::Float(n.to_string())
            }
        }
        serde_json::Value::String(s) => JsonValue::String(s),
        serde_json::Value::Array(a) => JsonValue::Array(a.into_iter().map(convert).collect()),
        serde_json::Value::Object(m) => {
            JsonValue::Object(m.into_iter().map(|(k, v)| (k, convert(v))).collect())
        }
    }
}

fn response(id: i64, result: Option<&str>, error: Option<&str>) -> LspMessage {
    LspMessage::Response { id, result: result.map(json), error: error.map(json) }
}

fn status_text(e: &LspEffect) -> &str {
    match e {
        LspEffect::Status(s) => s.as_str(),
        other => panic!("expected a status message, got {:?}", other),
    }
}

const URI: &str = "file:///home/u/proj/src/main.rs";

#[test]
fn answering_clears_only_that_request() {
    let mut p = PendingRequests::new();
    p.hover = Some(4);
    p.rename = Some(9);
    assert_eq!(p.answer(4), Some(RequestKind::Hover));
    assert_eq!(p.hover, None);
    assert_eq!(p.rename, Some(9));
    // The same answer again matches nothing.
    assert_eq!(p.answer(4), None);
    assert_eq!(p.answer(9), Some(RequestKind::Rename));
    assert_eq!(p, PendingRequests::new());
}

#[test]
fn initialize_answer() {
    let mut p = PendingRequests::new();
    let e = p.handle_lsp_message(Some(0), response(0, Some("{}"), None), None);
    assert!(matches!(e, LspEffect::Ready));
    let e = p.handle_lsp_message(Some(0), response(0, None, Some(r#"{"code": -1}"#)), None);
    assert!(matches!(e, LspEffect::InitializeFailed));
    // Once started, a response with that id is no longer the start answer.
    let e = p.handle_lsp_message(None, response(0, Some("{}"), None), None);
    assert!(matches!(e, LspEffect::Ignore));
}

#[test]
fn completion_answer() {
    let mut p = PendingRequests::new();
    p.completion = Some(2);
    let e = p.handle_lsp_message(None, response(2, Some(r#"[{"label": "foo"}, {"label": "bar"}]"#), None), Some(URI));
    match e {
        LspEffect::ShowCompletions(items) => {
            assert_eq!(items.len(), 2);
            assert_eq!(items[0].label, "foo");
        }
        other => panic!("unexpected {:?}", other),
    }
    assert_eq!(p.completion, None);
    p.completion = Some(3);
    let e = p.handle_lsp_message(None, response(3, Some("[]"), None), Some(URI));
    assert!(matches!(e, LspEffect::Ignore));
    p.completion = Some(4);
    let e = p.handle_lsp_message(None, response(4, None, None), Some(URI));
    assert!(matches!(e, LspEffect::Ignore));
    assert_eq!(p.completion, None);
}

fn definition(uri: &str) -> String {
    format!(r#"{{"uri": "{}", "range": {{"start": {{"line": 9, "character": 4}}, "end": {{"line": 9, "character": 8}}}}}}"#, uri)
}

#[test]
fn definition_answers() {
    let mut p = PendingRequests::new();
    p.goto_definition = Some(5);
    let e = p.handle_lsp_message(None, response(5, Some(&definition(URI)), None), Some(URI));
    assert!(matches!(e, LspEffect::JumpTo(9, 4)));

    p.goto_definition = Some(6);
    let other = "file:///home/u/proj/src/lib.rs";
    match p.handle_lsp_message(None, response(6, Some(&definition(other)), None), Some(URI)) {
        LspEffect::OpenAt(path, 9, 4) => assert_eq!(path, "/home/u/proj/src/lib.rs"),
        e => panic!("unexpected {:?}", e),
    }

    p.goto_definition = Some(7);
    match p.handle_lsp_message(None, response(7, Some(&definition("rust-std:/core/option.rs")), None), Some(URI)) {
        LspEffect::DefinitionElsewhere(m) => assert_eq!(m, "Definition in option.rs:10:5"),
        e => panic!("unexpected {:?}", e),
    }

    p.goto_definition = Some(8);
    let e = p.handle_lsp_message(None, response(8, Some("[]"), None), Some(URI));
    assert_eq!(status_text(&e), "No definition found");

    // Without a current file, no location is the current file.
    p.goto_definition = Some(9);
    let e = p.handle_lsp_message(None, response(9, Some(&definition(URI)), None), None);
    assert!(matches!(e, LspEffect::OpenAt(_, 9, 4)));
}

#[test]
fn hover_references_and_code_actions() {
    let mut p = PendingRequests::new();
    p.hover = Some(1);
    match p.handle_lsp_message(None, response(1, Some(r#"{"contents": "fn main()"}"#), None), Some(URI)) {
        LspEffect::ShowHover(t) => assert_eq!(t, "fn main()"),
        e => panic!("unexpected {:?}", e),
    }
    p.hover = Some(2);
    let e = p.handle_lsp_message(None, response(2, Some("{}"), None), Some(URI));
    assert_eq!(status_text(&e), "No hover info");

    p.references = Some(3);
    let e = p.handle_lsp_message(None, response(3, Some("[]"), None), Some(URI));
    assert_eq!(status_text(&e), "No references found");
    p.references = Some(4);
    let refs = format!("[{}, {}]", definition(URI), definition(URI));
    match p.handle_lsp_message(None, response(4, Some(&refs), None), Some(URI)) {
        LspEffect::ShowReferences(locs) => assert_eq!(locs.len(), 2),
        e => panic!("unexpected {:?}", e),
    }

    p.code_action = Some(5);
    let e = p.handle_lsp_message(None, response(5, Some("[]"), None), Some(URI));
    assert_eq!(status_text(&e), "No code actions available");
    p.code_action = Some(6);
    match p.handle_lsp_message(None, response(6, Some(r#"[{"title": "Fix it"}]"#), None), Some(URI)) {
        LspEffect::ShowCodeActions(a) => assert_eq!(a[0].title, "Fix it"),
        e => panic!("unexpected {:?}", e),
    }
}

#[test]
fn formatting_answers() {
    let mut p = PendingRequests::new();
    p.formatting = Some(1);
    let e = p.handle_lsp_message(None, response(1, Some("null"), None), Some(URI));
    assert_eq!(status_text(&e), "Formatted (no changes)");
    p.formatting = Some(2);
    let e = p.handle_lsp_message(None, response(2, Some("[]"), None), Some(URI));
    assert_eq!(status_text(&e), "Formatted (no changes)");
    p.formatting = Some(3);
    let edits = r#"[
        {"range": {"start": {"line": 0, "character": 0}, "end": {"line": 0, "character": 1}}, "newText": "a"},
        {"range": {"start": {"line": 4, "character": 0}, "end": {"line": 4, "character": 2}}, "newText": ""}
    ]"#;
    match p.handle_lsp_message(None, response(3, Some(edits), None), Some(URI)) {
        LspEffect::ApplyFormat(v) => {
            assert_eq!(v.len(), 2);
            // From the last to the first.
            assert_eq!(v[0].start_line, 4);
            assert_eq!(v[1].start_line, 0);
        }
        e => panic!("unexpected {:?}", e),
    }
}

#[test]
fn rename_answers() {
    let mut p = PendingRequests::new();
    p.rename = Some(1);
    let e = p.handle_lsp_message(None, response(1, None, Some(r#"{"message": "cannot rename"}"#)), Some(URI));
    assert_eq!(status_text(&e), "Rename error: cannot rename");
    p.rename = Some(2);
    let e = p.handle_lsp_message(None, response(2, None, Some(r#"{"code": 3}"#)), Some(URI));
    assert_eq!(status_text(&e), "Rename error: Rename failed");
    p.rename = Some(3);
    let e = p.handle_lsp_message(None, response(3, Some(r#"{"changes": {}}"#), None), Some(URI));
    assert_eq!(status_text(&e), "No edits to apply");
    p.rename = Some(4);
    let changes = format!(
        r#"{{"changes": {{"{}": [{{"range": {{"start": {{"line": 1, "character": 4}}, "end": {{"line": 1, "character": 7}}}}, "newText": "bar"}}]}}}}"#,
        URI
    );
    match p.handle_lsp_message(None, response(4, Some(&changes), None), Some(URI)) {
        LspEffect::ApplyRename(v) => {
            assert_eq!(v.len(), 1);
            assert_eq!(v[0].new_text, "bar");
        }
        e => panic!("unexpected {:?}", e),
    }
    // Without a current file there is nothing to rename in.
    p.rename = Some(5);
    let e = p.handle_lsp_message(None, response(5, Some(&changes), None), None);
    assert!(matches!(e, LspEffect::Ignore));
}

#[test]
fn unknown_response_is_ignored() {
    let mut p = PendingRequests::new();
    p.hover = Some(1);
    let e = p.handle_lsp_message(None, response(42, Some("{}"), None), Some(URI));
    assert!(matches!(e, LspEffect::Ignore));
    assert_eq!(p.hover, Some(1));
}

#[test]
fn notifications_and_server_requests() {
    let mut p = PendingRequests::new();
    let msg = LspMessage::Notification {
        method: "textDocument/publishDiagnostics".to_string(),
        params: json(
            r#"{"uri": "file:///x.rs", "diagnostics": [{"range": {"start": {"line": 1, "character": 2}, "end": {"line": 1, "character": 3}}, "severity": 1, "message": "oops"}]}"#,
        ),
    };
    match p.handle_lsp_message(None, msg, Some(URI)) {
        LspEffect::SetDiagnostics(d) => {
            assert_eq!(d.len(), 1);
            assert_eq!(d[0].message, "oops");
        }
        e => panic!("unexpected {:?}", e),
    }
    let msg = LspMessage::Notification { method: "$/progress".to_string(), params: json("{}") };
    assert!(matches!(p.handle_lsp_message(None, msg, Some(URI)), LspEffect::Ignore));

    let msg = LspMessage::ServerRequest {
        id: json("7"),
        method: "window/workDoneProgress/create".to_string(),
        params: json("{}"),
    };
    assert!(matches!(p.handle_lsp_message(None, msg, Some(URI)), LspEffect::RespondNull(JsonValue::PosInt(7))));
    let msg = LspMessage::ServerRequest {
        id: json(r#""a""#),
        method: "client/registerCapability".to_string(),
        params: json("{}"),
    };
    assert!(matches!(p.handle_lsp_message(None, msg, Some(URI)), LspEffect::RespondNull(_)));
    let msg = LspMessage::ServerRequest { id: json("8"), method: "workspace/configuration".to_string(), params: json("{}") };
    assert!(matches!(p.handle_lsp_message(None, msg, Some(URI)), LspEffect::Ignore));
}

#[test]
fn location_messages() {
    let loc = LspLocation {
        uri: "file:///a/b/c.rs".to_string(),
        start_line: 0,
        start_col: 0,
        end_line: 0,
        end_col: 1,
    };
    assert_eq!(location_message("Reference", &loc), "Reference in c.rs:1:1");
    let loc = LspLocation { uri: "plain".to_string(), start_line: u32::MAX, start_col: 41, end_line: 0, end_col: 0 };
    assert_eq!(location_message("Definition", &loc), "Definition in plain:4294967296:42");
}

#[test]
fn reference_jumps() {
    let here = LspLocation { uri: URI.to_string(), start_line: 7, start_col: 3, end_line: 7, end_col: 6 };
    let there = LspLocation { uri: "file:///p/src/lib.rs".to_string(), start_line: 0, start_col: 4, end_line: 0, end_col: 9 };
    let refs = vec![here, there];
    assert!(matches!(jump_to_reference(&refs, 0, Some(URI)), ReferenceJump::Here(7, 3)));
    match jump_to_reference(&refs, 1, Some(URI)) {
        ReferenceJump::Elsewhere(m) => assert_eq!(m, "Reference in lib.rs:1:5"),
        other => panic!("unexpected {:?}", other),
    }
    assert!(matches!(jump_to_reference(&refs, 0, None), ReferenceJump::Elsewhere(_)));
    assert!(matches!(jump_to_reference(&[], 3, Some(URI)), ReferenceJump::Nowhere));
}
