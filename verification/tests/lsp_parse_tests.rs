use righter::lsp;
use righter::lsp::json::JsonValue;

/// Reads JSON text into the library's JSON value.
fn json(text: &str) -> JsonValue {
    convert(serde_json::from_str(text).expect("test JSON is valid"))
}

fn convert(v: serde_json::Value) -> JsonValue {
    match v {
        serde_json::Value::Null => JsonValue::Null,
        serde_json::Value::Bool(b) => JsonValue::Bool(b),
        serde_json::Value::Number(n) => {
            if let Some(u) = n.as_u64() {
                JsonValue::PosInt(u)
            } else if let Some(i) = n.as_i64() {
                JsonValue::NegInt(i)
            } else {
                JsonValue::Float(n.to_string())
            }
        }
        serde_json::Value::String(s) => JsonValue::String(s),
        serde_json::Value::Array(a) => JsonValue::Array(a.into_iter().map(convert).collect()),
        serde_json::Value::Object(m) => {
            JsonValue::Object(m.into_iter().map(|(k, v)| (k, convert(v))).collect())
        }
    }
}

// ── Diagnostic parsing ──────────────────────────────────────────────

#[test]
fn parse_diagnostics_basic() {
    let params = json(
        r#"{
        "diagnostics": [{
            "range": {
                "start": {"line": 5, "character": 10},
                "end": {"line": 5, "character": 15}
            },
            "severity": 1,
            "message": "expected `;`"
        }]
    }"#,
    );
    let diags = lsp::parse_diagnostics(&params);
    assert_eq!(diags.len(), 1);
    assert_eq!(diags[0].start_line, 5);
    assert_eq!(diags[0].start_col, 10);
    assert_eq!(diags[0].end_line, 5);
    assert_eq!(diags[0].end_col, 15);
    assert_eq!(diags[0].severity, 1);
    assert_eq!(diags[0].message, "expected `;`");
}

#[test]
fn parse_diagnostics_multiple() {
    let params = json(
        r#"{
        "diagnostics": [
            {
                "range": {"start": {"line": 0, "character": 0}, "end": {"line": 0, "character": 1}},
                "severity": 1,
                "message": "error"
            },
            {
                "range": {"start": {"line": 1, "character": 0}, "end": {"line": 1, "character": 1}},
                "severity": 2,
                "message": "warning"
            }
        ]
    }"#,
    );
    let diags = lsp::parse_diagnostics(&params);
    assert_eq!(diags.len(), 2);
    assert_eq!(diags[0].severity, 1);
    assert_eq!(diags[1].severity, 2);
}

#[test]
fn parse_diagnostics_empty() {
    let params = json(r#"{"diagnostics": []}"#);
    let diags = lsp::parse_diagnostics(&params);
    assert!(diags.is_empty());
}

#[test]
fn parse_diagnostics_no_field() {
    let params = json(r#"{}"#);
    let diags = lsp::parse_diagnostics(&params);
    assert!(diags.is_empty());
}

// ── Completion parsing ──────────────────────────────────────────────

#[test]
fn parse_completions_items_object() {
    let result = json(
        r#"{
        "items": [
            {"label": "println!", "detail": "macro", "kind": 15},
            {"label": "print!", "insertText": "print!($0)", "kind": 15}
        ]
    }"#,
    );
    let items = lsp::parse_completions(&result);
    assert_eq!(items.len(), 2);
    assert_eq!(items[0].label, "println!");
    assert_eq!(items[1].insert_text.as_deref(), Some("print!($0)"));
}

#[test]
fn parse_completions_direct_array() {
    let result = json(
        r#"[
        {"label": "foo", "kind": 6}
    ]"#,
    );
    let items = lsp::parse_completions(&result);
    assert_eq!(items.len(), 1);
    assert_eq!(items[0].label, "foo");
}

#[test]
fn parse_completions_empty() {
    let result = json("null");
    let items = lsp::parse_completions(&result);
    assert!(items.is_empty());
}

// ── Goto definition parsing ─────────────────────────────────────────

#[test]
fn parse_goto_single_location() {
    let result = json(
        r#"{
        "uri": "file:///src/main.rs",
        "range": {
            "start": {"line": 10, "character": 4},
            "end": {"line": 10, "character": 12}
        }
    }"#,
    );
    let locs = lsp::parse_goto_definition(&result);
    assert_eq!(locs.len(), 1);
    assert_eq!(locs[0].uri, "file:///src/main.rs");
    assert_eq!(locs[0].start_line, 10);
    assert_eq!(locs[0].start_col, 4);
}

#[test]
fn parse_goto_array() {
    let result = json(
        r#"[
        {
            "uri": "file:///a.rs",
            "range": {"start": {"line": 0, "character": 0}, "end": {"line": 0, "character": 5}}
        },
        {
            "uri": "file:///b.rs",
            "range": {"start": {"line": 1, "character": 2}, "end": {"line": 1, "character": 8}}
        }
    ]"#,
    );
    let locs = lsp::parse_goto_definition(&result);
    assert_eq!(locs.len(), 2);
}

#[test]
fn parse_goto_null() {
    let result = json("null");
    let locs = lsp::parse_goto_definition(&result);
    assert!(locs.is_empty());
}

// ── Hover parsing ───────────────────────────────────────────────────

#[test]
fn parse_hover_string_contents() {
    let result = json(r#"{"contents": "fn main()"}"#);
    let hover = lsp::parse_hover(&result);
    assert_eq!(hover.as_deref(), Some("fn main()"));
}

#[test]
fn parse_hover_markup_content() {
    let result = json(r##"{"contents": {"kind": "markdown", "value": "# Title"}}"##);
    let hover = lsp::parse_hover(&result);
    assert_eq!(hover.as_deref(), Some("# Title"));
}

#[test]
fn parse_hover_null() {
    let result = json("null");
    let hover = lsp::parse_hover(&result);
    assert!(hover.is_none());
}

// ── References parsing ──────────────────────────────────────────────

#[test]
fn parse_references_basic() {
    let result = json(
        r#"[
        {
            "uri": "file:///src/lib.rs",
            "range": {"start": {"line": 5, "character": 0}, "end": {"line": 5, "character": 10}}
        }
    ]"#,
    );
    let refs = lsp::parse_references(&result);
    assert_eq!(refs.len(), 1);
    assert_eq!(refs[0].uri, "file:///src/lib.rs");
}

#[test]
fn parse_references_null() {
    let result = json("null");
    let refs = lsp::parse_references(&result);
    assert!(refs.is_empty());
}

// ── Code actions parsing ────────────────────────────────────────────

#[test]
fn parse_code_actions_basic() {
    let result = json(
        r#"[
        {
            "title": "Add missing import",
            "kind": "quickfix",
            "edit": {"changes": {}}
        }
    ]"#,
    );
    let actions = lsp::parse_code_actions(&result);
    assert_eq!(actions.len(), 1);
    assert_eq!(actions[0].title, "Add missing import");
}

#[test]
fn parse_code_actions_empty() {
    let result = json("[]");
    let actions = lsp::parse_code_actions(&result);
    assert!(actions.is_empty());
}

// ── URI conversion ──────────────────────────────────────────────────

#[test]
fn path_to_uri_basic() {
    let path = "/Users/test/src/main.rs";
    let uri = lsp::path_to_uri(path);
    assert!(uri.starts_with("file:///"));
    assert!(uri.contains("main.rs"));
}

#[test]
fn uri_to_path_basic() {
    let path = lsp::uri_to_path("file:///Users/test/main.rs");
    assert_eq!(path.as_deref(), Some("/Users/test/main.rs"));
}

#[test]
fn uri_to_path_invalid() {
    let path = lsp::uri_to_path("not-a-uri");
    assert!(path.is_none());
}

// ── Text edit parsing ───────────────────────────────────────────────

#[test]
fn parse_text_edit_basic() {
    let edit = json(
        r#"{
        "range": {
            "start": {"line": 0, "character": 0},
            "end": {"line": 0, "character": 5}
        },
        "newText": "hello"
    }"#,
    );
    let te = lsp::parse_text_edit(&edit);
    assert!(te.is_some());
    let te = te.unwrap();
    assert_eq!(te.start_line, 0);
    assert_eq!(te.start_col, 0);
    assert_eq!(te.end_line, 0);
    assert_eq!(te.end_col, 5);
    assert_eq!(te.new_text, "hello");
}

#[test]
fn parse_rename_edits_basic() {
    let result = json(
        r#"{
        "changes": {
            "file:///src/main.rs": [
                {
                    "range": {"start": {"line": 1, "character": 4}, "end": {"line": 1, "character": 7}},
                    "newText": "bar"
                }
            ]
        }
    }"#,
    );
    let edits = lsp::parse_rename_edits(&result, "file:///src/main.rs");
    assert_eq!(edits.len(), 1);
    assert_eq!(edits[0].new_text, "bar");
}

#[test]
fn parse_rename_edits_wrong_uri() {
    let result = json(
        r#"{
        "changes": {
            "file:///other.rs": [
                {
                    "range": {"start": {"line": 0, "character": 0}, "end": {"line": 0, "character": 3}},
                    "newText": "baz"
                }
            ]
        }
    }"#,
    );
    let edits = lsp::parse_rename_edits(&result, "file:///src/main.rs");
    assert!(edits.is_empty());
}

// ── Further cases ───────────────────────────────────────────────────

#[test]
fn parse_diagnostics_missing_fields_default() {
    let params = json(r#"{"diagnostics": [{"message": "m"}]}"#);
    let diags = lsp::parse_diagnostics(&params);
    assert_eq!(diags.len(), 1);
    assert_eq!(diags[0].start_line, 0);
    assert_eq!(diags[0].end_col, 0);
    assert_eq!(diags[0].severity, 1);
    assert_eq!(diags[0].message, "m");
}

#[test]
fn parse_goto_location_link() {
    let result = json(
        r#"[
        {
            "targetUri": "file:///c.rs",
            "targetRange": {"start": {"line": 3, "character": 1}, "end": {"line": 4, "character": 2}}
        },
        {"something": "else"}
    ]"#,
    );
    let locs = lsp::parse_goto_definition(&result);
    assert_eq!(locs.len(), 1);
    assert_eq!(locs[0].uri, "file:///c.rs");
    assert_eq!((locs[0].start_line, locs[0].start_col, locs[0].end_line, locs[0].end_col), (3, 1, 4, 2));
}

#[test]
fn parse_goto_missing_number_skips_location() {
    let result = json(
        r#"{"uri": "file:///a.rs", "range": {"start": {"line": 1}, "end": {"line": 1, "character": 2}}}"#,
    );
    assert!(lsp::parse_goto_definition(&result).is_empty());
}

#[test]
fn parse_hover_array_joins_parts() {
    let result = json(
        r#"{"contents": ["first", {"language": "rust", "value": "second"}, 7]}"#,
    );
    let hover = lsp::parse_hover(&result);
    assert_eq!(hover.as_deref(), Some("first\n\nsecond"));
}

#[test]
fn parse_hover_empty_array_is_none() {
    let result = json(r#"{"contents": []}"#);
    assert!(lsp::parse_hover(&result).is_none());
}

#[test]
fn parse_references_skips_items_without_range() {
    let result = json(
        r#"[{"uri": "file:///x.rs"}, {"uri": "file:///y.rs", "range": {}}]"#,
    );
    let refs = lsp::parse_references(&result);
    assert_eq!(refs.len(), 1);
    assert_eq!(refs[0].uri, "file:///y.rs");
    assert_eq!(refs[0].start_line, 0);
}

#[test]
fn parse_code_actions_needs_title() {
    let result = json(
        r#"[{"kind": "quickfix"}, {"title": "Run", "command": {"command": "x"}}]"#,
    );
    let actions = lsp::parse_code_actions(&result);
    assert_eq!(actions.len(), 1);
    assert_eq!(actions[0].title, "Run");
    assert!(actions[0].kind.is_none());
    assert!(actions[0].edit.is_none());
    assert!(actions[0].command.is_some());
}

#[test]
fn parse_rename_edits_sorted_bottom_to_top() {
    let result = json(
        r#"{
        "changes": {
            "file:///m.rs": [
                {"range": {"start": {"line": 1, "character": 4}, "end": {"line": 1, "character": 5}}, "newText": "a"},
                {"range": {"start": {"line": 3, "character": 0}, "end": {"line": 3, "character": 1}}, "newText": "b"},
                {"range": {"start": {"line": 1, "character": 9}, "end": {"line": 1, "character": 10}}, "newText": "c"},
                {"range": {"start": {"line": 3, "character": 0}, "end": {"line": 3, "character": 2}}, "newText": "d"}
            ]
        }
    }"#,
    );
    let edits = lsp::parse_rename_edits(&result, "file:///m.rs");
    let texts: Vec<&str> = edits.iter().map(|e| e.new_text.as_str()).collect();
    assert_eq!(texts, vec!["b", "d", "c", "a"]);
}

#[test]
fn parse_rename_edits_from_document_changes() {
    let result = json(
        r#"{
        "changes": {},
        "documentChanges": [
            {"textDocument": {"uri": "file:///other.rs", "version": 1},
             "edits": [{"range": {"start": {"line": 0, "character": 0}, "end": {"line": 0, "character": 1}}, "newText": "x"}]},
            {"textDocument": {"uri": "file:///m.rs", "version": 1},
             "edits": [{"range": {"start": {"line": 2, "character": 0}, "end": {"line": 2, "character": 1}}, "newText": "y"}]}
        ]
    }"#,
    );
    let edits = lsp::parse_rename_edits(&result, "file:///m.rs");
    assert_eq!(edits.len(), 1);
    assert_eq!(edits[0].new_text, "y");
    assert_eq!(edits[0].start_line, 2);
}

#[test]
fn parse_text_edit_needs_new_text() {
    let edit = json(r#"{"range": {"start": {"line": 0, "character": 0}, "end": {"line": 0, "character": 5}}}"#);
    assert!(lsp::parse_text_edit(&edit).is_none());
}

#[test]
fn message_classification() {
    let req = json(r#"{"jsonrpc": "2.0", "id": 4, "method": "window/workDoneProgress/create", "params": {}}"#);
    assert!(matches!(lsp::LspMessage::from_value(req), Some(lsp::LspMessage::ServerRequest { .. })));
    let resp = json(r#"{"jsonrpc": "2.0", "id": 7, "result": null}"#);
    match lsp::LspMessage::from_value(resp) {
        Some(lsp::LspMessage::Response { id, result, error }) => {
            assert_eq!(id, 7);
            assert!(matches!(result, Some(JsonValue::Null)));
            assert!(error.is_none());
        }
        other => panic!("unexpected {:?}", other),
    }
    let note = json(r#"{"jsonrpc": "2.0", "method": "textDocument/publishDiagnostics"}"#);
    match lsp::LspMessage::from_value(note) {
        Some(lsp::LspMessage::Notification { method, params }) => {
            assert_eq!(method, "textDocument/publishDiagnostics");
            assert!(matches!(params, JsonValue::Null));
        }
        other => panic!("unexpected {:?}", other),
    }
    assert!(lsp::LspMessage::from_value(json(r#"{"id": "abc"}"#)).is_none());
    assert!(lsp::LspMessage::from_value(json("[1, 2]")).is_none());
}

#[test]
fn path_to_uri_prefixes_scheme() {
    assert_eq!(lsp::path_to_uri("/a/b.rs"), "file:///a/b.rs");
}
