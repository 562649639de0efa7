use righter::editor::document::Document;
use righter::editor::pane::PaneRenderData;
use righter::editor::selection::Position;
use righter::editor::history::History;
use righter::editor::text_edits::{
    apply_format_edits, apply_rename_edit, apply_rename_edits, apply_text_edit, apply_text_edits, apply_workspace_edit,
};
use righter::editor::view::View;
use righter::input::mode::Mode;
use righter::lsp::json::JsonValue;
use righter::lsp::{code_action_params, parse_format_edits, LspDiagnostic, LspTextEdit};
use righter::ui::status_line::StatusLine;

fn edit(sl: u32, sc: u32, el: u32, ec: u32, text: &str) -> LspTextEdit {
    LspTextEdit { start_line: sl, start_col: sc, end_line: el, end_col: ec, new_text: text.to_string() }
}

fn diag(start_line: u32, end_line: u32, severity: u8, message: &str) -> LspDiagnostic {
    LspDiagnostic { start_line, start_col: 0, end_line, end_col: 1, severity, message: message.to_string() }
}

fn pos_json(line: u64, character: u64) -> JsonValue {
    JsonValue::Object(vec![
        ("line".to_string(), JsonValue::PosInt(line)),
        ("character".to_string(), JsonValue::PosInt(character)),
    ])
}

fn edit_json(sl: u64, sc: u64, el: u64, ec: u64, text: &str) -> JsonValue {
    JsonValue::Object(vec![
        (
            "range".to_string(),
            JsonValue::Object(vec![("start".to_string(), pos_json(sl, sc)), ("end".to_string(), pos_json(el, ec))]),
        ),
        ("newText".to_string(), JsonValue::String(text.to_string())),
    ])
}

#[test]
fn text_edit_replaces_range() {
    let mut r = ropey::Rope::from_str("hello world\n");
    apply_text_edit(&mut r, &edit(0, 6, 0, 11, "there"));
    assert_eq!(r.to_string(), "hello there\n");
}

#[test]
fn text_edit_positions_are_kept_inside_the_text() {
    let mut r = ropey::Rope::from_str("ab\ncd\n");
    // starts past the last line: dropped
    apply_text_edit(&mut r, &edit(9, 0, 9, 0, "x"));
    assert_eq!(r.to_string(), "ab\ncd\n");
    // end line past the last line: capped at the last (empty) line
    apply_text_edit(&mut r, &edit(1, 1, 7, 0, "Z"));
    assert_eq!(r.to_string(), "ab\ncZ");
    // columns past the end of the text
    apply_text_edit(&mut r, &edit(1, 50, 1, 60, "!"));
    assert_eq!(r.to_string(), "ab\ncZ!");
}

#[test]
fn text_edits_bottom_to_top() {
    let mut r = ropey::Rope::from_str("one two\nthree\n");
    let edits = vec![edit(1, 0, 1, 5, "3"), edit(0, 4, 0, 7, "2"), edit(0, 0, 0, 3, "1")];
    apply_text_edits(&mut r, &edits);
    assert_eq!(r.to_string(), "1 2\n3\n");
}

#[test]
fn rename_edit_fits_or_not() {
    let mut r = ropey::Rope::from_str("foo\n");
    assert!(apply_rename_edit(&mut r, &edit(0, 0, 0, 3, "bar")));
    assert_eq!(r.to_string(), "bar\n");
    // one past the last line is the end of the text
    assert!(apply_rename_edit(&mut r, &edit(2, 0, 2, 0, "x")));
    assert_eq!(r.to_string(), "bar\nx");
    assert!(!apply_rename_edit(&mut r, &edit(5, 0, 5, 0, "y")));
    assert_eq!(r.to_string(), "bar\nx");
}

#[test]
fn format_edits_sorted_by_end() {
    let result = JsonValue::Array(vec![
        edit_json(0, 0, 0, 2, "a"),
        edit_json(2, 0, 2, 1, "b"),
        JsonValue::Null,
        edit_json(1, 0, 2, 1, "c"),
    ]);
    let edits = parse_format_edits(&result).unwrap();
    let texts: Vec<&str> = edits.iter().map(|e| e.new_text.as_str()).collect();
    assert_eq!(texts, vec!["b", "c", "a"]);
    assert!(parse_format_edits(&JsonValue::Null).is_none());
}

#[test]
fn code_action_context_holds_covering_diagnostics() {
    let diags = vec![diag(0, 0, 1, "a"), diag(2, 4, 2, "b"), diag(3, 3, 1, "c")];
    let params = code_action_params("file:///m.rs", 3, 7, &diags);
    let uri = params.get("textDocument").and_then(|t| t.get("uri")).and_then(|u| u.as_str());
    assert_eq!(uri, Some("file:///m.rs"));
    let start = params.get("range").and_then(|r| r.get("start")).unwrap();
    assert_eq!(start.get("line").and_then(|l| l.as_u64()), Some(3));
    assert_eq!(start.get("character").and_then(|c| c.as_u64()), Some(7));
    let listed = params.get("context").and_then(|c| c.get("diagnostics")).and_then(|d| d.as_array()).unwrap();
    let messages: Vec<&str> = listed.iter().map(|d| d.get("message").and_then(|m| m.as_str()).unwrap()).collect();
    assert_eq!(messages, vec!["b", "c"]);
}

fn data<'a>(doc: &'a Document, diags: &'a [LspDiagnostic], styles: &'a Vec<Vec<(usize, usize, righter::highlight::style::SyntaxStyle)>>, active: bool) -> PaneRenderData<'a> {
    PaneRenderData {
        document: doc,
        cursor: Position { row: 4, col: 2 },
        view: View::default(),
        mode: Mode::Insert,
        diagnostics: diags,
        line_styles: styles,
        styles_offset: 0,
        search_matches: &[],
        search_query: "",
        visual_anchor: None,
        is_active: active,
        matching_bracket: None,
    }
}

#[test]
fn status_line_texts() {
    let mut doc = Document::from_file("/x/main.rs".to_string(), Some("fn main() {}\n"));
    doc.modified = true;
    let diags = vec![diag(0, 0, 1, "e"), diag(0, 0, 2, "w"), diag(1, 1, 2, "w2"), diag(1, 1, 4, "h")];
    let styles = Vec::new();
    let active = StatusLine::new(data(&doc, &diags, &styles, true)).content();
    assert_eq!(active.mode_label.as_deref(), Some(" INSERT "));
    assert_eq!(active.file_info, " main.rs [+]");
    assert_eq!(active.position, " E:1 W:2 5:3 ");
    let inactive = StatusLine::new(data(&doc, &diags, &styles, false)).content();
    assert!(inactive.mode_label.is_none());
    assert_eq!(inactive.position, " 5:3 ");
}

fn doc_with(text: &str) -> Document {
    let mut d = Document::new_empty();
    d.rope = ropey::Rope::from_str(text);
    d
}

fn changes_for(uri: &str, edits: Vec<JsonValue>) -> JsonValue {
    JsonValue::Object(vec![(
        "changes".to_string(),
        JsonValue::Object(vec![(uri.to_string(), JsonValue::Array(edits))]),
    )])
}

#[test]
fn format_edits_apply_and_undo() {
    let mut d = doc_with("fn  main(){}\n");
    let mut h = History::new();
    let cursor = Position { row: 0, col: 3 };
    // From the last to the first.
    let edits = vec![edit(0, 10, 0, 10, " "), edit(0, 2, 0, 4, " ")];
    apply_format_edits(&mut d, &mut h, cursor, &edits);
    assert_eq!(d.rope.to_string(), "fn main() {}\n");
    assert!(d.modified);
    assert_eq!(d.version, 1);
    let (rope, c) = h.undo(&d.rope, cursor).unwrap();
    assert_eq!(rope.to_string(), "fn  main(){}\n");
    assert_eq!(c, cursor);
}

#[test]
fn rename_edits_skip_what_does_not_fit() {
    let mut d = doc_with("let foo = 1;\nfoo + foo\n");
    let mut h = History::new();
    let edits = vec![edit(1, 6, 1, 9, "bar"), edit(1, 0, 1, 3, "bar"), edit(0, 4, 0, 7, "bar"), edit(40, 0, 40, 1, "x")];
    apply_rename_edits(&mut d, &mut h, Position::default(), &edits);
    assert_eq!(d.rope.to_string(), "let bar = 1;\nbar + bar\n");
    assert!(d.modified);
}

#[test]
fn workspace_edit_for_current_file() {
    let uri = "file:///p/a.rs";
    let mut d = doc_with("abc\ndef\n");
    let mut h = History::new();
    let edit_value = changes_for(uri, vec![edit_json(0, 0, 0, 1, "X"), edit_json(1, 1, 1, 2, "Y")]);
    assert!(apply_workspace_edit(&mut d, &mut h, Position::default(), &edit_value, Some(uri)));
    assert_eq!(d.rope.to_string(), "Xbc\ndYf\n");
    assert_eq!(d.version, 1);

    // Edits for another file, or no current file, change nothing.
    let mut d = doc_with("abc\n");
    assert!(!apply_workspace_edit(&mut d, &mut h, Position::default(), &edit_value, Some("file:///p/b.rs")));
    assert!(!apply_workspace_edit(&mut d, &mut h, Position::default(), &edit_value, None));
    assert_eq!(d.rope.to_string(), "abc\n");
    assert!(!d.modified);
    assert_eq!(d.version, 0);
}
