use righter::editor::document::Document;
use righter::editor::history::History;
use righter::editor::selection::Position;

// ── Document tests ──────────────────────────────────────────────────

#[test]
fn document_new_empty() {
    let doc = Document::new_empty();
    // ropey stores "\n" as 2 lines (empty line + trailing newline)
    assert_eq!(doc.line_count(), 2);
    assert_eq!(doc.line_len(0), 0);
    assert!(!doc.modified);
    assert!(doc.path.is_none());
}

#[test]
fn document_line_count() {
    let mut doc = Document::new_empty();
    doc.rope = ropey::Rope::from_str("hello\nworld\n");
    assert_eq!(doc.line_count(), 3); // ropey counts trailing newline as extra line
}

#[test]
fn document_insert_char() {
    let mut doc = Document::new_empty();
    doc.insert_char(Position { row: 0, col: 0 }, 'A');
    assert_eq!(doc.rope.to_string(), "A\n");
    assert!(doc.modified);
}

#[test]
fn document_delete_char_backward() {
    let mut doc = Document::new_empty();
    doc.rope = ropey::Rope::from_str("AB\n");
    let pos = Position { row: 0, col: 1 };
    let new_pos = doc.delete_char_backward(pos);
    assert!(new_pos.is_some());
    assert_eq!(new_pos.unwrap().col, 0);
    assert_eq!(doc.rope.to_string(), "B\n");
}

#[test]
fn document_delete_char_backward_at_start() {
    let mut doc = Document::new_empty();
    let pos = Position { row: 0, col: 0 };
    let new_pos = doc.delete_char_backward(pos);
    assert!(new_pos.is_none());
}

#[test]
fn document_insert_newline() {
    let mut doc = Document::new_empty();
    doc.rope = ropey::Rope::from_str("hello\n");
    doc.insert_newline(Position { row: 0, col: 3 });
    assert_eq!(doc.line_count(), 3);
    assert_eq!(doc.rope.line(0).to_string(), "hel\n");
    assert_eq!(doc.rope.line(1).to_string(), "lo\n");
}

#[test]
fn document_file_name_no_path() {
    let doc = Document::new_empty();
    assert_eq!(doc.file_name(), "[No Name]");
}

// ── More document behaviour ─────────────────────────────────────────

#[test]
fn document_file_name_of_path() {
    let doc = Document::from_file("/tmp/project/src/main.rs".to_string(), Some("fn main() {}\n"));
    assert_eq!(doc.file_name(), "main.rs");
    assert_eq!(doc.rope.to_string(), "fn main() {}\n");
    assert!(!doc.modified);
}

#[test]
fn document_from_missing_file_is_one_empty_line() {
    let doc = Document::from_file("/nonexistent/new.rs".to_string(), None);
    assert_eq!(doc.rope.to_string(), "\n");
    assert_eq!(doc.path.as_deref(), Some("/nonexistent/new.rs"));
}

#[test]
fn document_delete_char_backward_joins_lines() {
    let mut doc = Document::new_empty();
    doc.rope = ropey::Rope::from_str("ab\ncd\n");
    let new_pos = doc.delete_char_backward(Position { row: 1, col: 0 });
    // the cursor goes to the end of the merged line
    assert_eq!(new_pos, Some(Position { row: 0, col: 4 }));
    assert_eq!(doc.rope.to_string(), "abcd\n");
}

#[test]
fn document_delete_char_forward_in_line() {
    let mut doc = Document::new_empty();
    doc.rope = ropey::Rope::from_str("abc\n");
    doc.delete_char_forward(Position { row: 0, col: 1 });
    assert_eq!(doc.rope.to_string(), "ac\n");
    assert!(doc.modified);
}

#[test]
fn document_delete_line_middle() {
    let mut doc = Document::new_empty();
    doc.rope = ropey::Rope::from_str("aaa\nbbb\nccc\n");
    doc.delete_line(1);
    assert_eq!(doc.rope.to_string(), "aaa\nccc\n");
}

#[test]
fn document_line_len_excludes_crlf() {
    let mut doc = Document::new_empty();
    doc.rope = ropey::Rope::from_str("ab\r\ncd");
    assert_eq!(doc.line_len(0), 2);
    assert_eq!(doc.line_len(1), 2);
    assert_eq!(doc.line_len(7), 0);
}

#[test]
fn document_version_counts_edits() {
    let mut doc = Document::new_empty();
    doc.insert_char(Position { row: 0, col: 0 }, 'x');
    doc.insert_char(Position { row: 0, col: 1 }, 'y');
    assert_eq!(doc.version, 2);
}

// ── History ─────────────────────────────────────────────────────────

#[test]
fn history_undo_restores_saved_state() {
    let mut h = History::new();
    let before = ropey::Rope::from_str("before\n");
    h.save(&before, Position { row: 0, col: 3 });
    let now = ropey::Rope::from_str("changed\n");
    let (rope, cursor) = h.undo(&now, Position { row: 0, col: 1 }).unwrap();
    assert_eq!(rope.to_string(), "before\n");
    assert_eq!(cursor, Position { row: 0, col: 3 });
}

#[test]
fn history_redo_after_undo() {
    let mut h = History::new();
    let before = ropey::Rope::from_str("one\n");
    h.save(&before, Position { row: 0, col: 0 });
    let now = ropey::Rope::from_str("two\n");
    let (back, c) = h.undo(&now, Position { row: 0, col: 2 }).unwrap();
    let (again, c2) = h.redo(&back, c).unwrap();
    assert_eq!(again.to_string(), "two\n");
    assert_eq!(c2, Position { row: 0, col: 2 });
}

#[test]
fn history_undo_empty_is_none() {
    let mut h = History::new();
    let now = ropey::Rope::from_str("x\n");
    assert!(h.undo(&now, Position { row: 0, col: 0 }).is_none());
    assert!(h.redo(&now, Position { row: 0, col: 0 }).is_none());
}

#[test]
fn history_save_clears_redo() {
    let mut h = History::new();
    h.save(&ropey::Rope::from_str("a\n"), Position { row: 0, col: 0 });
    let _ = h.undo(&ropey::Rope::from_str("b\n"), Position { row: 0, col: 0 });
    h.save(&ropey::Rope::from_str("c\n"), Position { row: 0, col: 0 });
    assert!(h.redo(&ropey::Rope::from_str("d\n"), Position { row: 0, col: 0 }).is_none());
}

#[test]
fn backspace_undoes_typing() {
    for (text, pos) in [
        ("hello\nworld\n", Position { row: 1, col: 2 }),
        ("hello\nworld\n", Position { row: 0, col: 5 }),
        ("a\r\nb", Position { row: 0, col: 1 }),
        ("", Position { row: 0, col: 0 }),
    ] {
        let mut doc = Document::new_empty();
        doc.rope = ropey::Rope::from_str(text);
        doc.insert_char(pos, 'x');
        let back = doc.delete_char_backward(Position { row: pos.row, col: pos.col + 1 });
        assert_eq!(doc.rope.to_string(), text);
        assert_eq!(back, Some(pos));
    }
}
