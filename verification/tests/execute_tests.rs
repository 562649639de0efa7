use righter::editor::document::Document;
use righter::editor::selection::Position;
use righter::editor::state::{DeferredAction, EditorState};
use righter::input::command::{Command, Motion};
use righter::input::dispatch::{app_step, begin_macro, replay_key, AppAction};
use righter::input::execute;
use righter::input::mode::Mode;
use righter::key::{KeyCode, KeyInput};
use righter::lsp::LspDiagnostic;

fn state(text: &str) -> EditorState {
    let mut d = Document::new_empty();
    d.rope = ropey::Rope::from_str(text);
    EditorState::new(d, 20, 4)
}

fn key(c: char) -> KeyInput {
    KeyInput { code: KeyCode::Char(c), ctrl: false }
}

fn diag(line: u32, col: u32) -> LspDiagnostic {
    LspDiagnostic {
        start_line: line,
        start_col: col,
        end_line: line,
        end_col: col + 1,
        severity: 1,
        message: "e".to_string(),
    }
}

#[test]
fn typing_then_undo_restores_text_and_cursor() {
    let mut s = state("ab\n");
    s.keys.mode = Mode::Insert;
    s.cursor = Position { row: 0, col: 1 };
    assert!(execute(&mut s, Command::InsertChar('x')).is_none());
    assert_eq!(s.doc.rope.to_string(), "axb\n");
    assert_eq!(s.cursor, Position { row: 0, col: 2 });
    assert!(s.doc.modified);
    s.keys.mode = Mode::Normal;
    execute(&mut s, Command::Undo);
    assert_eq!(s.doc.rope.to_string(), "ab\n");
    assert_eq!(s.cursor, Position { row: 0, col: 1 });
    execute(&mut s, Command::Undo);
    assert_eq!(s.status_message.as_deref(), Some("Already at oldest change"));
    execute(&mut s, Command::Redo);
    assert_eq!(s.doc.rope.to_string(), "axb\n");
    assert_eq!(s.status_message, None);
}

#[test]
fn motions_stay_on_the_text() {
    let mut s = state("abc\nde\n");
    execute(&mut s, Command::MoveLineEnd);
    assert_eq!(s.cursor, Position { row: 0, col: 2 });
    execute(&mut s, Command::MoveDown);
    assert_eq!(s.cursor, Position { row: 1, col: 1 });
    execute(&mut s, Command::GotoBottom);
    assert_eq!(s.cursor.row, 2);
    execute(&mut s, Command::GotoTop);
    assert_eq!(s.cursor, Position { row: 0, col: 0 });
    execute(&mut s, Command::MoveLeft);
    assert_eq!(s.cursor, Position { row: 0, col: 0 });
}

#[test]
fn tab_inserts_spaces() {
    let mut s = state("x\n");
    s.keys.mode = Mode::Insert;
    execute(&mut s, Command::InsertTab);
    assert_eq!(s.doc.rope.to_string(), "    x\n");
    assert_eq!(s.cursor, Position { row: 0, col: 4 });
}

#[test]
fn newline_below_enters_insert_mode() {
    let mut s = state("ab\ncd\n");
    execute(&mut s, Command::InsertNewlineBelow);
    assert_eq!(s.doc.rope.to_string(), "ab\n\ncd\n");
    assert_eq!(s.cursor, Position { row: 1, col: 0 });
    assert_eq!(s.keys.mode, Mode::Insert);
}

#[test]
fn deferred_actions_of_commands() {
    let mut s = state("a\n");
    assert!(matches!(execute(&mut s, Command::FormatDocument), Some(DeferredAction::FormatDocument)));
    assert!(matches!(execute(&mut s, Command::PlayMacro('q')), Some(DeferredAction::PlayMacro('q'))));
    assert!(execute(&mut s, Command::PlayLastMacro).is_none());
    s.last_macro = Some('a');
    assert!(matches!(execute(&mut s, Command::PlayLastMacro), Some(DeferredAction::PlayMacro('a'))));
    assert!(execute(&mut s, Command::FileFinderConfirm).is_none());
    s.keys.showing_file_finder = true;
    s.file_finder_selection = Some("src/main.rs".to_string());
    match execute(&mut s, Command::FileFinderConfirm) {
        Some(DeferredAction::OpenFile(p)) => assert_eq!(p, "src/main.rs"),
        other => panic!("unexpected {other:?}"),
    }
    assert!(!s.keys.showing_file_finder);
    assert_eq!(s.file_finder_selection, None);
}

#[test]
fn unavailable_command_sets_status_until_next_command() {
    let mut s = state("a\n");
    execute(&mut s, Command::ToggleCaseChar);
    assert_eq!(s.status_message.as_deref(), Some("Not available in this editor"));
    execute(&mut s, Command::MoveLeft);
    assert_eq!(s.status_message, None);
}

#[test]
fn diagnostic_next_depends_on_the_list() {
    let mut s = state("one\ntwo\nthree\n");
    s.diagnostics = vec![diag(0, 1), diag(2, 0)];
    execute(&mut s, Command::DiagnosticNext);
    assert_eq!(s.cursor, Position { row: 0, col: 1 });
    execute(&mut s, Command::DiagnosticNext);
    assert_eq!(s.cursor, Position { row: 2, col: 0 });
    execute(&mut s, Command::DiagnosticNext);
    assert_eq!(s.cursor, Position { row: 0, col: 1 });
    execute(&mut s, Command::DiagnosticPrev);
    assert_eq!(s.cursor, Position { row: 2, col: 0 });
    execute(&mut s, Command::DiagnosticList);
    assert!(s.keys.showing_diagnostics);
    assert_eq!(s.diagnostic_index, 0);
    execute(&mut s, Command::DiagnosticNext);
    assert_eq!(s.diagnostic_index, 1);
    assert_eq!(s.cursor, Position { row: 2, col: 0 });
    execute(&mut s, Command::DiagnosticNext);
    assert_eq!(s.diagnostic_index, 1);
    execute(&mut s, Command::DiagnosticPrev);
    assert_eq!(s.diagnostic_index, 0);
    execute(&mut s, Command::DiagnosticJump);
    assert_eq!(s.cursor, Position { row: 0, col: 1 });
    assert!(!s.keys.showing_diagnostics);
}

#[test]
fn no_diagnostics_message() {
    let mut s = state("a\n");
    execute(&mut s, Command::DiagnosticList);
    assert_eq!(s.status_message.as_deref(), Some("No diagnostics"));
    execute(&mut s, Command::DiagnosticNext);
    assert_eq!(s.status_message.as_deref(), Some("No diagnostics"));
}

#[test]
fn command_line_commands() {
    let mut s = state("a\n");
    execute(&mut s, Command::EnterCommandMode);
    assert_eq!(s.keys.mode, Mode::Command);
    execute(&mut s, Command::CommandInput('w'));
    execute(&mut s, Command::CommandInput('q'));
    assert!(matches!(
        execute(&mut s, Command::CommandExecute),
        Some(DeferredAction::Write { then_quit: true })
    ));
    assert_eq!(s.keys.mode, Mode::Normal);
    assert!(s.command_buffer.is_empty());

    s.doc.modified = true;
    execute(&mut s, Command::EnterCommandMode);
    execute(&mut s, Command::CommandInput('q'));
    assert!(execute(&mut s, Command::CommandExecute).is_none());
    assert_eq!(s.status_message.as_deref(), Some("No write since last change (add ! to override)"));
    assert!(!s.keys.should_quit);

    execute(&mut s, Command::EnterCommandMode);
    execute(&mut s, Command::CommandInput('z'));
    execute(&mut s, Command::CommandExecute);
    assert_eq!(s.status_message.as_deref(), Some("Unknown command"));

    execute(&mut s, Command::EnterCommandMode);
    execute(&mut s, Command::CommandInput('q'));
    execute(&mut s, Command::CommandInput('!'));
    execute(&mut s, Command::CommandExecute);
    assert!(s.keys.should_quit);
}

#[test]
fn command_backspace_on_empty_line_leaves_command_mode() {
    let mut s = state("a\n");
    execute(&mut s, Command::EnterCommandMode);
    execute(&mut s, Command::CommandInput('w'));
    execute(&mut s, Command::CommandBackspace);
    assert_eq!(s.keys.mode, Mode::Command);
    assert!(s.command_buffer.is_empty());
    execute(&mut s, Command::CommandBackspace);
    assert_eq!(s.keys.mode, Mode::Normal);
}

#[test]
fn app_step_requests_and_notifies() {
    let mut s = state("fn main() {}\n");
    let acts = app_step(&mut s, key('K'));
    assert_eq!(acts.len(), 2);
    assert!(matches!(acts[0], AppAction::RequestHover));
    assert!(matches!(acts[1], AppAction::NotifyChange));
    let acts = app_step(&mut s, key('g'));
    assert_eq!(acts.len(), 1);
    let acts = app_step(&mut s, key('d'));
    assert!(matches!(acts[0], AppAction::RequestDefinition));
}

#[test]
fn app_step_closes_completion_on_other_commands() {
    let mut s = state("a\n");
    s.keys.showing_completion = true;
    app_step(&mut s, key('l'));
    assert!(!s.keys.showing_completion);
}

#[test]
fn macro_recording_and_replay() {
    let mut s = state("abc\n");
    app_step(&mut s, key('q'));
    app_step(&mut s, key('a'));
    assert_eq!(s.keys.recording_macro, Some('a'));
    app_step(&mut s, key('l'));
    app_step(&mut s, key('q'));
    assert_eq!(s.keys.recording_macro, None);
    assert_eq!(s.macros.len(), 1);
    assert_eq!(s.macros[0].0, 'a');
    assert_eq!(s.macros[0].1, vec![key('l')]);
    assert!(begin_macro(&mut s, 'b').is_none());
    assert_eq!(s.status_message.as_deref(), Some("Macro register is empty"));
    let keys = begin_macro(&mut s, 'a').expect("recorded");
    assert_eq!(s.last_macro, Some('a'));
    s.cursor = Position { row: 0, col: 0 };
    for k in keys {
        assert!(replay_key(&mut s, k).is_none());
    }
    assert_eq!(s.cursor, Position { row: 0, col: 1 });
}

#[test]
fn quit_is_reported() {
    let mut s = state("a\n");
    for c in [':', 'q'] {
        app_step(&mut s, key(c));
    }
    let acts = app_step(&mut s, KeyInput { code: KeyCode::Enter, ctrl: false });
    assert!(matches!(acts.last(), Some(AppAction::Quit)));
}

#[test]
fn undo_after_each_edit_restores_text() {
    let edits = [
        Command::InsertChar('z'),
        Command::InsertTab,
        Command::InsertNewline,
        Command::DeleteCharBackward,
        Command::DeleteCharForward,
        Command::DeleteLine,
        Command::InsertNewlineBelow,
    ];
    for cmd in edits {
        let mut s = state("one\ntwo\n");
        s.cursor = Position { row: 1, col: 1 };
        execute(&mut s, cmd);
        let edited = s.doc.rope.to_string();
        execute(&mut s, Command::Undo);
        assert_eq!(s.doc.rope.to_string(), "one\ntwo\n", "{cmd:?}");
        execute(&mut s, Command::Redo);
        assert_eq!(s.doc.rope.to_string(), edited, "{cmd:?}");
    }
}

#[test]
fn new_diagnostics_keep_the_selection_in_range() {
    let mut s = state("a\nb\n");
    s.set_diagnostics(vec![diag(0, 0), diag(1, 0), diag(1, 1)]);
    execute(&mut s, Command::DiagnosticList);
    s.diagnostic_index = 2;
    s.set_diagnostics(vec![diag(0, 0)]);
    assert_eq!(s.diagnostic_index, 0);
    assert!(s.keys.showing_diagnostics);
    s.set_diagnostics(Vec::new());
    assert!(!s.keys.showing_diagnostics);
    assert_eq!(s.diagnostic_index, 0);
}

#[test]
fn jump_lands_on_the_text() {
    let mut s = state("abc\nd\n");
    s.jump_to(Position { row: 1, col: 5 });
    assert_eq!(s.cursor, Position { row: 1, col: 0 });
    s.jump_to(Position { row: 9, col: 9 });
    assert_eq!(s.cursor, Position { row: 2, col: 0 });
    s.jump_to(Position { row: 0, col: 2 });
    assert_eq!(s.cursor, Position { row: 0, col: 2 });
}

// ── The editor's commands, as the original's editor tests state them ──

fn editor_with_text(text: &str) -> EditorState {
    state(text)
}

fn line(s: &EditorState, row: usize) -> String {
    s.doc.rope.line(row).to_string()
}

#[test]
fn editor_move_right() {
    let mut editor = editor_with_text("hello\n");
    editor.keys.mode = Mode::Normal;
    assert_eq!(editor.cursor.col, 0);
    execute(&mut editor, Command::MoveRight);
    assert_eq!(editor.cursor.col, 1);
}

#[test]
fn editor_move_right_clamps_at_line_end() {
    let mut editor = editor_with_text("ab\n");
    editor.keys.mode = Mode::Normal;
    execute(&mut editor, Command::MoveRight);
    execute(&mut editor, Command::MoveRight);
    assert_eq!(editor.cursor.col, 1);
}

#[test]
fn editor_move_down() {
    let mut editor = editor_with_text("line1\nline2\n");
    editor.page_height = 20;
    assert_eq!(editor.cursor.row, 0);
    execute(&mut editor, Command::MoveDown);
    assert_eq!(editor.cursor.row, 1);
}

#[test]
fn editor_move_up() {
    let mut editor = editor_with_text("line1\nline2\n");
    editor.page_height = 20;
    editor.cursor.row = 1;
    execute(&mut editor, Command::MoveUp);
    assert_eq!(editor.cursor.row, 0);
}

#[test]
fn editor_move_line_start_end() {
    let mut editor = editor_with_text("  hello\n");
    editor.cursor.col = 3;
    execute(&mut editor, Command::MoveLineStart);
    assert_eq!(editor.cursor.col, 0);
    execute(&mut editor, Command::MoveLineEnd);
    assert!(editor.cursor.col > 0);
}

#[test]
fn editor_move_first_non_blank() {
    let mut editor = editor_with_text("  hello\n");
    execute(&mut editor, Command::MoveFirstNonBlank);
    assert_eq!(editor.cursor.col, 2);
}

#[test]
fn editor_goto_top_bottom() {
    let mut editor = editor_with_text("a\nb\nc\nd\n");
    editor.page_height = 20;
    execute(&mut editor, Command::GotoBottom);
    assert_eq!(editor.cursor.row, 4);
    execute(&mut editor, Command::GotoTop);
    assert_eq!(editor.cursor.row, 0);
}

#[test]
fn editor_insert_char() {
    let mut editor = editor_with_text("\n");
    editor.keys.mode = Mode::Insert;
    execute(&mut editor, Command::InsertChar('X'));
    assert_eq!(line(&editor, 0), "X\n");
    assert_eq!(editor.cursor.col, 1);
}

#[test]
fn editor_delete_line() {
    let mut editor = editor_with_text("aaa\nbbb\nccc\n");
    editor.page_height = 20;
    let orig_count = editor.doc.line_count();
    execute(&mut editor, Command::DeleteLine);
    assert_eq!(editor.doc.line_count(), orig_count - 1);
    assert_eq!(line(&editor, 0), "bbb\n");
}

#[test]
fn editor_delete_line_single_line() {
    let mut editor = editor_with_text("only\n");
    editor.page_height = 20;
    execute(&mut editor, Command::DeleteLine);
    assert!(editor.doc.line_count() >= 1);
}

#[test]
fn editor_join_lines() {
    let mut editor = editor_with_text("hello\nworld\n");
    editor.page_height = 20;
    execute(&mut editor, Command::JoinLines);
    assert_eq!(line(&editor, 0), "hello world\n");
}

#[test]
fn editor_join_lines_last_line_noop() {
    let mut editor = editor_with_text("only\n");
    editor.page_height = 20;
    editor.cursor.row = 0;
    execute(&mut editor, Command::JoinLines);
    assert_eq!(editor.doc.line_count(), 1);
}

#[test]
fn editor_indent_line() {
    let mut editor = editor_with_text("hello\n");
    execute(&mut editor, Command::IndentLine);
    assert!(line(&editor, 0).starts_with("    "));
}

#[test]
fn editor_dedent_line() {
    let mut editor = editor_with_text("    hello\n");
    execute(&mut editor, Command::DedentLine);
    assert_eq!(line(&editor, 0), "hello\n");
}

#[test]
fn editor_dedent_no_indent() {
    let mut editor = editor_with_text("hello\n");
    execute(&mut editor, Command::DedentLine);
    assert_eq!(line(&editor, 0), "hello\n");
}

#[test]
fn editor_replace_char() {
    let mut editor = editor_with_text("abc\n");
    execute(&mut editor, Command::ReplaceChar('X'));
    assert_eq!(line(&editor, 0), "Xbc\n");
}

#[test]
fn editor_undo_redo() {
    let mut editor = editor_with_text("original\n");
    editor.page_height = 20;
    execute(&mut editor, Command::EnterInsertMode);
    execute(&mut editor, Command::InsertChar('Z'));
    assert!(editor.doc.rope.to_string().contains('Z'));
    editor.keys.mode = Mode::Normal;
    execute(&mut editor, Command::Undo);
    assert_eq!(editor.doc.rope.to_string(), "original\n");
    execute(&mut editor, Command::Redo);
    assert!(editor.doc.rope.to_string().contains('Z'));
}

#[test]
fn editor_enter_insert_mode() {
    let mut editor = editor_with_text("hello\n");
    assert_eq!(editor.keys.mode, Mode::Normal);
    execute(&mut editor, Command::EnterInsertMode);
    assert_eq!(editor.keys.mode, Mode::Insert);
}

#[test]
fn editor_enter_visual_mode() {
    let mut editor = editor_with_text("hello\n");
    execute(&mut editor, Command::EnterVisualMode);
    assert_eq!(editor.keys.mode, Mode::Visual);
    assert!(editor.visual_anchor.is_some());
}

#[test]
fn editor_enter_command_mode() {
    let mut editor = editor_with_text("hello\n");
    execute(&mut editor, Command::EnterCommandMode);
    assert_eq!(editor.keys.mode, Mode::Command);
    assert!(editor.command_buffer.is_empty());
}

#[test]
fn editor_move_word_forward() {
    let mut editor = editor_with_text("hello world\n");
    execute(&mut editor, Command::MoveWordForward);
    assert!(editor.cursor.col > 0);
    assert_eq!(editor.cursor.col, 6);
}

#[test]
fn editor_move_word_backward() {
    let mut editor = editor_with_text("hello world\n");
    editor.cursor.col = 8;
    execute(&mut editor, Command::MoveWordBackward);
    assert_eq!(editor.cursor.col, 6);
}

// ── More motions and edits ──────────────────────────────────────────

#[test]
fn word_motions_cross_lines_and_punctuation() {
    let mut s = state("foo.bar baz\n  next line\n");
    execute(&mut s, Command::MoveWordForward);
    assert_eq!(s.cursor, Position { row: 0, col: 3 });
    execute(&mut s, Command::MoveWORDForward);
    assert_eq!(s.cursor, Position { row: 0, col: 8 });
    execute(&mut s, Command::MoveWordForward);
    assert_eq!(s.cursor, Position { row: 1, col: 2 });
    execute(&mut s, Command::MoveWordBackward);
    assert_eq!(s.cursor, Position { row: 0, col: 8 });
    s.cursor = Position { row: 0, col: 0 };
    execute(&mut s, Command::MoveWordEnd);
    assert_eq!(s.cursor, Position { row: 0, col: 2 });
    execute(&mut s, Command::MoveWORDEnd);
    assert_eq!(s.cursor, Position { row: 0, col: 6 });
}

#[test]
fn find_and_till_on_the_line() {
    let mut s = state("a,b,c\n");
    execute(&mut s, Command::FindCharForward(','));
    assert_eq!(s.cursor.col, 1);
    execute(&mut s, Command::TillCharForward('c'));
    assert_eq!(s.cursor.col, 3);
    execute(&mut s, Command::FindCharBackward('a'));
    assert_eq!(s.cursor.col, 0);
    s.cursor.col = 4;
    execute(&mut s, Command::TillCharBackward(','));
    assert_eq!(s.cursor.col, 4);
    execute(&mut s, Command::FindCharForward('z'));
    assert_eq!(s.cursor.col, 4);
}

#[test]
fn paragraph_motions() {
    let mut s = state("a\nb\n\nc\n\nd\n");
    execute(&mut s, Command::MoveParagraphForward);
    assert_eq!(s.cursor.row, 2);
    execute(&mut s, Command::MoveParagraphForward);
    assert_eq!(s.cursor.row, 4);
    execute(&mut s, Command::MoveParagraphBackward);
    assert_eq!(s.cursor.row, 2);
}

#[test]
fn yank_line_and_paste() {
    let mut s = state("one\ntwo\n");
    execute(&mut s, Command::YankLine);
    assert!(s.register_linewise);
    execute(&mut s, Command::PasteAfter);
    assert_eq!(s.doc.rope.to_string(), "one\none\ntwo\n");
    assert_eq!(s.cursor, Position { row: 1, col: 0 });
    execute(&mut s, Command::Undo);
    assert_eq!(s.doc.rope.to_string(), "one\ntwo\n");
}

#[test]
fn visual_delete_and_paste_before() {
    let mut s = state("hello world\n");
    execute(&mut s, Command::EnterVisualMode);
    for _ in 0..4 {
        execute(&mut s, Command::MoveRight);
    }
    execute(&mut s, Command::VisualDelete);
    assert_eq!(s.doc.rope.to_string(), " world\n");
    assert_eq!(s.keys.mode, Mode::Normal);
    assert_eq!(s.register.iter().collect::<String>(), "hello");
    execute(&mut s, Command::MoveLineEnd);
    execute(&mut s, Command::PasteAfter);
    assert_eq!(s.doc.rope.to_string(), " worldhello\n");
}

#[test]
fn visual_line_yank_and_swap_anchor() {
    let mut s = state("a\nb\nc\n");
    execute(&mut s, Command::EnterVisualLineMode);
    execute(&mut s, Command::MoveDown);
    execute(&mut s, Command::VisualSwapAnchor);
    assert_eq!(s.cursor.row, 0);
    assert_eq!(s.visual_anchor, Some(Position { row: 1, col: 0 }));
    execute(&mut s, Command::VisualYank);
    assert_eq!(s.register.iter().collect::<String>(), "a\nb\n");
    assert!(s.register_linewise);
    assert_eq!(s.visual_anchor, None);
}

#[test]
fn open_line_above() {
    let mut s = state("x\n");
    execute(&mut s, Command::InsertNewlineAbove);
    assert_eq!(s.doc.rope.to_string(), "\nx\n");
    assert_eq!(s.cursor, Position { row: 0, col: 0 });
    assert_eq!(s.keys.mode, Mode::Insert);
}

#[test]
fn command_line_format_and_wrap() {
    let mut s = state("a\n");
    for c in "format".chars() {
        execute(&mut s, Command::CommandInput(c));
    }
    assert!(matches!(execute(&mut s, Command::CommandExecute), Some(DeferredAction::FormatDocument)));
    for c in "set wrap".chars() {
        execute(&mut s, Command::CommandInput(c));
    }
    execute(&mut s, Command::CommandExecute);
    assert!(s.wrap);
    for c in "set nowrap".chars() {
        execute(&mut s, Command::CommandInput(c));
    }
    execute(&mut s, Command::CommandExecute);
    assert!(!s.wrap);
    for c in "vsplit".chars() {
        execute(&mut s, Command::CommandInput(c));
    }
    execute(&mut s, Command::CommandExecute);
    assert_eq!(s.status_message.as_deref(), Some("Not available in this editor"));
}

#[test]
fn front_end_commands_leave_the_cursor() {
    let mut s = state("abc\n");
    s.cursor.col = 3;
    assert!(execute(&mut s, Command::GotoDefinition).is_none());
    assert_eq!(s.cursor.col, 3);
}

#[test]
fn operators_with_motions() {
    let mut s = state("one two three\nnext\n");
    execute(&mut s, Command::DeleteMotion(Motion::WordForward));
    assert_eq!(s.doc.rope.to_string(), "two three\nnext\n");
    assert_eq!(s.register.iter().collect::<String>(), "one ");
    execute(&mut s, Command::YankMotion(Motion::WordEnd));
    assert_eq!(s.register.iter().collect::<String>(), "two");
    execute(&mut s, Command::DeleteMotion(Motion::LineEnd));
    assert_eq!(s.doc.rope.to_string(), "\nnext\n");
    execute(&mut s, Command::Undo);
    assert_eq!(s.doc.rope.to_string(), "two three\nnext\n");
    execute(&mut s, Command::DeleteMotion(Motion::Line));
    assert_eq!(s.doc.rope.to_string(), "next\n");
    assert!(s.register_linewise);
    execute(&mut s, Command::ChangeMotion(Motion::FindForward('x')));
    assert_eq!(s.doc.rope.to_string(), "t\n");
    assert_eq!(s.keys.mode, Mode::Insert);
    execute(&mut s, Command::ExitToNormalMode);
    execute(&mut s, Command::DeleteMotion(Motion::Inner('w')));
    assert_eq!(s.status_message.as_deref(), Some("Not available in this editor"));
}

#[test]
fn history_keeps_the_newest_thousand() {
    let mut h = righter::editor::history::History::new();
    for i in 0..1001usize {
        let r = ropey::Rope::from_str(&format!("{i}\n"));
        h.save(&r, Position { row: 0, col: 0 });
    }
    let cur = ropey::Rope::from_str("now\n");
    let mut undone = 0;
    let mut last = String::new();
    while let Some((r, _)) = h.undo(&cur, Position { row: 0, col: 0 }) {
        undone += 1;
        last = r.to_string();
    }
    assert_eq!(undone, 1000);
    assert_eq!(last, "1\n");
}
