use righter::input::command::{CaseOp, Command, Motion};
use righter::input::keymap::{map_key, KeymapState};
use righter::input::mode::Mode;
use righter::input::{ChangeTracker, LastChange};
use righter::key::{KeyCode, KeyInput};

fn key(c: char) -> KeyInput {
    KeyInput { code: KeyCode::Char(c), ctrl: false }
}

fn ctrl(c: char) -> KeyInput {
    KeyInput { code: KeyCode::Char(c), ctrl: true }
}

fn special(code: KeyCode) -> KeyInput {
    KeyInput { code, ctrl: false }
}

fn feed(state: &mut KeymapState, keys: &str) -> Vec<Option<Command>> {
    keys.chars().map(|c| map_key(state, key(c))).collect()
}

#[test]
fn normal_mode_movement_keys() {
    let mut s = KeymapState::default();
    assert_eq!(map_key(&mut s, key('h')), Some(Command::MoveLeft));
    assert_eq!(map_key(&mut s, special(KeyCode::Down)), Some(Command::MoveDown));
    assert_eq!(map_key(&mut s, key('w')), Some(Command::MoveWordForward));
    assert_eq!(map_key(&mut s, key('G')), Some(Command::GotoBottom));
    assert_eq!(map_key(&mut s, key('D')), Some(Command::DeleteMotion(Motion::LineEnd)));
    assert!(s.pending_keys.is_empty());
}

#[test]
fn delete_word_and_delete_line() {
    let mut s = KeymapState::default();
    assert_eq!(feed(&mut s, "dw"), vec![None, Some(Command::DeleteMotion(Motion::WordForward))]);
    assert_eq!(feed(&mut s, "dd"), vec![None, Some(Command::DeleteLine)]);
    assert_eq!(feed(&mut s, "cc"), vec![None, Some(Command::ChangeMotion(Motion::Line))]);
    assert_eq!(feed(&mut s, "yy"), vec![None, Some(Command::YankLine)]);
    assert!(s.pending_keys.is_empty());
}

#[test]
fn operator_with_text_object_waits_for_third_key() {
    let mut s = KeymapState::default();
    assert_eq!(
        feed(&mut s, "ci("),
        vec![None, None, Some(Command::ChangeMotion(Motion::Inner('(')))]
    );
    assert_eq!(feed(&mut s, "dt,"), vec![None, None, Some(Command::DeleteMotion(Motion::TillForward(',')))]);
    // y takes i and a, but not f
    assert_eq!(feed(&mut s, "yf"), vec![None, None]);
    assert!(s.pending_keys.is_empty());
}

#[test]
fn case_change_sequences() {
    let mut s = KeymapState::default();
    assert_eq!(feed(&mut s, "guu"), vec![None, None, Some(Command::CaseChangeLine(CaseOp::Lower))]);
    assert_eq!(feed(&mut s, "gUw"), vec![None, None, Some(Command::CaseChange(CaseOp::Upper, Motion::WordForward))]);
    assert_eq!(
        feed(&mut s, "g~iw"),
        vec![None, None, None, Some(Command::CaseChange(CaseOp::Toggle, Motion::Inner('w')))]
    );
    // paragraph motions are not case-change motions
    assert_eq!(feed(&mut s, "gu}"), vec![None, None, None]);
    assert!(s.pending_keys.is_empty());
}

#[test]
fn escape_cancels_pending() {
    let mut s = KeymapState::default();
    assert_eq!(map_key(&mut s, key('d')), None);
    assert_eq!(s.pending_keys, vec!['d']);
    assert_eq!(map_key(&mut s, special(KeyCode::Esc)), None);
    assert!(s.pending_keys.is_empty());
    assert_eq!(map_key(&mut s, key('w')), Some(Command::MoveWordForward));
}

#[test]
fn register_and_macros() {
    let mut s = KeymapState::default();
    assert_eq!(feed(&mut s, "\"a"), vec![None, None]);
    assert_eq!(s.selected_register, Some('a'));
    assert_eq!(feed(&mut s, "qx"), vec![None, Some(Command::StartMacro('x'))]);
    s.recording_macro = Some('x');
    assert_eq!(map_key(&mut s, key('q')), Some(Command::StopMacro));
    assert_eq!(feed(&mut s, "@@"), vec![None, Some(Command::PlayLastMacro)]);
    assert_eq!(feed(&mut s, "@b"), vec![None, Some(Command::PlayMacro('b'))]);
}

#[test]
fn ctrl_keys_in_normal_mode() {
    let mut s = KeymapState::default();
    assert_eq!(map_key(&mut s, ctrl('d')), Some(Command::HalfPageDown));
    assert_eq!(map_key(&mut s, ctrl('p')), Some(Command::OpenFileFinder));
    assert_eq!(map_key(&mut s, ctrl('w')), None);
    assert_eq!(map_key(&mut s, key('v')), Some(Command::SplitVertical));
    assert_eq!(map_key(&mut s, ctrl('c')), None);
    assert!(s.should_quit);
}

#[test]
fn popups_take_keys() {
    let mut s = KeymapState::default();
    s.showing_hover = true;
    s.hover_text = Some("doc".to_string());
    assert_eq!(map_key(&mut s, key('j')), None);
    assert!(!s.showing_hover);
    assert!(s.hover_text.is_none());

    s.showing_references = true;
    assert_eq!(map_key(&mut s, key('j')), Some(Command::ReferenceNext));
    assert_eq!(map_key(&mut s, key('x')), Some(Command::DismissPopup));
    s.showing_references = false;

    s.showing_diagnostics = true;
    assert_eq!(map_key(&mut s, special(KeyCode::Enter)), Some(Command::DiagnosticJump));
    assert_eq!(map_key(&mut s, key('x')), None);
}

#[test]
fn file_finder_takes_every_key() {
    let mut s = KeymapState::default();
    s.showing_file_finder = true;
    s.mode = Mode::Insert;
    assert_eq!(map_key(&mut s, key('d')), Some(Command::FileFinderInput('d')));
    assert_eq!(map_key(&mut s, ctrl('n')), Some(Command::FileFinderNext));
    assert_eq!(map_key(&mut s, special(KeyCode::Tab)), Some(Command::FileFinderNext));
    assert_eq!(map_key(&mut s, special(KeyCode::Esc)), Some(Command::FileFinderCancel));
    assert!(s.pending_keys.is_empty());
}

#[test]
fn insert_mode_keys() {
    let mut s = KeymapState::default();
    s.mode = Mode::Insert;
    assert_eq!(map_key(&mut s, key('d')), Some(Command::InsertChar('d')));
    assert_eq!(map_key(&mut s, ctrl(' ')), Some(Command::TriggerCompletion));
    assert_eq!(map_key(&mut s, special(KeyCode::Tab)), Some(Command::InsertTab));
    s.showing_completion = true;
    assert_eq!(map_key(&mut s, special(KeyCode::Tab)), Some(Command::CompletionNext));
    assert_eq!(map_key(&mut s, key('x')), Some(Command::InsertChar('x')));
    assert_eq!(map_key(&mut s, special(KeyCode::Esc)), Some(Command::CancelCompletion));
}

#[test]
fn visual_command_and_search_modes() {
    let mut s = KeymapState::default();
    s.mode = Mode::Visual;
    assert_eq!(map_key(&mut s, key('x')), Some(Command::VisualDelete));
    assert_eq!(map_key(&mut s, key('U')), Some(Command::CaseChangeLine(CaseOp::Upper)));
    assert_eq!(map_key(&mut s, ctrl('x')), None);
    s.mode = Mode::Command;
    assert_eq!(map_key(&mut s, key('w')), Some(Command::CommandInput('w')));
    assert_eq!(map_key(&mut s, special(KeyCode::Enter)), Some(Command::CommandExecute));
    s.mode = Mode::Search;
    assert_eq!(map_key(&mut s, key('n')), Some(Command::SearchInput('n')));
    assert_eq!(map_key(&mut s, special(KeyCode::Left)), None);
}

#[test]
fn mode_is_visual() {
    assert!(Mode::Visual.is_visual());
    assert!(Mode::VisualLine.is_visual());
    assert!(!Mode::Insert.is_visual());
    assert_eq!(Mode::default(), Mode::Normal);
}

#[test]
fn insert_session_is_recorded_for_repeat() {
    let mut t = ChangeTracker::new();
    for c in [
        Command::EnterInsertModeAfter,
        Command::InsertChar('h'),
        Command::InsertChar('i'),
        Command::DeleteCharBackward,
        Command::InsertNewline,
        Command::InsertTab,
        Command::ExitToNormalMode,
    ] {
        t.track_change(&c);
    }
    match &t.last_change {
        Some(LastChange::InsertSession { entry_cmd, chars }) => {
            assert_eq!(*entry_cmd, Command::EnterInsertModeAfter);
            assert_eq!(chars, &vec!['h', 'i', '\x08', '\n', '\t']);
        }
        other => panic!("unexpected {:?}", other),
    }
    assert!(!t.recording_insert);
}

#[test]
fn normal_change_is_recorded_for_repeat() {
    let mut t = ChangeTracker::new();
    t.track_change(&Command::MoveDown);
    assert!(t.last_change.is_none());
    t.track_change(&Command::DeleteMotion(Motion::WordForward));
    assert!(matches!(
        t.last_change,
        Some(LastChange::NormalCommand(Command::DeleteMotion(Motion::WordForward)))
    ));
    // typing outside an insert session records nothing
    t.track_change(&Command::InsertChar('z'));
    assert!(t.insert_record.is_empty());
}
