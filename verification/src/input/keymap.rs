//! Decoding keys into commands: one table per mode, popups that take the
//! keys while they are open, and multi-key sequences (operators, `g`, `z`,
//! Ctrl-W, registers, macros) held as pending keys.
use vstd::prelude::*;

use crate::input::command::{CaseOp, Command, Motion};
use crate::input::mode::Mode;
use crate::key::{KeyCode, KeyInput};

verus! {

/// What the keymap reads and changes of the editor's state.
pub struct KeymapState {
    pub mode: Mode,
    pub showing_file_finder: bool,
    pub showing_hover: bool,
    pub hover_text: Option<String>,
    pub showing_references: bool,
    pub showing_code_actions: bool,
    pub showing_diagnostics: bool,
    pub showing_completion: bool,
    /// Keys of a sequence not finished yet.
    pub pending_keys: Vec<char>,
    pub should_quit: bool,
    /// The register a macro is being recorded into.
    pub recording_macro: Option<char>,
    /// The register chosen with `"`.
    pub selected_register: Option<char>,
}

/// The mathematical value of a keymap state.
pub struct KeymapView {
    pub mode: Mode,
    pub showing_file_finder: bool,
    pub showing_hover: bool,
    pub hover_text: Option<Seq<char>>,
    pub showing_references: bool,
    pub showing_code_actions: bool,
    pub showing_diagnostics: bool,
    pub showing_completion: bool,
    pub pending_keys: Seq<char>,
    pub should_quit: bool,
    pub recording_macro: Option<char>,
    pub selected_register: Option<char>,
}

impl View for KeymapState {
    type V = KeymapView;

    open spec fn view(&self) -> KeymapView {
        KeymapView {
            mode: self.mode,
            showing_file_finder: self.showing_file_finder,
            showing_hover: self.showing_hover,
            hover_text: match self.hover_text {
                Some(t) => Some(t@),
                None => None,
            },
            showing_references: self.showing_references,
            showing_code_actions: self.showing_code_actions,
            showing_diagnostics: self.showing_diagnostics,
            showing_completion: self.showing_completion,
            pending_keys: self.pending_keys@,
            should_quit: self.should_quit,
            recording_macro: self.recording_macro,
            selected_register: self.selected_register,
        }
    }
}

impl Default for KeymapState {
    fn default() -> (s: KeymapState)
        ensures
            s.mode == Mode::Normal,
            !s.showing_file_finder && !s.showing_hover && !s.showing_references,
            !s.showing_code_actions && !s.showing_diagnostics && !s.showing_completion,
            s.hover_text is None,
            s@.pending_keys.len() == 0,
            !s.should_quit,
            s.recording_macro is None && s.selected_register is None,
    {
        KeymapState {
            mode: Mode::Normal,
            showing_file_finder: false,
            showing_hover: false,
            hover_text: None,
            showing_references: false,
            showing_code_actions: false,
            showing_diagnostics: false,
            showing_completion: false,
            pending_keys: Vec::new(),
            should_quit: false,
            recording_macro: None,
            selected_register: None,
        }
    }
}

/// What a key does in normal mode when nothing is pending.
#[derive(Debug, Clone, Copy, PartialEq, Eq, Structural)]
pub enum NormalStep {
    Run(Command),
    /// Start a sequence with this key.
    Wait(char),
    Quit,
    Nothing,
}

/// What a key does after pending keys.
#[derive(Debug, Clone, Copy, PartialEq, Eq, Structural)]
pub enum PendingStep {
    Run(Command),
    /// Keep waiting, with the key added to the pending ones.
    Extend,
    /// Choose the key as the register.
    SelectRegister,
    Nothing,
}

// ── Tables ─────────────────────────────────────────────────────────

/// Keys while the file finder is open.
pub open spec fn spec_map_file_finder(key: KeyInput) -> Option<Command> {
    match key.code {
        KeyCode::Esc => Some(Command::FileFinderCancel),
        KeyCode::Enter => Some(Command::FileFinderConfirm),
        KeyCode::Backspace => Some(Command::FileFinderBackspace),
        KeyCode::Down | KeyCode::Tab => Some(Command::FileFinderNext),
        KeyCode::Up | KeyCode::BackTab => Some(Command::FileFinderPrev),
        KeyCode::Char(c) => if key.ctrl && c == 'n' {
            Some(Command::FileFinderNext)
        } else if key.ctrl && c == 'p' {
            Some(Command::FileFinderPrev)
        } else {
            Some(Command::FileFinderInput(c))
        },
        _ => None,
    }
}

/// Keys while the references list is open: any other key dismisses it.
pub open spec fn spec_references_command(code: KeyCode) -> Command {
    match code {
        KeyCode::Char('j') | KeyCode::Down => Command::ReferenceNext,
        KeyCode::Char('k') | KeyCode::Up => Command::ReferencePrev,
        KeyCode::Enter => Command::ReferenceJump,
        _ => Command::DismissPopup,
    }
}

/// Keys while the code-action list is open: any other key dismisses it.
pub open spec fn spec_code_actions_command(code: KeyCode) -> Command {
    match code {
        KeyCode::Char('j') | KeyCode::Down => Command::CodeActionNext,
        KeyCode::Char('k') | KeyCode::Up => Command::CodeActionPrev,
        KeyCode::Enter => Command::CodeActionAccept,
        _ => Command::CodeActionDismiss,
    }
}

/// Keys while the diagnostics list is open.
pub open spec fn spec_diagnostics_command(code: KeyCode) -> Option<Command> {
    match code {
        KeyCode::Char('j') | KeyCode::Down => Some(Command::DiagnosticNext),
        KeyCode::Char('k') | KeyCode::Up => Some(Command::DiagnosticPrev),
        KeyCode::Enter => Some(Command::DiagnosticJump),
        KeyCode::Esc | KeyCode::Char('q') => Some(Command::DismissPopup),
        _ => None,
    }
}

/// Ctrl keys in normal mode.
pub open spec fn spec_normal_ctrl_step(code: KeyCode) -> NormalStep {
    match code {
        KeyCode::Char('d') => NormalStep::Run(Command::HalfPageDown),
        KeyCode::Char('u') => NormalStep::Run(Command::HalfPageUp),
        KeyCode::Char('f') => NormalStep::Run(Command::FullPageDown),
        KeyCode::Char('b') => NormalStep::Run(Command::FullPageUp),
        KeyCode::Char('r') => NormalStep::Run(Command::Redo),
        KeyCode::Char('p') => NormalStep::Run(Command::OpenFileFinder),
        KeyCode::Char('o') => NormalStep::Run(Command::JumpBack),
        KeyCode::Char('i') => NormalStep::Run(Command::JumpForward),
        KeyCode::Char('a') => NormalStep::Run(Command::IncrementNumber),
        KeyCode::Char('x') => NormalStep::Run(Command::DecrementNumber),
        KeyCode::Char('w') => NormalStep::Wait('W'),
        KeyCode::Char('c') => NormalStep::Quit,
        _ => NormalStep::Nothing,
    }
}

/// Keys without Ctrl in normal mode; `recording` tells whether a macro is being recorded.
pub open spec fn spec_normal_plain_step(code: KeyCode, recording: bool) -> NormalStep {
    match code {
        KeyCode::Char('h') | KeyCode::Left => NormalStep::Run(Command::MoveLeft),
        KeyCode::Char('j') | KeyCode::Down => NormalStep::Run(Command::MoveDown),
        KeyCode::Char('k') | KeyCode::Up => NormalStep::Run(Command::MoveUp),
        KeyCode::Char('l') | KeyCode::Right => NormalStep::Run(Command::MoveRight),
        KeyCode::Char('w') => NormalStep::Run(Command::MoveWordForward),
        KeyCode::Char('b') => NormalStep::Run(Command::MoveWordBackward),
        KeyCode::Char('e') => NormalStep::Run(Command::MoveWordEnd),
        KeyCode::Char('0') => NormalStep::Run(Command::MoveLineStart),
        KeyCode::Char('$') => NormalStep::Run(Command::MoveLineEnd),
        KeyCode::Char('^') => NormalStep::Run(Command::MoveFirstNonBlank),
        KeyCode::Char('W') => NormalStep::Run(Command::MoveWORDForward),
        KeyCode::Char('B') => NormalStep::Run(Command::MoveWORDBackward),
        KeyCode::Char('E') => NormalStep::Run(Command::MoveWORDEnd),
        KeyCode::Char('{') => NormalStep::Run(Command::MoveParagraphBackward),
        KeyCode::Char('}') => NormalStep::Run(Command::MoveParagraphForward),
        KeyCode::Char('G') => NormalStep::Run(Command::GotoBottom),
        KeyCode::Char('i') => NormalStep::Run(Command::EnterInsertMode),
        KeyCode::Char('a') => NormalStep::Run(Command::EnterInsertModeAfter),
        KeyCode::Char('A') => NormalStep::Run(Command::EnterInsertModeLineEnd),
        KeyCode::Char('I') => NormalStep::Run(Command::EnterInsertModeFirstNonBlank),
        KeyCode::Char('o') => NormalStep::Run(Command::InsertNewlineBelow),
        KeyCode::Char('O') => NormalStep::Run(Command::InsertNewlineAbove),
        KeyCode::Char('x') => NormalStep::Run(Command::DeleteCharForward),
        KeyCode::Char('J') => NormalStep::Run(Command::JoinLines),
        KeyCode::Char('D') => NormalStep::Run(Command::DeleteMotion(Motion::LineEnd)),
        KeyCode::Char('C') => NormalStep::Run(Command::ChangeMotion(Motion::LineEnd)),
        KeyCode::Char('.') => NormalStep::Run(Command::RepeatLastChange),
        KeyCode::Char('~') => NormalStep::Run(Command::ToggleCaseChar),
        KeyCode::Char('*') => NormalStep::Run(Command::SearchWordForward),
        KeyCode::Char('#') => NormalStep::Run(Command::SearchWordBackward),
        KeyCode::Char('%') => NormalStep::Run(Command::MatchBracket),
        KeyCode::Char('H') => NormalStep::Run(Command::ViewportHigh),
        KeyCode::Char('M') => NormalStep::Run(Command::ViewportMiddle),
        KeyCode::Char('L') => NormalStep::Run(Command::ViewportLow),
        KeyCode::Char(c) if c == 'd' || c == 'c' || c == 'y' || c == 'g' || c == '>' || c == '<' || c == 'f' || c == 'F' || c == 't' || c == 'T' || c == 'r' || c == 'z' || c == ']' || c == '[' || c == '"' => NormalStep::Wait(c),
        KeyCode::Char('q') => if recording {
            NormalStep::Run(Command::StopMacro)
        } else {
            NormalStep::Wait('q')
        },
        KeyCode::Char('@') => NormalStep::Wait('@'),
        KeyCode::Char('K') => NormalStep::Run(Command::Hover),
        KeyCode::Char('p') => NormalStep::Run(Command::PasteAfter),
        KeyCode::Char('P') => NormalStep::Run(Command::PasteBefore),
        KeyCode::Char('u') => NormalStep::Run(Command::Undo),
        KeyCode::Char('v') => NormalStep::Run(Command::EnterVisualMode),
        KeyCode::Char('V') => NormalStep::Run(Command::EnterVisualLineMode),
        KeyCode::Char('/') => NormalStep::Run(Command::EnterSearchMode),
        KeyCode::Char('n') => NormalStep::Run(Command::SearchNext),
        KeyCode::Char('N') => NormalStep::Run(Command::SearchPrev),
        KeyCode::Char(':') => NormalStep::Run(Command::EnterCommandMode),
        _ => NormalStep::Nothing,
    }
}

/// The motion a key names after an operator.
pub open spec fn spec_motion_key(ch: char) -> Option<Motion> {
    match ch {
        'w' => Some(Motion::WordForward),
        'e' => Some(Motion::WordEnd),
        'b' => Some(Motion::WordBackward),
        'W' => Some(Motion::WORDForward),
        'E' => Some(Motion::WORDEnd),
        'B' => Some(Motion::WORDBackward),
        '$' => Some(Motion::LineEnd),
        '0' => Some(Motion::LineStart),
        '^' => Some(Motion::FirstNonBlank),
        '}' => Some(Motion::ParagraphForward),
        '{' => Some(Motion::ParagraphBackward),
        _ => None,
    }
}

/// The motion of `i`, `a`, `f`, `F`, `t` or `T` followed by `ch`.
pub open spec fn spec_char_motion(sel: char, ch: char) -> Option<Motion> {
    match sel {
        'i' => Some(Motion::Inner(ch)),
        'a' => Some(Motion::Around(ch)),
        'f' => Some(Motion::FindForward(ch)),
        'F' => Some(Motion::FindBackward(ch)),
        't' => Some(Motion::TillForward(ch)),
        'T' => Some(Motion::TillBackward(ch)),
        _ => None,
    }
}

/// The case change of `gu`, `gU` and `g~`.
pub open spec fn spec_case_op_of(op: char) -> Option<CaseOp> {
    match op {
        'u' => Some(CaseOp::Lower),
        'U' => Some(CaseOp::Upper),
        '~' => Some(CaseOp::Toggle),
        _ => None,
    }
}

/// The key after `g`.
pub open spec fn spec_g_step(ch: char) -> PendingStep {
    match ch {
        'd' => PendingStep::Run(Command::GotoDefinition),
        'r' => PendingStep::Run(Command::FindReferences),
        'g' => PendingStep::Run(Command::GotoTop),
        'a' => PendingStep::Run(Command::CodeAction),
        'E' => PendingStep::Run(Command::DiagnosticList),
        't' => PendingStep::Run(Command::NextBuffer),
        'T' => PendingStep::Run(Command::PrevBuffer),
        'u' | 'U' | '~' => PendingStep::Extend,
        _ => PendingStep::Nothing,
    }
}

/// The key after Ctrl-W.
pub open spec fn spec_window_step(ch: char) -> PendingStep {
    match ch {
        'v' => PendingStep::Run(Command::SplitVertical),
        's' => PendingStep::Run(Command::SplitHorizontal),
        'h' => PendingStep::Run(Command::PaneLeft),
        'j' => PendingStep::Run(Command::PaneDown),
        'k' => PendingStep::Run(Command::PaneUp),
        'l' => PendingStep::Run(Command::PaneRight),
        'w' => PendingStep::Run(Command::PaneNext),
        'q' => PendingStep::Run(Command::PaneClose),
        _ => PendingStep::Nothing,
    }
}

/// The key after `z`.
pub open spec fn spec_scroll_step(ch: char) -> PendingStep {
    match ch {
        'z' => PendingStep::Run(Command::ScrollCenter),
        't' => PendingStep::Run(Command::ScrollTop),
        'b' => PendingStep::Run(Command::ScrollBottom),
        _ => PendingStep::Nothing,
    }
}

/// Keys in insert mode when no completion list is open; Ctrl-Space asks for completions.
pub open spec fn spec_insert_typing_command(key: KeyInput) -> Option<Command> {
    match key.code {
        KeyCode::Esc => Some(Command::ExitToNormalMode),
        KeyCode::Backspace => Some(Command::DeleteCharBackward),
        KeyCode::Enter => Some(Command::InsertNewline),
        KeyCode::Left => Some(Command::MoveLeft),
        KeyCode::Right => Some(Command::MoveRight),
        KeyCode::Up => Some(Command::MoveUp),
        KeyCode::Down => Some(Command::MoveDown),
        KeyCode::Char(c) => if c == ' ' && key.ctrl {
            Some(Command::TriggerCompletion)
        } else {
            Some(Command::InsertChar(c))
        },
        KeyCode::Tab => Some(Command::InsertTab),
        _ => None,
    }
}

/// The keys the open completion list takes in insert mode.
pub open spec fn spec_completion_list_command(code: KeyCode) -> Option<Command> {
    match code {
        KeyCode::Down | KeyCode::Tab => Some(Command::CompletionNext),
        KeyCode::Up | KeyCode::BackTab => Some(Command::CompletionPrev),
        KeyCode::Enter => Some(Command::AcceptCompletion),
        KeyCode::Esc => Some(Command::CancelCompletion),
        _ => None,
    }
}

/// Ctrl keys in visual modes.
pub open spec fn spec_visual_ctrl_command(code: KeyCode) -> Option<Command> {
    match code {
        KeyCode::Char('d') => Some(Command::HalfPageDown),
        KeyCode::Char('u') => Some(Command::HalfPageUp),
        KeyCode::Char('f') => Some(Command::FullPageDown),
        KeyCode::Char('b') => Some(Command::FullPageUp),
        _ => None,
    }
}

/// Keys without Ctrl in visual modes.
pub open spec fn spec_visual_plain_command(code: KeyCode) -> Option<Command> {
    match code {
        KeyCode::Char('h') | KeyCode::Left => Some(Command::MoveLeft),
        KeyCode::Char('j') | KeyCode::Down => Some(Command::MoveDown),
        KeyCode::Char('k') | KeyCode::Up => Some(Command::MoveUp),
        KeyCode::Char('l') | KeyCode::Right => Some(Command::MoveRight),
        KeyCode::Char('w') => Some(Command::MoveWordForward),
        KeyCode::Char('b') => Some(Command::MoveWordBackward),
        KeyCode::Char('e') => Some(Command::MoveWordEnd),
        KeyCode::Char('W') => Some(Command::MoveWORDForward),
        KeyCode::Char('B') => Some(Command::MoveWORDBackward),
        KeyCode::Char('E') => Some(Command::MoveWORDEnd),
        KeyCode::Char('0') => Some(Command::MoveLineStart),
        KeyCode::Char('$') => Some(Command::MoveLineEnd),
        KeyCode::Char('^') => Some(Command::MoveFirstNonBlank),
        KeyCode::Char('{') => Some(Command::MoveParagraphBackward),
        KeyCode::Char('}') => Some(Command::MoveParagraphForward),
        KeyCode::Char('G') => Some(Command::GotoBottom),
        KeyCode::Char('o') => Some(Command::VisualSwapAnchor),
        KeyCode::Char('~') => Some(Command::ToggleCaseChar),
        KeyCode::Char('u') => Some(Command::CaseChangeLine(CaseOp::Lower)),
        KeyCode::Char('U') => Some(Command::CaseChangeLine(CaseOp::Upper)),
        KeyCode::Char('d') | KeyCode::Char('x') => Some(Command::VisualDelete),
        KeyCode::Char('y') => Some(Command::VisualYank),
        KeyCode::Char('c') => Some(Command::VisualChange),
        KeyCode::Char('>') => Some(Command::VisualIndent),
        KeyCode::Char('<') => Some(Command::VisualDedent),
        KeyCode::Esc | KeyCode::Char('v') | KeyCode::Char('V') => Some(Command::ExitToNormalMode),
        _ => None,
    }
}

/// Keys in command-line mode.
pub open spec fn spec_map_command(code: KeyCode) -> Option<Command> {
    match code {
        KeyCode::Esc => Some(Command::ExitToNormalMode),
        KeyCode::Enter => Some(Command::CommandExecute),
        KeyCode::Backspace => Some(Command::CommandBackspace),
        KeyCode::Up => Some(Command::CommandHistoryPrev),
        KeyCode::Down => Some(Command::CommandHistoryNext),
        KeyCode::Char(ch) => Some(Command::CommandInput(ch)),
        _ => None,
    }
}

/// Keys in search mode.
pub open spec fn spec_map_search(code: KeyCode) -> Option<Command> {
    match code {
        KeyCode::Esc => Some(Command::SearchCancel),
        KeyCode::Enter => Some(Command::SearchConfirm),
        KeyCode::Backspace => Some(Command::SearchBackspace),
        KeyCode::Char(ch) => Some(Command::SearchInput(ch)),
        _ => None,
    }
}

/// The key after `d`, `c` or `y`: the doubled key acts on the line, a motion
/// key on that motion; `i`, `a` (and for `d` and `c` also `f`, `F`, `t`,
/// `T`) wait for one more key.
pub open spec fn spec_operator_step(op: char, ch: char) -> PendingStep {
    if ch == op {
        if op == 'd' {
            PendingStep::Run(Command::DeleteLine)
        } else if op == 'c' {
            PendingStep::Run(Command::ChangeMotion(Motion::Line))
        } else {
            PendingStep::Run(Command::YankLine)
        }
    } else {
        match spec_motion_key(ch) {
            Some(m) => PendingStep::Run(operator_command(op, m)),
            None => if ch == 'i' || ch == 'a' || (op != 'y' && (ch == 'f' || ch == 'F' || ch == 't'
                || ch == 'T')) {
                PendingStep::Extend
            } else {
                PendingStep::Nothing
            },
        }
    }
}

/// The command of operator `op` (`d`, `c` or `y`) over a motion.
pub open spec fn operator_command(op: char, m: Motion) -> Command {
    if op == 'd' {
        Command::DeleteMotion(m)
    } else if op == 'c' {
        Command::ChangeMotion(m)
    } else {
        Command::YankMotion(m)
    }
}

/// The key after `gu`, `gU` or `g~`: the doubled key acts on the line,
/// motion keys (but the paragraph ones) on that motion, `i` and `a` wait.
pub open spec fn spec_map_case_motion(case_op: CaseOp, op: char, ch: char) -> PendingStep {
    if ch == op {
        PendingStep::Run(Command::CaseChangeLine(case_op))
    } else if ch == '}' || ch == '{' {
        PendingStep::Nothing
    } else {
        match spec_motion_key(ch) {
            Some(m) => PendingStep::Run(Command::CaseChange(case_op, m)),
            None => if ch == 'i' || ch == 'a' {
                PendingStep::Extend
            } else {
                PendingStep::Nothing
            },
        }
    }
}

/// The key `ch` after one pending key `k`.
pub open spec fn spec_one_key_step(k: char, ch: char) -> PendingStep {
    if k == '"' {
        PendingStep::SelectRegister
    } else if k == 'q' {
        PendingStep::Run(Command::StartMacro(ch))
    } else if k == '@' {
        if ch == '@' {
            PendingStep::Run(Command::PlayLastMacro)
        } else {
            PendingStep::Run(Command::PlayMacro(ch))
        }
    } else if k == 'd' || k == 'c' || k == 'y' {
        spec_operator_step(k, ch)
    } else if k == 'g' {
        spec_g_step(ch)
    } else if k == '>' {
        if ch == '>' {
            PendingStep::Run(Command::IndentLine)
        } else {
            PendingStep::Nothing
        }
    } else if k == '<' {
        if ch == '<' {
            PendingStep::Run(Command::DedentLine)
        } else {
            PendingStep::Nothing
        }
    } else if k == 'f' {
        PendingStep::Run(Command::FindCharForward(ch))
    } else if k == 'F' {
        PendingStep::Run(Command::FindCharBackward(ch))
    } else if k == 't' {
        PendingStep::Run(Command::TillCharForward(ch))
    } else if k == 'T' {
        PendingStep::Run(Command::TillCharBackward(ch))
    } else if k == 'r' {
        PendingStep::Run(Command::ReplaceChar(ch))
    } else if k == ']' {
        if ch == 'd' {
            PendingStep::Run(Command::DiagnosticNext)
        } else {
            PendingStep::Nothing
        }
    } else if k == '[' {
        if ch == 'd' {
            PendingStep::Run(Command::DiagnosticPrev)
        } else {
            PendingStep::Nothing
        }
    } else if k == 'W' {
        spec_window_step(ch)
    } else if k == 'z' {
        spec_scroll_step(ch)
    } else {
        PendingStep::Nothing
    }
}

/// The key `ch` after two pending keys `k1 k2`.
pub open spec fn spec_two_key_step(k1: char, k2: char, ch: char) -> PendingStep {
    if (k1 == 'd' || k1 == 'c') && spec_char_motion(k2, ch) is Some {
        PendingStep::Run(operator_command(k1, spec_char_motion(k2, ch).unwrap()))
    } else if k1 == 'y' && (k2 == 'i' || k2 == 'a') {
        PendingStep::Run(operator_command(k1, spec_char_motion(k2, ch).unwrap()))
    } else if k1 == 'g' && spec_case_op_of(k2) is Some {
        spec_map_case_motion(spec_case_op_of(k2).unwrap(), k2, ch)
    } else {
        PendingStep::Nothing
    }
}

/// The key `ch` after three pending keys `k1 k2 k3`.
pub open spec fn spec_three_key_step(k1: char, k2: char, k3: char, ch: char) -> PendingStep {
    if k1 == 'g' && spec_case_op_of(k2) is Some && (k3 == 'i' || k3 == 'a') {
        PendingStep::Run(Command::CaseChange(spec_case_op_of(k2).unwrap(), spec_char_motion(k3, ch).unwrap()))
    } else {
        PendingStep::Nothing
    }
}

/// The key `ch` after the pending keys `p`.
pub open spec fn spec_pending_step(p: Seq<char>, ch: char) -> PendingStep {
    if p.len() == 1 {
        spec_one_key_step(p[0], ch)
    } else if p.len() == 2 {
        spec_two_key_step(p[0], p[1], ch)
    } else if p.len() == 3 {
        spec_three_key_step(p[0], p[1], p[2], ch)
    } else {
        PendingStep::Nothing
    }
}

// ── The keymap ─────────────────────────────────────────────────────

/// A normal-mode step applied to the state.
pub open spec fn apply_normal_step(s: KeymapView, step: NormalStep) -> (KeymapView, Option<Command>) {
    match step {
        NormalStep::Run(c) => (s, Some(c)),
        NormalStep::Wait(k) => (KeymapView { pending_keys: seq![k], ..s }, None),
        NormalStep::Quit => (KeymapView { should_quit: true, ..s }, None),
        NormalStep::Nothing => (s, None),
    }
}

/// A key after pending keys: Esc and keys that are not chars cancel the
/// sequence; a char finishes it, extends it or chooses a register.
pub open spec fn spec_handle_pending(s: KeymapView, key: KeyInput) -> (KeymapView, Option<Command>) {
    let cleared = KeymapView { pending_keys: Seq::empty(), ..s };
    match key.code {
        KeyCode::Char(ch) => match spec_pending_step(s.pending_keys, ch) {
            PendingStep::Run(c) => (cleared, Some(c)),
            PendingStep::Extend => (KeymapView { pending_keys: s.pending_keys.push(ch), ..s }, None),
            PendingStep::SelectRegister => (
                KeymapView { pending_keys: Seq::empty(), selected_register: Some(ch), ..s },
                None,
            ),
            PendingStep::Nothing => (cleared, None),
        },
        _ => (cleared, None),
    }
}

/// A key in normal mode: an open hover is dismissed by any key; the
/// references, code-action and diagnostics lists take the keys while open;
/// then pending keys, Ctrl keys and plain keys.
pub open spec fn spec_map_normal(s: KeymapView, key: KeyInput) -> (KeymapView, Option<Command>) {
    if s.showing_hover {
        (KeymapView { showing_hover: false, hover_text: None, ..s }, None)
    } else if s.showing_references {
        (s, Some(spec_references_command(key.code)))
    } else if s.showing_code_actions {
        (s, Some(spec_code_actions_command(key.code)))
    } else if s.showing_diagnostics {
        (s, spec_diagnostics_command(key.code))
    } else if s.pending_keys.len() > 0 {
        spec_handle_pending(s, key)
    } else if key.ctrl {
        apply_normal_step(s, spec_normal_ctrl_step(key.code))
    } else {
        apply_normal_step(s, spec_normal_plain_step(key.code, s.recording_macro is Some))
    }
}

/// A key in insert mode: an open completion list takes its keys, the others
/// type.
pub open spec fn spec_map_insert(completion: bool, key: KeyInput) -> Option<Command> {
    if completion && spec_completion_list_command(key.code) is Some {
        spec_completion_list_command(key.code)
    } else {
        spec_insert_typing_command(key)
    }
}

/// A key in a visual mode.
pub open spec fn spec_map_visual(key: KeyInput) -> Option<Command> {
    if key.ctrl {
        spec_visual_ctrl_command(key.code)
    } else {
        spec_visual_plain_command(key.code)
    }
}

/// What a key does: the new state and the command it gives, if any. The
/// file finder takes every key while it is open.
pub open spec fn spec_map_key(s: KeymapView, key: KeyInput) -> (KeymapView, Option<Command>) {
    if s.showing_file_finder {
        (s, spec_map_file_finder(key))
    } else {
        match s.mode {
            Mode::Normal => spec_map_normal(s, key),
            Mode::Insert => (s, spec_map_insert(s.showing_completion, key)),
            Mode::Visual | Mode::VisualLine => (s, spec_map_visual(key)),
            Mode::Command => (s, spec_map_command(key.code)),
            Mode::Search => (s, spec_map_search(key.code)),
        }
    }
}

fn map_file_finder(key: KeyInput) -> (r: Option<Command>)
    ensures
        r == spec_map_file_finder(key),
{
    match key.code {
        KeyCode::Esc => Some(Command::FileFinderCancel),
        KeyCode::Enter => Some(Command::FileFinderConfirm),
        KeyCode::Backspace => Some(Command::FileFinderBackspace),
        KeyCode::Down | KeyCode::Tab => Some(Command::FileFinderNext),
        KeyCode::Up | KeyCode::BackTab => Some(Command::FileFinderPrev),
        KeyCode::Char(c) => if key.ctrl && c == 'n' {
            Some(Command::FileFinderNext)
        } else if key.ctrl && c == 'p' {
            Some(Command::FileFinderPrev)
        } else {
            Some(Command::FileFinderInput(c))
        },
        _ => None,
    }
}

fn references_command(code: KeyCode) -> (r: Command)
    ensures
        r == spec_references_command(code),
{
    match code {
        KeyCode::Char('j') | KeyCode::Down => Command::ReferenceNext,
        KeyCode::Char('k') | KeyCode::Up => Command::ReferencePrev,
        KeyCode::Enter => Command::ReferenceJump,
        _ => Command::DismissPopup,
    }
}

fn code_actions_command(code: KeyCode) -> (r: Command)
    ensures
        r == spec_code_actions_command(code),
{
    match code {
        KeyCode::Char('j') | KeyCode::Down => Command::CodeActionNext,
        KeyCode::Char('k') | KeyCode::Up => Command::CodeActionPrev,
        KeyCode::Enter => Command::CodeActionAccept,
        _ => Command::CodeActionDismiss,
    }
}

fn diagnostics_command(code: KeyCode) -> (r: Option<Command>)
    ensures
        r == spec_diagnostics_command(code),
{
    match code {
        KeyCode::Char('j') | KeyCode::Down => Some(Command::DiagnosticNext),
        KeyCode::Char('k') | KeyCode::Up => Some(Command::DiagnosticPrev),
        KeyCode::Enter => Some(Command::DiagnosticJump),
        KeyCode::Esc | KeyCode::Char('q') => Some(Command::DismissPopup),
        _ => None,
    }
}

fn normal_ctrl_step(code: KeyCode) -> (r: NormalStep)
    ensures
        r == spec_normal_ctrl_step(code),
{
    match code {
        KeyCode::Char('d') => NormalStep::Run(Command::HalfPageDown),
        KeyCode::Char('u') => NormalStep::Run(Command::HalfPageUp),
        KeyCode::Char('f') => NormalStep::Run(Command::FullPageDown),
        KeyCode::Char('b') => NormalStep::Run(Command::FullPageUp),
        KeyCode::Char('r') => NormalStep::Run(Command::Redo),
        KeyCode::Char('p') => NormalStep::Run(Command::OpenFileFinder),
        KeyCode::Char('o') => NormalStep::Run(Command::JumpBack),
        KeyCode::Char('i') => NormalStep::Run(Command::JumpForward),
        KeyCode::Char('a') => NormalStep::Run(Command::IncrementNumber),
        KeyCode::Char('x') => NormalStep::Run(Command::DecrementNumber),
        KeyCode::Char('w') => NormalStep::Wait('W'),
        KeyCode::Char('c') => NormalStep::Quit,
        _ => NormalStep::Nothing,
    }
}

fn normal_plain_step(code: KeyCode, recording: bool) -> (r: NormalStep)
    ensures
        r == spec_normal_plain_step(code, recording),
{
    match code {
        KeyCode::Char('h') | KeyCode::Left => NormalStep::Run(Command::MoveLeft),
        KeyCode::Char('j') | KeyCode::Down => NormalStep::Run(Command::MoveDown),
        KeyCode::Char('k') | KeyCode::Up => NormalStep::Run(Command::MoveUp),
        KeyCode::Char('l') | KeyCode::Right => NormalStep::Run(Command::MoveRight),
        KeyCode::Char('w') => NormalStep::Run(Command::MoveWordForward),
        KeyCode::Char('b') => NormalStep::Run(Command::MoveWordBackward),
        KeyCode::Char('e') => NormalStep::Run(Command::MoveWordEnd),
        KeyCode::Char('0') => NormalStep::Run(Command::MoveLineStart),
        KeyCode::Char('$') => NormalStep::Run(Command::MoveLineEnd),
        KeyCode::Char('^') => NormalStep::Run(Command::MoveFirstNonBlank),
        KeyCode::Char('W') => NormalStep::Run(Command::MoveWORDForward),
        KeyCode::Char('B') => NormalStep::Run(Command::MoveWORDBackward),
        KeyCode::Char('E') => NormalStep::Run(Command::MoveWORDEnd),
        KeyCode::Char('{') => NormalStep::Run(Command::MoveParagraphBackward),
        KeyCode::Char('}') => NormalStep::Run(Command::MoveParagraphForward),
        KeyCode::Char('G') => NormalStep::Run(Command::GotoBottom),
        KeyCode::Char('i') => NormalStep::Run(Command::EnterInsertMode),
        KeyCode::Char('a') => NormalStep::Run(Command::EnterInsertModeAfter),
        KeyCode::Char('A') => NormalStep::Run(Command::EnterInsertModeLineEnd),
        KeyCode::Char('I') => NormalStep::Run(Command::EnterInsertModeFirstNonBlank),
        KeyCode::Char('o') => NormalStep::Run(Command::InsertNewlineBelow),
        KeyCode::Char('O') => NormalStep::Run(Command::InsertNewlineAbove),
        KeyCode::Char('x') => NormalStep::Run(Command::DeleteCharForward),
        KeyCode::Char('J') => NormalStep::Run(Command::JoinLines),
        KeyCode::Char('D') => NormalStep::Run(Command::DeleteMotion(Motion::LineEnd)),
        KeyCode::Char('C') => NormalStep::Run(Command::ChangeMotion(Motion::LineEnd)),
        KeyCode::Char('.') => NormalStep::Run(Command::RepeatLastChange),
        KeyCode::Char('~') => NormalStep::Run(Command::ToggleCaseChar),
        KeyCode::Char('*') => NormalStep::Run(Command::SearchWordForward),
        KeyCode::Char('#') => NormalStep::Run(Command::SearchWordBackward),
        KeyCode::Char('%') => NormalStep::Run(Command::MatchBracket),
        KeyCode::Char('H') => NormalStep::Run(Command::ViewportHigh),
        KeyCode::Char('M') => NormalStep::Run(Command::ViewportMiddle),
        KeyCode::Char('L') => NormalStep::Run(Command::ViewportLow),
        KeyCode::Char(c) if c == 'd' || c == 'c' || c == 'y' || c == 'g' || c == '>' || c == '<' || c == 'f' || c == 'F' || c == 't' || c == 'T' || c == 'r' || c == 'z' || c == ']' || c == '[' || c == '"' => NormalStep::Wait(c),
        KeyCode::Char('q') => if recording {
            NormalStep::Run(Command::StopMacro)
        } else {
            NormalStep::Wait('q')
        },
        KeyCode::Char('@') => NormalStep::Wait('@'),
        KeyCode::Char('K') => NormalStep::Run(Command::Hover),
        KeyCode::Char('p') => NormalStep::Run(Command::PasteAfter),
        KeyCode::Char('P') => NormalStep::Run(Command::PasteBefore),
        KeyCode::Char('u') => NormalStep::Run(Command::Undo),
        KeyCode::Char('v') => NormalStep::Run(Command::EnterVisualMode),
        KeyCode::Char('V') => NormalStep::Run(Command::EnterVisualLineMode),
        KeyCode::Char('/') => NormalStep::Run(Command::EnterSearchMode),
        KeyCode::Char('n') => NormalStep::Run(Command::SearchNext),
        KeyCode::Char('N') => NormalStep::Run(Command::SearchPrev),
        KeyCode::Char(':') => NormalStep::Run(Command::EnterCommandMode),
        _ => NormalStep::Nothing,
    }
}

fn motion_key(ch: char) -> (r: Option<Motion>)
    ensures
        r == spec_motion_key(ch),
{
    match ch {
        'w' => Some(Motion::WordForward),
        'e' => Some(Motion::WordEnd),
        'b' => Some(Motion::WordBackward),
        'W' => Some(Motion::WORDForward),
        'E' => Some(Motion::WORDEnd),
        'B' => Some(Motion::WORDBackward),
        '$' => Some(Motion::LineEnd),
        '0' => Some(Motion::LineStart),
        '^' => Some(Motion::FirstNonBlank),
        '}' => Some(Motion::ParagraphForward),
        '{' => Some(Motion::ParagraphBackward),
        _ => None,
    }
}

fn char_motion(sel: char, ch: char) -> (r: Option<Motion>)
    ensures
        r == spec_char_motion(sel, ch),
{
    match sel {
        'i' => Some(Motion::Inner(ch)),
        'a' => Some(Motion::Around(ch)),
        'f' => Some(Motion::FindForward(ch)),
        'F' => Some(Motion::FindBackward(ch)),
        't' => Some(Motion::TillForward(ch)),
        'T' => Some(Motion::TillBackward(ch)),
        _ => None,
    }
}

fn case_op_of(op: char) -> (r: Option<CaseOp>)
    ensures
        r == spec_case_op_of(op),
{
    match op {
        'u' => Some(CaseOp::Lower),
        'U' => Some(CaseOp::Upper),
        '~' => Some(CaseOp::Toggle),
        _ => None,
    }
}

fn g_step(ch: char) -> (r: PendingStep)
    ensures
        r == spec_g_step(ch),
{
    match ch {
        'd' => PendingStep::Run(Command::GotoDefinition),
        'r' => PendingStep::Run(Command::FindReferences),
        'g' => PendingStep::Run(Command::GotoTop),
        'a' => PendingStep::Run(Command::CodeAction),
        'E' => PendingStep::Run(Command::DiagnosticList),
        't' => PendingStep::Run(Command::NextBuffer),
        'T' => PendingStep::Run(Command::PrevBuffer),
        'u' | 'U' | '~' => PendingStep::Extend,
        _ => PendingStep::Nothing,
    }
}

fn window_step(ch: char) -> (r: PendingStep)
    ensures
        r == spec_window_step(ch),
{
    match ch {
        'v' => PendingStep::Run(Command::SplitVertical),
        's' => PendingStep::Run(Command::SplitHorizontal),
        'h' => PendingStep::Run(Command::PaneLeft),
        'j' => PendingStep::Run(Command::PaneDown),
        'k' => PendingStep::Run(Command::PaneUp),
        'l' => PendingStep::Run(Command::PaneRight),
        'w' => PendingStep::Run(Command::PaneNext),
        'q' => PendingStep::Run(Command::PaneClose),
        _ => PendingStep::Nothing,
    }
}

fn scroll_step(ch: char) -> (r: PendingStep)
    ensures
        r == spec_scroll_step(ch),
{
    match ch {
        'z' => PendingStep::Run(Command::ScrollCenter),
        't' => PendingStep::Run(Command::ScrollTop),
        'b' => PendingStep::Run(Command::ScrollBottom),
        _ => PendingStep::Nothing,
    }
}

fn insert_typing_command(key: KeyInput) -> (r: Option<Command>)
    ensures
        r == spec_insert_typing_command(key),
{
    match key.code {
        KeyCode::Esc => Some(Command::ExitToNormalMode),
        KeyCode::Backspace => Some(Command::DeleteCharBackward),
        KeyCode::Enter => Some(Command::InsertNewline),
        KeyCode::Left => Some(Command::MoveLeft),
        KeyCode::Right => Some(Command::MoveRight),
        KeyCode::Up => Some(Command::MoveUp),
        KeyCode::Down => Some(Command::MoveDown),
        KeyCode::Char(c) => if c == ' ' && key.ctrl {
            Some(Command::TriggerCompletion)
        } else {
            Some(Command::InsertChar(c))
        },
        KeyCode::Tab => Some(Command::InsertTab),
        _ => None,
    }
}

fn completion_list_command(code: KeyCode) -> (r: Option<Command>)
    ensures
        r == spec_completion_list_command(code),
{
    match code {
        KeyCode::Down | KeyCode::Tab => Some(Command::CompletionNext),
        KeyCode::Up | KeyCode::BackTab => Some(Command::CompletionPrev),
        KeyCode::Enter => Some(Command::AcceptCompletion),
        KeyCode::Esc => Some(Command::CancelCompletion),
        _ => None,
    }
}

fn visual_ctrl_command(code: KeyCode) -> (r: Option<Command>)
    ensures
        r == spec_visual_ctrl_command(code),
{
    match code {
        KeyCode::Char('d') => Some(Command::HalfPageDown),
        KeyCode::Char('u') => Some(Command::HalfPageUp),
        KeyCode::Char('f') => Some(Command::FullPageDown),
        KeyCode::Char('b') => Some(Command::FullPageUp),
        _ => None,
    }
}

fn visual_plain_command(code: KeyCode) -> (r: Option<Command>)
    ensures
        r == spec_visual_plain_command(code),
{
    match code {
        KeyCode::Char('h') | KeyCode::Left => Some(Command::MoveLeft),
        KeyCode::Char('j') | KeyCode::Down => Some(Command::MoveDown),
        KeyCode::Char('k') | KeyCode::Up => Some(Command::MoveUp),
        KeyCode::Char('l') | KeyCode::Right => Some(Command::MoveRight),
        KeyCode::Char('w') => Some(Command::MoveWordForward),
        KeyCode::Char('b') => Some(Command::MoveWordBackward),
        KeyCode::Char('e') => Some(Command::MoveWordEnd),
        KeyCode::Char('W') => Some(Command::MoveWORDForward),
        KeyCode::Char('B') => Some(Command::MoveWORDBackward),
        KeyCode::Char('E') => Some(Command::MoveWORDEnd),
        KeyCode::Char('0') => Some(Command::MoveLineStart),
        KeyCode::Char('$') => Some(Command::MoveLineEnd),
        KeyCode::Char('^') => Some(Command::MoveFirstNonBlank),
        KeyCode::Char('{') => Some(Command::MoveParagraphBackward),
        KeyCode::Char('}') => Some(Command::MoveParagraphForward),
        KeyCode::Char('G') => Some(Command::GotoBottom),
        KeyCode::Char('o') => Some(Command::VisualSwapAnchor),
        KeyCode::Char('~') => Some(Command::ToggleCaseChar),
        KeyCode::Char('u') => Some(Command::CaseChangeLine(CaseOp::Lower)),
        KeyCode::Char('U') => Some(Command::CaseChangeLine(CaseOp::Upper)),
        KeyCode::Char('d') | KeyCode::Char('x') => Some(Command::VisualDelete),
        KeyCode::Char('y') => Some(Command::VisualYank),
        KeyCode::Char('c') => Some(Command::VisualChange),
        KeyCode::Char('>') => Some(Command::VisualIndent),
        KeyCode::Char('<') => Some(Command::VisualDedent),
        KeyCode::Esc | KeyCode::Char('v') | KeyCode::Char('V') => Some(Command::ExitToNormalMode),
        _ => None,
    }
}

fn map_command(code: KeyCode) -> (r: Option<Command>)
    ensures
        r == spec_map_command(code),
{
    match code {
        KeyCode::Esc => Some(Command::ExitToNormalMode),
        KeyCode::Enter => Some(Command::CommandExecute),
        KeyCode::Backspace => Some(Command::CommandBackspace),
        KeyCode::Up => Some(Command::CommandHistoryPrev),
        KeyCode::Down => Some(Command::CommandHistoryNext),
        KeyCode::Char(ch) => Some(Command::CommandInput(ch)),
        _ => None,
    }
}

fn map_search(code: KeyCode) -> (r: Option<Command>)
    ensures
        r == spec_map_search(code),
{
    match code {
        KeyCode::Esc => Some(Command::SearchCancel),
        KeyCode::Enter => Some(Command::SearchConfirm),
        KeyCode::Backspace => Some(Command::SearchBackspace),
        KeyCode::Char(ch) => Some(Command::SearchInput(ch)),
        _ => None,
    }
}
fn operator_step(op: char, ch: char) -> (r: PendingStep)
    requires
        op == 'd' || op == 'c' || op == 'y',
    ensures
        r == spec_operator_step(op, ch),
{
    if ch == op {
        if op == 'd' {
            PendingStep::Run(Command::DeleteLine)
        } else if op == 'c' {
            PendingStep::Run(Command::ChangeMotion(Motion::Line))
        } else {
            PendingStep::Run(Command::YankLine)
        }
    } else {
        match motion_key(ch) {
            Some(m) => PendingStep::Run(operator_command_exec(op, m)),
            None => if ch == 'i' || ch == 'a' || (op != 'y' && (ch == 'f' || ch == 'F' || ch == 't'
                || ch == 'T')) {
                PendingStep::Extend
            } else {
                PendingStep::Nothing
            },
        }
    }
}

fn operator_command_exec(op: char, m: Motion) -> (r: Command)
    ensures
        r == operator_command(op, m),
{
    if op == 'd' {
        Command::DeleteMotion(m)
    } else if op == 'c' {
        Command::ChangeMotion(m)
    } else {
        Command::YankMotion(m)
    }
}

/// The key after `gu`, `gU` or `g~` (the case change `case_op` of key
/// `op`).
pub fn map_case_motion(case_op: CaseOp, op: char, ch: char) -> (r: PendingStep)
    ensures
        r == spec_map_case_motion(case_op, op, ch),
{
    if ch == op {
        PendingStep::Run(Command::CaseChangeLine(case_op))
    } else if ch == '}' || ch == '{' {
        PendingStep::Nothing
    } else {
        match motion_key(ch) {
            Some(m) => PendingStep::Run(Command::CaseChange(case_op, m)),
            None => if ch == 'i' || ch == 'a' {
                PendingStep::Extend
            } else {
                PendingStep::Nothing
            },
        }
    }
}

fn one_key_step(k: char, ch: char) -> (r: PendingStep)
    ensures
        r == spec_one_key_step(k, ch),
{
    if k == '"' {
        PendingStep::SelectRegister
    } else if k == 'q' {
        PendingStep::Run(Command::StartMacro(ch))
    } else if k == '@' {
        if ch == '@' {
            PendingStep::Run(Command::PlayLastMacro)
        } else {
            PendingStep::Run(Command::PlayMacro(ch))
        }
    } else if k == 'd' || k == 'c' || k == 'y' {
        operator_step(k, ch)
    } else if k == 'g' {
        g_step(ch)
    } else if k == '>' {
        if ch == '>' {
            PendingStep::Run(Command::IndentLine)
        } else {
            PendingStep::Nothing
        }
    } else if k == '<' {
        if ch == '<' {
            PendingStep::Run(Command::DedentLine)
        } else {
            PendingStep::Nothing
        }
    } else if k == 'f' {
        PendingStep::Run(Command::FindCharForward(ch))
    } else if k == 'F' {
        PendingStep::Run(Command::FindCharBackward(ch))
    } else if k == 't' {
        PendingStep::Run(Command::TillCharForward(ch))
    } else if k == 'T' {
        PendingStep::Run(Command::TillCharBackward(ch))
    } else if k == 'r' {
        PendingStep::Run(Command::ReplaceChar(ch))
    } else if k == ']' {
        if ch == 'd' {
            PendingStep::Run(Command::DiagnosticNext)
        } else {
            PendingStep::Nothing
        }
    } else if k == '[' {
        if ch == 'd' {
            PendingStep::Run(Command::DiagnosticPrev)
        } else {
            PendingStep::Nothing
        }
    } else if k == 'W' {
        window_step(ch)
    } else if k == 'z' {
        scroll_step(ch)
    } else {
        PendingStep::Nothing
    }
}

fn two_key_step(k1: char, k2: char, ch: char) -> (r: PendingStep)
    ensures
        r == spec_two_key_step(k1, k2, ch),
{
    if k1 == 'd' || k1 == 'c' {
        if let Some(m) = char_motion(k2, ch) {
            return PendingStep::Run(operator_command_exec(k1, m));
        }
    }
    if k1 == 'y' && (k2 == 'i' || k2 == 'a') {
        if let Some(m) = char_motion(k2, ch) {
            return PendingStep::Run(operator_command_exec(k1, m));
        }
    }
    if k1 == 'g' {
        if let Some(case_op) = case_op_of(k2) {
            return map_case_motion(case_op, k2, ch);
        }
    }
    PendingStep::Nothing
}

fn three_key_step(k1: char, k2: char, k3: char, ch: char) -> (r: PendingStep)
    ensures
        r == spec_three_key_step(k1, k2, k3, ch),
{
    if k1 == 'g' && (k3 == 'i' || k3 == 'a') {
        if let Some(case_op) = case_op_of(k2) {
            if let Some(m) = char_motion(k3, ch) {
                return PendingStep::Run(Command::CaseChange(case_op, m));
            }
        }
    }
    PendingStep::Nothing
}

fn pending_step(p: &Vec<char>, ch: char) -> (r: PendingStep)
    ensures
        r == spec_pending_step(p@, ch),
{
    if p.len() == 1 {
        one_key_step(p[0], ch)
    } else if p.len() == 2 {
        two_key_step(p[0], p[1], ch)
    } else if p.len() == 3 {
        three_key_step(p[0], p[1], p[2], ch)
    } else {
        PendingStep::Nothing
    }
}

fn handle_pending(state: &mut KeymapState, key: KeyInput) -> (r: Option<Command>)
    requires
        old(state)@.pending_keys.len() > 0,
    ensures
        (final(state)@, r) == spec_handle_pending(old(state)@, key),
{
    match key.code {
        KeyCode::Char(ch) => match pending_step(&state.pending_keys, ch) {
            PendingStep::Run(c) => {
                state.pending_keys.clear();
                Some(c)
            },
            PendingStep::Extend => {
                state.pending_keys.push(ch);
                None
            },
            PendingStep::SelectRegister => {
                state.pending_keys.clear();
                state.selected_register = Some(ch);
                None
            },
            PendingStep::Nothing => {
                state.pending_keys.clear();
                None
            },
        },
        _ => {
            state.pending_keys.clear();
            None
        },
    }
}

fn map_normal(state: &mut KeymapState, key: KeyInput) -> (r: Option<Command>)
    ensures
        (final(state)@, r) == spec_map_normal(old(state)@, key),
{
    if state.showing_hover {
        state.showing_hover = false;
        state.hover_text = None;
        return None;
    }
    if state.showing_references {
        return Some(references_command(key.code));
    }
    if state.showing_code_actions {
        return Some(code_actions_command(key.code));
    }
    if state.showing_diagnostics {
        return diagnostics_command(key.code);
    }
    if state.pending_keys.len() > 0 {
        return handle_pending(state, key);
    }
    let step = if key.ctrl {
        normal_ctrl_step(key.code)
    } else {
        normal_plain_step(key.code, state.recording_macro.is_some())
    };
    match step {
        NormalStep::Run(c) => Some(c),
        NormalStep::Wait(k) => {
            state.pending_keys.push(k);
            proof {
                assert(state.pending_keys@ =~= seq![k]);
            }
            None
        },
        NormalStep::Quit => {
            state.should_quit = true;
            None
        },
        NormalStep::Nothing => None,
    }
}

fn map_insert(completion: bool, key: KeyInput) -> (r: Option<Command>)
    ensures
        r == spec_map_insert(completion, key),
{
    if completion {
        if let Some(c) = completion_list_command(key.code) {
            return Some(c);
        }
    }
    insert_typing_command(key)
}

fn map_visual(key: KeyInput) -> (r: Option<Command>)
    ensures
        r == spec_map_visual(key),
{
    if key.ctrl {
        visual_ctrl_command(key.code)
    } else {
        visual_plain_command(key.code)
    }
}

/// Decodes one key: returns the command it completes, if any, and updates
/// the pending keys, popups and flags it touches.
pub fn map_key(state: &mut KeymapState, key: KeyInput) -> (r: Option<Command>)
    ensures
        (final(state)@, r) == spec_map_key(old(state)@, key),
{
    if state.showing_file_finder {
        return map_file_finder(key);
    }
    match state.mode {
        Mode::Normal => map_normal(state, key),
        Mode::Insert => map_insert(state.showing_completion, key),
        Mode::Visual | Mode::VisualLine => map_visual(key),
        Mode::Command => map_command(key.code),
        Mode::Search => map_search(key.code),
    }
}


// ── Laws ───────────────────────────────────────────────────────────

/// A key that starts a sequence in normal mode.
pub open spec fn starts_sequence(k: char) -> bool {
    k == 'd' || k == 'c' || k == 'y' || k == 'g' || k == '>' || k == '<' || k == 'f' || k == 'F'
        || k == 't' || k == 'T' || k == 'r' || k == 'z' || k == ']' || k == '[' || k == '"' || k
        == 'q' || k == '@' || k == 'W'
}

/// The pending keys the keymap can be waiting on: nothing, one key that
/// starts a sequence, an operator with `i`, `a` (or for `d` and `c` a find
/// key), a case change `gu`, `gU`, `g~`, or one of those with `i` or `a`.
pub open spec fn waiting_sequence(p: Seq<char>) -> bool {
    ||| p.len() == 0
    ||| p.len() == 1 && starts_sequence(p[0])
    ||| p.len() == 2 && (((p[0] == 'd' || p[0] == 'c') && spec_char_motion(p[1], ' ') is Some) || (
    p[0] == 'y' && (p[1] == 'i' || p[1] == 'a')) || (p[0] == 'g' && spec_case_op_of(p[1]) is Some))
    ||| p.len() == 3 && p[0] == 'g' && spec_case_op_of(p[1]) is Some && (p[2] == 'i' || p[2] == 'a')
}

/// Whatever key comes, the pending keys stay a sequence the keymap waits
/// on: at most three keys, each prefix meaningful.
pub proof fn law_pending_keys_stay_waiting(s: KeymapView, key: KeyInput)
    requires
        waiting_sequence(s.pending_keys),
    ensures
        waiting_sequence(spec_map_key(s, key).0.pending_keys),
{
    let p = s.pending_keys;
    if let KeyCode::Char(ch) = key.code {
        if p.len() == 1 {
            assert(p.push(ch)[0] == p[0]);
            assert(p.push(ch)[1] == ch);
        } else if p.len() == 2 {
            assert(p.push(ch)[0] == p[0]);
            assert(p.push(ch)[1] == p[1]);
            assert(p.push(ch)[2] == ch);
        }
    }
}

/// Normal mode with nothing open that takes keys.
pub open spec fn normal_ready(s: KeymapView) -> bool {
    &&& s.mode == Mode::Normal
    &&& !s.showing_file_finder
    &&& !s.showing_hover
    &&& !s.showing_references
    &&& !s.showing_code_actions
    &&& !s.showing_diagnostics
}

pub open spec fn plain_key(c: char) -> KeyInput {
    KeyInput { code: KeyCode::Char(c), ctrl: false }
}

/// Esc cancels a pending sequence in normal mode and gives no command.
pub proof fn law_escape_cancels_pending(s: KeymapView)
    requires
        normal_ready(s),
        s.pending_keys.len() > 0,
    ensures
        spec_map_key(s, KeyInput { code: KeyCode::Esc, ctrl: false }) == (
            KeymapView { pending_keys: Seq::empty(), ..s },
            None::<Command>,
        ),
{
}

/// While the file finder is open it takes every key and changes nothing of
/// the keymap's state; a plain char goes into its query.
pub proof fn law_file_finder_takes_every_key(s: KeymapView, key: KeyInput)
    requires
        s.showing_file_finder,
    ensures
        spec_map_key(s, key).0 == s,
        key.code is Char && !key.ctrl ==> spec_map_key(s, key).1 == Some(
            Command::FileFinderInput(key.code->Char_0),
        ),
{
}

/// In insert mode every plain char types itself, also while the completion
/// list is open.
pub proof fn law_insert_mode_types_chars(s: KeymapView, c: char)
    requires
        !s.showing_file_finder,
        s.mode == Mode::Insert,
    ensures
        spec_map_key(s, plain_key(c)) == (s, Some(Command::InsertChar(c))),
{
}

/// An operator (`d`, `c`, `y`) followed by a motion key gives the operator
/// over that motion, and leaves nothing pending.
pub proof fn law_operator_then_motion(s: KeymapView, op: char, m: char)
    requires
        normal_ready(s),
        s.pending_keys.len() == 0,
        op == 'd' || op == 'c' || op == 'y',
        spec_motion_key(m) is Some,
    ensures
        ({
            let (s1, r1) = spec_map_key(s, plain_key(op));
            let (s2, r2) = spec_map_key(s1, plain_key(m));
            &&& r1 is None
            &&& s1.pending_keys == seq![op]
            &&& r2 == Some(operator_command(op, spec_motion_key(m).unwrap()))
            &&& s2 == s
        }),
{
    let (s1, r1) = spec_map_key(s, plain_key(op));
    assert(s1 == KeymapView { pending_keys: seq![op], ..s });
    assert(s.pending_keys =~= Seq::<char>::empty());
}

/// A doubled operator acts on the whole line: `dd` deletes it, `cc`
/// changes it, `yy` yanks it.
pub proof fn law_doubled_operator_acts_on_line(s: KeymapView, op: char)
    requires
        normal_ready(s),
        s.pending_keys.len() == 0,
        op == 'd' || op == 'c' || op == 'y',
    ensures
        ({
            let (s1, r1) = spec_map_key(s, plain_key(op));
            let (s2, r2) = spec_map_key(s1, plain_key(op));
            &&& r1 is None
            &&& r2 == Some(
                if op == 'd' {
                    Command::DeleteLine
                } else if op == 'c' {
                    Command::ChangeMotion(Motion::Line)
                } else {
                    Command::YankLine
                },
            )
            &&& s2 == s
        }),
{
    let (s1, r1) = spec_map_key(s, plain_key(op));
    assert(s1 == KeymapView { pending_keys: seq![op], ..s });
    assert(s.pending_keys =~= Seq::<char>::empty());
}


/// Macros: `q` and a register start recording into it, `q` while recording
/// stops; `@` and a register plays it, `@@` plays the last one played. Each
/// leaves nothing pending.
pub proof fn law_macro_keys(s: KeymapView, reg: char)
    requires
        normal_ready(s),
        s.pending_keys.len() == 0,
    ensures
        s.recording_macro is None ==> ({
            let (s1, r1) = spec_map_key(s, plain_key('q'));
            let (s2, r2) = spec_map_key(s1, plain_key(reg));
            &&& r1 is None
            &&& r2 == Some(Command::StartMacro(reg))
            &&& s2 == s
        }),
        s.recording_macro is Some ==> spec_map_key(s, plain_key('q')) == (s, Some(Command::StopMacro)),
        ({
            let (s1, r1) = spec_map_key(s, plain_key('@'));
            let (s2, r2) = spec_map_key(s1, plain_key(reg));
            &&& r1 is None
            &&& r2 == Some(
                if reg == '@' {
                    Command::PlayLastMacro
                } else {
                    Command::PlayMacro(reg)
                },
            )
            &&& s2 == s
        }),
{
    assert(s.pending_keys =~= Seq::<char>::empty());
    let (s1, r1) = spec_map_key(s, plain_key('@'));
    assert(s1 == KeymapView { pending_keys: seq!['@'], ..s });
    if s.recording_macro is None {
        let (t1, q1) = spec_map_key(s, plain_key('q'));
        assert(t1 == KeymapView { pending_keys: seq!['q'], ..s });
    }
}


/// In normal mode, with no popup open and no keys pending, a plain `p`
/// pastes after the cursor and a plain `P` before it, and neither key
/// changes the keymap state.
pub proof fn law_paste_keys(s: KeymapView)
    requires
        s.mode == Mode::Normal,
        !s.showing_file_finder,
        !s.showing_hover,
        !s.showing_references,
        !s.showing_code_actions,
        !s.showing_diagnostics,
        s.pending_keys.len() == 0,
    ensures
        spec_map_key(s, KeyInput { code: KeyCode::Char('p'), ctrl: false }) == (s, Some(
            Command::PasteAfter,
        )),
        spec_map_key(s, KeyInput { code: KeyCode::Char('P'), ctrl: false }) == (s, Some(
            Command::PasteBefore,
        )),
{
}


/// In normal mode, with no popup open and no keys pending, each of these
/// plain keys gives its Vim command at once and leaves the keymap state as
/// it is: `h`/`j`/`k`/`l` move left, down, up and right; `w`/`b`/`e` move by
/// words and `W`/`B`/`E` by WORDs; `0`, `$` and `^` go to the line's start,
/// end and first non-blank; `{`/`}` move by paragraphs; `i`, `a`, `A`, `I`,
/// `o`, `O` enter insert mode where Vim does; `x` deletes, `J` joins, `u`
/// undoes, `v`/`V` start visual mode, `n`/`N` repeat a search, `:` opens the
/// command line and `K` asks for hover text.
pub proof fn law_normal_keys(s: KeymapView)
    requires
        s.mode == Mode::Normal,
        !s.showing_file_finder,
        !s.showing_hover,
        !s.showing_references,
        !s.showing_code_actions,
        !s.showing_diagnostics,
        s.pending_keys.len() == 0,
    ensures
        spec_map_key(s, plain_key('h')) == (s, Some(Command::MoveLeft)),
        spec_map_key(s, plain_key('j')) == (s, Some(Command::MoveDown)),
        spec_map_key(s, plain_key('k')) == (s, Some(Command::MoveUp)),
        spec_map_key(s, plain_key('l')) == (s, Some(Command::MoveRight)),
        spec_map_key(s, plain_key('w')) == (s, Some(Command::MoveWordForward)),
        spec_map_key(s, plain_key('b')) == (s, Some(Command::MoveWordBackward)),
        spec_map_key(s, plain_key('e')) == (s, Some(Command::MoveWordEnd)),
        spec_map_key(s, plain_key('W')) == (s, Some(Command::MoveWORDForward)),
        spec_map_key(s, plain_key('B')) == (s, Some(Command::MoveWORDBackward)),
        spec_map_key(s, plain_key('E')) == (s, Some(Command::MoveWORDEnd)),
        spec_map_key(s, plain_key('0')) == (s, Some(Command::MoveLineStart)),
        spec_map_key(s, plain_key('$')) == (s, Some(Command::MoveLineEnd)),
        spec_map_key(s, plain_key('^')) == (s, Some(Command::MoveFirstNonBlank)),
        spec_map_key(s, plain_key('{')) == (s, Some(Command::MoveParagraphBackward)),
        spec_map_key(s, plain_key('}')) == (s, Some(Command::MoveParagraphForward)),
        spec_map_key(s, plain_key('G')) == (s, Some(Command::GotoBottom)),
        spec_map_key(s, plain_key('i')) == (s, Some(Command::EnterInsertMode)),
        spec_map_key(s, plain_key('a')) == (s, Some(Command::EnterInsertModeAfter)),
        spec_map_key(s, plain_key('A')) == (s, Some(Command::EnterInsertModeLineEnd)),
        spec_map_key(s, plain_key('I')) == (s, Some(Command::EnterInsertModeFirstNonBlank)),
        spec_map_key(s, plain_key('o')) == (s, Some(Command::InsertNewlineBelow)),
        spec_map_key(s, plain_key('O')) == (s, Some(Command::InsertNewlineAbove)),
        spec_map_key(s, plain_key('x')) == (s, Some(Command::DeleteCharForward)),
        spec_map_key(s, plain_key('J')) == (s, Some(Command::JoinLines)),
        spec_map_key(s, plain_key('u')) == (s, Some(Command::Undo)),
        spec_map_key(s, plain_key('v')) == (s, Some(Command::EnterVisualMode)),
        spec_map_key(s, plain_key('V')) == (s, Some(Command::EnterVisualLineMode)),
        spec_map_key(s, plain_key('n')) == (s, Some(Command::SearchNext)),
        spec_map_key(s, plain_key('N')) == (s, Some(Command::SearchPrev)),
        spec_map_key(s, plain_key(':')) == (s, Some(Command::EnterCommandMode)),
        spec_map_key(s, plain_key('K')) == (s, Some(Command::Hover)),
{
}


/// A key with no modifier but not a char.
pub open spec fn special_key(code: KeyCode) -> KeyInput {
    KeyInput { code, ctrl: false }
}

/// On the command line every char is typed into it, Enter runs it,
/// Backspace erases, Esc leaves it and Up/Down walk the history; the keymap
/// state stays as it is.
pub proof fn law_command_line_keys(s: KeymapView, ch: char)
    requires
        s.mode == Mode::Command,
        !s.showing_file_finder,
    ensures
        spec_map_key(s, plain_key(ch)) == (s, Some(Command::CommandInput(ch))),
        spec_map_key(s, special_key(KeyCode::Enter)) == (s, Some(Command::CommandExecute)),
        spec_map_key(s, special_key(KeyCode::Backspace)) == (s, Some(Command::CommandBackspace)),
        spec_map_key(s, special_key(KeyCode::Esc)) == (s, Some(Command::ExitToNormalMode)),
        spec_map_key(s, special_key(KeyCode::Up)) == (s, Some(Command::CommandHistoryPrev)),
        spec_map_key(s, special_key(KeyCode::Down)) == (s, Some(Command::CommandHistoryNext)),
{
}

/// In visual mode `d`/`x` delete the selection, `y` yanks it, `c` changes
/// it, `>`/`<` indent and dedent it, `o` swaps its ends, Esc, `v` and `V`
/// leave it, and the motion keys move as in normal mode.
pub proof fn law_visual_keys(s: KeymapView)
    requires
        s.mode == Mode::Visual || s.mode == Mode::VisualLine,
        !s.showing_file_finder,
    ensures
        spec_map_key(s, plain_key('d')) == (s, Some(Command::VisualDelete)),
        spec_map_key(s, plain_key('x')) == (s, Some(Command::VisualDelete)),
        spec_map_key(s, plain_key('y')) == (s, Some(Command::VisualYank)),
        spec_map_key(s, plain_key('c')) == (s, Some(Command::VisualChange)),
        spec_map_key(s, plain_key('>')) == (s, Some(Command::VisualIndent)),
        spec_map_key(s, plain_key('<')) == (s, Some(Command::VisualDedent)),
        spec_map_key(s, plain_key('o')) == (s, Some(Command::VisualSwapAnchor)),
        spec_map_key(s, special_key(KeyCode::Esc)) == (s, Some(Command::ExitToNormalMode)),
        spec_map_key(s, plain_key('v')) == (s, Some(Command::ExitToNormalMode)),
        spec_map_key(s, plain_key('h')) == (s, Some(Command::MoveLeft)),
        spec_map_key(s, plain_key('j')) == (s, Some(Command::MoveDown)),
        spec_map_key(s, plain_key('k')) == (s, Some(Command::MoveUp)),
        spec_map_key(s, plain_key('l')) == (s, Some(Command::MoveRight)),
        spec_map_key(s, plain_key('w')) == (s, Some(Command::MoveWordForward)),
        spec_map_key(s, plain_key('b')) == (s, Some(Command::MoveWordBackward)),
        spec_map_key(s, plain_key('e')) == (s, Some(Command::MoveWordEnd)),
        spec_map_key(s, plain_key('W')) == (s, Some(Command::MoveWORDForward)),
        spec_map_key(s, plain_key('B')) == (s, Some(Command::MoveWORDBackward)),
        spec_map_key(s, plain_key('E')) == (s, Some(Command::MoveWORDEnd)),
{
}

/// In insert mode without the completion list, Esc leaves insert mode,
/// Backspace deletes back, Enter breaks the line, Tab indents, and the
/// arrows move.
pub proof fn law_insert_mode_keys(s: KeymapView)
    requires
        s.mode == Mode::Insert,
        !s.showing_file_finder,
        !s.showing_completion,
    ensures
        spec_map_key(s, special_key(KeyCode::Esc)) == (s, Some(Command::ExitToNormalMode)),
        spec_map_key(s, special_key(KeyCode::Backspace)) == (s, Some(Command::DeleteCharBackward)),
        spec_map_key(s, special_key(KeyCode::Enter)) == (s, Some(Command::InsertNewline)),
        spec_map_key(s, special_key(KeyCode::Tab)) == (s, Some(Command::InsertTab)),
        spec_map_key(s, special_key(KeyCode::Left)) == (s, Some(Command::MoveLeft)),
        spec_map_key(s, special_key(KeyCode::Right)) == (s, Some(Command::MoveRight)),
        spec_map_key(s, special_key(KeyCode::Up)) == (s, Some(Command::MoveUp)),
        spec_map_key(s, special_key(KeyCode::Down)) == (s, Some(Command::MoveDown)),
{
}

} // verus!
