//! Carrying out a decoded command on the editor state, and one turn of the
//! front end's loop on a key.
use vstd::prelude::*;

use crate::editor::document::spec_line_len;
use crate::editor::history::{redo_step, undo_after_save, undo_step};
use crate::editor::selection::Position;
use crate::editor::state::{
    clamped, doc_delete_backward, doc_delete_forward, doc_delete_line, doc_insert,
    doc_insert_spaces, edited, lemma_clamped_fits, lemma_cursor_index, DeferredAction,
    EditorModel, EditorState,
};
use crate::buffer::rope::lemma_line_count_bound;
use crate::input::command::Command;
use crate::input::keymap::{map_key, spec_map_key, KeymapView};
use crate::input::mode::Mode;
use crate::input::editing::{
    apply_line_edit, apply_operator, apply_register_command, apply_text_motion, is_line_edit,
    is_operator, is_register_command, operator_effect,
    is_text_motion, line_edit_effect, register_effect, text_motion_target,
};
use crate::input::spec_track_change;
use crate::key::{KeyCode, KeyInput};
use crate::lsp::LspDiagnostic;

verus! {

/// `a + b`, or `usize::MAX` when that overflows.
pub open spec fn sat_add(a: usize, b: usize) -> usize {
    if a + b <= usize::MAX {
        (a + b) as usize
    } else {
        usize::MAX
    }
}

/// `a - b`, or 0 when `b > a`.
pub open spec fn sat_sub(a: usize, b: usize) -> usize {
    if a >= b {
        (a - b) as usize
    } else {
        0
    }
}

/// The model with a new cursor.
pub open spec fn at(m: EditorModel, c: Position) -> EditorModel {
    EditorModel { cursor: c, ..m }
}

/// The model with a status message.
pub open spec fn with_status(m: EditorModel, s: Seq<char>) -> EditorModel {
    EditorModel { status: Some(s), ..m }
}

/// The model with a new mode.
pub open spec fn in_mode(m: EditorModel, mode: Mode) -> EditorModel {
    EditorModel { keys: KeymapView { mode, ..m.keys }, ..m }
}

/// The model after saving an undo snapshot of the text and cursor.
pub open spec fn saved(m: EditorModel) -> EditorModel {
    EditorModel {
        undo: undo_after_save(m.undo, (m.doc.text, m.cursor)),
        redo: Seq::empty(),
        ..m
    }
}

/// What a cursor motion does to the cursor.
#[verifier::opaque]
pub open spec fn motion_target(m: EditorModel, cmd: Command) -> Position {
    let c = m.cursor;
    let half = (m.page_height / 2) as usize;
    match cmd {
        Command::MoveLeft => Position { col: sat_sub(c.col, 1), ..c },
        Command::MoveRight => Position { col: sat_add(c.col, 1), ..c },
        Command::MoveUp => Position { row: sat_sub(c.row, 1), ..c },
        Command::MoveDown => Position { row: sat_add(c.row, 1), ..c },
        Command::MoveLineStart => Position { col: 0, ..c },
        Command::MoveLineEnd => Position { col: usize::MAX, ..c },
        Command::GotoTop => Position { row: 0, col: 0 },
        Command::GotoBottom => Position { row: usize::MAX, ..c },
        Command::HalfPageDown => Position { row: sat_add(c.row, half), ..c },
        Command::HalfPageUp => Position { row: sat_sub(c.row, half), ..c },
        _ => c,
    }
}

/// The cursor motions.
pub open spec fn is_motion(cmd: Command) -> bool {
    match cmd {
        Command::MoveLeft | Command::MoveRight | Command::MoveUp | Command::MoveDown
        | Command::MoveLineStart | Command::MoveLineEnd | Command::GotoTop | Command::GotoBottom
        | Command::HalfPageDown | Command::HalfPageUp => true,
        _ => false,
    }
}

/// What a text edit does (an undo snapshot is saved first).
#[verifier::opaque]
pub open spec fn edit_effect(m: EditorModel, cmd: Command) -> EditorModel {
    let s = saved(m);
    let c = m.cursor;
    match cmd {
        Command::InsertChar(ch) => EditorModel {
            doc: doc_insert(m.doc, c, ch),
            cursor: Position { col: sat_add(c.col, 1), ..c },
            ..s
        },
        Command::InsertTab => EditorModel {
            doc: doc_insert_spaces(m.doc, c, m.tab_width as nat),
            cursor: Position { col: (c.col + m.tab_width) as usize, ..c },
            ..s
        },
        Command::InsertNewline => EditorModel {
            doc: doc_insert(m.doc, c, '\n'),
            cursor: Position { row: (c.row + 1) as usize, col: 0 },
            ..s
        },
        Command::DeleteCharBackward => {
            let (d, p) = doc_delete_backward(m.doc, c);
            EditorModel {
                doc: d,
                cursor: match p {
                    Some(p) => p,
                    None => c,
                },
                ..s
            }
        },
        Command::DeleteCharForward => EditorModel { doc: doc_delete_forward(m.doc, c), ..s },
        Command::DeleteLine => EditorModel { doc: doc_delete_line(m.doc, c.row), ..s },
        Command::InsertNewlineBelow => {
            let end = Position { row: c.row, col: spec_line_len(m.doc.text, c.row as int) as usize };
            in_mode(
                EditorModel {
                    doc: doc_insert(m.doc, end, '\n'),
                    cursor: Position { row: (c.row + 1) as usize, col: 0 },
                    ..s
                },
                Mode::Insert,
            )
        },
        _ => m,
    }
}

/// The text edits.
pub open spec fn is_edit(cmd: Command) -> bool {
    match cmd {
        Command::InsertChar(_) | Command::InsertTab | Command::InsertNewline
        | Command::DeleteCharBackward | Command::DeleteCharForward | Command::DeleteLine
        | Command::InsertNewlineBelow => true,
        _ => false,
    }
}

/// Undo (or redo, when `forward`): the restored text and cursor, or a
/// message when there is nothing to restore.
pub open spec fn history_effect(m: EditorModel, forward: bool) -> EditorModel {
    let (r, u, d) = if forward {
        redo_step(m.undo, m.redo, (m.doc.text, m.cursor))
    } else {
        undo_step(m.undo, m.redo, (m.doc.text, m.cursor))
    };
    match r {
        Some((t, c)) => EditorModel { doc: edited(m.doc, t), cursor: c, undo: u, redo: d, ..m },
        None => with_status(
            m,
            if forward {
                "Already at newest change"@
            } else {
                "Already at oldest change"@
            },
        ),
    }
}

/// What running the command line `b` (the text after `:`) does, after the
/// line is cleared and the mode is back to normal.
#[verifier::opaque]
pub open spec fn command_line_effect(m: EditorModel, b: Seq<char>) -> (EditorModel, Option<
    DeferredAction,
>) {
    if b == seq!['w'] {
        (m, Some(DeferredAction::Write { then_quit: false }))
    } else if b == seq!['q'] {
        if m.doc.modified {
            (with_status(m, "No write since last change (add ! to override)"@), None)
        } else {
            (EditorModel { keys: KeymapView { should_quit: true, ..m.keys }, ..m }, None)
        }
    } else if b == seq!['q', '!'] {
        (EditorModel { keys: KeymapView { should_quit: true, ..m.keys }, ..m }, None)
    } else if b == seq!['w', 'q'] || b == seq!['x'] {
        (m, Some(DeferredAction::Write { then_quit: true }))
    } else if b == seq!['f', 'o', 'r', 'm', 'a', 't'] {
        (m, Some(DeferredAction::FormatDocument))
    } else if b == seq!['s', 'e', 't', ' ', 'w', 'r', 'a', 'p'] {
        (EditorModel { wrap: true, ..m }, None)
    } else if b == seq!['s', 'e', 't', ' ', 'n', 'o', 'w', 'r', 'a', 'p'] {
        (EditorModel { wrap: false, ..m }, None)
    } else if unavailable_command_line(b) {
        (with_status(m, "Not available in this editor"@), None)
    } else {
        (with_status(m, "Unknown command"@), None)
    }
}

/// `b` starts with `p`.
pub open spec fn starts_with(b: Seq<char>, p: Seq<char>) -> bool {
    b.len() >= p.len() && b.take(p.len() as int) == p
}

/// The command lines of features this editor does not have: substitution,
/// rename, opening files, shell commands, buffers and window splits.
pub open spec fn unavailable_command_line(b: Seq<char>) -> bool {
    starts_with(b, seq!['s', '/']) || starts_with(b, seq!['%', 's', '/']) || starts_with(
        b,
        seq!['r', 'e', 'n', 'a', 'm', 'e'],
    ) || starts_with(b, seq!['e', ' ']) || starts_with(b, seq!['!']) || b == seq!['b', 'n'] || b
        == seq!['b', 'p'] || b == seq!['s', 'p', 'l', 'i', 't'] || b == seq![
        'v',
        's',
        'p',
        'l',
        'i',
        't',
    ]
}

fn starts_with_exec(b: &Vec<char>, p: &Vec<char>) -> (r: bool)
    ensures
        r == starts_with(b@, p@),
{
    if b.len() < p.len() {
        return false;
    }
    let mut i = 0usize;
    while i < p.len()
        invariant
            i <= p@.len() <= b@.len(),
            forall|k: int| 0 <= k < i ==> b@[k] == p@[k],
        decreases p@.len() - i,
    {
        if b[i] != p[i] {
            assert(b@.take(p@.len() as int)[i as int] != p@[i as int]);
            return false;
        }
        i += 1;
    }
    assert(b@.take(p@.len() as int) =~= p@);
    true
}

fn chars_eq(b: &Vec<char>, p: &Vec<char>) -> (r: bool)
    ensures
        r == (b@ == p@),
{
    if b.len() != p.len() {
        return false;
    }
    let r = starts_with_exec(b, p);
    proof {
        if r {
            assert(b@ =~= b@.take(p@.len() as int));
        } else {
            if b@ == p@ {
                assert(b@.take(p@.len() as int) =~= b@);
            }
        }
    }
    r
}

fn unavailable_exec(b: &Vec<char>) -> (r: bool)
    ensures
        r == unavailable_command_line(b@),
{
    let p1 = vec!['s', '/'];
    let p2 = vec!['%', 's', '/'];
    let p3 = vec!['r', 'e', 'n', 'a', 'm', 'e'];
    let p4 = vec!['e', ' '];
    let p5 = vec!['!'];
    let p6 = vec!['b', 'n'];
    let p7 = vec!['b', 'p'];
    let p8 = vec!['s', 'p', 'l', 'i', 't'];
    let p9 = vec!['v', 's', 'p', 'l', 'i', 't'];
    proof {
        assert(p1@ =~= seq!['s', '/']);
        assert(p2@ =~= seq!['%', 's', '/']);
        assert(p3@ =~= seq!['r', 'e', 'n', 'a', 'm', 'e']);
        assert(p4@ =~= seq!['e', ' ']);
        assert(p5@ =~= seq!['!']);
        assert(p6@ =~= seq!['b', 'n']);
        assert(p7@ =~= seq!['b', 'p']);
        assert(p8@ =~= seq!['s', 'p', 'l', 'i', 't']);
        assert(p9@ =~= seq!['v', 's', 'p', 'l', 'i', 't']);
    }
    starts_with_exec(b, &p1) || starts_with_exec(b, &p2) || starts_with_exec(b, &p3)
        || starts_with_exec(b, &p4) || starts_with_exec(b, &p5) || chars_eq(b, &p6) || chars_eq(
        b,
        &p7,
    ) || chars_eq(b, &p8) || chars_eq(b, &p9)
}

/// Where a diagnostic starts.
pub open spec fn diag_pos(d: LspDiagnostic) -> Position {
    Position { row: d.start_line as usize, col: d.start_col as usize }
}

/// `a` comes before `b` in the text.
pub open spec fn before(a: Position, b: Position) -> bool {
    a.row < b.row || (a.row == b.row && a.col < b.col)
}

/// The first of the first `n` diagnostics that starts after `c`.
pub open spec fn first_after(ds: Seq<LspDiagnostic>, c: Position, n: nat) -> Option<nat>
    decreases n,
{
    if n == 0 {
        None
    } else {
        match first_after(ds, c, (n - 1) as nat) {
            Some(i) => Some(i),
            None => if before(c, diag_pos(ds[n - 1])) {
                Some((n - 1) as nat)
            } else {
                None
            },
        }
    }
}

/// The last of the first `n` diagnostics that starts before `c`.
pub open spec fn last_before(ds: Seq<LspDiagnostic>, c: Position, n: nat) -> Option<nat>
    decreases n,
{
    if n == 0 {
        None
    } else if before(diag_pos(ds[n - 1]), c) {
        Some((n - 1) as nat)
    } else {
        last_before(ds, c, (n - 1) as nat)
    }
}

/// The diagnostic that next (or previous, when `!forward`) diagnostic goes
/// to from `c`: the first one after it (the last one before it), wrapping
/// round to the first (the last) one.
pub open spec fn diag_target(ds: Seq<LspDiagnostic>, c: Position, forward: bool) -> Option<nat> {
    if ds.len() == 0 {
        None
    } else if forward {
        match first_after(ds, c, ds.len()) {
            Some(i) => Some(i),
            None => Some(0),
        }
    } else {
        match last_before(ds, c, ds.len()) {
            Some(i) => Some(i),
            None => Some((ds.len() - 1) as nat),
        }
    }
}

/// Next or previous diagnostic: within the diagnostics list when it shows,
/// else a jump of the cursor to the next or previous diagnostic in the text.
pub open spec fn diag_step(m: EditorModel, forward: bool) -> EditorModel {
    if m.keys.showing_diagnostics {
        if forward {
            if m.diagnostic_index + 1 < m.diagnostics.len() {
                EditorModel { diagnostic_index: (m.diagnostic_index + 1) as usize, ..m }
            } else {
                m
            }
        } else {
            EditorModel { diagnostic_index: sat_sub(m.diagnostic_index, 1), ..m }
        }
    } else {
        match diag_target(m.diagnostics, m.cursor, forward) {
            Some(i) => at(m, diag_pos(m.diagnostics[i as int])),
            None => with_status(m, "No diagnostics"@),
        }
    }
}

/// What the other commands do, and the work they leave to the front end.
#[verifier::opaque]
pub open spec fn other_effect(m: EditorModel, cmd: Command) -> (EditorModel, Option<DeferredAction>) {
    let c = m.cursor;
    let len = spec_line_len(m.doc.text, c.row as int);
    match cmd {
        Command::Undo => (history_effect(m, false), None),
        Command::Redo => (history_effect(m, true), None),
        Command::EnterInsertMode => (in_mode(m, Mode::Insert), None),
        Command::EnterInsertModeAfter => (
            in_mode(at(m, Position { col: if c.col + 1 <= len { (c.col + 1) as usize } else { len as usize }, ..c }), Mode::Insert),
            None,
        ),
        Command::EnterInsertModeLineEnd => (
            in_mode(at(m, Position { col: len as usize, ..c }), Mode::Insert),
            None,
        ),
        Command::ExitToNormalMode => (
            in_mode(at(m, Position { col: sat_sub(c.col, 1), ..c }), Mode::Normal),
            None,
        ),
        Command::EnterCommandMode => (
            EditorModel { command_buffer: Seq::empty(), ..in_mode(m, Mode::Command) },
            None,
        ),
        Command::CommandInput(ch) => (
            EditorModel { command_buffer: m.command_buffer.push(ch), ..m },
            None,
        ),
        Command::CommandBackspace => if m.command_buffer.len() == 0 {
            (in_mode(m, Mode::Normal), None)
        } else {
            (EditorModel { command_buffer: m.command_buffer.drop_last(), ..m }, None)
        },
        Command::CommandExecute => command_line_effect(
            EditorModel { command_buffer: Seq::empty(), ..in_mode(m, Mode::Normal) },
            m.command_buffer,
        ),
        Command::FormatDocument => (m, Some(DeferredAction::FormatDocument)),
        Command::PlayMacro(ch) => (m, Some(DeferredAction::PlayMacro(ch))),
        Command::PlayLastMacro => (
            m,
            match m.last_macro {
                Some(ch) => Some(DeferredAction::PlayMacro(ch)),
                None => None,
            },
        ),
        Command::StartMacro(ch) => (
            EditorModel {
                keys: KeymapView { recording_macro: Some(ch), ..m.keys },
                macro_buffer: Seq::empty(),
                ..m
            },
            None,
        ),
        Command::StopMacro => (
            match m.keys.recording_macro {
                Some(r) => EditorModel {
                    keys: KeymapView { recording_macro: None, ..m.keys },
                    macros: m.macros.push((r, m.macro_buffer)),
                    macro_buffer: Seq::empty(),
                    ..m
                },
                None => m,
            },
            None,
        ),
        Command::DismissPopup => (
            EditorModel {
                keys: KeymapView {
                    showing_diagnostics: false,
                    showing_hover: false,
                    hover_text: None,
                    ..m.keys
                },
                ..m
            },
            None,
        ),
        Command::DiagnosticList => (
            if m.diagnostics.len() == 0 {
                with_status(m, "No diagnostics"@)
            } else {
                EditorModel {
                    keys: KeymapView { showing_diagnostics: true, ..m.keys },
                    diagnostic_index: if m.diagnostic_index < m.diagnostics.len() {
                        m.diagnostic_index
                    } else {
                        (m.diagnostics.len() - 1) as usize
                    },
                    ..m
                }
            },
            None,
        ),
        Command::DiagnosticNext => (diag_step(m, true), None),
        Command::DiagnosticPrev => (diag_step(m, false), None),
        Command::DiagnosticJump => {
            let m1 = if m.diagnostic_index < m.diagnostics.len() {
                at(m, diag_pos(m.diagnostics[m.diagnostic_index as int]))
            } else {
                m
            };
            (EditorModel { keys: KeymapView { showing_diagnostics: false, ..m1.keys }, ..m1 }, None)
        },
        Command::FileFinderConfirm => match m.file_finder_selection {
            Some(p) => (
                EditorModel {
                    file_finder_selection: None,
                    keys: KeymapView { showing_file_finder: false, ..m.keys },
                    ..m
                },
                Some(DeferredAction::OpenFile(p)),
            ),
            None => (m, None),
        },
        Command::FileFinderCancel => (
            EditorModel {
                file_finder_selection: None,
                keys: KeymapView { showing_file_finder: false, ..m.keys },
                ..m
            },
            None,
        ),
        // Carried out by the front end's loop, or kept by the keymap.
        Command::CommandHistoryPrev | Command::CommandHistoryNext | Command::GotoDefinition
        | Command::Hover | Command::FindReferences | Command::TriggerCompletion
        | Command::ReferenceJump | Command::OpenFileFinder | Command::CodeAction
        | Command::CodeActionAccept | Command::SelectRegister(_) => (m, None),
        _ => (with_status(m, "Not available in this editor"@), None),
    }
}

/// What a command does to the editor state, and the work it leaves to the
/// front end: the status message is cleared, the change is tracked for `.`,
/// the command takes effect, and the cursor is moved back onto the text.
#[verifier::opaque]
pub open spec fn spec_execute(m: EditorModel, cmd: Command) -> (EditorModel, Option<DeferredAction>) {
    let m0 = EditorModel { status: None, tracker: spec_track_change(m.tracker, cmd), ..m };
    if is_front_end(cmd) {
        (m0, None)
    } else {
        executed(m0, cmd)
    }
}

/// The commands that the front end carries out (language-server requests,
/// the file finder's scan, and the register that the keymap keeps): the
/// editor state is left as it is.
pub open spec fn is_front_end(cmd: Command) -> bool {
    match cmd {
        Command::TriggerCompletion | Command::GotoDefinition | Command::Hover
        | Command::FindReferences | Command::ReferenceJump | Command::CodeAction
        | Command::CodeActionAccept | Command::OpenFileFinder | Command::SelectRegister(_) => true,
        _ => false,
    }
}

/// A command that the editor carries out itself, once the status is
/// cleared and the change tracked: its effect, then the cursor moved back
/// onto the text.
pub open spec fn executed(m0: EditorModel, cmd: Command) -> (EditorModel, Option<DeferredAction>) {
    let (m1, r) = if is_motion(cmd) {
        (at(m0, motion_target(m0, cmd)), None)
    } else if is_text_motion(cmd) {
        (at(m0, text_motion_target(m0, cmd)), None)
    } else if is_edit(cmd) {
        (edit_effect(m0, cmd), None)
    } else if is_line_edit(cmd) {
        (line_edit_effect(m0, cmd), None)
    } else if is_register_command(cmd) {
        (register_effect(m0, cmd), None)
    } else if is_operator(cmd) {
        (operator_effect(m0, cmd), None)
    } else {
        other_effect(m0, cmd)
    };
    (at(m1, clamped(m1.doc.text, m1.cursor, m1.keys.mode)), r)
}


fn is_text_motion_exec(cmd: &Command) -> (r: bool)
    ensures
        r == is_text_motion(*cmd),
{
    match cmd {
        Command::MoveFirstNonBlank | Command::MoveWordForward | Command::MoveWordBackward
        | Command::MoveWordEnd | Command::MoveWORDForward | Command::MoveWORDBackward
        | Command::MoveWORDEnd | Command::MoveParagraphForward | Command::MoveParagraphBackward
        | Command::FindCharForward(_) | Command::FindCharBackward(_) | Command::TillCharForward(_)
        | Command::TillCharBackward(_) => true,
        _ => false,
    }
}

fn is_line_edit_exec(cmd: &Command) -> (r: bool)
    ensures
        r == is_line_edit(*cmd),
{
    match cmd {
        Command::JoinLines | Command::IndentLine | Command::DedentLine | Command::ReplaceChar(_)
        | Command::InsertNewlineAbove => true,
        _ => false,
    }
}

fn is_register_command_exec(cmd: &Command) -> (r: bool)
    ensures
        r == is_register_command(*cmd),
{
    match cmd {
        Command::EnterVisualMode | Command::EnterVisualLineMode | Command::VisualSwapAnchor
        | Command::YankLine | Command::VisualYank | Command::VisualDelete | Command::PasteAfter
        | Command::PasteBefore => true,
        _ => false,
    }
}

fn is_operator_exec(cmd: &Command) -> (r: bool)
    ensures
        r == is_operator(*cmd),
{
    match cmd {
        Command::DeleteMotion(_) | Command::ChangeMotion(_) | Command::YankMotion(_) => true,
        _ => false,
    }
}

fn is_front_end_exec(cmd: &Command) -> (r: bool)
    ensures
        r == is_front_end(*cmd),
{
    match cmd {
        Command::TriggerCompletion | Command::GotoDefinition | Command::Hover
        | Command::FindReferences | Command::ReferenceJump | Command::CodeAction
        | Command::CodeActionAccept | Command::OpenFileFinder | Command::SelectRegister(_) => true,
        _ => false,
    }
}

fn is_motion_exec(cmd: &Command) -> (r: bool)
    ensures
        r == is_motion(*cmd),
{
    match cmd {
        Command::MoveLeft | Command::MoveRight | Command::MoveUp | Command::MoveDown
        | Command::MoveLineStart | Command::MoveLineEnd | Command::GotoTop | Command::GotoBottom
        | Command::HalfPageDown | Command::HalfPageUp => true,
        _ => false,
    }
}

fn is_edit_exec(cmd: &Command) -> (r: bool)
    ensures
        r == is_edit(*cmd),
{
    match cmd {
        Command::InsertChar(_) | Command::InsertTab | Command::InsertNewline
        | Command::DeleteCharBackward | Command::DeleteCharForward | Command::DeleteLine
        | Command::InsertNewlineBelow => true,
        _ => false,
    }
}

fn apply_motion(state: &mut EditorState, cmd: Command)
    requires
        is_motion(cmd),
    ensures
        final(state).model() == at(old(state).model(), motion_target(old(state).model(), cmd)),
        final(state).history == old(state).history,
{
    proof {
        reveal(motion_target);
    }
    let half = (state.page_height / 2) as usize;
    let c = state.cursor;
    match cmd {
        Command::MoveLeft => state.cursor.col = c.col.saturating_sub(1),
        Command::MoveRight => state.cursor.col = c.col.saturating_add(1),
        Command::MoveUp => state.cursor.row = c.row.saturating_sub(1),
        Command::MoveDown => state.cursor.row = c.row.saturating_add(1),
        Command::MoveLineStart => state.cursor.col = 0,
        Command::MoveLineEnd => state.cursor.col = usize::MAX,
        Command::GotoTop => state.cursor = Position { row: 0, col: 0 },
        Command::GotoBottom => state.cursor.row = usize::MAX,
        Command::HalfPageDown => state.cursor.row = c.row.saturating_add(half),
        Command::HalfPageUp => state.cursor.row = c.row.saturating_sub(half),
        _ => {},
    }
}

#[verifier::rlimit(80)]
fn apply_edit(state: &mut EditorState, cmd: Command)
    requires
        is_edit(cmd),
        old(state).wf(),
        old(state).doc.version + old(state).tab_width + 1 < i64::MAX,
        old(state).doc.text().len() + old(state).tab_width < usize::MAX,
    ensures
        final(state).model() == edit_effect(old(state).model(), cmd),
        final(state).history.wf(),
{
    proof {
        reveal(edit_effect);
    }
    let c = state.cursor;
    let ghost t = state.doc.text();
    proof {
        lemma_cursor_index(t, c);
        lemma_line_count_bound(t);
    }
    state.history.save(&state.doc.rope, c);
    match cmd {
        Command::InsertChar(ch) => {
            state.doc.insert_char(c, ch);
            state.cursor.col = c.col.saturating_add(1);
        },
        Command::InsertTab => {
            let n = state.tab_width;
            state.insert_spaces(n);
        },
        Command::InsertNewline => {
            state.doc.insert_newline(c);
            state.cursor = Position { row: c.row + 1, col: 0 };
        },
        Command::DeleteCharBackward => {
            if let Some(p) = state.doc.delete_char_backward(c) {
                state.cursor = p;
            }
        },
        Command::DeleteCharForward => {
            state.doc.delete_char_forward(c);
        },
        Command::DeleteLine => {
            state.doc.delete_line(c.row);
        },
        Command::InsertNewlineBelow => {
            let len = state.doc.line_len(c.row);
            let end = Position { row: c.row, col: len };
            proof {
                lemma_cursor_index(t, end);
            }
            state.doc.insert_newline(end);
            state.cursor = Position { row: c.row + 1, col: 0 };
            state.keys.mode = Mode::Insert;
        },
        _ => {},
    }
}


proof fn lemma_first_after_stays(ds: Seq<LspDiagnostic>, c: Position, n: nat, m: nat)
    requires
        n <= m,
        first_after(ds, c, n) is Some,
    ensures
        first_after(ds, c, m) == first_after(ds, c, n),
    decreases m - n,
{
    if n < m {
        lemma_first_after_stays(ds, c, n, (m - 1) as nat);
    }
}

fn first_diag_after(ds: &Vec<LspDiagnostic>, c: Position) -> (r: Option<usize>)
    ensures
        match first_after(ds@, c, ds@.len()) {
            Some(i) => r == Some(i as usize),
            None => r is None,
        },
{
    let mut i = 0usize;
    while i < ds.len()
        invariant
            i <= ds@.len(),
            first_after(ds@, c, i as nat) is None,
        decreases ds@.len() - i,
    {
        let p = Position { row: ds[i].start_line as usize, col: ds[i].start_col as usize };
        if c.row < p.row || (c.row == p.row && c.col < p.col) {
            proof {
                lemma_first_after_stays(ds@, c, (i + 1) as nat, ds@.len());
            }
            return Some(i);
        }
        i += 1;
    }
    None
}

fn last_diag_before(ds: &Vec<LspDiagnostic>, c: Position) -> (r: Option<usize>)
    ensures
        match last_before(ds@, c, ds@.len()) {
            Some(i) => r == Some(i as usize),
            None => r is None,
        },
{
    let mut i = ds.len();
    while i > 0
        invariant
            i <= ds@.len(),
            last_before(ds@, c, ds@.len()) == last_before(ds@, c, i as nat),
        decreases i,
    {
        let p = Position { row: ds[i - 1].start_line as usize, col: ds[i - 1].start_col as usize };
        if p.row < c.row || (p.row == c.row && p.col < c.col) {
            return Some(i - 1);
        }
        i -= 1;
    }
    None
}


fn diag_step_exec(state: &mut EditorState, forward: bool)
    ensures
        final(state).model() == diag_step(old(state).model(), forward),
        final(state).history == old(state).history,
{
    if state.keys.showing_diagnostics {
        if forward {
            if state.diagnostic_index < state.diagnostics.len() && state.diagnostic_index + 1
                < state.diagnostics.len() {
                state.diagnostic_index = state.diagnostic_index + 1;
            }
        } else {
            state.diagnostic_index = state.diagnostic_index.saturating_sub(1);
        }
    } else {
        let n = state.diagnostics.len();
        let target = if n == 0 {
            None
        } else if forward {
            match first_diag_after(&state.diagnostics, state.cursor) {
                Some(i) => Some(i),
                None => Some(0),
            }
        } else {
            match last_diag_before(&state.diagnostics, state.cursor) {
                Some(i) => Some(i),
                None => Some(n - 1),
            }
        };
        proof {
            lemma_diag_targets_in_range(state.diagnostics@, state.cursor);
        }
        match target {
            Some(i) => {
                state.cursor = Position {
                    row: state.diagnostics[i].start_line as usize,
                    col: state.diagnostics[i].start_col as usize,
                };
            },
            None => {
                state.status_message = Some("No diagnostics".to_owned());
            },
        }
    }
}

proof fn lemma_first_after_range(ds: Seq<LspDiagnostic>, c: Position, n: nat)
    requires
        n <= ds.len(),
    ensures
        first_after(ds, c, n) matches Some(i) ==> i < n,
    decreases n,
{
    if n > 0 {
        lemma_first_after_range(ds, c, (n - 1) as nat);
    }
}

proof fn lemma_last_before_range(ds: Seq<LspDiagnostic>, c: Position, n: nat)
    requires
        n <= ds.len(),
    ensures
        last_before(ds, c, n) matches Some(i) ==> i < n,
    decreases n,
{
    if n > 0 {
        lemma_last_before_range(ds, c, (n - 1) as nat);
    }
}

proof fn lemma_diag_targets_in_range(ds: Seq<LspDiagnostic>, c: Position)
    ensures
        diag_target(ds, c, true) matches Some(i) ==> i < ds.len(),
        diag_target(ds, c, false) matches Some(i) ==> i < ds.len(),
{
    lemma_first_after_range(ds, c, ds.len());
    lemma_last_before_range(ds, c, ds.len());
}

fn apply_history(state: &mut EditorState, forward: bool)
    requires
        old(state).history.wf(),
        old(state).doc.version + 1 < i64::MAX,
    ensures
        final(state).model() == history_effect(old(state).model(), forward),
        final(state).history.wf(),
{
    let c = state.cursor;
    let restored = if forward {
        state.history.redo(&state.doc.rope, c)
    } else {
        state.history.undo(&state.doc.rope, c)
    };
    match restored {
        Some((rope, cursor)) => {
            state.doc.rope = rope;
            state.doc.modified = true;
            state.doc.bump_version();
            state.cursor = cursor;
        },
        None => {
            state.status_message = Some(
                if forward {
                    "Already at newest change".to_owned()
                } else {
                    "Already at oldest change".to_owned()
                },
            );
        },
    }
}

/// The commands that change the mode or the command line.
pub open spec fn is_mode_change(cmd: Command) -> bool {
    match cmd {
        Command::EnterInsertMode | Command::EnterInsertModeAfter | Command::EnterInsertModeLineEnd
        | Command::ExitToNormalMode | Command::EnterCommandMode | Command::CommandInput(_)
        | Command::CommandBackspace | Command::CommandExecute => true,
        _ => false,
    }
}

#[verifier::rlimit(80)]
fn apply_mode_change(state: &mut EditorState, cmd: Command) -> (r: Option<DeferredAction>)
    requires
        is_mode_change(cmd),
    ensures
        (final(state).model(), r) == other_effect(old(state).model(), cmd),
        final(state).history == old(state).history,
{
    proof {
        reveal(other_effect);
    }
    let c = state.cursor;
    match cmd {
        Command::EnterInsertMode => {
            state.keys.mode = Mode::Insert;
            None
        },
        Command::EnterInsertModeAfter => {
            let len = state.doc.line_len(c.row);
            state.cursor.col = if c.col < len {
                c.col + 1
            } else {
                len
            };
            state.keys.mode = Mode::Insert;
            None
        },
        Command::EnterInsertModeLineEnd => {
            state.cursor.col = state.doc.line_len(c.row);
            state.keys.mode = Mode::Insert;
            None
        },
        Command::ExitToNormalMode => {
            state.cursor.col = c.col.saturating_sub(1);
            state.keys.mode = Mode::Normal;
            None
        },
        Command::EnterCommandMode => {
            state.keys.mode = Mode::Command;
            state.command_buffer = Vec::new();
            proof {
                assert(state.command_buffer@ =~= Seq::<char>::empty());
            }
            None
        },
        Command::CommandInput(ch) => {
            state.command_buffer.push(ch);
            None
        },
        Command::CommandBackspace => {
            if state.command_buffer.len() == 0 {
                state.keys.mode = Mode::Normal;
            } else {
                state.command_buffer.pop();
            }
            None
        },
        _ => apply_command_execute(state),
    }
}

fn apply_command_execute(state: &mut EditorState) -> (r: Option<DeferredAction>)
    ensures
        (final(state).model(), r) == other_effect(old(state).model(), Command::CommandExecute),
        final(state).history == old(state).history,
{
    proof {
        reveal(other_effect);
    }
    let mut b: Vec<char> = Vec::new();
    std::mem::swap(&mut b, &mut state.command_buffer);
    state.keys.mode = Mode::Normal;
    proof {
        assert(state.command_buffer@ =~= Seq::<char>::empty());
    }
    run_command_line(state, &b)
}

/// The macro commands and formatting.
pub open spec fn is_macro_command(cmd: Command) -> bool {
    match cmd {
        Command::FormatDocument | Command::PlayMacro(_) | Command::PlayLastMacro
        | Command::StartMacro(_) | Command::StopMacro => true,
        _ => false,
    }
}

#[verifier::rlimit(80)]
fn apply_macro_command(state: &mut EditorState, cmd: Command) -> (r: Option<DeferredAction>)
    requires
        is_macro_command(cmd),
    ensures
        (final(state).model(), r) == other_effect(old(state).model(), cmd),
        final(state).history == old(state).history,
{
    proof {
        reveal(other_effect);
    }
    match cmd {
        Command::FormatDocument => Some(DeferredAction::FormatDocument),
        Command::PlayMacro(ch) => Some(DeferredAction::PlayMacro(ch)),
        Command::PlayLastMacro => match state.last_macro {
            Some(ch) => Some(DeferredAction::PlayMacro(ch)),
            None => None,
        },
        Command::StartMacro(ch) => {
            state.keys.recording_macro = Some(ch);
            state.macro_buffer = Vec::new();
            proof {
                assert(state.macro_buffer@ =~= Seq::<KeyInput>::empty());
            }
            None
        },
        _ => {
            if let Some(r) = state.keys.recording_macro {
                let ghost before = state.macros@;
                let mut keys: Vec<KeyInput> = Vec::new();
                std::mem::swap(&mut keys, &mut state.macro_buffer);
                state.macros.push((r, keys));
                state.keys.recording_macro = None;
                proof {
                    assert(state.macro_buffer@ =~= Seq::<KeyInput>::empty());
                    assert(state.macros@.map_values(|e: (char, Vec<KeyInput>)| (e.0, e.1@))
                        =~= before.map_values(|e: (char, Vec<KeyInput>)| (e.0, e.1@)).push(
                        (r, old(state).macro_buffer@),
                    ));
                }
            }
            None
        },
    }
}

/// The popup commands: diagnostics and the file finder.
pub open spec fn is_popup_command(cmd: Command) -> bool {
    match cmd {
        Command::DismissPopup | Command::DiagnosticList | Command::DiagnosticNext
        | Command::DiagnosticPrev | Command::DiagnosticJump | Command::FileFinderConfirm
        | Command::FileFinderCancel => true,
        _ => false,
    }
}

#[verifier::rlimit(80)]
fn apply_popup_command(state: &mut EditorState, cmd: Command) -> (r: Option<DeferredAction>)
    requires
        is_popup_command(cmd),
    ensures
        (final(state).model(), r) == other_effect(old(state).model(), cmd),
        final(state).history == old(state).history,
{
    proof {
        reveal(other_effect);
    }
    match cmd {
        Command::DismissPopup => {
            state.keys.showing_diagnostics = false;
            state.keys.showing_hover = false;
            state.keys.hover_text = None;
            None
        },
        Command::DiagnosticList => {
            let n = state.diagnostics.len();
            if n == 0 {
                state.status_message = Some("No diagnostics".to_owned());
            } else {
                state.keys.showing_diagnostics = true;
                if state.diagnostic_index >= n {
                    state.diagnostic_index = n - 1;
                }
            }
            None
        },
        Command::DiagnosticNext => {
            diag_step_exec(state, true);
            None
        },
        Command::DiagnosticPrev => {
            diag_step_exec(state, false);
            None
        },
        Command::DiagnosticJump => {
            if state.diagnostic_index < state.diagnostics.len() {
                let i = state.diagnostic_index;
                state.cursor = Position {
                    row: state.diagnostics[i].start_line as usize,
                    col: state.diagnostics[i].start_col as usize,
                };
            }
            state.keys.showing_diagnostics = false;
            None
        },
        Command::FileFinderConfirm => match state.file_finder_selection.take() {
            Some(p) => {
                state.keys.showing_file_finder = false;
                Some(DeferredAction::OpenFile(p))
            },
            None => None,
        },
        _ => {
            state.file_finder_selection = None;
            state.keys.showing_file_finder = false;
            None
        },
    }
}

fn apply_other(state: &mut EditorState, cmd: Command) -> (r: Option<DeferredAction>)
    requires
        old(state).history.wf(),
        old(state).doc.version + 1 < i64::MAX,
    ensures
        (final(state).model(), r) == other_effect(old(state).model(), cmd),
        final(state).history.wf(),
{
    proof {
        reveal(other_effect);
    }
    match cmd {
        Command::Undo => {
            apply_history(state, false);
            None
        },
        Command::Redo => {
            apply_history(state, true);
            None
        },
        Command::EnterInsertMode | Command::EnterInsertModeAfter | Command::EnterInsertModeLineEnd
        | Command::ExitToNormalMode | Command::EnterCommandMode | Command::CommandInput(_)
        | Command::CommandBackspace | Command::CommandExecute => apply_mode_change(state, cmd),
        Command::FormatDocument | Command::PlayMacro(_) | Command::PlayLastMacro
        | Command::StartMacro(_) | Command::StopMacro => apply_macro_command(state, cmd),
        Command::DismissPopup | Command::DiagnosticList | Command::DiagnosticNext
        | Command::DiagnosticPrev | Command::DiagnosticJump | Command::FileFinderConfirm
        | Command::FileFinderCancel => apply_popup_command(state, cmd),
        Command::CommandHistoryPrev | Command::CommandHistoryNext | Command::GotoDefinition
        | Command::Hover | Command::FindReferences | Command::TriggerCompletion
        | Command::ReferenceJump | Command::OpenFileFinder | Command::CodeAction
        | Command::CodeActionAccept | Command::SelectRegister(_) => None,
        _ => {
            state.status_message = Some("Not available in this editor".to_owned());
            None
        },
    }
}

#[verifier::rlimit(40)]
fn run_command_line(state: &mut EditorState, b: &Vec<char>) -> (r: Option<DeferredAction>)
    ensures
        (final(state).model(), r) == command_line_effect(old(state).model(), b@),
        final(state).history == old(state).history,
{
    proof {
        reveal(command_line_effect);
    }
    let n = b.len();
    if n == 1 && b[0] == 'w' {
        assert(b@ =~= seq!['w']);
        Some(DeferredAction::Write { then_quit: false })
    } else if n == 1 && b[0] == 'q' {
        assert(b@ =~= seq!['q']);
        if state.doc.modified {
            state.status_message = Some("No write since last change (add ! to override)".to_owned());
        } else {
            state.keys.should_quit = true;
        }
        None
    } else if n == 2 && b[0] == 'q' && b[1] == '!' {
        assert(b@ =~= seq!['q', '!']);
        state.keys.should_quit = true;
        None
    } else if (n == 2 && b[0] == 'w' && b[1] == 'q') || (n == 1 && b[0] == 'x') {
        assert(b@ =~= seq!['w', 'q'] || b@ =~= seq!['x']);
        Some(DeferredAction::Write { then_quit: true })
    } else {
        assert(b@ != seq!['w'] && b@ != seq!['q']);
        assert(b@ != seq!['q', '!']);
        assert(b@ != seq!['w', 'q'] && b@ != seq!['x']);
        let fmt = vec!['f', 'o', 'r', 'm', 'a', 't'];
        let wrap_on = vec!['s', 'e', 't', ' ', 'w', 'r', 'a', 'p'];
        let wrap_off = vec!['s', 'e', 't', ' ', 'n', 'o', 'w', 'r', 'a', 'p'];
        proof {
            assert(fmt@ =~= seq!['f', 'o', 'r', 'm', 'a', 't']);
            assert(wrap_on@ =~= seq!['s', 'e', 't', ' ', 'w', 'r', 'a', 'p']);
            assert(wrap_off@ =~= seq!['s', 'e', 't', ' ', 'n', 'o', 'w', 'r', 'a', 'p']);
        }
        if chars_eq(b, &fmt) {
            Some(DeferredAction::FormatDocument)
        } else if chars_eq(b, &wrap_on) {
            state.wrap = true;
            None
        } else if chars_eq(b, &wrap_off) {
            state.wrap = false;
            None
        } else if unavailable_exec(b) {
            state.status_message = Some("Not available in this editor".to_owned());
            None
        } else {
            state.status_message = Some("Unknown command".to_owned());
            None
        }
    }
}

/// Carries out a decoded command: clears the status message, tracks the
/// change for `.`, applies the command (see `spec_execute`), and moves the
/// cursor back onto the text. Returns the work left to the front end.
pub fn execute(state: &mut EditorState, cmd: Command) -> (r: Option<DeferredAction>)
    requires
        old(state).wf(),
        old(state).doc.version + old(state).tab_width + 1 < i64::MAX,
        old(state).doc.text().len() + old(state).tab_width < usize::MAX,
    ensures
        final(state).wf(),
        (final(state).model(), r) == spec_execute(old(state).model(), cmd),
{
    state.status_message = None;
    state.tracker.track_change(&cmd);
    if is_front_end_exec(&cmd) {
        proof {
            reveal(spec_execute);
        }
        return None;
    }
    let r = if is_motion_exec(&cmd) {
        apply_motion(state, cmd);
        None
    } else if is_text_motion_exec(&cmd) {
        apply_text_motion(state, cmd);
        None
    } else if is_edit_exec(&cmd) {
        apply_edit(state, cmd);
        None
    } else if is_line_edit_exec(&cmd) {
        apply_line_edit(state, cmd);
        None
    } else if is_register_command_exec(&cmd) {
        apply_register_command(state, cmd);
        None
    } else if is_operator_exec(&cmd) {
        apply_operator(state, cmd);
        None
    } else {
        apply_other(state, cmd)
    };
    state.clamp_cursor();
    proof {
        reveal(spec_execute);
        lemma_clamped_fits(state.doc.text(), state.cursor, state.keys.mode);
    }
    r
}


/// What the front end does after a key: the language-server requests and
/// popups that a command asks for, the work a command leaves (see
/// `DeferredAction`), telling the server of changes, and quitting.
#[derive(Debug, Clone)]
pub enum AppAction {
    RequestCompletion,
    RequestDefinition,
    RequestHover,
    RequestReferences,
    JumpToReference,
    OpenFileFinder,
    RequestCodeAction,
    AcceptCodeAction,
    Deferred(DeferredAction),
    NotifyChange,
    Quit,
}

/// The completion commands, which keep the completion menu open.
pub open spec fn is_completion_command(cmd: Command) -> bool {
    match cmd {
        Command::TriggerCompletion | Command::AcceptCompletion | Command::CancelCompletion
        | Command::CompletionNext | Command::CompletionPrev => true,
        _ => false,
    }
}

/// The request or popup that the front end opens for a command, if any.
pub open spec fn command_request(cmd: Command) -> Option<AppAction> {
    match cmd {
        Command::TriggerCompletion => Some(AppAction::RequestCompletion),
        Command::GotoDefinition => Some(AppAction::RequestDefinition),
        Command::Hover => Some(AppAction::RequestHover),
        Command::FindReferences => Some(AppAction::RequestReferences),
        Command::ReferenceJump => Some(AppAction::JumpToReference),
        Command::OpenFileFinder => Some(AppAction::OpenFileFinder),
        Command::CodeAction => Some(AppAction::RequestCodeAction),
        Command::CodeActionAccept => Some(AppAction::AcceptCodeAction),
        _ => None,
    }
}

/// An optional action as a sequence of none or one.
pub open spec fn opt_seq(a: Option<AppAction>) -> Seq<AppAction> {
    match a {
        Some(a) => seq![a],
        None => Seq::empty(),
    }
}

/// The key that stops a macro recording: a plain `q` in normal mode, which
/// is not itself recorded.
pub open spec fn stops_recording(m: EditorModel, key: KeyInput) -> bool {
    key.code == KeyCode::Char('q') && !key.ctrl && m.keys.mode == Mode::Normal
}

/// One turn of the front end's loop on a key: while a macro is recorded the
/// key joins it (unless it is the `q` that stops the recording); the keymap
/// decodes the key; a command other than a completion one closes the
/// completion menu; the command is carried out (`spec_execute`); then come
/// the request it asks for, the work it leaves, a change notice to the
/// language server, and quitting when asked.
pub open spec fn spec_app_step(m: EditorModel, key: KeyInput) -> (EditorModel, Seq<AppAction>) {
    let m1 = if m.keys.recording_macro is Some && !stops_recording(m, key) {
        EditorModel { macro_buffer: m.macro_buffer.push(key), ..m }
    } else {
        m
    };
    let (keys2, cmd) = spec_map_key(m1.keys, key);
    after_key(EditorModel { keys: keys2, ..m1 }, cmd)
}

/// The rest of a turn once the keymap has decoded the key.
pub open spec fn after_key(m2: EditorModel, cmd: Option<Command>) -> (EditorModel, Seq<AppAction>) {
    match cmd {
        None => (m2, seq![AppAction::NotifyChange] + opt_seq(
            if m2.keys.should_quit { Some(AppAction::Quit) } else { None },
        )),
        Some(c) => {
            let m3 = if !is_completion_command(c) && m2.keys.showing_completion {
                EditorModel { keys: KeymapView { showing_completion: false, ..m2.keys }, ..m2 }
            } else {
                m2
            };
            let (m4, d) = spec_execute(m3, c);
            (
                m4,
                opt_seq(command_request(c)) + opt_seq(
                    match d {
                        Some(d) => Some(AppAction::Deferred(d)),
                        None => None,
                    },
                ) + seq![AppAction::NotifyChange] + opt_seq(
                    if m4.keys.should_quit { Some(AppAction::Quit) } else { None },
                ),
            )
        },
    }
}

fn command_request_exec(cmd: &Command) -> (r: Option<AppAction>)
    ensures
        r == command_request(*cmd),
{
    match cmd {
        Command::TriggerCompletion => Some(AppAction::RequestCompletion),
        Command::GotoDefinition => Some(AppAction::RequestDefinition),
        Command::Hover => Some(AppAction::RequestHover),
        Command::FindReferences => Some(AppAction::RequestReferences),
        Command::ReferenceJump => Some(AppAction::JumpToReference),
        Command::OpenFileFinder => Some(AppAction::OpenFileFinder),
        Command::CodeAction => Some(AppAction::RequestCodeAction),
        Command::CodeActionAccept => Some(AppAction::AcceptCodeAction),
        _ => None,
    }
}

fn is_completion_command_exec(cmd: &Command) -> (r: bool)
    ensures
        r == is_completion_command(*cmd),
{
    match cmd {
        Command::TriggerCompletion | Command::AcceptCompletion | Command::CancelCompletion
        | Command::CompletionNext | Command::CompletionPrev => true,
        _ => false,
    }
}

/// Handles one key: see `spec_app_step`. Returns what the front end does
/// next, in order.
pub fn app_step(state: &mut EditorState, key: KeyInput) -> (acts: Vec<AppAction>)
    requires
        old(state).wf(),
        old(state).doc.version + old(state).tab_width + 1 < i64::MAX,
        old(state).doc.text().len() + old(state).tab_width < usize::MAX,
    ensures
        final(state).wf(),
        (final(state).model(), acts@) == spec_app_step(old(state).model(), key),
{
    if state.keys.recording_macro.is_some() && !(key.code == KeyCode::Char('q') && !key.ctrl
        && state.keys.mode == Mode::Normal) {
        state.macro_buffer.push(key);
    }
    let cmd = map_key(&mut state.keys, key);
    finish_key(state, cmd)
}

#[verifier::rlimit(80)]
fn finish_key(state: &mut EditorState, cmd: Option<Command>) -> (acts: Vec<AppAction>)
    requires
        old(state).wf(),
        old(state).doc.version + old(state).tab_width + 1 < i64::MAX,
        old(state).doc.text().len() + old(state).tab_width < usize::MAX,
    ensures
        final(state).wf(),
        (final(state).model(), acts@) == after_key(old(state).model(), cmd),
{
    let ghost m = state.model();
    let mut acts: Vec<AppAction> = Vec::new();
    match cmd {
        None => {},
        Some(c) => {
            if !is_completion_command_exec(&c) && state.keys.showing_completion {
                state.keys.showing_completion = false;
            }
            let d = execute(state, c);
            if let Some(a) = command_request_exec(&c) {
                acts.push(a);
            }
            if let Some(d) = d {
                acts.push(AppAction::Deferred(d));
            }
        },
    }
    acts.push(AppAction::NotifyChange);
    if state.keys.should_quit {
        acts.push(AppAction::Quit);
    }
    proof {
        let (m_after, expected) = after_key(m, cmd);
        assert(acts@ =~= expected);
    }
    acts
}


/// The keys recorded last for register `reg` among the first `n` macros.
pub open spec fn recorded_macro(ms: Seq<(char, Seq<KeyInput>)>, reg: char, n: nat) -> Option<Seq<KeyInput>>
    decreases n,
{
    if n == 0 {
        None
    } else if ms[n - 1].0 == reg {
        Some(ms[n - 1].1)
    } else {
        recorded_macro(ms, reg, (n - 1) as nat)
    }
}

/// Starts replaying the macro in register `reg`: its keys, with `reg`
/// remembered for `@@`; or `None`, with a message, when nothing was recorded
/// there.
pub fn begin_macro(state: &mut EditorState, reg: char) -> (r: Option<Vec<KeyInput>>)
    ensures
        ({
            let m = old(state).model();
            match recorded_macro(m.macros, reg, m.macros.len()) {
                Some(keys) => r matches Some(v) && v@ == keys && final(state).model() == (
                EditorModel { last_macro: Some(reg), ..m }),
                None => r is None && final(state).model() == with_status(
                    m,
                    "Macro register is empty"@,
                ),
            }
        }),
        final(state).history == old(state).history,
        final(state).doc == old(state).doc,
        final(state).cursor == old(state).cursor,
{
    let ghost ms = state.model().macros;
    let mut i = state.macros.len();
    while i > 0
        invariant
            i <= state.macros@.len(),
            *state == *old(state),
            ms == state.model().macros,
            ms.len() == state.macros@.len(),
            recorded_macro(ms, reg, ms.len()) == recorded_macro(ms, reg, i as nat),
        decreases i,
    {
        proof {
            assert(ms[i - 1] == (state.macros@[i - 1].0, state.macros@[i - 1].1@));
        }
        if state.macros[i - 1].0 == reg {
            let keys = copy_keys(&state.macros[i - 1].1);
            state.last_macro = Some(reg);
            return Some(keys);
        }
        i -= 1;
    }
    state.status_message = Some("Macro register is empty".to_owned());
    None
}

fn copy_keys(v: &Vec<KeyInput>) -> (r: Vec<KeyInput>)
    ensures
        r@ == v@,
{
    let mut out: Vec<KeyInput> = Vec::new();
    let mut i = 0usize;
    while i < v.len()
        invariant
            i <= v@.len(),
            out@ == v@.take(i as int),
        decreases v@.len() - i,
    {
        out.push(v[i]);
        i += 1;
        proof {
            assert(out@ =~= v@.take(i as int));
        }
    }
    proof {
        assert(v@.take(v@.len() as int) =~= v@);
    }
    out
}

/// One key of a macro replay: decoded and carried out like a typed key, but
/// a macro replay that it asks for is dropped, so replays do not nest.
pub fn replay_key(state: &mut EditorState, key: KeyInput) -> (r: Option<DeferredAction>)
    requires
        old(state).wf(),
        old(state).doc.version + old(state).tab_width + 1 < i64::MAX,
        old(state).doc.text().len() + old(state).tab_width < usize::MAX,
    ensures
        final(state).wf(),
        ({
            let m = old(state).model();
            let (keys2, cmd) = spec_map_key(m.keys, key);
            let m2 = EditorModel { keys: keys2, ..m };
            match cmd {
                None => final(state).model() == m2 && r is None,
                Some(c) => {
                    let (m3, d) = spec_execute(m2, c);
                    &&& final(state).model() == m3
                    &&& r == (match d {
                        Some(DeferredAction::PlayMacro(_)) => None,
                        other => other,
                    })
                },
            }
        }),
{
    match map_key(&mut state.keys, key) {
        None => None,
        Some(c) => match execute(state, c) {
            Some(DeferredAction::PlayMacro(_)) => None,
            other => other,
        },
    }
}


/// A cursor motion changes neither the text nor the undo history.
pub proof fn law_motion_keeps_text(m: EditorModel, cmd: Command)
    requires
        is_motion(cmd),
    ensures
        spec_execute(m, cmd).0.doc == m.doc,
        spec_execute(m, cmd).0.undo == m.undo,
        spec_execute(m, cmd).0.redo == m.redo,
        spec_execute(m, cmd).1 is None,
{
    reveal(spec_execute);
}

/// Undo right after a text edit gives back the text from before the edit.
pub proof fn law_undo_after_edit(m: EditorModel, cmd: Command)
    requires
        is_edit(cmd),
    ensures
        spec_execute(spec_execute(m, cmd).0, Command::Undo).0.doc.text == m.doc.text,
        spec_execute(spec_execute(m, cmd).0, Command::Undo).0.redo.len() == 1,
{
    reveal(edit_effect);
    reveal(other_effect);
    reveal(spec_execute);
    let m0 = EditorModel { status: None, tracker: spec_track_change(m.tracker, cmd), ..m };
    let u = undo_after_save(m0.undo, (m0.doc.text, m0.cursor));
    assert(u.last() == (m.doc.text, m.cursor));
    assert(u.len() > 0);
}


} // verus!
